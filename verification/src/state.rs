//! Persistent records of the market maker: the deployment-wide fee
//! configuration and the per-pair pool.

pub mod config;
pub mod pool;
