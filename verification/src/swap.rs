//! Swap pricing and validation: exact-input and exact-output trades against
//! the pool reserves, under the trading fee.
//!
//! The exact-input formula rounds the payout down and the exact-output
//! formula rounds the charge up, so rounding always favors the pool and the
//! reserve product never decreases across a swap.

use vstd::prelude::*;
use crate::error::ErrorCode;
use crate::math::{
    lemma_div_at_least, lemma_div_at_most, lemma_div_below, lemma_div_bounds,
    lemma_u64_mul_fits,
};
use crate::state::config::Config;
use crate::BASIS_POINTS;
use vstd::arithmetic::div_mod::lemma_mod_multiples_basic;
use vstd::arithmetic::mul::{
    lemma_mul_is_commutative, lemma_mul_strict_inequality, lemma_mul_upper_bound,
};

verus! {

/// The payout of an exact-input trade: the fee is charged on the input leg
/// and the payout `inWithFee * reserveOut / (reserveIn * BASIS_POINTS +
/// inWithFee)` is rounded down.
pub open spec fn amount_out_spec(
    amount_in: int,
    reserve_in: int,
    reserve_out: int,
    fee_bps: int,
) -> int {
    let in_with_fee = amount_in * ((BASIS_POINTS as int) - fee_bps);
    in_with_fee * reserve_out / (reserve_in * (BASIS_POINTS as int) + in_with_fee)
}

/// The charge of an exact-output trade: `reserveIn * amountOut *
/// BASIS_POINTS / ((reserveOut - amountOut) * (BASIS_POINTS - feeBps))`,
/// rounded up by one so the trader always supplies enough input to preserve
/// the reserve product.
pub open spec fn amount_in_spec(
    amount_out: int,
    reserve_in: int,
    reserve_out: int,
    fee_bps: int,
) -> int {
    reserve_in * amount_out * (BASIS_POINTS as int) / ((reserve_out - amount_out) * ((
    BASIS_POINTS as int) - fee_bps)) + 1
}

/// The validation every swap passes before its transfers are issued, in
/// order: the payout must be positive, the charge must be positive, the
/// payout must leave the output reserve non-empty, and the trader's source
/// balance must exceed the charge.
pub open spec fn swap_validation(
    input_amount: int,
    output_amount: int,
    reserve_out_available: int,
    user_source_balance: int,
) -> Result<(), ErrorCode> {
    if output_amount == 0 {
        Err(ErrorCode::InsufficientOutputAmount)
    } else if input_amount == 0 {
        Err(ErrorCode::InsufficientInputAmount)
    } else if output_amount >= reserve_out_available {
        Err(ErrorCode::InsufficientLiquidity)
    } else if input_amount >= user_source_balance {
        Err(ErrorCode::InvalidUserBalance)
    } else {
        Ok(())
    }
}

/// The two transfer legs of an accepted swap: the trader moves
/// `input_amount` of the source asset into the pool and receives
/// `output_amount` of the destination asset out of it.
#[derive(Clone, Copy, Debug, PartialEq, Eq, Structural)]
pub struct SwapResult {
    /// Amount the trader moves into the pool.
    pub input_amount: u64,
    /// Amount the pool pays out to the trader.
    pub output_amount: u64,
}

/// Prices an exact-input trade, as `amount_out_spec` describes, rejecting
/// empty reserves. The widened numerator must fit 128 bits; the payout
/// itself is below the output reserve, so it always fits the amount width.
pub fn get_amount_out(amount_in: u64, reserve_in: u64, reserve_out: u64, fee_bps: u64) -> (r:
    Result<u64, ErrorCode>)
    requires
        fee_bps < BASIS_POINTS,
        reserve_in > 0 && reserve_out > 0 ==> amount_in as int * ((BASIS_POINTS as int)
            - fee_bps as int) * reserve_out as int <= u128::MAX as int,
    ensures
        reserve_in == 0 || reserve_out == 0 ==> r == Err::<u64, ErrorCode>(
            ErrorCode::InsufficientLiquidity,
        ),
        reserve_in > 0 && reserve_out > 0 ==> {
            let out = amount_out_spec(
                amount_in as int,
                reserve_in as int,
                reserve_out as int,
                fee_bps as int,
            );
            r == Ok::<u64, ErrorCode>(out as u64) && 0 <= out < reserve_out as int
        },
{
    if reserve_in == 0 || reserve_out == 0 {
        return Err(ErrorCode::InsufficientLiquidity);
    }
    proof {
        lemma_u64_mul_fits(amount_in, (BASIS_POINTS - fee_bps) as u64);
        lemma_u64_mul_fits(reserve_in, BASIS_POINTS);
        lemma_mul_upper_bound(
            amount_in as int,
            u64::MAX as int,
            (BASIS_POINTS as int) - fee_bps as int,
            BASIS_POINTS as int,
        );
        lemma_mul_upper_bound(
            reserve_in as int,
            u64::MAX as int,
            BASIS_POINTS as int,
            BASIS_POINTS as int,
        );
    }
    let in_with_fee = (amount_in as u128) * ((BASIS_POINTS - fee_bps) as u128);
    let numerator = in_with_fee * (reserve_out as u128);
    let denominator = (reserve_in as u128) * (BASIS_POINTS as u128) + in_with_fee;
    proof {
        lemma_mul_strict_inequality(
            in_with_fee as int,
            denominator as int,
            reserve_out as int,
        );
        lemma_div_bounds(numerator as int, denominator as int);
        lemma_div_below(numerator as int, denominator as int, reserve_out as int);
    }
    let out = numerator / denominator;
    Ok(out as u64)
}

/// The rounded-up exact-output charge, in the widened domain. The numerator
/// is a positive multiple of `BASIS_POINTS`, so it never sits at the very
/// top of the 128-bit range and the final increment cannot overflow.
fn amount_in_wide(amount_out: u64, reserve_in: u64, reserve_out: u64, fee_bps: u64) -> (r: u128)
    requires
        fee_bps < BASIS_POINTS,
        reserve_in > 0,
        amount_out < reserve_out,
        reserve_in as int * amount_out as int * (BASIS_POINTS as int) <= u128::MAX as int,
    ensures
        r as int == amount_in_spec(
            amount_out as int,
            reserve_in as int,
            reserve_out as int,
            fee_bps as int,
        ),
{
    proof {
        lemma_u64_mul_fits(reserve_in, amount_out);
        lemma_u64_mul_fits((reserve_out - amount_out) as u64, (BASIS_POINTS - fee_bps) as u64);
        assert((reserve_out as int - amount_out as int) * ((BASIS_POINTS as int) - fee_bps as int)
            >= 1) by (nonlinear_arith)
            requires
                reserve_out as int - amount_out as int >= 1,
                (BASIS_POINTS as int) - fee_bps as int >= 1;
    }
    let numerator = (reserve_in as u128) * (amount_out as u128) * (BASIS_POINTS as u128);
    let denominator = ((reserve_out - amount_out) as u128) * ((BASIS_POINTS - fee_bps) as u128);
    proof {
        let half = reserve_in as int * amount_out as int * 5000;
        assert(numerator as int == half * 2) by (nonlinear_arith)
            requires
                numerator as int == reserve_in as int * amount_out as int * (BASIS_POINTS as int),
                half == reserve_in as int * amount_out as int * 5000,
                BASIS_POINTS as int == 10000;
        lemma_mod_multiples_basic(half, 2);
        assert(u128::MAX as int % 2 == 1);
        assert(numerator as int <= u128::MAX as int - 1);
        lemma_div_bounds(numerator as int, denominator as int);
        assert(numerator as int <= numerator as int * denominator as int) by (nonlinear_arith)
            requires
                0 <= numerator as int,
                1 <= denominator as int;
        lemma_div_at_most(numerator as int, denominator as int, numerator as int);
    }
    numerator / denominator + 1
}

/// Prices an exact-output trade, as `amount_in_spec` describes, rejecting
/// empty reserves. Callers must request less than the whole output reserve,
/// keep the widened numerator within 128 bits, and only ask where the
/// charge fits the 64-bit amount width.
pub fn get_amount_in(amount_out: u64, reserve_in: u64, reserve_out: u64, fee_bps: u64) -> (r:
    Result<u64, ErrorCode>)
    requires
        fee_bps < BASIS_POINTS,
        reserve_in > 0 && reserve_out > 0 ==> amount_out < reserve_out,
        reserve_in > 0 && reserve_out > 0 ==> reserve_in as int * amount_out as int * (
        BASIS_POINTS as int) <= u128::MAX as int,
        reserve_in > 0 && reserve_out > 0 ==> amount_in_spec(
            amount_out as int,
            reserve_in as int,
            reserve_out as int,
            fee_bps as int,
        ) <= u64::MAX as int,
    ensures
        reserve_in == 0 || reserve_out == 0 ==> r == Err::<u64, ErrorCode>(
            ErrorCode::InsufficientLiquidity,
        ),
        reserve_in > 0 && reserve_out > 0 ==> r == Ok::<u64, ErrorCode>(
            amount_in_spec(
                amount_out as int,
                reserve_in as int,
                reserve_out as int,
                fee_bps as int,
            ) as u64,
        ),
{
    if reserve_in == 0 || reserve_out == 0 {
        return Err(ErrorCode::InsufficientLiquidity);
    }
    let wide = amount_in_wide(amount_out, reserve_in, reserve_out, fee_bps);
    Ok(wide as u64)
}

/// Validates a swap's two legs against the available reserve and the
/// trader's balance, as `swap_validation` describes; an accepted swap is an
/// instruction to perform both transfers.
pub fn swap(
    input_amount: u64,
    output_amount: u64,
    reserve_out_available: u64,
    user_source_balance: u64,
) -> (r: Result<(), ErrorCode>)
    ensures
        r == swap_validation(
            input_amount as int,
            output_amount as int,
            reserve_out_available as int,
            user_source_balance as int,
        ),
{
    if output_amount == 0 {
        return Err(ErrorCode::InsufficientOutputAmount);
    }
    if input_amount == 0 {
        return Err(ErrorCode::InsufficientInputAmount);
    }
    if output_amount >= reserve_out_available {
        return Err(ErrorCode::InsufficientLiquidity);
    }
    if input_amount >= user_source_balance {
        return Err(ErrorCode::InvalidUserBalance);
    }
    Ok(())
}

/// The outcome of an exact-input request: the payout is priced, held to the
/// trader's minimum, and the swap is validated.
pub open spec fn exact_input_spec(
    fee_bps: int,
    input_amount: int,
    min_output_amount: int,
    reserve_in: int,
    reserve_out: int,
    user_source_balance: int,
) -> Result<(int, int), ErrorCode> {
    if reserve_in == 0 || reserve_out == 0 {
        Err(ErrorCode::InsufficientLiquidity)
    } else {
        let out = amount_out_spec(input_amount, reserve_in, reserve_out, fee_bps);
        if out < min_output_amount {
            Err(ErrorCode::InsufficientOutputAmount)
        } else {
            match swap_validation(input_amount, out, reserve_out, user_source_balance) {
                Err(e) => Err(e),
                Ok(()) => Ok((input_amount, out)),
            }
        }
    }
}

/// Prices and validates an exact-input swap against the reserve snapshot,
/// as `exact_input_spec` describes. An accepted result instructs the two
/// transfer legs; the caller then reconciles the reserves from the actual
/// post-transfer balances.
pub fn swap_exact_input(
    config: &Config,
    input_amount: u64,
    min_output_amount: u64,
    reserve_in: u64,
    reserve_out: u64,
    user_source_balance: u64,
) -> (r: Result<SwapResult, ErrorCode>)
    requires
        config.wf(),
        reserve_in > 0 && reserve_out > 0 ==> input_amount as int * ((BASIS_POINTS as int)
            - config.fee as int) * reserve_out as int <= u128::MAX as int,
    ensures
        match r {
            Ok(s) => exact_input_spec(
                config.fee as int,
                input_amount as int,
                min_output_amount as int,
                reserve_in as int,
                reserve_out as int,
                user_source_balance as int,
            ) == Ok::<(int, int), ErrorCode>((s.input_amount as int, s.output_amount as int)),
            Err(e) => exact_input_spec(
                config.fee as int,
                input_amount as int,
                min_output_amount as int,
                reserve_in as int,
                reserve_out as int,
                user_source_balance as int,
            ) == Err::<(int, int), ErrorCode>(e),
        },
{
    let amount_out = match get_amount_out(input_amount, reserve_in, reserve_out, config.fee) {
        Ok(out) => out,
        Err(e) => {
            return Err(e);
        },
    };
    if amount_out < min_output_amount {
        return Err(ErrorCode::InsufficientOutputAmount);
    }
    match swap(input_amount, amount_out, reserve_out, user_source_balance) {
        Ok(()) => Ok(SwapResult { input_amount, output_amount: amount_out }),
        Err(e) => Err(e),
    }
}

/// The outcome of an exact-output request: the charge is priced, held to
/// the trader's maximum, and the swap is validated.
pub open spec fn exact_output_spec(
    fee_bps: int,
    output_amount: int,
    max_input_amount: int,
    reserve_in: int,
    reserve_out: int,
    user_source_balance: int,
) -> Result<(int, int), ErrorCode> {
    if reserve_in == 0 || reserve_out == 0 {
        Err(ErrorCode::InsufficientLiquidity)
    } else {
        let in_needed = amount_in_spec(output_amount, reserve_in, reserve_out, fee_bps);
        if in_needed > max_input_amount {
            Err(ErrorCode::InsufficientInputAmount)
        } else {
            match swap_validation(in_needed, output_amount, reserve_out, user_source_balance) {
                Err(e) => Err(e),
                Ok(()) => Ok((in_needed, output_amount)),
            }
        }
    }
}

/// Prices and validates an exact-output swap against the reserve snapshot,
/// as `exact_output_spec` describes. The charge is compared against the
/// trader's maximum in the widened domain, so a charge beyond the amount
/// width is rejected rather than truncated.
pub fn swap_exact_output(
    config: &Config,
    output_amount: u64,
    max_input_amount: u64,
    reserve_in: u64,
    reserve_out: u64,
    user_source_balance: u64,
) -> (r: Result<SwapResult, ErrorCode>)
    requires
        config.wf(),
        reserve_in > 0 && reserve_out > 0 ==> output_amount < reserve_out,
        reserve_in > 0 && reserve_out > 0 ==> reserve_in as int * output_amount as int * (
        BASIS_POINTS as int) <= u128::MAX as int,
    ensures
        match r {
            Ok(s) => exact_output_spec(
                config.fee as int,
                output_amount as int,
                max_input_amount as int,
                reserve_in as int,
                reserve_out as int,
                user_source_balance as int,
            ) == Ok::<(int, int), ErrorCode>((s.input_amount as int, s.output_amount as int)),
            Err(e) => exact_output_spec(
                config.fee as int,
                output_amount as int,
                max_input_amount as int,
                reserve_in as int,
                reserve_out as int,
                user_source_balance as int,
            ) == Err::<(int, int), ErrorCode>(e),
        },
{
    if reserve_in == 0 || reserve_out == 0 {
        return Err(ErrorCode::InsufficientLiquidity);
    }
    let wide = amount_in_wide(output_amount, reserve_in, reserve_out, config.fee);
    if wide > max_input_amount as u128 {
        return Err(ErrorCode::InsufficientInputAmount);
    }
    let amount_in = wide as u64;
    match swap(amount_in, output_amount, reserve_out, user_source_balance) {
        Ok(()) => Ok(SwapResult { input_amount: amount_in, output_amount }),
        Err(e) => Err(e),
    }
}

/// An exact-input swap never decreases the reserve product, for any fee:
/// the payout is rounded down, so the pool keeps at least the value the
/// constant-product rule owes it, and the payout always leaves the output
/// reserve positive.
pub proof fn lemma_exact_input_preserves_k(
    amount_in: int,
    reserve_in: int,
    reserve_out: int,
    fee_bps: int,
)
    requires
        1 <= reserve_in,
        1 <= reserve_out,
        0 <= amount_in,
        0 <= fee_bps < (BASIS_POINTS as int),
    ensures
        ({
            let out = amount_out_spec(amount_in, reserve_in, reserve_out, fee_bps);
            &&& 0 <= out < reserve_out
            &&& (reserve_in + amount_in) * (reserve_out - out) >= reserve_in * reserve_out
        }),
{
    let bp = BASIS_POINTS as int;
    let fee_factor = bp - fee_bps;
    let in_with_fee = amount_in * fee_factor;
    let denominator = reserve_in * bp + in_with_fee;
    let out = amount_out_spec(amount_in, reserve_in, reserve_out, fee_bps);
    assert(0 <= in_with_fee) by (nonlinear_arith)
        requires 0 <= amount_in && 0 < fee_factor && in_with_fee == amount_in * fee_factor;
    assert(reserve_in * bp >= bp) by (nonlinear_arith)
        requires 1 <= reserve_in && 0 < bp;
    assert(0 <= in_with_fee * reserve_out) by (nonlinear_arith)
        requires 0 <= in_with_fee && 0 <= reserve_out;
    lemma_div_bounds(in_with_fee * reserve_out, denominator);
    assert(out * denominator <= in_with_fee * reserve_out) by {
        assert(denominator * out <= in_with_fee * reserve_out);
        assert(out * denominator == denominator * out) by (nonlinear_arith);
    }
    assert(in_with_fee * reserve_out < denominator * reserve_out) by {
        lemma_mul_strict_inequality(in_with_fee, denominator, reserve_out);
    }
    lemma_div_below(in_with_fee * reserve_out, denominator, reserve_out);
    assert(denominator * (reserve_out - out) >= reserve_out * (reserve_in * bp))
        by (nonlinear_arith)
        requires
            out * denominator <= in_with_fee * reserve_out,
            denominator == reserve_in * bp + in_with_fee;
    assert((reserve_in + amount_in) * bp >= denominator) by (nonlinear_arith)
        requires
            denominator == reserve_in * bp + in_with_fee,
            in_with_fee == amount_in * fee_factor,
            fee_factor <= bp,
            0 <= amount_in;
    let gained = (reserve_in + amount_in) * (reserve_out - out);
    assert(gained * (denominator * bp) >= (reserve_in * reserve_out) * (denominator * bp))
        by (nonlinear_arith)
        requires
            denominator * (reserve_out - out) >= reserve_out * (reserve_in * bp),
            (reserve_in + amount_in) * bp >= denominator,
            gained == (reserve_in + amount_in) * (reserve_out - out),
            0 <= reserve_out - out,
            0 < denominator,
            0 < bp,
            0 <= reserve_in + amount_in,
            0 <= reserve_in * bp;
    assert(gained >= reserve_in * reserve_out) by (nonlinear_arith)
        requires
            gained * (denominator * bp) >= (reserve_in * reserve_out) * (denominator * bp),
            0 < denominator,
            0 < bp;
}

/// An exact-output swap never decreases the reserve product, for any fee:
/// the charge is rounded up, so the trader always pays at least what the
/// constant-product rule asks.
pub proof fn lemma_exact_output_preserves_k(
    amount_out: int,
    reserve_in: int,
    reserve_out: int,
    fee_bps: int,
)
    requires
        1 <= reserve_in,
        0 <= amount_out < reserve_out,
        0 <= fee_bps < (BASIS_POINTS as int),
    ensures
        ({
            let charge = amount_in_spec(amount_out, reserve_in, reserve_out, fee_bps);
            &&& 1 <= charge
            &&& (reserve_in + charge) * (reserve_out - amount_out) >= reserve_in * reserve_out
        }),
{
    let bp = BASIS_POINTS as int;
    let fee_factor = bp - fee_bps;
    let numerator = reserve_in * amount_out * bp;
    let denominator = (reserve_out - amount_out) * fee_factor;
    let charge = amount_in_spec(amount_out, reserve_in, reserve_out, fee_bps);
    assert(0 < denominator) by (nonlinear_arith)
        requires 0 < reserve_out - amount_out && 0 < fee_factor && denominator == (reserve_out
            - amount_out) * fee_factor;
    assert(0 <= numerator) by (nonlinear_arith)
        requires 1 <= reserve_in && 0 <= amount_out && 0 < bp && numerator == reserve_in
            * amount_out * bp;
    lemma_div_bounds(numerator, denominator);
    assert(1 <= charge);
    assert(charge * denominator > numerator) by (nonlinear_arith)
        requires
            charge == numerator / denominator + 1,
            numerator < denominator * (numerator / denominator + 1);
    assert(charge * (reserve_out - amount_out) >= reserve_in * amount_out) by (nonlinear_arith)
        requires
            charge * denominator > numerator,
            denominator == (reserve_out - amount_out) * fee_factor,
            numerator == reserve_in * amount_out * bp,
            0 < fee_factor <= bp,
            0 <= reserve_in * amount_out,
            0 <= reserve_in,
            0 <= amount_out;
    assert((reserve_in + charge) * (reserve_out - amount_out) >= reserve_in * reserve_out)
        by (nonlinear_arith)
        requires
            charge * (reserve_out - amount_out) >= reserve_in * amount_out,
            0 < reserve_out - amount_out;
}


/// One priced swap against a pool, as spec-level data: an exact-input trade
/// paying `amount` into one side, or an exact-output trade taking `amount`
/// out of one side.
pub enum SwapEvent {
    /// Pay `amount` of the first asset in when `zero_for_one`, of the
    /// second otherwise; the payout follows `amount_out_spec`.
    ExactIn { zero_for_one: bool, amount: int },
    /// Take `amount` of the second asset out when `zero_for_one`, of the
    /// first otherwise; the charge follows `amount_in_spec`.
    ExactOut { zero_for_one: bool, amount: int },
}

/// The reserves after one priced swap.
pub open spec fn swap_event_step(
    reserve0: int,
    reserve1: int,
    event: SwapEvent,
    fee_bps: int,
) -> (int, int) {
    match event {
        SwapEvent::ExactIn { zero_for_one, amount } => if zero_for_one {
            (reserve0 + amount, reserve1 - amount_out_spec(amount, reserve0, reserve1, fee_bps))
        } else {
            (reserve0 - amount_out_spec(amount, reserve1, reserve0, fee_bps), reserve1 + amount)
        },
        SwapEvent::ExactOut { zero_for_one, amount } => if zero_for_one {
            (reserve0 + amount_in_spec(amount, reserve0, reserve1, fee_bps), reserve1 - amount)
        } else {
            (reserve0 - amount, reserve1 + amount_in_spec(amount, reserve1, reserve0, fee_bps))
        },
    }
}

/// A swap the engine would admit against positive reserves: a non-negative
/// input, or an output below the reserve it is taken from.
pub open spec fn swap_event_valid(
    reserve0: int,
    reserve1: int,
    event: SwapEvent,
    fee_bps: int,
) -> bool {
    &&& 1 <= reserve0
    &&& 1 <= reserve1
    &&& match event {
        SwapEvent::ExactIn { zero_for_one, amount } => 0 <= amount,
        SwapEvent::ExactOut { zero_for_one, amount } => if zero_for_one {
            0 <= amount < reserve1
        } else {
            0 <= amount < reserve0
        },
    }
}

/// The reserves after a sequence of priced swaps, applied in order.
pub open spec fn apply_swap_events(
    reserve0: int,
    reserve1: int,
    events: Seq<SwapEvent>,
    fee_bps: int,
) -> (int, int)
    decreases events.len(),
{
    if events.len() == 0 {
        (reserve0, reserve1)
    } else {
        let stepped = swap_event_step(reserve0, reserve1, events.first(), fee_bps);
        apply_swap_events(stepped.0, stepped.1, events.drop_first(), fee_bps)
    }
}

/// Every swap of the sequence is admissible in the state it runs against.
pub open spec fn swap_events_valid(
    reserve0: int,
    reserve1: int,
    events: Seq<SwapEvent>,
    fee_bps: int,
) -> bool
    decreases events.len(),
{
    events.len() == 0 || {
        let stepped = swap_event_step(reserve0, reserve1, events.first(), fee_bps);
        &&& swap_event_valid(reserve0, reserve1, events.first(), fee_bps)
        &&& swap_events_valid(stepped.0, stepped.1, events.drop_first(), fee_bps)
    }
}

/// The constant-product invariant is non-decreasing across any sequence of
/// swaps, for any fee: each priced swap keeps both reserves positive and
/// never shrinks their product, so neither does the whole sequence.
pub proof fn lemma_k_non_decreasing_across_swaps(
    reserve0: int,
    reserve1: int,
    events: Seq<SwapEvent>,
    fee_bps: int,
)
    requires
        1 <= reserve0,
        1 <= reserve1,
        0 <= fee_bps < (BASIS_POINTS as int),
        swap_events_valid(reserve0, reserve1, events, fee_bps),
    ensures
        ({
            let end = apply_swap_events(reserve0, reserve1, events, fee_bps);
            &&& 1 <= end.0
            &&& 1 <= end.1
            &&& end.0 * end.1 >= reserve0 * reserve1
        }),
    decreases events.len(),
{
    if events.len() == 0 {
    } else {
        let stepped = swap_event_step(reserve0, reserve1, events.first(), fee_bps);
        match events.first() {
            SwapEvent::ExactIn { zero_for_one, amount } => {
                if zero_for_one {
                    lemma_exact_input_preserves_k(amount, reserve0, reserve1, fee_bps);
                } else {
                    lemma_exact_input_preserves_k(amount, reserve1, reserve0, fee_bps);
                    let out = amount_out_spec(amount, reserve1, reserve0, fee_bps);
                    lemma_mul_is_commutative(reserve0 - out, reserve1 + amount);
                    lemma_mul_is_commutative(reserve0, reserve1);
                }
            },
            SwapEvent::ExactOut { zero_for_one, amount } => {
                if zero_for_one {
                    lemma_exact_output_preserves_k(amount, reserve0, reserve1, fee_bps);
                } else {
                    lemma_exact_output_preserves_k(amount, reserve1, reserve0, fee_bps);
                    let charge = amount_in_spec(amount, reserve1, reserve0, fee_bps);
                    lemma_mul_is_commutative(reserve0 - amount, reserve1 + charge);
                    lemma_mul_is_commutative(reserve0, reserve1);
                }
            },
        }
        lemma_k_non_decreasing_across_swaps(stepped.0, stepped.1, events.drop_first(), fee_bps);
    }
}

/// The rounded-up exact-output charge is always enough: paying it as an
/// exact-input trade on the same reserves buys at least the requested
/// output, for any fee. Rounding never lets the trader get the output for
/// less than the pool would quote.
pub proof fn lemma_charge_covers_output(
    amount_out: int,
    reserve_in: int,
    reserve_out: int,
    fee_bps: int,
)
    requires
        1 <= reserve_in,
        0 <= amount_out < reserve_out,
        0 <= fee_bps < (BASIS_POINTS as int),
    ensures
        amount_out_spec(
            amount_in_spec(amount_out, reserve_in, reserve_out, fee_bps),
            reserve_in,
            reserve_out,
            fee_bps,
        ) >= amount_out,
{
    let bp = BASIS_POINTS as int;
    let fee_factor = bp - fee_bps;
    let numerator = reserve_in * amount_out * bp;
    let denominator = (reserve_out - amount_out) * fee_factor;
    let charge = amount_in_spec(amount_out, reserve_in, reserve_out, fee_bps);
    assert(0 < denominator) by (nonlinear_arith)
        requires 0 < reserve_out - amount_out && 0 < fee_factor && denominator == (reserve_out
            - amount_out) * fee_factor;
    assert(0 <= numerator) by (nonlinear_arith)
        requires 1 <= reserve_in && 0 <= amount_out && 0 < bp && numerator == reserve_in
            * amount_out * bp;
    lemma_div_bounds(numerator, denominator);
    assert(charge * denominator > numerator) by (nonlinear_arith)
        requires
            charge == numerator / denominator + 1,
            numerator < denominator * (numerator / denominator + 1);
    let with_fee = charge * fee_factor;
    let out_denominator = reserve_in * bp + with_fee;
    assert(0 < with_fee) by (nonlinear_arith)
        requires 1 <= charge && 0 < fee_factor && with_fee == charge * fee_factor;
    assert(with_fee * reserve_out - amount_out * out_denominator > 0) by (nonlinear_arith)
        requires
            charge * denominator > numerator,
            denominator == (reserve_out - amount_out) * fee_factor,
            numerator == reserve_in * amount_out * bp,
            with_fee == charge * fee_factor,
            out_denominator == reserve_in * bp + with_fee;
    assert(amount_out * out_denominator <= with_fee * reserve_out);
    assert(out_denominator * amount_out <= with_fee * reserve_out) by (nonlinear_arith)
        requires amount_out * out_denominator <= with_fee * reserve_out;
    lemma_div_at_least(with_fee * reserve_out, out_denominator, amount_out);
}

/// Quoting a payout and then asking the charge for that same payout, on the
/// same reserves, never comes back below the original input, provided the
/// output side is deep enough: after the payout it must still cover, in
/// fee-discounted units, the input-side denominator of the payout formula.
/// On shallower pools the rounded-down payout can be bought back cheaper.
pub proof fn lemma_round_trip_charge_at_least_input(
    amount_in: int,
    reserve_in: int,
    reserve_out: int,
    fee_bps: int,
)
    requires
        1 <= reserve_in,
        1 <= reserve_out,
        1 <= amount_in,
        0 <= fee_bps < (BASIS_POINTS as int),
        (reserve_out - amount_out_spec(amount_in, reserve_in, reserve_out, fee_bps)) * ((
        BASIS_POINTS as int) - fee_bps) >= reserve_in * (BASIS_POINTS as int) + amount_in * ((
        BASIS_POINTS as int) - fee_bps),
    ensures
        amount_in_spec(
            amount_out_spec(amount_in, reserve_in, reserve_out, fee_bps),
            reserve_in,
            reserve_out,
            fee_bps,
        ) >= amount_in,
{
    let bp = BASIS_POINTS as int;
    let fee_factor = bp - fee_bps;
    let in_with_fee = amount_in * fee_factor;
    let denominator = reserve_in * bp + in_with_fee;
    let out = amount_out_spec(amount_in, reserve_in, reserve_out, fee_bps);
    assert(0 < in_with_fee) by (nonlinear_arith)
        requires 1 <= amount_in && 0 < fee_factor && in_with_fee == amount_in * fee_factor;
    assert(0 <= in_with_fee * reserve_out) by (nonlinear_arith)
        requires 0 <= in_with_fee && 0 <= reserve_out;
    assert(reserve_in * bp >= bp) by (nonlinear_arith)
        requires 1 <= reserve_in && 0 < bp;
    lemma_div_bounds(in_with_fee * reserve_out, denominator);
    assert(out * denominator <= in_with_fee * reserve_out) by (nonlinear_arith)
        requires denominator * out <= in_with_fee * reserve_out;
    assert(denominator * (out + 1) > in_with_fee * reserve_out);
    let back_denominator = (reserve_out - out) * fee_factor;
    assert(back_denominator >= denominator);
    assert(0 <= out);
    assert(out < reserve_out) by {
        assert(in_with_fee * reserve_out < denominator * reserve_out) by {
            lemma_mul_strict_inequality(in_with_fee, denominator, reserve_out);
        }
        lemma_div_below(in_with_fee * reserve_out, denominator, reserve_out);
    }
    let back_numerator = reserve_in * out * bp;
    assert(back_numerator > amount_in * back_denominator - denominator) by (nonlinear_arith)
        requires
            denominator * (out + 1) > in_with_fee * reserve_out,
            denominator == reserve_in * bp + in_with_fee,
            in_with_fee == amount_in * fee_factor,
            back_denominator == (reserve_out - out) * fee_factor,
            back_numerator == reserve_in * out * bp;
    assert(back_numerator >= (amount_in - 1) * back_denominator) by (nonlinear_arith)
        requires
            back_numerator > amount_in * back_denominator - denominator,
            back_denominator >= denominator;
    assert(0 < back_denominator) by (nonlinear_arith)
        requires 0 < reserve_out - out && 0 < fee_factor && back_denominator == (reserve_out
            - out) * fee_factor;
    assert(0 <= back_numerator) by (nonlinear_arith)
        requires 1 <= reserve_in && 0 <= out && 0 < bp && back_numerator == reserve_in * out * bp;
    assert((amount_in - 1) * back_denominator <= back_numerator);
    lemma_div_at_least(back_numerator, back_denominator, amount_in - 1);
}


} // verus!
