//! Constant-product pool arithmetic of the example liquidity-pool contract.
//!
//! Pure `u128` math for swaps and liquidity accounting under the invariant
//! `x * y = k`, verified against exact formulas: every checked operation's
//! success condition appears in the contract, and each error names the exact
//! inputs that produce it.

use vstd::prelude::*;

verus! {

/// The input amount after deducting the fee, in basis-point scale.
pub open spec fn amount_with_fee(amount_in: u128, fee_bps: u128) -> int {
    amount_in * (10000 - fee_bps)
}

/// The swap numerator: output reserve times the fee-adjusted input.
pub open spec fn swap_numerator(reserve_out: u128, amount_in: u128, fee_bps: u128) -> int {
    reserve_out * amount_with_fee(amount_in, fee_bps)
}

/// The swap denominator: input reserve in basis-point scale plus the
/// fee-adjusted input.
pub open spec fn swap_denominator(reserve_in: u128, amount_in: u128, fee_bps: u128) -> int {
    reserve_in * 10000 + amount_with_fee(amount_in, fee_bps)
}

/// All conditions under which a swap computes: positive input and reserves, a
/// fee below 100%, and no intermediate product leaving `u128`.
pub open spec fn swap_computes(
    reserve_in: u128,
    reserve_out: u128,
    amount_in: u128,
    fee_bps: u128,
) -> bool {
    &&& amount_in > 0
    &&& reserve_in > 0
    &&& reserve_out > 0
    &&& fee_bps < 10000
    &&& amount_with_fee(amount_in, fee_bps) <= u128::MAX
    &&& swap_numerator(reserve_out, amount_in, fee_bps) <= u128::MAX
    &&& reserve_in * 10000 <= u128::MAX
    &&& swap_denominator(reserve_in, amount_in, fee_bps) <= u128::MAX
}

/// Output amount for a swap under the constant-product formula with fee:
/// `(reserve_out × amount_in × (10000 − fee_bps)) /
///  (reserve_in × 10000 + amount_in × (10000 − fee_bps))`.
///
/// Succeeds exactly when [`swap_computes`] holds; each rejected input is
/// named by its own error.
pub fn calculate_swap_output(
    reserve_in: u128,
    reserve_out: u128,
    amount_in: u128,
    fee_bps: u128,
) -> (r: Result<u128, &'static str>)
    ensures
        r is Ok <==> swap_computes(reserve_in, reserve_out, amount_in, fee_bps),
        r matches Ok(out) ==> out == swap_numerator(reserve_out, amount_in, fee_bps)
            / swap_denominator(reserve_in, amount_in, fee_bps),
        amount_in == 0 ==> (r matches Err(e) && e@ == "Amount in must be positive"@),
        amount_in > 0 && (reserve_in == 0 || reserve_out == 0) ==> (r matches Err(e) && e@
            == "Reserves must be positive"@),
        amount_in > 0 && reserve_in > 0 && reserve_out > 0 && fee_bps >= 10000 ==> (r matches Err(e)
            && e@ == "Fee must be less than 100%"@),
{
    if amount_in == 0 {
        return Err("Amount in must be positive");
    }
    if reserve_in == 0 || reserve_out == 0 {
        return Err("Reserves must be positive");
    }
    if fee_bps >= 10000 {
        return Err("Fee must be less than 100%");
    }
    let amount_in_with_fee = match amount_in.checked_mul(10000 - fee_bps) {
        Some(v) => v,
        None => {
            return Err("Fee calculation overflow");
        },
    };
    let numerator = match reserve_out.checked_mul(amount_in_with_fee) {
        Some(v) => v,
        None => {
            return Err("Numerator overflow");
        },
    };
    let scaled_reserve = match reserve_in.checked_mul(10000) {
        Some(v) => v,
        None => {
            return Err("Denominator overflow");
        },
    };
    let denominator = match scaled_reserve.checked_add(amount_in_with_fee) {
        Some(v) => v,
        None => {
            return Err("Denominator addition overflow");
        },
    };
    if denominator == 0 {
        return Err("Denominator is zero");
    }
    let output = match numerator.checked_div(denominator) {
        Some(v) => v,
        None => {
            return Err("Division error");
        },
    };
    Ok(output)
}

/// Floor integer square root: the unique `r` with `r² ≤ n < (r+1)²`, found by
/// binary search.
pub fn integer_sqrt(n: u128) -> (r: u128)
    ensures
        r * r <= n,
        n < (r + 1) * (r + 1),
{
    if n == 0 {
        return 0;
    }
    let mut lo: u128 = 0;
    let mut hi: u128 = 0xffff_ffff_ffff_ffff;
    proof {
        assert((hi + 1) * (hi + 1) > u128::MAX) by (nonlinear_arith)
            requires
                hi == 0xffff_ffff_ffff_ffffu128,
        ;
    }
    while lo < hi
        invariant
            lo <= hi,
            hi <= 0xffff_ffff_ffff_ffff,
            lo * lo <= n,
            n < (hi + 1) * (hi + 1),
        decreases hi - lo,
    {
        let mid = lo + (hi - lo + 1) / 2;
        proof {
            assert(mid * mid <= u128::MAX) by (nonlinear_arith)
                requires
                    mid <= 0xffff_ffff_ffff_ffff,
            ;
        }
        if mid * mid <= n {
            lo = mid;
        } else {
            hi = mid - 1;
        }
    }
    lo
}

/// LP tokens for the first liquidity provision: the integer square root of
/// the product of the two amounts (a geometric mean, guarding against
/// inflation attacks).
pub open spec fn initial_mint_ok(amount_a: u128, amount_b: u128, liquidity: u128) -> bool {
    &&& liquidity * liquidity <= amount_a * amount_b
    &&& amount_a * amount_b < (liquidity + 1) * (liquidity + 1)
}

/// LP tokens for a later provision from the `A` side:
/// `amount_a × total_supply / reserve_a`.
pub open spec fn mint_share(amount: u128, total_supply: u128, reserve: u128) -> int {
    amount * total_supply / reserve as int
}

/// LP tokens to mint for adding liquidity.
///
/// With no supply yet, mints the integer square root of `amount_a ×
/// amount_b`.  Otherwise mints the smaller of the two proportional shares
/// `amount × total_supply / reserve`, so the pool ratio is maintained; a
/// share of zero is rejected.  Every overflow in an intermediate product is
/// an error of its own.
pub fn calculate_liquidity_mint(
    reserve_a: u128,
    reserve_b: u128,
    amount_a: u128,
    amount_b: u128,
    total_supply: u128,
) -> (r: Result<u128, &'static str>)
    ensures
        amount_a == 0 || amount_b == 0 ==> (r matches Err(e) && e@ == "Amounts must be positive"@),
        amount_a > 0 && amount_b > 0 && total_supply == 0 ==> ((r is Ok <==> amount_a * amount_b
            <= u128::MAX) && (r matches Ok(liq) ==> initial_mint_ok(amount_a, amount_b, liq))),
        amount_a > 0 && amount_b > 0 && total_supply == 0 && amount_a * amount_b > u128::MAX ==> (
        r matches Err(e) && e@ == "Initial liquidity overflow"@),
        amount_a > 0 && amount_b > 0 && total_supply > 0 ==> {
            let la = mint_share(amount_a, total_supply, reserve_a);
            let lb = mint_share(amount_b, total_supply, reserve_b);
            &&& (r is Ok <==> reserve_a > 0 && reserve_b > 0 && amount_a * total_supply
                <= u128::MAX && amount_b * total_supply <= u128::MAX && (if la < lb {
                la
            } else {
                lb
            }) > 0)
            &&& (r matches Ok(liq) ==> liq == if la < lb {
                la
            } else {
                lb
            })
        },
        amount_a > 0 && amount_b > 0 && total_supply > 0 && (reserve_a == 0 || reserve_b == 0) ==> (
        r matches Err(e) && e@ == "Reserves must be positive"@),
{
    if amount_a == 0 || amount_b == 0 {
        return Err("Amounts must be positive");
    }
    if total_supply == 0 {
        let product = match amount_a.checked_mul(amount_b) {
            Some(v) => v,
            None => {
                return Err("Initial liquidity overflow");
            },
        };
        let liquidity = integer_sqrt(product);
        proof {
            assert(product >= 1) by (nonlinear_arith)
                requires
                    amount_a >= 1,
                    amount_b >= 1,
                    product == amount_a * amount_b,
            ;
        }
        if liquidity == 0 {
            proof {
                assert((liquidity + 1) * (liquidity + 1) == 1) by (nonlinear_arith)
                    requires
                        liquidity == 0u128,
                ;
                assert(false);
            }
            return Err("Initial liquidity too small");
        }
        return Ok(liquidity);
    }
    if reserve_a == 0 || reserve_b == 0 {
        return Err("Reserves must be positive");
    }
    let scaled_a = match amount_a.checked_mul(total_supply) {
        Some(v) => v,
        None => {
            return Err("Liquidity A calculation overflow");
        },
    };
    let liquidity_a = match scaled_a.checked_div(reserve_a) {
        Some(v) => v,
        None => {
            return Err("Division by reserve A");
        },
    };
    let scaled_b = match amount_b.checked_mul(total_supply) {
        Some(v) => v,
        None => {
            return Err("Liquidity B calculation overflow");
        },
    };
    let liquidity_b = match scaled_b.checked_div(reserve_b) {
        Some(v) => v,
        None => {
            return Err("Division by reserve B");
        },
    };
    let liquidity = if liquidity_a < liquidity_b {
        liquidity_a
    } else {
        liquidity_b
    };
    if liquidity == 0 {
        return Err("Liquidity amount too small");
    }
    Ok(liquidity)
}

/// The tokens returned for burning `liquidity` LP tokens from one side:
/// `reserve × liquidity / total_supply`.
pub open spec fn burn_share(reserve: u128, liquidity: u128, total_supply: u128) -> int {
    reserve * liquidity / total_supply as int
}

/// Token amounts returned for removing liquidity.
///
/// Returns the pro-rata share `reserve × liquidity / total_supply` of each
/// reserve.  Zero liquidity, zero supply, burning more than the supply, an
/// overflowing product, and an all-zero payout are each rejected with their
/// own error.
pub fn calculate_liquidity_burn(
    reserve_a: u128,
    reserve_b: u128,
    liquidity: u128,
    total_supply: u128,
) -> (r: Result<(u128, u128), &'static str>)
    ensures
        ({
            let aa = burn_share(reserve_a, liquidity, total_supply);
            let ab = burn_share(reserve_b, liquidity, total_supply);
            &&& (r is Ok <==> liquidity > 0 && total_supply > 0 && liquidity <= total_supply
                && reserve_a * liquidity <= u128::MAX && reserve_b * liquidity <= u128::MAX && aa
                > 0 && ab > 0)
            &&& (r matches Ok(p) ==> p.0 == aa && p.1 == ab)
        }),
        liquidity == 0 ==> (r matches Err(e) && e@ == "Liquidity must be positive"@),
        liquidity > 0 && total_supply == 0 ==> (r matches Err(e) && e@ == "Total supply is zero"@),
        liquidity > 0 && total_supply > 0 && liquidity > total_supply ==> (r matches Err(e) && e@
            == "Liquidity exceeds total supply"@),
{
    if liquidity == 0 {
        return Err("Liquidity must be positive");
    }
    if total_supply == 0 {
        return Err("Total supply is zero");
    }
    if liquidity > total_supply {
        return Err("Liquidity exceeds total supply");
    }
    let scaled_a = match reserve_a.checked_mul(liquidity) {
        Some(v) => v,
        None => {
            return Err("Amount A calculation overflow");
        },
    };
    let amount_a = match scaled_a.checked_div(total_supply) {
        Some(v) => v,
        None => {
            return Err("Division by total supply");
        },
    };
    let scaled_b = match reserve_b.checked_mul(liquidity) {
        Some(v) => v,
        None => {
            return Err("Amount B calculation overflow");
        },
    };
    let amount_b = match scaled_b.checked_div(total_supply) {
        Some(v) => v,
        None => {
            return Err("Division by total supply");
        },
    };
    if amount_a == 0 || amount_b == 0 {
        return Err("Burn amounts too small");
    }
    Ok((amount_a, amount_b))
}

} // verus!
