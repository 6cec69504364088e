//! Pure balance arithmetic of the example token contracts.
//!
//! These functions model the core of a standard ledger token — transfer,
//! mint, burn — on plain `i128` balances, so that their arithmetic can be
//! verified in isolation from any host environment.

use vstd::prelude::*;

verus! {

/// Transfer: deduct from the sender's balance, add to the receiver's.
///
/// Succeeds exactly when the amount is positive and neither the subtraction
/// nor the addition leaves the `i128` range.
pub fn transfer_pure(balance_from: i128, balance_to: i128, amount: i128) -> (r: Result<
    (i128, i128),
    &'static str,
>)
    ensures
        r is Ok <==> amount > 0 && balance_from - amount >= i128::MIN && balance_to + amount
            <= i128::MAX,
        r matches Ok(p) ==> p.0 == balance_from - amount && p.1 == balance_to + amount,
        amount <= 0 ==> (r matches Err(e) && e@ == "Amount must be positive"@),
        amount > 0 && balance_from - amount < i128::MIN ==> (r matches Err(e) && e@
            == "Insufficient balance"@),
        amount > 0 && balance_from - amount >= i128::MIN && balance_to + amount > i128::MAX ==> (
        r matches Err(e) && e@ == "Receiver balance overflow"@),
{
    if amount <= 0 {
        return Err("Amount must be positive");
    }
    let new_from = match balance_from.checked_sub(amount) {
        Some(v) => v,
        None => {
            return Err("Insufficient balance");
        },
    };
    let new_to = match balance_to.checked_add(amount) {
        Some(v) => v,
        None => {
            return Err("Receiver balance overflow");
        },
    };
    Ok((new_from, new_to))
}

/// Mint: add an amount to a balance.
///
/// Succeeds exactly when the amount is positive and the sum stays within
/// `i128`.
pub fn mint_pure(balance: i128, amount: i128) -> (r: Result<i128, &'static str>)
    ensures
        r is Ok <==> amount > 0 && balance + amount <= i128::MAX,
        r matches Ok(b) ==> b == balance + amount,
        amount <= 0 ==> (r matches Err(e) && e@ == "Mint amount must be positive"@),
        amount > 0 && balance + amount > i128::MAX ==> (r matches Err(e) && e@
            == "Mint overflow"@),
{
    if amount <= 0 {
        return Err("Mint amount must be positive");
    }
    match balance.checked_add(amount) {
        Some(v) => Ok(v),
        None => Err("Mint overflow"),
    }
}

/// Burn: subtract an amount from a balance.
///
/// Succeeds exactly when the amount is positive and the difference stays
/// within `i128`.
pub fn burn_pure(balance: i128, amount: i128) -> (r: Result<i128, &'static str>)
    ensures
        r is Ok <==> amount > 0 && balance - amount >= i128::MIN,
        r matches Ok(b) ==> b == balance - amount,
        amount <= 0 ==> (r matches Err(e) && e@ == "Burn amount must be positive"@),
        amount > 0 && balance - amount < i128::MIN ==> (r matches Err(e) && e@
            == "Insufficient balance to burn"@),
{
    if amount <= 0 {
        return Err("Burn amount must be positive");
    }
    match balance.checked_sub(amount) {
        Some(v) => Ok(v),
        None => Err("Insufficient balance to burn"),
    }
}

/// The example token contract whose balance arithmetic is the pure core
/// above.  Its entry point requires what [`transfer_pure`] needs to succeed,
/// mirroring a contract layer that aborts the call on failure.
pub struct TokenContract;

impl TokenContract {
    /// Contract entry point for a transfer.  The host layer aborts on a
    /// failed transfer, so the inputs on which [`transfer_pure`] fails are
    /// excluded here.
    pub fn transfer(balance_from: i128, balance_to: i128, amount: i128) -> (r: (i128, i128))
        requires
            amount > 0,
            balance_from - amount >= i128::MIN,
            balance_to + amount <= i128::MAX,
        ensures
            r.0 == balance_from - amount,
            r.1 == balance_to + amount,
    {
        match transfer_pure(balance_from, balance_to, amount) {
            Ok(p) => p,
            Err(_) => {
                proof {
                    assert(false);
                }
                (0, 0)
            },
        }
    }
}

/// The deliberately vulnerable example token: its balance updates are
/// modelled here on plain values, unchecked exactly as the contract writes
/// them, so the inputs on which the unchecked arithmetic would wrap are
/// excluded by precondition.
pub struct TokenWithBugs;

impl TokenWithBugs {
    /// The vulnerable transfer: no authorization check and unchecked balance
    /// arithmetic; the sender's balance may go negative.
    pub fn transfer(from_balance: i128, to_balance: i128, amount: i128) -> (r: (i128, i128))
        requires
            i128::MIN <= from_balance - amount <= i128::MAX,
            i128::MIN <= to_balance + amount <= i128::MAX,
        ensures
            r.0 == from_balance - amount,
            r.1 == to_balance + amount,
    {
        (from_balance - amount, to_balance + amount)
    }

    /// The vulnerable mint: unchecked addition onto the current balance.
    pub fn mint(current_balance: i128, amount: i128) -> (r: i128)
        requires
            i128::MIN <= current_balance + amount <= i128::MAX,
        ensures
            r == current_balance + amount,
    {
        current_balance + amount
    }
}

/// Transfers conserve total supply: when a transfer succeeds, the sum of the
/// two balances after the call equals the sum before it.
pub proof fn lemma_transfer_conserves_supply(
    balance_from: i128,
    balance_to: i128,
    amount: i128,
    new_from: i128,
    new_to: i128,
)
    requires
        new_from == balance_from - amount,
        new_to == balance_to + amount,
    ensures
        new_from + new_to == balance_from + balance_to,
{
}

} // verus!
