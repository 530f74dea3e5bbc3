//! Fixed-point and share arithmetic of the vault.
//!
//! Every quantity is an `i128`, as in the vault.  Each computation has a
//! spec function over mathematical integers that says what it yields, and a
//! `*_defined` predicate that says when the vault computes it without
//! aborting (an overflow of a checked operation that the vault unwraps).
use vstd::prelude::*;

verus! {

/// One whole share price unit: prices carry nine decimals.
pub const PRICE_SCALE: i128 = 1_000_000_000;

/// Basis points in one hundred percent.
pub const BPS_SCALE: i128 = 10_000;

/// `x` is a value of `i128`.
pub open spec fn fits(x: int) -> bool {
    i128::MIN <= x <= i128::MAX
}

/// Division that rounds toward zero, as Rust's integer division does.
pub open spec fn trunc_div(x: int, d: int) -> int {
    if x == 0 {
        0
    } else if x > 0 && d > 0 {
        x / d
    } else if x < 0 && d < 0 {
        (-x) / (-d)
    } else if x < 0 {
        -((-x) / d)
    } else {
        -(x / (-d))
    }
}

/// `(a * b) / d`, computed with checked multiplication and checked division,
/// does not overflow and does not divide by zero.
pub open spec fn mul_div_defined(a: int, b: int, d: int) -> bool {
    &&& d != 0
    &&& fits(a * b)
    &&& fits(trunc_div(a * b, d))
}

/// Checked `(a * b) / d` on `i128`, rounding toward zero.
pub fn mul_div(a: i128, b: i128, d: i128) -> (r: i128)
    requires
        mul_div_defined(a as int, b as int, d as int),
    ensures
        r == trunc_div(a * b, d as int),
{
    let p = a.checked_mul(b).unwrap();
    p.checked_div(d).unwrap()
}

/// Shares minted for `amount` assets when `total_shares` shares stand for
/// `total_assets` assets: one for one while either total is zero, else
/// `amount * total_shares / total_assets` rounded toward zero.
pub open spec fn shares_for(amount: int, total_shares: int, total_assets: int) -> int {
    if total_shares == 0 || total_assets == 0 {
        amount
    } else {
        trunc_div(amount * total_shares, total_assets)
    }
}

/// The vault converts `amount` to shares without aborting.
pub open spec fn shares_for_defined(amount: int, total_shares: int, total_assets: int) -> bool {
    &&& amount >= 0
    &&& (total_shares == 0 || total_assets == 0 || mul_div_defined(
        amount,
        total_shares,
        total_assets,
    ))
}

/// Assets paid out for `shares`: one for one while no share exists, else
/// `shares * total_assets / total_shares` rounded toward zero.
pub open spec fn assets_for(shares: int, total_shares: int, total_assets: int) -> int {
    if total_shares == 0 {
        shares
    } else {
        trunc_div(shares * total_assets, total_shares)
    }
}

/// The vault converts `shares` to assets without aborting.
pub open spec fn assets_for_defined(shares: int, total_shares: int, total_assets: int) -> bool {
    &&& shares >= 0
    &&& (total_shares == 0 || mul_div_defined(shares, total_assets, total_shares))
}

/// Price of one share with nine decimals.
pub open spec fn share_price_of(total_assets: int, total_shares: int) -> int {
    if total_shares == 0 {
        PRICE_SCALE as int
    } else {
        trunc_div(total_assets * PRICE_SCALE, total_shares)
    }
}

/// The vault computes the share price without aborting.
pub open spec fn share_price_defined(total_assets: int, total_shares: int) -> bool {
    total_shares == 0 || mul_div_defined(total_assets, PRICE_SCALE as int, total_shares)
}

/// What is left of `amount` after a fee of `fee_bps` basis points, the fee
/// rounded toward zero.
pub open spec fn after_fees(amount: int, fee_bps: int) -> int {
    if fee_bps == 0 {
        amount
    } else {
        amount - trunc_div(amount * fee_bps, BPS_SCALE as int)
    }
}

/// The vault takes the fee without aborting.
pub open spec fn after_fees_defined(amount: int, fee_bps: int) -> bool {
    fee_bps == 0 || fits(amount * fee_bps)
}

/// Absolute target of a strategy that is allotted `bps` basis points of
/// `total_assets`.
pub open spec fn bps_target(total_assets: int, bps: int) -> int {
    trunc_div(total_assets * bps, BPS_SCALE as int)
}

/// The vault computes a basis-point target without aborting.
pub open spec fn bps_target_defined(total_assets: int, bps: int) -> bool {
    fits(total_assets * bps)
}

/// Amount that moves a strategy from `current` to `target`.
pub open spec fn rebalance_delta(current: int, target: int) -> int {
    target - current
}

/// The quotient by ten thousand of an `i128` is an `i128`.
pub proof fn lemma_trunc_div_bps_fits(x: int)
    requires
        fits(x),
    ensures
        fits(trunc_div(x, BPS_SCALE as int)),
        x >= 0 ==> 0 <= trunc_div(x, BPS_SCALE as int) <= x,
        x <= 0 ==> x <= trunc_div(x, BPS_SCALE as int) <= 0,
{
    let d = BPS_SCALE as int;
    if x > 0 {
        assert(0 <= x / d <= x) by (nonlinear_arith)
            requires
                x > 0,
                d == 10_000,
        ;
    } else if x < 0 {
        assert(0 <= (-x) / d <= -x) by (nonlinear_arith)
            requires
                x < 0,
                d == 10_000,
        ;
    }
}

/// Shares minted for `amount` assets (see [`shares_for`]).
pub fn convert_to_shares(amount: i128, total_shares: i128, total_assets: i128) -> (r: i128)
    requires
        shares_for_defined(amount as int, total_shares as int, total_assets as int),
    ensures
        r == shares_for(amount as int, total_shares as int, total_assets as int),
{
    if total_shares == 0 || total_assets == 0 {
        amount
    } else {
        mul_div(amount, total_shares, total_assets)
    }
}

/// Assets paid out for `shares` (see [`assets_for`]).
pub fn convert_to_assets(shares: i128, total_shares: i128, total_assets: i128) -> (r: i128)
    requires
        assets_for_defined(shares as int, total_shares as int, total_assets as int),
    ensures
        r == assets_for(shares as int, total_shares as int, total_assets as int),
{
    if total_shares == 0 {
        shares
    } else {
        mul_div(shares, total_assets, total_shares)
    }
}

/// Price of one share with nine decimals (see [`share_price_of`]).
pub fn share_price(total_assets: i128, total_shares: i128) -> (r: i128)
    requires
        share_price_defined(total_assets as int, total_shares as int),
    ensures
        r == share_price_of(total_assets as int, total_shares as int),
{
    if total_shares == 0 {
        PRICE_SCALE
    } else {
        mul_div(total_assets, PRICE_SCALE, total_shares)
    }
}

/// What is left of `amount` after the management fee (see [`after_fees`]).
pub fn deduct_fees(amount: i128, fee_bps: u32) -> (r: i128)
    requires
        after_fees_defined(amount as int, fee_bps as int),
    ensures
        r == after_fees(amount as int, fee_bps as int),
{
    if fee_bps == 0 {
        return amount;
    }
    let fee_pct = fee_bps as i128;
    let product = amount.checked_mul(fee_pct).unwrap();
    proof {
        lemma_trunc_div_bps_fits(product as int);
        let a = amount as int;
        let f = fee_pct as int;
        assert(a >= 0 ==> a * f >= 0) by (nonlinear_arith)
            requires
                f >= 0,
        ;
        assert(a <= 0 ==> a * f <= 0) by (nonlinear_arith)
            requires
                f >= 0,
        ;
    }
    let fee = product.checked_div(BPS_SCALE).unwrap();
    amount - fee
}

/// Absolute target of a strategy allotted `bps` basis points (see [`bps_target`]).
pub fn target_allocation(total_assets: i128, bps: i128) -> (r: i128)
    requires
        bps_target_defined(total_assets as int, bps as int),
    ensures
        r == bps_target(total_assets as int, bps as int),
{
    let product = total_assets.checked_mul(bps).unwrap();
    proof {
        lemma_trunc_div_bps_fits(product as int);
    }
    product.checked_div(BPS_SCALE).unwrap()
}

/// `(a * b) / d` as the vault computes it, or `None` where it aborts.
pub fn checked_mul_div(a: i128, b: i128, d: i128) -> (r: Option<i128>)
    ensures
        r is Some <==> mul_div_defined(a as int, b as int, d as int),
        r is Some ==> r->0 == trunc_div(a * b, d as int),
{
    match a.checked_mul(b) {
        Some(p) => p.checked_div(d),
        None => None,
    }
}

/// Shares for `amount` (see [`shares_for`]), or `None` where the vault aborts.
pub fn checked_convert_to_shares(amount: i128, total_shares: i128, total_assets: i128) -> (r:
    Option<i128>)
    ensures
        r is Some <==> shares_for_defined(amount as int, total_shares as int, total_assets as int),
        r is Some ==> r->0 == shares_for(amount as int, total_shares as int, total_assets as int),
{
    if amount < 0 {
        None
    } else if total_shares == 0 || total_assets == 0 {
        Some(amount)
    } else {
        checked_mul_div(amount, total_shares, total_assets)
    }
}

/// Assets for `shares` (see [`assets_for`]), or `None` where the vault aborts.
pub fn checked_convert_to_assets(shares: i128, total_shares: i128, total_assets: i128) -> (r:
    Option<i128>)
    ensures
        r is Some <==> assets_for_defined(shares as int, total_shares as int, total_assets as int),
        r is Some ==> r->0 == assets_for(shares as int, total_shares as int, total_assets as int),
{
    if shares < 0 {
        None
    } else if total_shares == 0 {
        Some(shares)
    } else {
        checked_mul_div(shares, total_assets, total_shares)
    }
}

/// The share price (see [`share_price_of`]), or `None` where the vault aborts.
pub fn checked_share_price(total_assets: i128, total_shares: i128) -> (r: Option<i128>)
    ensures
        r is Some <==> share_price_defined(total_assets as int, total_shares as int),
        r is Some ==> r->0 == share_price_of(total_assets as int, total_shares as int),
{
    if total_shares == 0 {
        Some(PRICE_SCALE)
    } else {
        checked_mul_div(total_assets, PRICE_SCALE, total_shares)
    }
}

} // verus!
