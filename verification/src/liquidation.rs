//! Liquidation of accounts whose maintenance health is negative.
//!
//! A liquidator takes over liabilities of the account and receives assets of
//! it at the oracle price plus the liquidation fee of the slot. Each call
//! moves at most what the caller allows, at most what the account holds of
//! either side, and at most what brings its maintenance health up to zero.
//!
//! No call leaves the account healthier than at zero. What a liquidation
//! against a token is about to do is held against the maintenance health
//! that it would leave: where that would be above zero, or below what it
//! was, a liquidation of a token against a token moves what a bound allows
//! that counts every rounding against the liquidation, or nothing, and a
//! liquidation of a token against a perp balance moves nothing. Health is
//! read first: a call on an account whose maintenance health is not
//! negative fails with `NotLiquidatable`, whatever its other arguments are,
//! and a call that fails changes nothing.
use crate::account::{Ledger, OpenOrders, PerpPosition, Position};
use crate::bank::{NodeBank, RootBank};
use crate::error::MangoError;
use crate::fixed_point::{
    add_opt, checked, div_opt, div_up_opt, lemma_div_up, lemma_floor_scaled, mul_opt, sub_opt,
    try_add, try_div, try_div_up, try_mul, try_sub, unit, I80F48,
};
use crate::group::{Cache, CacheSlot, Group, HealthType, RiskParams, Slot};
use crate::health::{aligned, health, perp_value, slot_health, spec_health, token_value, weighted};
use crate::perp::{settle_funding, spec_settle_funding};
use crate::settle::with_balance;
use crate::state::AssetType;
use vstd::prelude::*;

verus! {

/// Where an account stands with respect to liquidation.
#[derive(Clone, Copy, Debug, PartialEq, Eq, Structural)]
pub enum LiquidationState {
    /// Maintenance health is zero or more: nobody may liquidate the account.
    Healthy,
    /// Maintenance health is negative and the account holds assets that a
    /// liquidator can take.
    Liquidatable,
    /// Maintenance health is negative and the account holds no assets: what
    /// it owes falls to the insurance fund and the depositors.
    Bankrupt,
}

/// The account holds nothing that a liquidator could take: no deposit, no
/// base position, no perp balance in its favour and no resting spot order.
pub open spec fn no_assets(ledger: Seq<Position>) -> bool {
    forall|i: int|
        0 <= i < ledger.len() ==> {
            &&& (#[trigger] ledger[i]).balance.bits <= 0
            &&& ledger[i].perp.base_position == 0
            &&& ledger[i].perp.quote_position.bits <= 0
            &&& ledger[i].open_orders is None
        }
}

/// Whether the account holds nothing that a liquidator could take.
pub fn has_no_assets(ledger: &Ledger) -> (r: bool)
    ensures
        r == no_assets(ledger@),
{
    let n: usize = ledger.slots.len();
    let mut i: usize = 0;
    while i < n
        invariant
            i <= n,
            n == ledger@.len(),
            no_assets(ledger@.subrange(0, i as int)),
        decreases n - i,
    {
        let p: Position = ledger.slots[i];
        if p.balance.is_positive() || p.perp.base_position != 0
            || p.perp.quote_position.is_positive() || p.open_orders.is_some() {
            assert(!no_assets(ledger@)) by {
                assert(ledger@[i as int] == p);
            }
            return false;
        }
        assert(no_assets(ledger@.subrange(0, i + 1))) by {
            assert forall|j: int| 0 <= j < i + 1 implies {
                &&& (#[trigger] ledger@.subrange(0, i + 1)[j]).balance.bits <= 0
                &&& ledger@.subrange(0, i + 1)[j].perp.base_position == 0
                &&& ledger@.subrange(0, i + 1)[j].perp.quote_position.bits <= 0
                &&& ledger@.subrange(0, i + 1)[j].open_orders is None
            } by {
                if j < i {
                    assert(ledger@.subrange(0, i as int)[j] == ledger@[j]);
                }
            }
        }
        i = i + 1;
    }
    assert(ledger@.subrange(0, n as int) =~= ledger@);
    true
}

/// Where the account stands at `now`, if its maintenance health can be
/// computed.
pub open spec fn spec_liquidation_state(
    group: &Group,
    cache: &Cache,
    ledger: Seq<Position>,
    now: u64,
) -> Result<LiquidationState, MangoError> {
    match spec_health(group, cache, ledger, HealthType::Maint, now) {
        Ok(h) => if h.bits >= 0 {
            Ok(LiquidationState::Healthy)
        } else if no_assets(ledger) {
            Ok(LiquidationState::Bankrupt)
        } else {
            Ok(LiquidationState::Liquidatable)
        },
        Err(e) => Err(e),
    }
}

/// Says where the account stands with respect to liquidation at `now`.
pub fn liquidation_state(group: &Group, cache: &Cache, ledger: &Ledger, now: u64) -> (r: Result<
    LiquidationState,
    MangoError,
>)
    requires
        aligned(group, cache, ledger),
    ensures
        r == spec_liquidation_state(group, cache, ledger@, now),
{
    match health(group, cache, ledger, HealthType::Maint, now) {
        Ok(h) => if !h.is_negative() {
            Ok(LiquidationState::Healthy)
        } else if has_no_assets(ledger) {
            Ok(LiquidationState::Bankrupt)
        } else {
            Ok(LiquidationState::Liquidatable)
        },
        Err(e) => Err(e),
    }
}

/// Replaces the balance of `slot` and puts the slot in the basket.
pub(crate) fn set_balance(ledger: &mut Ledger, slot: usize, balance: I80F48)
    requires
        slot < old(ledger)@.len(),
        old(ledger).wf(),
    ensures
        final(ledger)@ == with_balance(old(ledger)@, slot as int, balance),
        final(ledger).wf(),
        final(ledger).rest_as_in(old(ledger)),
{
    let mut changed: Position = ledger.slots[slot];
    changed.balance = balance;
    changed.in_basket = true;
    ledger.slots[slot] = changed;
}

/// The account with the perp position of `slot` replaced and the slot in the
/// basket.
pub open spec fn with_perp(ledger: Seq<Position>, slot: int, perp: PerpPosition) -> Seq<Position> {
    ledger.update(slot, Position { perp, in_basket: true, ..ledger[slot] })
}

pub(crate) fn set_perp(ledger: &mut Ledger, slot: usize, perp: PerpPosition)
    requires
        slot < old(ledger)@.len(),
        old(ledger).wf(),
    ensures
        final(ledger)@ == with_perp(old(ledger)@, slot as int, perp),
        final(ledger).wf(),
        final(ledger).rest_as_in(old(ledger)),
{
    let mut changed: Position = ledger.slots[slot];
    changed.perp = perp;
    changed.in_basket = true;
    ledger.slots[slot] = changed;
}

/// The smaller of two numbers.
pub open spec fn spec_min(a: I80F48, b: I80F48) -> I80F48 {
    if a.bits <= b.bits {
        a
    } else {
        b
    }
}

/// How much of a liability one call moves: the least of what the caller
/// allows, what is owed, what the asset covers and, where there is such a
/// bound, what brings health up to zero; and nothing rather than a negative
/// amount.
pub open spec fn spec_transfer_amount(
    max_liab_transfer: I80F48,
    owed: I80F48,
    asset_cap: I80F48,
    deficit_cap: Option<I80F48>,
) -> I80F48 {
    let least = spec_min(spec_min(max_liab_transfer, owed), asset_cap);
    let capped = match deficit_cap {
        Some(d) => spec_min(least, d),
        None => least,
    };
    if capped.bits < 0 {
        I80F48 { bits: 0 }
    } else {
        capped
    }
}

/// How much of a liability one call moves.
///
/// The amount is never negative, never above what the caller allows, and
/// never above what the account owes or what its asset covers.
pub fn transfer_amount(
    max_liab_transfer: I80F48,
    owed: I80F48,
    asset_cap: I80F48,
    deficit_cap: Option<I80F48>,
) -> (t: I80F48)
    ensures
        t == spec_transfer_amount(max_liab_transfer, owed, asset_cap, deficit_cap),
        t.bits >= 0,
        max_liab_transfer.bits >= 0 ==> t.bits <= max_liab_transfer.bits,
        owed.bits >= 0 ==> t.bits <= owed.bits,
        asset_cap.bits >= 0 ==> t.bits <= asset_cap.bits,
        deficit_cap matches Some(d) ==> (d.bits >= 0 ==> t.bits <= d.bits),
{
    let least = max_liab_transfer.min(owed).min(asset_cap);
    let capped = match deficit_cap {
        Some(d) => least.min(d),
        None => least,
    };
    if capped.is_negative() {
        I80F48::zero()
    } else {
        capped
    }
}

/// The amount that a liquidation of a token liability moves is never
/// negative, never above `max_liab_transfer`, never above what the account
/// owes and never above what its asset covers at the liquidation price.
pub proof fn lemma_transfer_within_bounds(
    max_liab_transfer: I80F48,
    owed: I80F48,
    asset_cap: I80F48,
    deficit_cap: Option<I80F48>,
)
    requires
        max_liab_transfer.bits >= 0,
        owed.bits >= 0,
        asset_cap.bits >= 0,
    ensures
        0 <= spec_transfer_amount(max_liab_transfer, owed, asset_cap, deficit_cap).bits,
        spec_transfer_amount(max_liab_transfer, owed, asset_cap, deficit_cap).bits
            <= max_liab_transfer.bits,
        spec_transfer_amount(max_liab_transfer, owed, asset_cap, deficit_cap).bits <= owed.bits,
        spec_transfer_amount(max_liab_transfer, owed, asset_cap, deficit_cap).bits
            <= asset_cap.bits,
{
}

/// The price of the liability with the liquidation fee on top.
pub open spec fn price_with_fee(price: I80F48, fee: I80F48) -> Option<I80F48> {
    mul_opt(Some(price), I80F48 { bits: unit() as i128 }.spec_add(fee))
}

/// The liability that would bring a health of `health`, which is negative,
/// up to zero if nothing were rounded: each unit repaid adds the price
/// times what the leverage factor exceeds the fee-laden par by. There is no
/// such bound where a unit repaid adds nothing: where the factor does not
/// exceed the fee-laden par, or the product rounds to nothing. This is an
/// estimate: what it allows is held against the health that results before
/// it is done. There is none at all where a number leaves the range of the
/// arithmetic.
pub open spec fn spec_net_cap(health: I80F48, price: I80F48, risk: RiskParams) -> Option<
    Option<I80F48>,
> {
    match mul_opt(
        Some(price),
        sub_opt(
            Some(risk.maint_leverage),
            I80F48 { bits: unit() as i128 }.spec_add(risk.liquidation_fee),
        ),
    ) {
        Some(gain) => if gain.bits > 0 {
            match div_opt(I80F48 { bits: 0 }.spec_sub(health), Some(gain)) {
                Some(cap) => Some(Some(cap)),
                None => None,
            }
        } else {
            Some(None)
        },
        None => None,
    }
}

/// Works out the estimate of the liability that brings health up to zero.
pub fn net_cap(health: I80F48, price: I80F48, risk: &RiskParams) -> (r: Option<Option<I80F48>>)
    ensures
        r == spec_net_cap(health, price, *risk),
{
    match try_mul(
        Some(price),
        try_sub(Some(risk.maint_leverage), I80F48::one().checked_add(risk.liquidation_fee)),
    ) {
        Some(gain) => if gain.is_positive() {
            match try_div(I80F48::zero().checked_sub(health), Some(gain)) {
                Some(cap) => Some(Some(cap)),
                None => None,
            }
        } else {
            Some(None)
        },
        None => None,
    }
}

/// The largest factor whose product with `by`, rounded down, stays below
/// `product`: `product` less one unit in the last place, divided by `by`. It
/// is zero where `product` is not positive. There is none where the division
/// fails.
pub open spec fn spec_factor_below(product: Option<I80F48>, by: I80F48) -> Option<I80F48> {
    match product {
        Some(x) => if x.bits <= 0 {
            Some(I80F48 { bits: 0 })
        } else {
            I80F48 { bits: (x.bits - 1) as i128 }.spec_div(by)
        },
        None => None,
    }
}

/// Works out the largest factor whose product with `by` stays below
/// `product`.
pub fn factor_below(product: Option<I80F48>, by: I80F48) -> (r: Option<I80F48>)
    ensures
        r == spec_factor_below(product, by),
{
    match product {
        Some(x) => if x.bits <= 0 {
            Some(I80F48::zero())
        } else {
            I80F48 { bits: x.bits - 1 }.checked_div(by)
        },
        None => None,
    }
}

/// What is known of a factor below a product: it is not negative, and where
/// it is positive, so is the product, and the factor times `by` is at most
/// the product less one unit in the last place.
pub proof fn lemma_factor_below(product: I80F48, by: I80F48)
    requires
        by.bits > 0,
        spec_factor_below(Some(product), by) is Some,
    ensures
        ({
            let f = spec_factor_below(Some(product), by).unwrap();
            &&& f.bits >= 0
            &&& f.bits > 0 ==> product.bits > 0 && f.bits * by.bits <= (product.bits - 1) * unit()
        }),
{
    if product.bits > 0 {
        let n = (product.bits - 1) * unit();
        assert(n >= 0) by (nonlinear_arith)
            requires
                n == (product.bits - 1) * unit(),
                product.bits > 0,
                unit() > 0,
        ;
        lemma_floor_scaled(n, by.bits as int);
    }
}

/// Health that is negative puts a bound on the native tokens of a borrow
/// that a liquidation may repay: the borrow, valued as health values it, may
/// rise by no more than health is short of zero. The bound counts every
/// rounding in that valuation against the liquidation. What health is short
/// of is brought to the value of the borrow by the leverage factor `weight`,
/// to native tokens by `price`, and to index-scaled units by `cached_index`,
/// the borrow index at which health values the borrow, each time leaving
/// one unit in the last place for the rounding of the step. `index`, the
/// borrow index of the bank, at which a repayment is booked, brings it back
/// to native tokens. There is none where a division fails or a number
/// leaves the range of the arithmetic.
pub open spec fn spec_deficit_cap(
    health: I80F48,
    weight: I80F48,
    price: I80F48,
    cached_index: I80F48,
    index: I80F48,
) -> Option<I80F48> {
    let value = spec_factor_below(I80F48 { bits: 0 }.spec_sub(health), weight);
    let native = spec_factor_below(value, price);
    let scaled = spec_factor_below(native, cached_index);
    mul_opt(scaled, Some(index))
}

/// Works out the bound that health puts on the repayment of a borrow.
pub fn deficit_cap(
    health: I80F48,
    weight: I80F48,
    price: I80F48,
    cached_index: I80F48,
    index: I80F48,
) -> (r: Option<I80F48>)
    ensures
        r == spec_deficit_cap(health, weight, price, cached_index, index),
{
    let value = factor_below(I80F48::zero().checked_sub(health), weight);
    let native = factor_below(value, price);
    let scaled = factor_below(native, cached_index);
    try_mul(scaled, Some(index))
}

/// The sum of two quotients, rounded down, falls short of the quotient of
/// the sum by at most one.
proof fn lemma_floor_of_sum(x: int, y: int, d: int)
    requires
        d > 0,
    ensures
        (x + y) / d <= x / d + y / d + 1,
{
    lemma_floor_scaled(x, d);
    lemma_floor_scaled(y, d);
    lemma_floor_scaled(x + y, d);
    let qx = x / d;
    let qy = y / d;
    let q = (x + y) / d;
    assert(q < qx + qy + 2) by (nonlinear_arith)
        requires
            q * d <= x + y,
            x < qx * d + d,
            y < qy * d + d,
            d > 0,
    ;
}

/// One step of a valuation: where `a2` exceeds `a` by at most `k`, and `k`
/// times `m` is at most `limit` less one unit in the last place, `a2` times
/// `m` exceeds `a` times `m` by at most `limit`, both rounded down.
proof fn lemma_step_gains(a2: int, a: int, k: int, m: int, limit: int)
    requires
        m >= 0,
        a2 <= a + k,
        k * m <= (limit - 1) * unit(),
    ensures
        (a2 * m) / unit() <= (a * m) / unit() + limit,
{
    let u = unit();
    let am = a * m;
    let km = k * m;
    let a2m = a2 * m;
    assert(a2m <= am + km) by (nonlinear_arith)
        requires
            a2m == a2 * m,
            am == a * m,
            km == k * m,
            a2 <= a + k,
            m >= 0,
    ;
    vstd::arithmetic::div_mod::lemma_div_is_ordered(a2m, am + km, u);
    lemma_floor_of_sum(am, km, u);
    let top = (limit - 1) * u;
    vstd::arithmetic::div_mod::lemma_div_is_ordered(km, top, u);
    assert(top == u * (limit - 1)) by (nonlinear_arith)
        requires
            top == (limit - 1) * u,
    ;
    vstd::arithmetic::div_mod::lemma_div_multiples_vanish(limit - 1, u);
    assert(km / u <= limit - 1);
}

/// A borrow counts in health as the balance times the borrow index, times
/// the price, times the leverage factor, each product rounded down.
pub open spec fn borrow_health(balance: int, index: int, price: int, weight: int) -> int {
    (((((balance * index) / unit()) * price) / unit()) * weight) / unit()
}

/// What a balance that is not positive counts for in health.
proof fn lemma_borrow_health(balance: I80F48, c: CacheSlot, w: I80F48)
    requires
        c.wf(),
        w.bits >= 0,
        balance.bits <= 0,
        weighted(token_value(balance, c), w) is Some,
    ensures
        weighted(token_value(balance, c), w).unwrap().bits == borrow_health(
            balance.bits as int,
            c.borrow_index.bits as int,
            c.price.bits as int,
            w.bits as int,
        ),
{
    let u = unit();
    let x = balance.bits as int;
    let b = c.borrow_index.bits as int;
    let p = c.price.bits as int;
    if x == 0 {
        let xd = x * c.deposit_index.bits;
        let xb = x * b;
        assert(xd == 0 && xb == 0) by (nonlinear_arith)
            requires
                x == 0,
                xd == x * c.deposit_index.bits,
                xb == x * b,
        ;
        let np = 0 * p;
        assert(np == 0);
        let vw = 0 * w.bits;
        assert(vw == 0);
    } else {
        let xb = x * b;
        assert(xb < 0) by (nonlinear_arith)
            requires
                xb == x * b,
                x < 0,
                b > 0,
        ;
        lemma_floor_scaled(xb, u);
        let n = xb / u;
        assert(n <= 0) by (nonlinear_arith)
            requires
                n * u <= xb,
                xb < 0,
                xb < n * u + u,
                u > 0,
        ;
        let np = n * p;
        assert(np <= 0) by (nonlinear_arith)
            requires
                np == n * p,
                n <= 0,
                p >= 0,
        ;
        lemma_floor_scaled(np, u);
        let v = np / u;
        assert(v <= 0) by (nonlinear_arith)
            requires
                v * u <= np,
                np <= 0,
                u > 0,
        ;
        if v == 0 {
            let vw = v * w.bits;
            assert(vw == 0) by (nonlinear_arith)
                requires
                    vw == v * w.bits,
                    v == 0,
            ;
        }
    }
}

/// A repayment within the bound that health sets does not bring the borrow
/// above what health is short of. For a health of `health`, which is
/// negative, and a borrow that counts in health at `cached_index`, `price`
/// and `weight`: where no more native tokens than the bound are repaid at
/// `index`, a balance that rises by no more than the repayment counts for at
/// most the shortfall more than before.
pub proof fn lemma_deficit_cap_does_not_overshoot(
    health: I80F48,
    weight: I80F48,
    price: I80F48,
    cached_index: I80F48,
    index: I80F48,
    before: int,
    after: int,
    repaid: int,
)
    requires
        health.bits < 0,
        weight.bits > 0,
        price.bits >= 0,
        cached_index.bits > 0,
        index.bits > 0,
        spec_deficit_cap(health, weight, price, cached_index, index) matches Some(cap) && 0
            <= repaid <= cap.bits,
        after <= before + (repaid * unit()) / (index.bits as int),
    ensures
        borrow_health(after, cached_index.bits as int, price.bits as int, weight.bits as int)
            <= borrow_health(
            before,
            cached_index.bits as int,
            price.bits as int,
            weight.bits as int,
        ) - health.bits,
{
    let u = unit();
    let w = weight.bits as int;
    let p = price.bits as int;
    let bc = cached_index.bits as int;
    let bb = index.bits as int;
    let short = (I80F48 { bits: 0 }).spec_sub(health).unwrap();
    let d = short.bits as int;
    assert(d == -health.bits);
    if repaid == 0 {
        // Nothing is repaid: the balance has not risen.
        let tu = repaid * u;
        assert(tu == 0) by (nonlinear_arith)
            requires
                tu == repaid * u,
                repaid == 0,
        ;
        vstd::arithmetic::div_mod::lemma_div_multiples_vanish(0, bb);
        assert(bb * 0 == 0);
        assert(after <= before);
        lemma_values_ordered(after, before, bc, p, w);
    } else {
        let value = spec_factor_below(Some(short), weight).unwrap();
        let native = spec_factor_below(Some(value), price).unwrap();
        let scaled = spec_factor_below(Some(native), cached_index).unwrap();
        let cap = scaled.spec_mul(index).unwrap();
        let k2 = value.bits as int;
        let k1 = native.bits as int;
        let k0 = scaled.bits as int;
        // The bound is positive, so every step of it is.
        assert(cap.bits > 0);
        let kb = k0 * bb;
        assert(cap.bits == kb / u);
        lemma_factor_below(native, cached_index);
        if k0 == 0 {
            assert(kb == 0) by (nonlinear_arith)
                requires
                    kb == k0 * bb,
                    k0 == 0,
            ;
            vstd::arithmetic::div_mod::lemma_div_multiples_vanish(0, u);
            assert(u * 0 == 0);
        }
        assert(k0 > 0);
        assert(k1 > 0);
        assert(value.bits > 0);
        assert(p > 0);
        lemma_factor_below(value, price);
        lemma_factor_below(short, weight);
        assert(k2 > 0);
        assert(k0 * bc <= (k1 - 1) * u);
        assert(k1 * p <= (k2 - 1) * u);
        assert(k2 * w <= (d - 1) * u);
        // What the repayment adds to the balance is at most the last step.
        lemma_floor_scaled(kb, u);
        let tu = repaid * u;
        assert(tu <= kb) by (nonlinear_arith)
            requires
                tu == repaid * u,
                repaid <= cap.bits,
                cap.bits * u <= kb,
                u > 0,
        ;
        vstd::arithmetic::div_mod::lemma_div_is_ordered(tu, kb, bb);
        assert(kb == bb * k0) by (nonlinear_arith)
            requires
                kb == k0 * bb,
        ;
        vstd::arithmetic::div_mod::lemma_div_multiples_vanish(k0, bb);
        assert(tu / bb <= k0);
        assert(after <= before + k0);
        let n2 = (after * bc) / u;
        let n1 = (before * bc) / u;
        lemma_step_gains(after, before, k0, bc, k1);
        assert(n2 <= n1 + k1);
        let v2 = (n2 * p) / u;
        let v1 = (n1 * p) / u;
        lemma_step_gains(n2, n1, k1, p, k2);
        assert(v2 <= v1 + k2);
        lemma_step_gains(v2, v1, k2, w, d);
    }
}

/// A balance that is no larger counts for no more.
proof fn lemma_values_ordered(lower: int, higher: int, index: int, price: int, weight: int)
    requires
        lower <= higher,
        index >= 0,
        price >= 0,
        weight >= 0,
    ensures
        borrow_health(lower, index, price, weight) <= borrow_health(higher, index, price, weight),
{
    let u = unit();
    let a = lower * index;
    let b = higher * index;
    assert(a <= b) by (nonlinear_arith)
        requires
            a == lower * index,
            b == higher * index,
            lower <= higher,
            index >= 0,
    ;
    vstd::arithmetic::div_mod::lemma_div_is_ordered(a, b, u);
    let na = (a / u) * price;
    let nb = (b / u) * price;
    assert(na <= nb) by (nonlinear_arith)
        requires
            na == (a / u) * price,
            nb == (b / u) * price,
            a / u <= b / u,
            price >= 0,
    ;
    vstd::arithmetic::div_mod::lemma_div_is_ordered(na, nb, u);
    let va = (na / u) * weight;
    let vb = (nb / u) * weight;
    assert(va <= vb) by (nonlinear_arith)
        requires
            va == (na / u) * weight,
            vb == (nb / u) * weight,
            na / u <= nb / u,
            weight >= 0,
    ;
    vstd::arithmetic::div_mod::lemma_div_is_ordered(va, vb, u);
}

/// What a liquidation of a token liability against a token asset does.
pub struct TokenLiquidation {
    /// Native tokens of the liability that the liquidator takes over.
    pub liab_transfer: I80F48,
    /// Native tokens of the asset that the liquidator receives.
    pub asset_transfer: I80F48,
    /// The balances of the account after the call.
    pub liqee_liab: I80F48,
    pub liqee_asset: I80F48,
    /// The balances of the liquidator after the call.
    pub liqor_liab: I80F48,
    pub liqor_asset: I80F48,
    /// The pools after the call.
    pub liab_node: NodeBank,
    pub asset_node: NodeBank,
}

/// The pool after two balances changed, the vault unchanged.
pub open spec fn rebalanced_twice(
    node: NodeBank,
    old_a: I80F48,
    new_a: I80F48,
    old_b: I80F48,
    new_b: I80F48,
) -> Option<NodeBank> {
    match node.rebalanced(old_a, new_a, node.vault as int) {
        Some(n) => n.rebalanced(old_b, new_b, n.vault as int),
        None => None,
    }
}

/// What the liquidation does, for an account with a deposit `liqee_asset`
/// and a borrow `liqee_liab`, where no more than `deficit_cap` native
/// tokens may be repaid, if there is such a bound. The asset that moves is
/// what the liability that moves is worth at its price with the fee on top,
/// at the price of the asset, rounded up, so that the liquidator does not
/// lose by rounding. There is none if a number leaves the range of the
/// arithmetic or a price is zero.
pub open spec fn spec_token_liquidation(
    deficit_cap: Option<I80F48>,
    liab_risk: RiskParams,
    asset_price: I80F48,
    liab_price: I80F48,
    asset_bank: RootBank,
    liab_bank: RootBank,
    asset_node: NodeBank,
    liab_node: NodeBank,
    liqee_asset: I80F48,
    liqee_liab: I80F48,
    liqor_asset: I80F48,
    liqor_liab: I80F48,
    max_liab_transfer: I80F48,
) -> Option<TokenLiquidation> {
    let owed = sub_opt(Some(I80F48 { bits: 0 }), liab_bank.spec_native(liqee_liab));
    let fee_price = price_with_fee(liab_price, liab_risk.liquidation_fee);
    let asset_cap = div_opt(
        mul_opt(asset_bank.spec_native(liqee_asset), Some(asset_price)),
        fee_price,
    );
    match (owed, asset_cap) {
        (Some(owed), Some(asset_cap)) => {
            let t = spec_transfer_amount(max_liab_transfer, owed, asset_cap, deficit_cap);
            match div_up_opt(mul_opt(Some(t), fee_price), Some(asset_price)) {
                Some(a) => match (
                    liab_bank.credited(liqee_liab, t),
                    asset_bank.debited(liqee_asset, a),
                    liab_bank.debited(liqor_liab, t),
                    asset_bank.credited(liqor_asset, a),
                ) {
                    (Some(ll), Some(la), Some(rl), Some(ra)) => match (
                        rebalanced_twice(liab_node, liqee_liab, ll, liqor_liab, rl),
                        rebalanced_twice(asset_node, liqee_asset, la, liqor_asset, ra),
                    ) {
                        (Some(ln), Some(an)) => Some(
                            TokenLiquidation {
                                liab_transfer: t,
                                asset_transfer: a,
                                liqee_liab: ll,
                                liqee_asset: la,
                                liqor_liab: rl,
                                liqor_asset: ra,
                                liab_node: ln,
                                asset_node: an,
                            },
                        ),
                        _ => None,
                    },
                    _ => None,
                },
                None => None,
            }
        },
        _ => None,
    }
}

fn rebalance_twice(node: &NodeBank, old_a: I80F48, new_a: I80F48, old_b: I80F48, new_b: I80F48)
    -> (r: Option<NodeBank>)
    requires
        node.wf(),
    ensures
        r == rebalanced_twice(*node, old_a, new_a, old_b, new_b),
        r matches Some(n) ==> n.wf(),
{
    match node.rebalance(old_a, new_a, Some(node.vault)) {
        Some(n) => n.rebalance(old_b, new_b, Some(n.vault)),
        None => None,
    }
}

/// Works out what a liquidation of a token liability against a token asset
/// does, without doing it.
pub fn plan_token_liquidation(
    deficit_cap: Option<I80F48>,
    liab_risk: &RiskParams,
    asset_price: I80F48,
    liab_price: I80F48,
    asset_bank: &RootBank,
    liab_bank: &RootBank,
    asset_node: &NodeBank,
    liab_node: &NodeBank,
    liqee_asset: I80F48,
    liqee_liab: I80F48,
    liqor_asset: I80F48,
    liqor_liab: I80F48,
    max_liab_transfer: I80F48,
) -> (r: Option<TokenLiquidation>)
    requires
        asset_node.wf(),
        liab_node.wf(),
    ensures
        r == spec_token_liquidation(
            deficit_cap,
            *liab_risk,
            asset_price,
            liab_price,
            *asset_bank,
            *liab_bank,
            *asset_node,
            *liab_node,
            liqee_asset,
            liqee_liab,
            liqor_asset,
            liqor_liab,
            max_liab_transfer,
        ),
        r matches Some(p) ==> p.liab_node.wf() && p.asset_node.wf(),
{
    let owed = try_sub(Some(I80F48::zero()), liab_bank.native(liqee_liab));
    let fee_price = try_mul(Some(liab_price), I80F48::one().checked_add(liab_risk.liquidation_fee));
    let asset_cap = try_div(try_mul(asset_bank.native(liqee_asset), Some(asset_price)), fee_price);
    let (owed, asset_cap) = match (owed, asset_cap) {
        (Some(o), Some(a)) => (o, a),
        _ => { return None; },
    };
    let t = transfer_amount(max_liab_transfer, owed, asset_cap, deficit_cap);
    let a = match try_div_up(try_mul(Some(t), fee_price), Some(asset_price)) {
        Some(a) => a,
        None => { return None; },
    };
    let (ll, la, rl, ra) = match (
        liab_bank.credit(liqee_liab, Some(t)),
        asset_bank.debit(liqee_asset, Some(a)),
        liab_bank.debit(liqor_liab, Some(t)),
        asset_bank.credit(liqor_asset, Some(a)),
    ) {
        (Some(ll), Some(la), Some(rl), Some(ra)) => (ll, la, rl, ra),
        _ => { return None; },
    };
    match (
        rebalance_twice(liab_node, liqee_liab, ll, liqor_liab, rl),
        rebalance_twice(asset_node, liqee_asset, la, liqor_asset, ra),
    ) {
        (Some(ln), Some(an)) => Some(
            TokenLiquidation {
                liab_transfer: t,
                asset_transfer: a,
                liqee_liab: ll,
                liqee_asset: la,
                liqor_liab: rl,
                liqor_asset: ra,
                liab_node: ln,
                asset_node: an,
            },
        ),
        _ => None,
    }
}

/// A liquidation of a token liability against a token asset moves amounts
/// that are within what the caller allows and within what the account has
/// of either side: the liability moved is not negative, not above
/// `max_liab_transfer` and not above what the account owes, and the asset
/// moved is not negative and not above what the account has deposited.
/// Neither balance of the account changes its side: the borrow stays at or
/// below zero, and the deposit at or above. The liquidator does not lose by
/// the call: the asset that it receives is worth, at the oracle price, at
/// least what the liability that it takes over is worth.
pub proof fn lemma_token_liquidation_within_bounds(
    deficit_cap: Option<I80F48>,
    liab_risk: RiskParams,
    asset_price: I80F48,
    liab_price: I80F48,
    asset_bank: RootBank,
    liab_bank: RootBank,
    asset_node: NodeBank,
    liab_node: NodeBank,
    liqee_asset: I80F48,
    liqee_liab: I80F48,
    liqor_asset: I80F48,
    liqor_liab: I80F48,
    max_liab_transfer: I80F48,
)
    requires
        asset_bank.wf(),
        liab_bank.wf(),
        liab_risk.wf(),
        asset_price.bits >= 0,
        liab_price.bits >= 0,
        liqee_asset.bits > 0,
        liqee_liab.bits < 0,
        max_liab_transfer.bits >= 0,
        spec_token_liquidation(
            deficit_cap,
            liab_risk,
            asset_price,
            liab_price,
            asset_bank,
            liab_bank,
            asset_node,
            liab_node,
            liqee_asset,
            liqee_liab,
            liqor_asset,
            liqor_liab,
            max_liab_transfer,
        ) is Some,
    ensures
        ({
            let p = spec_token_liquidation(
                deficit_cap,
                liab_risk,
                asset_price,
                liab_price,
                asset_bank,
                liab_bank,
                asset_node,
                liab_node,
                liqee_asset,
                liqee_liab,
                liqor_asset,
                liqor_liab,
                max_liab_transfer,
            ).unwrap();
            &&& 0 <= p.liab_transfer.bits <= max_liab_transfer.bits
            &&& p.liab_transfer.bits <= -liab_bank.spec_native(liqee_liab).unwrap().bits
            &&& 0 <= p.asset_transfer.bits <= asset_bank.spec_native(liqee_asset).unwrap().bits
            &&& p.liqee_liab.bits <= 0
            &&& p.liqee_asset.bits >= 0
            &&& (p.asset_transfer.bits * asset_price.bits) / unit() >= (p.liab_transfer.bits
                * liab_price.bits) / unit()
        }),
{
    let u = unit();
    let p = spec_token_liquidation(
        deficit_cap,
        liab_risk,
        asset_price,
        liab_price,
        asset_bank,
        liab_bank,
        asset_node,
        liab_node,
        liqee_asset,
        liqee_liab,
        liqor_asset,
        liqor_liab,
        max_liab_transfer,
    ).unwrap();
    let t = p.liab_transfer.bits as int;
    let pa = asset_price.bits as int;
    let native_liab = liab_bank.spec_native(liqee_liab).unwrap().bits as int;
    let an = asset_bank.spec_native(liqee_asset).unwrap().bits as int;
    let fee_price = price_with_fee(liab_price, liab_risk.liquidation_fee).unwrap().bits as int;
    // What is owed is not negative.
    assert(liqee_liab.bits * liab_bank.borrow_index.bits < 0) by (nonlinear_arith)
        requires
            liqee_liab.bits < 0,
            liab_bank.borrow_index.bits > 0,
    ;
    assert(native_liab <= 0);
    // Neither is what the asset is worth.
    assert(liqee_asset.bits * asset_bank.deposit_index.bits >= 0) by (nonlinear_arith)
        requires
            liqee_asset.bits > 0,
            asset_bank.deposit_index.bits > 0,
    ;
    assert(an >= 0);
    assert(an * pa >= 0) by (nonlinear_arith)
        requires
            an >= 0,
            pa >= 0,
    ;
    let v = (an * pa) / u;
    assert(v >= 0);
    assert(liab_price.bits * (u + liab_risk.liquidation_fee.bits) >= 0) by (nonlinear_arith)
        requires
            liab_price.bits >= 0,
            u + liab_risk.liquidation_fee.bits >= 0,
    ;
    assert(fee_price > 0);
    assert(v * u >= 0) by (nonlinear_arith)
        requires
            v >= 0,
            u > 0,
    ;
    let cap = (v * u) / fee_price;
    assert(cap >= 0);
    assert(0 <= t <= cap);
    // The asset that moves is worth no more than the liability that moves,
    // which is worth no more than the asset.
    lemma_floor_scaled(v * u, fee_price);
    assert(t * fee_price <= v * u) by (nonlinear_arith)
        requires
            0 <= t <= cap,
            cap * fee_price <= v * u,
            fee_price > 0,
    ;
    assert(t * fee_price >= 0) by (nonlinear_arith)
        requires
            t >= 0,
            fee_price > 0,
    ;
    let w = (t * fee_price) / u;
    vstd::arithmetic::div_mod::lemma_div_is_ordered(t * fee_price, v * u, u);
    vstd::arithmetic::div_mod::lemma_div_multiples_vanish(v, u);
    assert(0 <= w <= v);
    assert(pa > 0);
    lemma_floor_scaled(an * pa, u);
    assert(w * u <= an * pa) by (nonlinear_arith)
        requires
            0 <= w <= v,
            v * u <= an * pa,
            u > 0,
    ;
    assert(w * u >= 0) by (nonlinear_arith)
        requires
            w >= 0,
            u > 0,
    ;
    let worth = I80F48 { bits: w as i128 };
    assert(p.liab_transfer.spec_mul(
        price_with_fee(liab_price, liab_risk.liquidation_fee).unwrap(),
    ) == Some(worth));
    assert(Some(p.asset_transfer) == div_up_opt(Some(worth), Some(asset_price)));
    lemma_div_up(worth, asset_price);
    let a = p.asset_transfer.bits as int;
    assert(a <= an) by (nonlinear_arith)
        requires
            (a - 1) * pa < w * u,
            w * u <= an * pa,
            pa > 0,
    ;
    crate::bank::lemma_repaying_within_owed(liab_bank, liqee_liab, p.liab_transfer);
    crate::bank::lemma_taking_within_worth(asset_bank, liqee_asset, p.asset_transfer);
    // The asset that moves is worth the liability that moves, with the fee
    // on top, or more.
    let apa = a * pa;
    assert(apa >= w * u);
    vstd::arithmetic::div_mod::lemma_div_is_ordered(w * u, apa, u);
    assert(w * u == u * w) by (nonlinear_arith);
    vstd::arithmetic::div_mod::lemma_div_multiples_vanish(w, u);
    assert(apa / u >= w);
    let pl = liab_price.bits as int;
    let gross = pl * (u + liab_risk.liquidation_fee.bits);
    assert(gross >= pl * u) by (nonlinear_arith)
        requires
            gross == pl * (u + liab_risk.liquidation_fee.bits),
            pl >= 0,
            liab_risk.liquidation_fee.bits >= 0,
    ;
    vstd::arithmetic::div_mod::lemma_div_is_ordered(pl * u, gross, u);
    assert(pl * u == u * pl) by (nonlinear_arith);
    vstd::arithmetic::div_mod::lemma_div_multiples_vanish(pl, u);
    assert(fee_price >= pl);
    let tp = t * pl;
    assert(tp <= t * fee_price) by (nonlinear_arith)
        requires
            tp == t * pl,
            t >= 0,
            pl <= fee_price,
    ;
    vstd::arithmetic::div_mod::lemma_div_is_ordered(tp, t * fee_price, u);
}

/// What the liquidation does within the bound that health sets on the
/// repayment, for an account with maintenance health `health`, which is
/// negative, a deposit `liqee_asset` and a borrow `liqee_liab` that health
/// values at the borrow index `cached_index`. There is none if a number
/// leaves the range of the arithmetic or a price is zero.
pub open spec fn spec_token_liquidation_within(
    health: I80F48,
    cached_index: I80F48,
    liab_risk: RiskParams,
    asset_price: I80F48,
    liab_price: I80F48,
    asset_bank: RootBank,
    liab_bank: RootBank,
    asset_node: NodeBank,
    liab_node: NodeBank,
    liqee_asset: I80F48,
    liqee_liab: I80F48,
    liqor_asset: I80F48,
    liqor_liab: I80F48,
    max_liab_transfer: I80F48,
) -> Option<TokenLiquidation> {
    match spec_deficit_cap(
        health,
        liab_risk.maint_leverage,
        liab_price,
        cached_index,
        liab_bank.borrow_index,
    ) {
        Some(cap) => spec_token_liquidation(
            Some(cap),
            liab_risk,
            asset_price,
            liab_price,
            asset_bank,
            liab_bank,
            asset_node,
            liab_node,
            liqee_asset,
            liqee_liab,
            liqor_asset,
            liqor_liab,
            max_liab_transfer,
        ),
        None => None,
    }
}

/// The state after a liquidation of a token liability against a token asset,
/// and the native tokens of the liability that moved.
pub struct TokenLiquidationOutcome {
    pub liqee: Seq<Position>,
    pub liqor: Seq<Position>,
    pub asset_node: NodeBank,
    pub liab_node: NodeBank,
    pub liab_transfer: I80F48,
}

/// The account with the balances of a liability slot and an asset slot
/// replaced.
pub open spec fn liquidated(
    ledger: Seq<Position>,
    liab: int,
    asset: int,
    liab_balance: I80F48,
    asset_balance: I80F48,
) -> Seq<Position> {
    with_balance(with_balance(ledger, liab, liab_balance), asset, asset_balance)
}

/// The state that a planned liquidation leaves.
pub open spec fn token_liquidation_outcome(
    liqee: Seq<Position>,
    liqor: Seq<Position>,
    liab: int,
    asset: int,
    p: TokenLiquidation,
) -> TokenLiquidationOutcome {
    TokenLiquidationOutcome {
        liqee: liquidated(liqee, liab, asset, p.liqee_liab, p.liqee_asset),
        liqor: liquidated(liqor, liab, asset, p.liqor_liab, p.liqor_asset),
        asset_node: p.asset_node,
        liab_node: p.liab_node,
        liab_transfer: p.liab_transfer,
    }
}

/// What the liquidator's call does: it repays part of the borrow of the
/// account in slot `liab_index` and receives part of its deposit in slot
/// `asset_index`, at the oracle prices with the liquidation fee of the
/// borrowed token on top. It moves the least of what the caller allows, what
/// is owed, what the deposit covers and the estimate of what brings
/// maintenance health up to zero. Where that would leave the account with
/// maintenance health above zero, or below what it was, it moves what the
/// bound that counts every rounding against the liquidation allows instead,
/// and where that would lower the maintenance health of the account,
/// nothing: the account is never left healthier than at zero, nor less
/// healthy than it was. It fails, in this order, with
/// - whatever the computation of the maintenance health of the account fails
///   with,
/// - `NotLiquidatable` if that health is not negative,
/// - `InvalidState` if a slot does not exist, if the two are one, if
///   `max_liab_transfer` is negative, if the asset slot holds no deposit or
///   if the liability slot holds no borrow,
/// - `Fatal` if a number leaves the range of the arithmetic or a price is
///   zero,
/// - whatever the computation of the maintenance health that the account
///   would be left with fails with.
pub open spec fn spec_liquidate_token_and_token(
    group: &Group,
    cache: &Cache,
    liqee: Seq<Position>,
    liqor: Seq<Position>,
    asset_bank: RootBank,
    asset_node: NodeBank,
    liab_bank: RootBank,
    liab_node: NodeBank,
    asset_index: usize,
    liab_index: usize,
    max_liab_transfer: I80F48,
    now: u64,
) -> Result<TokenLiquidationOutcome, MangoError> {
    let a = asset_index as int;
    let l = liab_index as int;
    match spec_health(group, cache, liqee, HealthType::Maint, now) {
        Ok(h) => if h.bits >= 0 {
            Err(MangoError::NotLiquidatable)
        } else if asset_index >= liqee.len() || liab_index >= liqee.len() || asset_index
            == liab_index || max_liab_transfer.bits < 0 || liqee[a].balance.bits <= 0
            || liqee[l].balance.bits >= 0 {
            Err(MangoError::InvalidState)
        } else {
            match spec_net_cap(h, cache@[l].price, group@[l].spot) {
                Some(estimate) => match spec_token_liquidation(
                    estimate,
                    group@[l].spot,
                    cache@[a].price,
                    cache@[l].price,
                    asset_bank,
                    liab_bank,
                    asset_node,
                    liab_node,
                    liqee[a].balance,
                    liqee[l].balance,
                    liqor[a].balance,
                    liqor[l].balance,
                    max_liab_transfer,
                ) {
                    Some(first) => match spec_health(
                        group,
                        cache,
                        liquidated(liqee, l, a, first.liqee_liab, first.liqee_asset),
                        HealthType::Maint,
                        now,
                    ) {
                        Ok(then) => if h.bits <= then.bits <= 0 {
                            Ok(token_liquidation_outcome(liqee, liqor, l, a, first))
                        } else {
                            match spec_token_liquidation_within(
                                h,
                                cache@[l].borrow_index,
                                group@[l].spot,
                                cache@[a].price,
                                cache@[l].price,
                                asset_bank,
                                liab_bank,
                                asset_node,
                                liab_node,
                                liqee[a].balance,
                                liqee[l].balance,
                                liqor[a].balance,
                                liqor[l].balance,
                                max_liab_transfer,
                            ) {
                                Some(second) => match spec_health(
                                    group,
                                    cache,
                                    liquidated(liqee, l, a, second.liqee_liab, second.liqee_asset),
                                    HealthType::Maint,
                                    now,
                                ) {
                                    Ok(again) => if h.bits <= again.bits {
                                        Ok(token_liquidation_outcome(liqee, liqor, l, a, second))
                                    } else {
                                        Ok(
                                            TokenLiquidationOutcome {
                                                liqee,
                                                liqor,
                                                asset_node,
                                                liab_node,
                                                liab_transfer: I80F48 { bits: 0 },
                                            },
                                        )
                                    },
                                    Err(e) => Err(e),
                                },
                                None => Err(MangoError::Fatal),
                            }
                        },
                        Err(e) => Err(e),
                    },
                    None => Err(MangoError::Fatal),
                },
                None => Err(MangoError::Fatal),
            }
        },
        Err(e) => Err(e),
    }
}

/// The liquidator repays part of a borrow of the account and receives part of
/// one of its deposits, at the oracle prices with the liquidation fee of the
/// borrowed token on top. Returns the native tokens of the borrow that moved.
pub fn liquidate_token_and_token(
    group: &Group,
    cache: &Cache,
    liqee: &mut Ledger,
    liqor: &mut Ledger,
    asset_bank: &RootBank,
    asset_node: &mut NodeBank,
    liab_bank: &RootBank,
    liab_node: &mut NodeBank,
    asset_index: usize,
    liab_index: usize,
    max_liab_transfer: I80F48,
    now: u64,
) -> (r: Result<I80F48, MangoError>)
    requires
        aligned(group, cache, old(liqee)),
        aligned(group, cache, old(liqor)),
        old(liqee).wf(),
        old(liqor).wf(),
        old(asset_node).wf(),
        old(liab_node).wf(),
    ensures
        final(liqee).wf(),
        final(liqee).rest_as_in(old(liqee)),
        final(liqor).wf(),
        final(liqor).rest_as_in(old(liqor)),
        final(asset_node).wf(),
        final(liab_node).wf(),
        match spec_liquidate_token_and_token(
            group,
            cache,
            old(liqee)@,
            old(liqor)@,
            *asset_bank,
            *old(asset_node),
            *liab_bank,
            *old(liab_node),
            asset_index,
            liab_index,
            max_liab_transfer,
            now,
        ) {
            Ok(o) => {
                &&& r == Ok::<I80F48, MangoError>(o.liab_transfer)
                &&& final(liqee)@ == o.liqee
                &&& final(liqor)@ == o.liqor
                &&& *final(asset_node) == o.asset_node
                &&& *final(liab_node) == o.liab_node
            },
            Err(e) => {
                &&& r == Err::<I80F48, MangoError>(e)
                &&& final(liqee)@ == old(liqee)@
                &&& final(liqor)@ == old(liqor)@
                &&& *final(asset_node) == *old(asset_node)
                &&& *final(liab_node) == *old(liab_node)
            },
        },
{
    let h: I80F48 = match health(group, cache, liqee, HealthType::Maint, now) {
        Ok(h) => h,
        Err(e) => { return Err(e); },
    };
    if !h.is_negative() {
        return Err(MangoError::NotLiquidatable);
    }
    let n: usize = liqee.slots.len();
    if asset_index >= n || liab_index >= n || asset_index == liab_index
        || max_liab_transfer.is_negative() {
        return Err(MangoError::InvalidState);
    }
    let liqee_asset: I80F48 = liqee.slots[asset_index].balance;
    let liqee_liab: I80F48 = liqee.slots[liab_index].balance;
    if !liqee_asset.is_positive() || !liqee_liab.is_negative() {
        return Err(MangoError::InvalidState);
    }
    let liqor_asset: I80F48 = liqor.slots[asset_index].balance;
    let liqor_liab: I80F48 = liqor.slots[liab_index].balance;
    let liab_risk = &group.slots[liab_index].spot;
    let asset_price: I80F48 = cache.slots[asset_index].price;
    let liab_price: I80F48 = cache.slots[liab_index].price;
    let estimate: Option<I80F48> = match net_cap(h, liab_price, liab_risk) {
        Some(c) => c,
        None => { return Err(MangoError::Fatal); },
    };
    let first = match plan_token_liquidation(
        estimate,
        liab_risk,
        asset_price,
        liab_price,
        asset_bank,
        liab_bank,
        asset_node,
        liab_node,
        liqee_asset,
        liqee_liab,
        liqor_asset,
        liqor_liab,
        max_liab_transfer,
    ) {
        Some(p) => p,
        None => { return Err(MangoError::Fatal); },
    };
    // Try what the estimate allows on the account, and keep it if it leaves
    // the account no healthier than at zero and no less healthy than it was.
    set_balance(liqee, liab_index, first.liqee_liab);
    set_balance(liqee, asset_index, first.liqee_asset);
    let then = health(group, cache, liqee, HealthType::Maint, now);
    let plan: TokenLiquidation = match then {
        Ok(x) => if h.bits <= x.bits && !x.is_positive() {
            first
        } else {
            let cap: Option<I80F48> = deficit_cap(
                h,
                liab_risk.maint_leverage,
                liab_price,
                cache.slots[liab_index].borrow_index,
                liab_bank.borrow_index,
            );
            let second: Option<TokenLiquidation> = match cap {
                Some(c) => plan_token_liquidation(
                    Some(c),
                    liab_risk,
                    asset_price,
                    liab_price,
                    asset_bank,
                    liab_bank,
                    asset_node,
                    liab_node,
                    liqee_asset,
                    liqee_liab,
                    liqor_asset,
                    liqor_liab,
                    max_liab_transfer,
                ),
                None => None,
            };
            match second {
                Some(p) => {
                    set_balance(liqee, liab_index, p.liqee_liab);
                    set_balance(liqee, asset_index, p.liqee_asset);
                    assert(liqee@ =~= liquidated(
                        old(liqee)@,
                        liab_index as int,
                        asset_index as int,
                        p.liqee_liab,
                        p.liqee_asset,
                    ));
                    match health(group, cache, liqee, HealthType::Maint, now) {
                        Ok(again) => if h.bits <= again.bits {
                            p
                        } else {
                            set_balance(liqee, liab_index, liqee_liab);
                            set_balance(liqee, asset_index, liqee_asset);
                            assert(liqee@ =~= old(liqee)@);
                            return Ok(I80F48::zero());
                        },
                        Err(e) => {
                            set_balance(liqee, liab_index, liqee_liab);
                            set_balance(liqee, asset_index, liqee_asset);
                            assert(liqee@ =~= old(liqee)@);
                            return Err(e);
                        },
                    }
                },
                None => {
                    set_balance(liqee, liab_index, liqee_liab);
                    set_balance(liqee, asset_index, liqee_asset);
                    assert(liqee@ =~= old(liqee)@);
                    return Err(MangoError::Fatal);
                },
            }
        },
        Err(e) => {
            set_balance(liqee, liab_index, liqee_liab);
            set_balance(liqee, asset_index, liqee_asset);
            assert(liqee@ =~= old(liqee)@);
            return Err(e);
        },
    };
    set_balance(liqor, liab_index, plan.liqor_liab);
    set_balance(liqor, asset_index, plan.liqor_asset);
    *asset_node = plan.asset_node;
    *liab_node = plan.liab_node;
    Ok(plan.liab_transfer)
}

/// The bound that health sets is not negative.
proof fn lemma_deficit_cap_nonnegative(
    health: I80F48,
    weight: I80F48,
    price: I80F48,
    cached_index: I80F48,
    index: I80F48,
)
    requires
        cached_index.bits > 0,
        index.bits > 0,
        spec_deficit_cap(health, weight, price, cached_index, index) is Some,
    ensures
        spec_deficit_cap(health, weight, price, cached_index, index).unwrap().bits >= 0,
{
    let value = spec_factor_below((I80F48 { bits: 0 }).spec_sub(health), weight);
    let native = spec_factor_below(value, price).unwrap();
    let scaled = spec_factor_below(Some(native), cached_index).unwrap();
    lemma_factor_below(native, cached_index);
    crate::fixed_point::lemma_mul_nonnegative(scaled, index);
}

/// A liquidation of a token against a token never leaves the account
/// healthier than zero maintenance health, nor less healthy than it was:
/// whenever the call succeeds, the maintenance health of the account as it
/// then stands is zero or less, and what it was before the call or more.
pub proof fn lemma_token_liquidation_does_not_overshoot(
    group: &Group,
    cache: &Cache,
    liqee: Seq<Position>,
    liqor: Seq<Position>,
    asset_bank: RootBank,
    asset_node: NodeBank,
    liab_bank: RootBank,
    liab_node: NodeBank,
    asset_index: usize,
    liab_index: usize,
    max_liab_transfer: I80F48,
    now: u64,
)
    requires
        group.wf(),
        cache.wf(),
        group@.len() == liqee.len(),
        cache@.len() == liqee.len(),
        forall|i: int| 0 <= i < liqee.len() ==> (#[trigger] liqee[i]).wf(),
        asset_bank.wf(),
        liab_bank.wf(),
        spec_liquidate_token_and_token(
            group,
            cache,
            liqee,
            liqor,
            asset_bank,
            asset_node,
            liab_bank,
            liab_node,
            asset_index,
            liab_index,
            max_liab_transfer,
            now,
        ) is Ok,
    ensures
        ({
            let o = spec_liquidate_token_and_token(
                group,
                cache,
                liqee,
                liqor,
                asset_bank,
                asset_node,
                liab_bank,
                liab_node,
                asset_index,
                liab_index,
                max_liab_transfer,
                now,
            ).unwrap();
            &&& spec_health(group, cache, liqee, HealthType::Maint, now) matches Ok(before)
            &&& spec_health(group, cache, o.liqee, HealthType::Maint, now) matches Ok(after)
            &&& before.bits <= after.bits <= 0
        }),
{
    let o = spec_liquidate_token_and_token(
        group,
        cache,
        liqee,
        liqor,
        asset_bank,
        asset_node,
        liab_bank,
        liab_node,
        asset_index,
        liab_index,
        max_liab_transfer,
        now,
    ).unwrap();
    let h = spec_health(group, cache, liqee, HealthType::Maint, now).unwrap();
    let a = asset_index as int;
    let l = liab_index as int;
    assert(group@[l].wf() && group@[a].wf());
    assert(cache@[l].wf() && cache@[a].wf());
    assert(liqee[l].wf() && liqee[a].wf());
    let first = spec_token_liquidation(
        spec_net_cap(h, cache@[l].price, group@[l].spot).unwrap(),
        group@[l].spot,
        cache@[a].price,
        cache@[l].price,
        asset_bank,
        liab_bank,
        asset_node,
        liab_node,
        liqee[a].balance,
        liqee[l].balance,
        liqor[a].balance,
        liqor[l].balance,
        max_liab_transfer,
    ).unwrap();
    let tried = liquidated(liqee, l, a, first.liqee_liab, first.liqee_asset);
    let then = spec_health(group, cache, tried, HealthType::Maint, now).unwrap();
    if h.bits <= then.bits <= 0 {
        // What the estimate allows was held against the health it leaves.
        assert(o.liqee == tried);
    } else {
        let p = spec_token_liquidation_within(
            h,
            cache@[l].borrow_index,
            group@[l].spot,
            cache@[a].price,
            cache@[l].price,
            asset_bank,
            liab_bank,
            asset_node,
            liab_node,
            liqee[a].balance,
            liqee[l].balance,
            liqor[a].balance,
            liqor[l].balance,
            max_liab_transfer,
        ).unwrap();
        let after_l = Position { balance: p.liqee_liab, ..liqee[l] };
        let after_a = Position { balance: p.liqee_asset, ..liqee[a] };
        let bounded = liquidated(liqee, l, a, p.liqee_liab, p.liqee_asset);
        let again = spec_health(group, cache, bounded, HealthType::Maint, now).unwrap();
        if h.bits <= again.bits {
            assert(o.liqee == bounded);
        } else {
            assert(o.liqee == liqee);
        }
        assert(bounded[l] == after_l);
        assert(bounded[a] == after_a);
        assert(bounded.len() == liqee.len());
        assert(forall|m: int| 0 <= m < liqee.len() && m != l && m != a ==> bounded[m] == liqee[m]);
        if h.bits <= again.bits {
            lemma_liquidated_slots_gain(
                h,
                group@[l],
                group@[a],
                cache@[l],
                cache@[a],
                asset_bank,
                liab_bank,
                asset_node,
                liab_node,
                liqee[a],
                liqee[l],
                liqor[a].balance,
                liqor[l].balance,
                max_liab_transfer,
            );
            crate::health::lemma_health_of_two_changed_slots(
                group@,
                cache@,
                liqee,
                bounded,
                HealthType::Maint,
                liqee.len(),
                l,
                a,
                -h.bits,
                0,
            );
        }
    }
}

/// What the two slots of a liquidation add to health afterwards: the slot
/// of the borrow at most the shortfall of health more than before, and the
/// slot of the deposit no more than before.
proof fn lemma_liquidated_slots_gain(
    health: I80F48,
    liab_slot: Slot,
    asset_slot: Slot,
    liab_cache: CacheSlot,
    asset_cache: CacheSlot,
    asset_bank: RootBank,
    liab_bank: RootBank,
    asset_node: NodeBank,
    liab_node: NodeBank,
    asset: Position,
    liab: Position,
    liqor_asset: I80F48,
    liqor_liab: I80F48,
    max_liab_transfer: I80F48,
)
    requires
        liab_slot.wf(),
        asset_slot.wf(),
        liab_cache.wf(),
        asset_cache.wf(),
        asset_bank.wf(),
        liab_bank.wf(),
        health.bits < 0,
        asset.in_basket,
        liab.in_basket,
        asset.balance.bits > 0,
        liab.balance.bits < 0,
        max_liab_transfer.bits >= 0,
        spec_token_liquidation_within(
            health,
            liab_cache.borrow_index,
            liab_slot.spot,
            asset_cache.price,
            liab_cache.price,
            asset_bank,
            liab_bank,
            asset_node,
            liab_node,
            asset.balance,
            liab.balance,
            liqor_asset,
            liqor_liab,
            max_liab_transfer,
        ) is Some,
    ensures
        ({
            let p = spec_token_liquidation_within(
                health,
                liab_cache.borrow_index,
                liab_slot.spot,
                asset_cache.price,
                liab_cache.price,
                asset_bank,
                liab_bank,
                asset_node,
                liab_node,
                asset.balance,
                liab.balance,
                liqor_asset,
                liqor_liab,
                max_liab_transfer,
            ).unwrap();
            let ty = HealthType::Maint;
            let liab_before = slot_health(liab, liab_slot, liab_cache, ty);
            let liab_after = slot_health(
                Position { balance: p.liqee_liab, ..liab },
                liab_slot,
                liab_cache,
                ty,
            );
            let asset_before = slot_health(asset, asset_slot, asset_cache, ty);
            let asset_after = slot_health(
                Position { balance: p.liqee_asset, ..asset },
                asset_slot,
                asset_cache,
                ty,
            );
            &&& liab_before is Some && liab_after is Some ==> liab_after.unwrap().bits
                <= liab_before.unwrap().bits - health.bits
            &&& asset_before is Some && asset_after is Some ==> asset_after.unwrap().bits
                <= asset_before.unwrap().bits
        }),
{
    let ty = HealthType::Maint;
    let w = liab_slot.spot.maint_leverage;
    let cap = spec_deficit_cap(
        health,
        w,
        liab_cache.price,
        liab_cache.borrow_index,
        liab_bank.borrow_index,
    ).unwrap();
    let p = spec_token_liquidation(
        Some(cap),
        liab_slot.spot,
        asset_cache.price,
        liab_cache.price,
        asset_bank,
        liab_bank,
        asset_node,
        liab_node,
        asset.balance,
        liab.balance,
        liqor_asset,
        liqor_liab,
        max_liab_transfer,
    ).unwrap();
    assert(spec_token_liquidation_within(
        health,
        liab_cache.borrow_index,
        liab_slot.spot,
        asset_cache.price,
        liab_cache.price,
        asset_bank,
        liab_bank,
        asset_node,
        liab_node,
        asset.balance,
        liab.balance,
        liqor_asset,
        liqor_liab,
        max_liab_transfer,
    ) == Some(p));
    lemma_token_liquidation_within_bounds(
        Some(cap),
        liab_slot.spot,
        asset_cache.price,
        liab_cache.price,
        asset_bank,
        liab_bank,
        asset_node,
        liab_node,
        asset.balance,
        liab.balance,
        liqor_asset,
        liqor_liab,
        max_liab_transfer,
    );
    lemma_deficit_cap_nonnegative(
        health,
        w,
        liab_cache.price,
        liab_cache.borrow_index,
        liab_bank.borrow_index,
    );
    assert(0 <= p.liab_transfer.bits <= cap.bits);
    assert(liab_bank.credited(liab.balance, p.liab_transfer) == Some(p.liqee_liab));
    assert(asset_bank.debited(asset.balance, p.asset_transfer) == Some(p.liqee_asset));
    if slot_health(liab, liab_slot, liab_cache, ty) is Some && slot_health(
        Position { balance: p.liqee_liab, ..liab },
        liab_slot,
        liab_cache,
        ty,
    ) is Some {
        lemma_repaid_slot_gains(
            liab,
            p.liqee_liab,
            liab_slot,
            liab_cache,
            health,
            cap,
            liab_bank,
            p.liab_transfer,
        );
        assert(slot_health(
            Position { balance: p.liqee_liab, ..liab },
            liab_slot,
            liab_cache,
            ty,
        ).unwrap().bits <= slot_health(liab, liab_slot, liab_cache, ty).unwrap().bits
            - health.bits);
    }
    if slot_health(asset, asset_slot, asset_cache, ty) is Some && slot_health(
        Position { balance: p.liqee_asset, ..asset },
        asset_slot,
        asset_cache,
        ty,
    ) is Some {
        crate::bank::lemma_taking_lowers(asset_bank, asset.balance, p.asset_transfer);
        crate::health::lemma_slot_health_follows_balance(
            asset,
            p.liqee_asset,
            asset_slot,
            asset_cache,
            ty,
        );
        crate::health::lemma_token_health_monotone(
            p.liqee_asset,
            asset.balance,
            asset_cache,
            asset_slot.spot.maint_leverage,
        );
        assert(asset_slot.spot.spec_weight(ty) == asset_slot.spot.maint_leverage);
        assert(slot_health(
            Position { balance: p.liqee_asset, ..asset },
            asset_slot,
            asset_cache,
            ty,
        ).unwrap().bits <= slot_health(asset, asset_slot, asset_cache, ty).unwrap().bits);
    }
}

/// The slot of a borrow that was repaid within the bound that health sets
/// adds to health at most the shortfall more than before.
proof fn lemma_repaid_slot_gains(
    p: Position,
    after: I80F48,
    s: Slot,
    c: CacheSlot,
    health: I80F48,
    cap: I80F48,
    bank: RootBank,
    repaid: I80F48,
)
    requires
        p.in_basket,
        s.wf(),
        c.wf(),
        bank.wf(),
        health.bits < 0,
        p.balance.bits < 0,
        spec_deficit_cap(health, s.spot.maint_leverage, c.price, c.borrow_index, bank.borrow_index)
            == Some(cap),
        0 <= repaid.bits <= cap.bits,
        bank.credited(p.balance, repaid) == Some(after),
        after.bits <= 0,
        slot_health(p, s, c, HealthType::Maint) is Some,
        slot_health(Position { balance: after, ..p }, s, c, HealthType::Maint) is Some,
    ensures
        slot_health(Position { balance: after, ..p }, s, c, HealthType::Maint).unwrap().bits
            <= slot_health(p, s, c, HealthType::Maint).unwrap().bits - health.bits,
{
    let w = s.spot.maint_leverage;
    crate::bank::lemma_repaying_raises_by(bank, p.balance, repaid);
    crate::health::lemma_slot_health_follows_balance(p, after, s, c, HealthType::Maint);
    lemma_borrow_health(p.balance, c, w);
    lemma_borrow_health(after, c, w);
    lemma_deficit_cap_does_not_overshoot(
        health,
        w,
        c.price,
        c.borrow_index,
        bank.borrow_index,
        p.balance.bits as int,
        after.bits as int,
        repaid.bits as int,
    );
}

/// A liquidation succeeds only on an account that can be liquidated: whenever
/// a liquidation of a token against a token succeeds, the account had
/// negative maintenance health and held assets.
pub proof fn lemma_liquidation_needs_its_state(
    group: &Group,
    cache: &Cache,
    liqee: Seq<Position>,
    liqor: Seq<Position>,
    asset_bank: RootBank,
    asset_node: NodeBank,
    liab_bank: RootBank,
    liab_node: NodeBank,
    asset_index: usize,
    liab_index: usize,
    max_liab_transfer: I80F48,
    now: u64,
)
    requires
        spec_liquidate_token_and_token(
            group,
            cache,
            liqee,
            liqor,
            asset_bank,
            asset_node,
            liab_bank,
            liab_node,
            asset_index,
            liab_index,
            max_liab_transfer,
            now,
        ) is Ok,
    ensures
        spec_liquidation_state(group, cache, liqee, now) == Ok::<LiquidationState, MangoError>(
            LiquidationState::Liquidatable,
        ),
{
    assert(liqee[asset_index as int].balance.bits > 0);
}

/// The base lots that a liquidator takes over: as many as it asks for, at
/// most the whole position, and none unless it asks in the direction of the
/// position.
pub open spec fn spec_base_transfer(base_position: i64, request: i64) -> Option<i64> {
    if base_position > 0 && request > 0 {
        Some(
            if request <= base_position {
                request
            } else {
                base_position
            },
        )
    } else if base_position < 0 && request < 0 {
        Some(
            if request >= base_position {
                request
            } else {
                base_position
            },
        )
    } else {
        None
    }
}

/// The lots that a liquidator takes over go in the direction of the
/// position and are never more than it asked for nor more than the
/// position holds.
pub proof fn lemma_base_transfer_within_bounds(base_position: i64, request: i64)
    ensures
        spec_base_transfer(base_position, request) matches Some(lots) ==> {
            &&& base_position > 0 ==> 0 < lots <= request && lots <= base_position
            &&& base_position < 0 ==> request <= lots < 0 && base_position <= lots
        },
{
}

/// The quote currency that the account receives for `lots` base lots, which
/// it pays if that is negative: the lots at the oracle price, less the
/// liquidation fee on what they are worth, which is rounded down.
pub open spec fn spec_liquidation_quote(
    lots: i64,
    base_lot_size: i64,
    price: I80F48,
    fee: I80F48,
) -> Option<I80F48> {
    let notional = mul_opt(checked(lots * base_lot_size * unit()), Some(price));
    let worth = if lots >= 0 {
        notional
    } else {
        sub_opt(Some(I80F48 { bits: 0 }), notional)
    };
    sub_opt(notional, mul_opt(worth, Some(fee)))
}

/// The two positions after `lots` base lots moved from the first to the
/// second for `quote`.
pub open spec fn spec_move_lots(
    from: PerpPosition,
    to: PerpPosition,
    lots: i64,
    quote: I80F48,
) -> Option<(PerpPosition, PerpPosition)> {
    match (from.quote_position.spec_add(quote), to.quote_position.spec_sub(quote)) {
        (Some(fq), Some(tq)) => if i64::MIN <= to.base_position + lots <= i64::MAX && i64::MIN
            <= from.base_position - lots <= i64::MAX {
            Some(
                (
                    PerpPosition {
                        base_position: (from.base_position - lots) as i64,
                        quote_position: fq,
                        ..from
                    },
                    PerpPosition {
                        base_position: (to.base_position + lots) as i64,
                        quote_position: tq,
                        ..to
                    },
                ),
            )
        } else {
            None
        },
        _ => None,
    }
}

/// Lots and quote currency that move between two positions are neither made
/// nor destroyed: what one position gains the other loses.
pub proof fn lemma_move_lots_conserves(
    from: PerpPosition,
    to: PerpPosition,
    lots: i64,
    quote: I80F48,
)
    requires
        spec_move_lots(from, to, lots, quote) is Some,
    ensures
        ({
            let (f, t) = spec_move_lots(from, to, lots, quote).unwrap();
            &&& f.base_position + t.base_position == from.base_position + to.base_position
            &&& f.quote_position.bits + t.quote_position.bits == from.quote_position.bits
                + to.quote_position.bits
        }),
{
}

/// The state after a liquidator took over base lots of a perp position, and
/// the lots that moved.
pub struct PerpLiquidationOutcome {
    pub liqee: Seq<Position>,
    pub liqor: Seq<Position>,
    pub base_transfer: i64,
}

/// What the liquidator's call on the perp position in slot `market_index`
/// does. Both positions first settle their funding. Then the liquidator
/// takes over base lots of the account at the oracle price, with the
/// liquidation fee of the market in its favour. It fails, in this order,
/// with
/// - whatever the computation of the maintenance health of the account fails
///   with,
/// - `NotLiquidatable` if that health is not negative,
/// - `InvalidState` if the slot does not exist,
/// - `Fatal` if the funding cannot be settled within the range of the
///   arithmetic,
/// - whatever the computation of the maintenance health of the account with
///   its funding settled fails with,
/// - `NotLiquidatable` if that health is not negative,
/// - `InvalidState` if the request is not in the direction of the position,
/// - `Fatal` if a number leaves its range.
pub open spec fn spec_liquidate_perp_market(
    group: &Group,
    cache: &Cache,
    liqee: Seq<Position>,
    liqor: Seq<Position>,
    market_index: usize,
    base_transfer_request: i64,
    now: u64,
) -> Result<PerpLiquidationOutcome, MangoError> {
    let i = market_index as int;
    match spec_health(group, cache, liqee, HealthType::Maint, now) {
        Ok(h) => if h.bits >= 0 {
            Err(MangoError::NotLiquidatable)
        } else if market_index >= liqee.len() {
            Err(MangoError::InvalidState)
        } else {
                match (
                    spec_settle_funding(
                        liqee[i].perp,
                        cache@[i].long_funding,
                        cache@[i].short_funding,
                    ),
                    spec_settle_funding(
                        liqor[i].perp,
                        cache@[i].long_funding,
                        cache@[i].short_funding,
                    ),
                ) {
                    (Some(from), Some(to)) => match spec_health(
                        group,
                        cache,
                        with_perp(liqee, i, from),
                        HealthType::Maint,
                        now,
                    ) {
                        Ok(settled) => if settled.bits >= 0 {
                            Err(MangoError::NotLiquidatable)
                        } else {
                            match spec_base_transfer(from.base_position, base_transfer_request) {
                                Some(lots) => match spec_liquidation_quote(
                                    lots,
                                    group@[i].base_lot_size,
                                    cache@[i].price,
                                    group@[i].perp.liquidation_fee,
                                ) {
                                    Some(quote) => match spec_move_lots(from, to, lots, quote) {
                                        Some((f, t)) => Ok(
                                            PerpLiquidationOutcome {
                                                liqee: with_perp(liqee, i, f),
                                                liqor: with_perp(liqor, i, t),
                                                base_transfer: lots,
                                            },
                                        ),
                                        None => Err(MangoError::Fatal),
                                    },
                                    None => Err(MangoError::Fatal),
                                },
                                None => Err(MangoError::InvalidState),
                            }
                        },
                        Err(e) => Err(e),
                    },
                    _ => Err(MangoError::Fatal),
                }
            },
            Err(e) => Err(e),
    }
}

fn base_transfer(base_position: i64, request: i64) -> (r: Option<i64>)
    ensures
        r == spec_base_transfer(base_position, request),
{
    if base_position > 0 && request > 0 {
        Some(
            if request <= base_position {
                request
            } else {
                base_position
            },
        )
    } else if base_position < 0 && request < 0 {
        Some(
            if request >= base_position {
                request
            } else {
                base_position
            },
        )
    } else {
        None
    }
}

fn liquidation_quote(lots: i64, base_lot_size: i64, price: I80F48, fee: I80F48) -> (r: Option<
    I80F48,
>)
    ensures
        r == spec_liquidation_quote(lots, base_lot_size, price, fee),
{
    assert(-0x4000_0000_0000_0000_0000_0000_0000_0000 <= lots * base_lot_size
        <= 0x4000_0000_0000_0000_0000_0000_0000_0000) by (nonlinear_arith)
        requires
            -0x8000_0000_0000_0000 <= lots <= 0x8000_0000_0000_0000,
            -0x8000_0000_0000_0000 <= base_lot_size <= 0x8000_0000_0000_0000,
    ;
    let native: i128 = (lots as i128) * (base_lot_size as i128);
    let size: Option<I80F48> = match native.checked_mul(0x1_0000_0000_0000) {
        Some(bits) => Some(I80F48 { bits }),
        None => None,
    };
    let notional = try_mul(size, Some(price));
    let worth = if lots >= 0 {
        notional
    } else {
        try_sub(Some(I80F48::zero()), notional)
    };
    try_sub(notional, try_mul(worth, Some(fee)))
}

fn move_lots(from: &PerpPosition, to: &PerpPosition, lots: i64, quote: I80F48) -> (r: Option<
    (PerpPosition, PerpPosition),
>)
    ensures
        r == spec_move_lots(*from, *to, lots, quote),
{
    match (
        from.quote_position.checked_add(quote),
        to.quote_position.checked_sub(quote),
        from.base_position.checked_sub(lots),
        to.base_position.checked_add(lots),
    ) {
        (Some(fq), Some(tq), Some(fb), Some(tb)) => {
            let mut f: PerpPosition = *from;
            f.base_position = fb;
            f.quote_position = fq;
            let mut t: PerpPosition = *to;
            t.base_position = tb;
            t.quote_position = tq;
            Some((f, t))
        },
        _ => None,
    }
}

/// The liquidator takes over base lots of a perp position of the account,
/// `base_transfer_request` of them at most, at the oracle price with the
/// liquidation fee in its favour. Returns the lots that moved.
pub fn liquidate_perp_market(
    group: &Group,
    cache: &Cache,
    liqee: &mut Ledger,
    liqor: &mut Ledger,
    market_index: usize,
    base_transfer_request: i64,
    now: u64,
) -> (r: Result<i64, MangoError>)
    requires
        aligned(group, cache, old(liqee)),
        aligned(group, cache, old(liqor)),
        old(liqee).wf(),
        old(liqor).wf(),
    ensures
        final(liqee).wf(),
        final(liqee).rest_as_in(old(liqee)),
        final(liqor).wf(),
        final(liqor).rest_as_in(old(liqor)),
        match spec_liquidate_perp_market(
            group,
            cache,
            old(liqee)@,
            old(liqor)@,
            market_index,
            base_transfer_request,
            now,
        ) {
            Ok(o) => {
                &&& r == Ok::<i64, MangoError>(o.base_transfer)
                &&& final(liqee)@ == o.liqee
                &&& final(liqor)@ == o.liqor
            },
            Err(e) => {
                &&& r == Err::<i64, MangoError>(e)
                &&& final(liqee)@ == old(liqee)@
                &&& final(liqor)@ == old(liqor)@
            },
        },
{
    let h: I80F48 = match health(group, cache, liqee, HealthType::Maint, now) {
        Ok(h) => h,
        Err(e) => { return Err(e); },
    };
    if !h.is_negative() {
        return Err(MangoError::NotLiquidatable);
    }
    if market_index >= liqee.slots.len() {
        return Err(MangoError::InvalidState);
    }
    let c = &cache.slots[market_index];
    let (from, to): (PerpPosition, PerpPosition) = match (
        settle_funding(&liqee.slots[market_index].perp, c.long_funding, c.short_funding),
        settle_funding(&liqor.slots[market_index].perp, c.long_funding, c.short_funding),
    ) {
        (Some(f), Some(t)) => (f, t),
        _ => { return Err(MangoError::Fatal); },
    };
    let kept: Position = liqee.slots[market_index];
    set_perp(liqee, market_index, from);
    let settled = health(group, cache, liqee, HealthType::Maint, now);
    liqee.slots[market_index] = kept;
    assert(liqee@ =~= old(liqee)@);
    match settled {
        Ok(x) => if !x.is_negative() {
            return Err(MangoError::NotLiquidatable);
        },
        Err(e) => { return Err(e); },
    }
    let lots: i64 = match base_transfer(from.base_position, base_transfer_request) {
        Some(l) => l,
        None => { return Err(MangoError::InvalidState); },
    };
    let quote: I80F48 = match liquidation_quote(
        lots,
        group.slots[market_index].base_lot_size,
        c.price,
        group.slots[market_index].perp.liquidation_fee,
    ) {
        Some(q) => q,
        None => { return Err(MangoError::Fatal); },
    };
    match move_lots(&from, &to, lots, quote) {
        Some((f, t)) => {
            set_perp(liqee, market_index, f);
            set_perp(liqor, market_index, t);
            Ok(lots)
        },
        None => Err(MangoError::Fatal),
    }
}

/// What a liquidation of a token against a perp balance does to the two
/// balances and the two perp positions that it touches.
pub struct TokenPerpLiquidation {
    /// What the liquidator takes over of the liability: native tokens of a
    /// borrow, or quote currency of a perp balance.
    pub liab_transfer: I80F48,
    /// What the liquidator receives of the asset: native tokens of a
    /// deposit, or quote currency of a perp balance.
    pub asset_transfer: I80F48,
    pub liqee_balance: I80F48,
    pub liqor_balance: I80F48,
    pub liqee_perp: PerpPosition,
    pub liqor_perp: PerpPosition,
    pub node: NodeBank,
}

/// The position with its quote balance raised by `quote`.
pub open spec fn spec_quote_added(p: PerpPosition, quote: Option<I80F48>) -> Option<PerpPosition> {
    match add_opt(Some(p.quote_position), quote) {
        Some(q) => Some(PerpPosition { quote_position: q, ..p }),
        None => None,
    }
}

/// The position with its quote balance lowered by `quote`.
pub open spec fn spec_quote_taken(p: PerpPosition, quote: Option<I80F48>) -> Option<PerpPosition> {
    match sub_opt(Some(p.quote_position), quote) {
        Some(q) => Some(PerpPosition { quote_position: q, ..p }),
        None => None,
    }
}

/// The liquidation of a perp balance that owes against a deposit: the
/// liquidator pays quote currency into the perp position and receives
/// tokens of the deposit at the oracle price, with the fee on top, rounded
/// up.
pub open spec fn spec_perp_liab_liquidation(
    health: I80F48,
    risk: RiskParams,
    asset_price: I80F48,
    bank: RootBank,
    node: NodeBank,
    liqee_balance: I80F48,
    liqor_balance: I80F48,
    liqee_perp: PerpPosition,
    liqor_perp: PerpPosition,
    max_liab_transfer: I80F48,
) -> Option<TokenPerpLiquidation> {
    let par = I80F48 { bits: unit() as i128 };
    let with_fee = par.spec_add(risk.liquidation_fee);
    match (
        I80F48 { bits: 0 }.spec_sub(liqee_perp.quote_position),
        div_opt(mul_opt(bank.spec_native(liqee_balance), Some(asset_price)), with_fee),
        spec_net_cap(health, par, risk),
    ) {
        (Some(owed), Some(asset_cap), Some(deficit_cap)) => {
            let t = spec_transfer_amount(max_liab_transfer, owed, asset_cap, deficit_cap);
            match div_up_opt(mul_opt(Some(t), with_fee), Some(asset_price)) {
                Some(a) => match (
                    bank.debited(liqee_balance, a),
                    bank.credited(liqor_balance, a),
                    spec_quote_added(liqee_perp, Some(t)),
                    spec_quote_taken(liqor_perp, Some(t)),
                ) {
                    (Some(lb), Some(rb), Some(lp), Some(rp)) => match rebalanced_twice(
                        node,
                        liqee_balance,
                        lb,
                        liqor_balance,
                        rb,
                    ) {
                        Some(n) => Some(
                            TokenPerpLiquidation {
                                liab_transfer: t,
                                asset_transfer: a,
                                liqee_balance: lb,
                                liqor_balance: rb,
                                liqee_perp: lp,
                                liqor_perp: rp,
                                node: n,
                            },
                        ),
                        None => None,
                    },
                    _ => None,
                },
                None => None,
            }
        },
        _ => None,
    }
}

/// The liquidation of a borrow against a perp balance in the account's
/// favour: the liquidator repays tokens of the borrow and receives quote
/// currency of the perp position at the oracle price, with the fee on top.
pub open spec fn spec_token_liab_liquidation(
    health: I80F48,
    risk: RiskParams,
    liab_price: I80F48,
    bank: RootBank,
    node: NodeBank,
    liqee_balance: I80F48,
    liqor_balance: I80F48,
    liqee_perp: PerpPosition,
    liqor_perp: PerpPosition,
    max_liab_transfer: I80F48,
) -> Option<TokenPerpLiquidation> {
    let fee_price = price_with_fee(liab_price, risk.liquidation_fee);
    match (
        sub_opt(Some(I80F48 { bits: 0 }), bank.spec_native(liqee_balance)),
        div_opt(Some(liqee_perp.quote_position), fee_price),
        spec_net_cap(health, liab_price, risk),
    ) {
        (Some(owed), Some(asset_cap), Some(deficit_cap)) => {
            let t = spec_transfer_amount(max_liab_transfer, owed, asset_cap, deficit_cap);
            let quote = mul_opt(Some(t), fee_price);
            match (
                bank.credited(liqee_balance, t),
                bank.debited(liqor_balance, t),
                spec_quote_taken(liqee_perp, quote),
                spec_quote_added(liqor_perp, quote),
            ) {
                (Some(lb), Some(rb), Some(lp), Some(rp)) => match rebalanced_twice(
                    node,
                    liqee_balance,
                    lb,
                    liqor_balance,
                    rb,
                ) {
                    Some(n) => Some(
                        TokenPerpLiquidation {
                            liab_transfer: t,
                            asset_transfer: quote.unwrap(),
                            liqee_balance: lb,
                            liqor_balance: rb,
                            liqee_perp: lp,
                            liqor_perp: rp,
                            node: n,
                        },
                    ),
                    None => None,
                },
                _ => None,
            }
        },
        _ => None,
    }
}

/// The liquidator does not lose by a liquidation of a token against a perp
/// balance: what it receives is worth, at the oracle price, at least what
/// it takes over. Against a perp balance that owes it receives tokens worth
/// the quote currency that it pays or more, and against a borrow it
/// receives quote currency for the tokens that it repays, their worth or
/// more.
pub proof fn lemma_token_perp_liquidation_favours_the_liquidator(
    health: I80F48,
    risk: RiskParams,
    price: I80F48,
    bank: RootBank,
    node: NodeBank,
    liqee_balance: I80F48,
    liqor_balance: I80F48,
    liqee_perp: PerpPosition,
    liqor_perp: PerpPosition,
    max_liab_transfer: I80F48,
)
    requires
        risk.wf(),
        price.bits >= 0,
    ensures
        spec_perp_liab_liquidation(
            health,
            risk,
            price,
            bank,
            node,
            liqee_balance,
            liqor_balance,
            liqee_perp,
            liqor_perp,
            max_liab_transfer,
        ) matches Some(p) ==> 0 <= p.liab_transfer.bits <= (p.asset_transfer.bits * price.bits)
            / unit(),
        spec_token_liab_liquidation(
            health,
            risk,
            price,
            bank,
            node,
            liqee_balance,
            liqor_balance,
            liqee_perp,
            liqor_perp,
            max_liab_transfer,
        ) matches Some(p) ==> 0 <= (p.liab_transfer.bits * price.bits) / unit()
            <= p.asset_transfer.bits,
{
    let u = unit();
    let f = risk.liquidation_fee.bits as int;
    let pr = price.bits as int;
    let first = spec_perp_liab_liquidation(
        health,
        risk,
        price,
        bank,
        node,
        liqee_balance,
        liqor_balance,
        liqee_perp,
        liqor_perp,
        max_liab_transfer,
    );
    if first is Some {
        let p = first.unwrap();
        let t = p.liab_transfer.bits as int;
        let a = p.asset_transfer.bits as int;
        let with_fee = (I80F48 { bits: u as i128 }).spec_add(risk.liquidation_fee).unwrap();
        let worth = p.liab_transfer.spec_mul(with_fee).unwrap();
        let w = worth.bits as int;
        let gross = t * (u + f);
        assert(gross >= t * u) by (nonlinear_arith)
            requires
                gross == t * (u + f),
                t >= 0,
                f >= 0,
        ;
        assert(t * u >= 0) by (nonlinear_arith)
            requires
                t >= 0,
                u > 0,
        ;
        vstd::arithmetic::div_mod::lemma_div_is_ordered(t * u, gross, u);
        assert(t * u == u * t) by (nonlinear_arith);
        vstd::arithmetic::div_mod::lemma_div_multiples_vanish(t, u);
        assert(w >= t);
        lemma_div_up(worth, price);
        let apr = a * pr;
        vstd::arithmetic::div_mod::lemma_div_is_ordered(w * u, apr, u);
        assert(w * u == u * w) by (nonlinear_arith);
        vstd::arithmetic::div_mod::lemma_div_multiples_vanish(w, u);
    }
    let second = spec_token_liab_liquidation(
        health,
        risk,
        price,
        bank,
        node,
        liqee_balance,
        liqor_balance,
        liqee_perp,
        liqor_perp,
        max_liab_transfer,
    );
    if second is Some {
        let p = second.unwrap();
        let t = p.liab_transfer.bits as int;
        let fee_price = price_with_fee(price, risk.liquidation_fee).unwrap().bits as int;
        let gross = pr * (u + f);
        assert(gross >= pr * u) by (nonlinear_arith)
            requires
                gross == pr * (u + f),
                pr >= 0,
                f >= 0,
        ;
        vstd::arithmetic::div_mod::lemma_div_is_ordered(pr * u, gross, u);
        assert(pr * u == u * pr) by (nonlinear_arith);
        vstd::arithmetic::div_mod::lemma_div_multiples_vanish(pr, u);
        assert(fee_price >= pr);
        let tp = t * pr;
        assert(0 <= tp <= t * fee_price) by (nonlinear_arith)
            requires
                tp == t * pr,
                t >= 0,
                0 <= pr <= fee_price,
        ;
        vstd::arithmetic::div_mod::lemma_div_is_ordered(tp, t * fee_price, u);
        lemma_floor_scaled(tp, u);
    }
}

/// The state after a liquidation of a token against a perp balance, and
/// what moved of the liability.
pub struct TokenPerpLiquidationOutcome {
    pub liqee: Seq<Position>,
    pub liqor: Seq<Position>,
    pub node: NodeBank,
    pub liab_transfer: I80F48,
}

/// The token slot and the perp slot that the call is about, if one of asset
/// and liability is a token and the other a perp position.
pub open spec fn spec_token_and_perp_slots(
    asset_type: AssetType,
    asset_index: usize,
    liab_type: AssetType,
    liab_index: usize,
) -> Option<(usize, usize)> {
    match (asset_type, liab_type) {
        (AssetType::Token, AssetType::Perp) => Some((asset_index, liab_index)),
        (AssetType::Perp, AssetType::Token) => Some((liab_index, asset_index)),
        _ => None,
    }
}

/// What a liquidation of a token against a perp balance does, for an
/// account with maintenance health `health`, which is negative: that of a
/// perp balance that owes against a deposit where the token is the asset,
/// that of a borrow against a perp balance in favour where it is the
/// liability.
pub open spec fn spec_token_perp_liquidation(
    health: I80F48,
    group: &Group,
    cache: &Cache,
    bank: RootBank,
    node: NodeBank,
    token_is_asset: bool,
    token: int,
    perp: int,
    liqee_balance: I80F48,
    liqor_balance: I80F48,
    liqee_perp: PerpPosition,
    liqor_perp: PerpPosition,
    max_liab_transfer: I80F48,
) -> Option<TokenPerpLiquidation> {
    if token_is_asset {
        spec_perp_liab_liquidation(
            health,
            group@[perp].perp,
            cache@[token].price,
            bank,
            node,
            liqee_balance,
            liqor_balance,
            liqee_perp,
            liqor_perp,
            max_liab_transfer,
        )
    } else {
        spec_token_liab_liquidation(
            health,
            group@[token].spot,
            cache@[token].price,
            bank,
            node,
            liqee_balance,
            liqor_balance,
            liqee_perp,
            liqor_perp,
            max_liab_transfer,
        )
    }
}

/// The account with the balance of the token slot and the perp position of
/// the perp slot replaced.
pub open spec fn swapped(
    ledger: Seq<Position>,
    token: int,
    perp: int,
    balance: I80F48,
    position: PerpPosition,
) -> Seq<Position> {
    with_perp(with_balance(ledger, token, balance), perp, position)
}

/// What the liquidator's call does when one of asset and liability is a
/// token and the other the quote balance of a perp position whose base
/// position is zero. `bank` is the root of the bank of the token and `node`
/// the pool through which the balances change. Both perp positions first
/// settle their funding. Of the liability the call moves the least of what
/// the caller allows, what is owed, what the asset covers and the estimate
/// of what brings the maintenance health of the account, with its funding
/// settled, up to zero. Where that would leave the account with maintenance
/// health above zero, or below what it is with its funding settled, nothing
/// moves and only the funding is settled: the account is never left
/// healthier than at zero, nor less healthy than its funding leaves it. It
/// fails, in this order, with
/// - whatever the computation of the maintenance health of the account fails
///   with,
/// - `NotLiquidatable` if that health is not negative,
/// - `InvalidState` if asset and liability are of one kind, if a slot does
///   not exist, or if `max_liab_transfer` is negative,
/// - `Fatal` if the funding of the two perp positions cannot be settled
///   within the range of the arithmetic,
/// - `InvalidState` if the perp position of the account holds base lots, or
///   if asset and liability are not what the call says: a deposit against a
///   perp balance that owes, or a perp balance in favour against a borrow,
/// - whatever the computation of the maintenance health of the account with
///   its funding settled fails with,
/// - `NotLiquidatable` if that health is not negative,
/// - `Fatal` if a number leaves the range of the arithmetic or a price is
///   zero,
/// - whatever the computation of the maintenance health that the account
///   would be left with fails with.
pub open spec fn spec_liquidate_token_and_perp(
    group: &Group,
    cache: &Cache,
    liqee: Seq<Position>,
    liqor: Seq<Position>,
    bank: RootBank,
    node: NodeBank,
    asset_type: AssetType,
    asset_index: usize,
    liab_type: AssetType,
    liab_index: usize,
    max_liab_transfer: I80F48,
    now: u64,
) -> Result<TokenPerpLiquidationOutcome, MangoError> {
    match spec_health(group, cache, liqee, HealthType::Maint, now) {
        Ok(h) => if h.bits >= 0 {
            Err(MangoError::NotLiquidatable)
        } else {
            match spec_token_and_perp_slots(asset_type, asset_index, liab_type, liab_index) {
                Some((token, perp)) => if token >= liqee.len() || perp >= liqee.len()
                    || max_liab_transfer.bits < 0 {
                    Err(MangoError::InvalidState)
                } else {
                    let t = token as int;
                    let p = perp as int;
                    let token_is_asset = asset_type == AssetType::Token;
                    match (
                        spec_settle_funding(
                            liqee[p].perp,
                            cache@[p].long_funding,
                            cache@[p].short_funding,
                        ),
                        spec_settle_funding(
                            liqor[p].perp,
                            cache@[p].long_funding,
                            cache@[p].short_funding,
                        ),
                    ) {
                        (Some(lp), Some(rp)) => if lp.base_position != 0 || (token_is_asset && (
                        liqee[t].balance.bits <= 0 || lp.quote_position.bits >= 0))
                            || (!token_is_asset && (liqee[t].balance.bits >= 0
                            || lp.quote_position.bits <= 0)) {
                            Err(MangoError::InvalidState)
                        } else {
                            match spec_health(
                                group,
                                cache,
                                with_perp(liqee, p, lp),
                                HealthType::Maint,
                                now,
                            ) {
                                Ok(settled) => if settled.bits >= 0 {
                                    Err(MangoError::NotLiquidatable)
                                } else {
                                    match spec_token_perp_liquidation(
                                        settled,
                                        group,
                                        cache,
                                        bank,
                                        node,
                                        token_is_asset,
                                        t,
                                        p,
                                        liqee[t].balance,
                                        liqor[t].balance,
                                        lp,
                                        rp,
                                        max_liab_transfer,
                                    ) {
                                        Some(l) => match spec_health(
                                            group,
                                            cache,
                                            swapped(liqee, t, p, l.liqee_balance, l.liqee_perp),
                                            HealthType::Maint,
                                            now,
                                        ) {
                                            Ok(then) => if settled.bits <= then.bits <= 0 {
                                                Ok(
                                                    TokenPerpLiquidationOutcome {
                                                        liqee: swapped(
                                                            liqee,
                                                            t,
                                                            p,
                                                            l.liqee_balance,
                                                            l.liqee_perp,
                                                        ),
                                                        liqor: swapped(
                                                            liqor,
                                                            t,
                                                            p,
                                                            l.liqor_balance,
                                                            l.liqor_perp,
                                                        ),
                                                        node: l.node,
                                                        liab_transfer: l.liab_transfer,
                                                    },
                                                )
                                            } else {
                                                Ok(
                                                    TokenPerpLiquidationOutcome {
                                                        liqee: with_perp(liqee, p, lp),
                                                        liqor: with_perp(liqor, p, rp),
                                                        node,
                                                        liab_transfer: I80F48 { bits: 0 },
                                                    },
                                                )
                                            },
                                            Err(e) => Err(e),
                                        },
                                        None => Err(MangoError::Fatal),
                                    }
                                },
                                Err(e) => Err(e),
                            }
                        },
                        _ => Err(MangoError::Fatal),
                    }
                },
                None => Err(MangoError::InvalidState),
            }
        },
        Err(e) => Err(e),
    }
}

fn quote_added(p: &PerpPosition, quote: Option<I80F48>) -> (r: Option<PerpPosition>)
    ensures
        r == spec_quote_added(*p, quote),
{
    match try_add(Some(p.quote_position), quote) {
        Some(q) => {
            let mut t: PerpPosition = *p;
            t.quote_position = q;
            Some(t)
        },
        None => None,
    }
}

fn quote_taken(p: &PerpPosition, quote: Option<I80F48>) -> (r: Option<PerpPosition>)
    ensures
        r == spec_quote_taken(*p, quote),
{
    match try_sub(Some(p.quote_position), quote) {
        Some(q) => {
            let mut t: PerpPosition = *p;
            t.quote_position = q;
            Some(t)
        },
        None => None,
    }
}

fn plan_perp_liab_liquidation(
    health: I80F48,
    risk: &RiskParams,
    asset_price: I80F48,
    bank: &RootBank,
    node: &NodeBank,
    liqee_balance: I80F48,
    liqor_balance: I80F48,
    liqee_perp: &PerpPosition,
    liqor_perp: &PerpPosition,
    max_liab_transfer: I80F48,
) -> (r: Option<TokenPerpLiquidation>)
    requires
        node.wf(),
    ensures
        r == spec_perp_liab_liquidation(
            health,
            *risk,
            asset_price,
            *bank,
            *node,
            liqee_balance,
            liqor_balance,
            *liqee_perp,
            *liqor_perp,
            max_liab_transfer,
        ),
        r matches Some(l) ==> l.node.wf(),
{
    let with_fee = I80F48::one().checked_add(risk.liquidation_fee);
    let (owed, asset_cap, cap) = match (
        I80F48::zero().checked_sub(liqee_perp.quote_position),
        try_div(try_mul(bank.native(liqee_balance), Some(asset_price)), with_fee),
        net_cap(health, I80F48::one(), risk),
    ) {
        (Some(o), Some(a), Some(c)) => (o, a, c),
        _ => { return None; },
    };
    let t = transfer_amount(max_liab_transfer, owed, asset_cap, cap);
    let a = match try_div_up(try_mul(Some(t), with_fee), Some(asset_price)) {
        Some(a) => a,
        None => { return None; },
    };
    match (
        bank.debit(liqee_balance, Some(a)),
        bank.credit(liqor_balance, Some(a)),
        quote_added(liqee_perp, Some(t)),
        quote_taken(liqor_perp, Some(t)),
    ) {
        (Some(lb), Some(rb), Some(lp), Some(rp)) => match rebalance_twice(
            node,
            liqee_balance,
            lb,
            liqor_balance,
            rb,
        ) {
            Some(n) => Some(
                TokenPerpLiquidation {
                    liab_transfer: t,
                    asset_transfer: a,
                    liqee_balance: lb,
                    liqor_balance: rb,
                    liqee_perp: lp,
                    liqor_perp: rp,
                    node: n,
                },
            ),
            None => None,
        },
        _ => None,
    }
}

fn plan_token_liab_liquidation(
    health: I80F48,
    risk: &RiskParams,
    liab_price: I80F48,
    bank: &RootBank,
    node: &NodeBank,
    liqee_balance: I80F48,
    liqor_balance: I80F48,
    liqee_perp: &PerpPosition,
    liqor_perp: &PerpPosition,
    max_liab_transfer: I80F48,
) -> (r: Option<TokenPerpLiquidation>)
    requires
        node.wf(),
    ensures
        r == spec_token_liab_liquidation(
            health,
            *risk,
            liab_price,
            *bank,
            *node,
            liqee_balance,
            liqor_balance,
            *liqee_perp,
            *liqor_perp,
            max_liab_transfer,
        ),
        r matches Some(l) ==> l.node.wf(),
{
    let fee_price = try_mul(Some(liab_price), I80F48::one().checked_add(risk.liquidation_fee));
    let (owed, asset_cap, cap) = match (
        try_sub(Some(I80F48::zero()), bank.native(liqee_balance)),
        try_div(Some(liqee_perp.quote_position), fee_price),
        net_cap(health, liab_price, risk),
    ) {
        (Some(o), Some(a), Some(c)) => (o, a, c),
        _ => { return None; },
    };
    let t = transfer_amount(max_liab_transfer, owed, asset_cap, cap);
    let quote = try_mul(Some(t), fee_price);
    let received: I80F48 = match quote {
        Some(q) => q,
        None => { return None; },
    };
    match (
        bank.credit(liqee_balance, Some(t)),
        bank.debit(liqor_balance, Some(t)),
        quote_taken(liqee_perp, quote),
        quote_added(liqor_perp, quote),
    ) {
        (Some(lb), Some(rb), Some(lp), Some(rp)) => match rebalance_twice(
            node,
            liqee_balance,
            lb,
            liqor_balance,
            rb,
        ) {
            Some(n) => Some(
                TokenPerpLiquidation {
                    liab_transfer: t,
                    asset_transfer: received,
                    liqee_balance: lb,
                    liqor_balance: rb,
                    liqee_perp: lp,
                    liqor_perp: rp,
                    node: n,
                },
            ),
            None => None,
        },
        _ => None,
    }
}

/// The liquidator swaps a token against the quote balance of a perp position
/// of the account whose base position is zero: it pays into a perp balance
/// that owes and receives tokens of a deposit, or it repays a borrow and
/// receives quote currency of a perp balance in the account's favour.
/// Returns what moved of the liability.
pub fn liquidate_token_and_perp(
    group: &Group,
    cache: &Cache,
    liqee: &mut Ledger,
    liqor: &mut Ledger,
    bank: &RootBank,
    node: &mut NodeBank,
    asset_type: AssetType,
    asset_index: usize,
    liab_type: AssetType,
    liab_index: usize,
    max_liab_transfer: I80F48,
    now: u64,
) -> (r: Result<I80F48, MangoError>)
    requires
        aligned(group, cache, old(liqee)),
        aligned(group, cache, old(liqor)),
        old(liqee).wf(),
        old(liqor).wf(),
        old(node).wf(),
    ensures
        final(liqee).wf(),
        final(liqee).rest_as_in(old(liqee)),
        final(liqor).wf(),
        final(liqor).rest_as_in(old(liqor)),
        final(node).wf(),
        match spec_liquidate_token_and_perp(
            group,
            cache,
            old(liqee)@,
            old(liqor)@,
            *bank,
            *old(node),
            asset_type,
            asset_index,
            liab_type,
            liab_index,
            max_liab_transfer,
            now,
        ) {
            Ok(o) => {
                &&& r == Ok::<I80F48, MangoError>(o.liab_transfer)
                &&& final(liqee)@ == o.liqee
                &&& final(liqor)@ == o.liqor
                &&& *final(node) == o.node
            },
            Err(e) => {
                &&& r == Err::<I80F48, MangoError>(e)
                &&& final(liqee)@ == old(liqee)@
                &&& final(liqor)@ == old(liqor)@
                &&& *final(node) == *old(node)
            },
        },
{
    let h: I80F48 = match health(group, cache, liqee, HealthType::Maint, now) {
        Ok(h) => h,
        Err(e) => { return Err(e); },
    };
    if !h.is_negative() {
        return Err(MangoError::NotLiquidatable);
    }
    let (token, perp, token_is_asset): (usize, usize, bool) = match (asset_type, liab_type) {
        (AssetType::Token, AssetType::Perp) => (asset_index, liab_index, true),
        (AssetType::Perp, AssetType::Token) => (liab_index, asset_index, false),
        _ => { return Err(MangoError::InvalidState); },
    };
    let n: usize = liqee.slots.len();
    if token >= n || perp >= n || max_liab_transfer.is_negative() {
        return Err(MangoError::InvalidState);
    }
    let c = &cache.slots[perp];
    let (lp, rp): (PerpPosition, PerpPosition) = match (
        settle_funding(&liqee.slots[perp].perp, c.long_funding, c.short_funding),
        settle_funding(&liqor.slots[perp].perp, c.long_funding, c.short_funding),
    ) {
        (Some(l), Some(r)) => (l, r),
        _ => { return Err(MangoError::Fatal); },
    };
    let liqee_balance: I80F48 = liqee.slots[token].balance;
    let liqor_balance: I80F48 = liqor.slots[token].balance;
    if lp.base_position != 0 || (token_is_asset && (!liqee_balance.is_positive()
        || !lp.quote_position.is_negative())) || (!token_is_asset && (!liqee_balance.is_negative()
        || !lp.quote_position.is_positive())) {
        return Err(MangoError::InvalidState);
    }
    let kept_token: Position = liqee.slots[token];
    let kept_perp: Position = liqee.slots[perp];
    set_perp(liqee, perp, lp);
    let settled: I80F48 = match health(group, cache, liqee, HealthType::Maint, now) {
        Ok(x) => x,
        Err(e) => {
            liqee.slots[perp] = kept_perp;
            assert(liqee@ =~= old(liqee)@);
            return Err(e);
        },
    };
    if !settled.is_negative() {
        liqee.slots[perp] = kept_perp;
        assert(liqee@ =~= old(liqee)@);
        return Err(MangoError::NotLiquidatable);
    }
    let plan: Option<TokenPerpLiquidation> = if token_is_asset {
        plan_perp_liab_liquidation(
            settled,
            &group.slots[perp].perp,
            cache.slots[token].price,
            bank,
            node,
            liqee_balance,
            liqor_balance,
            &lp,
            &rp,
            max_liab_transfer,
        )
    } else {
        plan_token_liab_liquidation(
            settled,
            &group.slots[token].spot,
            cache.slots[token].price,
            bank,
            node,
            liqee_balance,
            liqor_balance,
            &lp,
            &rp,
            max_liab_transfer,
        )
    };
    let l: TokenPerpLiquidation = match plan {
        Some(l) => l,
        None => {
            liqee.slots[perp] = kept_perp;
            assert(liqee@ =~= old(liqee)@);
            return Err(MangoError::Fatal);
        },
    };
    // Try what the estimate allows on the account, and keep it if it leaves
    // the account no healthier than at zero and no less healthy than it was.
    set_balance(liqee, token, l.liqee_balance);
    set_perp(liqee, perp, l.liqee_perp);
    assert(liqee@ =~= swapped(
        old(liqee)@,
        token as int,
        perp as int,
        l.liqee_balance,
        l.liqee_perp,
    ));
    match health(group, cache, liqee, HealthType::Maint, now) {
        Ok(then) => if settled.bits <= then.bits && !then.is_positive() {
            set_balance(liqor, token, l.liqor_balance);
            set_perp(liqor, perp, l.liqor_perp);
            *node = l.node;
            Ok(l.liab_transfer)
        } else {
            liqee.slots[token] = kept_token;
            liqee.slots[perp] = kept_perp;
            assert(liqee@ =~= old(liqee)@);
            set_perp(liqee, perp, lp);
            set_perp(liqor, perp, rp);
            Ok(I80F48::zero())
        },
        Err(e) => {
            liqee.slots[token] = kept_token;
            liqee.slots[perp] = kept_perp;
            assert(liqee@ =~= old(liqee)@);
            Err(e)
        },
    }
}

/// A liquidation of a token against a perp balance never leaves the account
/// healthier than zero maintenance health, nor less healthy than its
/// funding leaves it: whenever the call succeeds, the maintenance health of
/// the account as it then stands is zero or less, and what it was with the
/// funding of the perp position settled or more.
pub proof fn lemma_token_perp_liquidation_does_not_overshoot(
    group: &Group,
    cache: &Cache,
    liqee: Seq<Position>,
    liqor: Seq<Position>,
    bank: RootBank,
    node: NodeBank,
    asset_type: AssetType,
    asset_index: usize,
    liab_type: AssetType,
    liab_index: usize,
    max_liab_transfer: I80F48,
    now: u64,
)
    requires
        spec_liquidate_token_and_perp(
            group,
            cache,
            liqee,
            liqor,
            bank,
            node,
            asset_type,
            asset_index,
            liab_type,
            liab_index,
            max_liab_transfer,
            now,
        ) is Ok,
    ensures
        ({
            let o = spec_liquidate_token_and_perp(
                group,
                cache,
                liqee,
                liqor,
                bank,
                node,
                asset_type,
                asset_index,
                liab_type,
                liab_index,
                max_liab_transfer,
                now,
            ).unwrap();
            let perp = spec_token_and_perp_slots(
                asset_type,
                asset_index,
                liab_type,
                liab_index,
            ).unwrap().1 as int;
            let settled = with_perp(
                liqee,
                perp,
                spec_settle_funding(
                    liqee[perp].perp,
                    cache@[perp].long_funding,
                    cache@[perp].short_funding,
                ).unwrap(),
            );
            &&& spec_health(group, cache, settled, HealthType::Maint, now) matches Ok(before)
            &&& spec_health(group, cache, o.liqee, HealthType::Maint, now) matches Ok(after)
            &&& before.bits <= after.bits <= 0
        }),
{
}

/// What the forced cancellation of resting spot orders of an account does,
/// once the venue has cancelled them and released `base` and `quote` native
/// tokens that they had reserved: the reservations of the slot shrink by
/// what was released, and no balance changes. It fails, in this order, with
/// - whatever the computation of the maintenance health of the account fails
///   with,
/// - `NotLiquidatable` if that health is not negative,
/// - `InvalidState` if the slot does not exist, if it has no resting
///   orders, or if more was released than was reserved.
pub open spec fn spec_force_cancel_spot_orders(
    group: &Group,
    cache: &Cache,
    liqee: Seq<Position>,
    slot: usize,
    base: u64,
    quote: u64,
    now: u64,
) -> Result<Seq<Position>, MangoError> {
    match spec_health(group, cache, liqee, HealthType::Maint, now) {
        Ok(h) => if h.bits >= 0 {
            Err(MangoError::NotLiquidatable)
        } else if slot >= liqee.len() {
            Err(MangoError::InvalidState)
        } else {
            match liqee[slot as int].open_orders {
                Some(o) => if base > o.base_locked || quote > o.quote_locked {
                    Err(MangoError::InvalidState)
                } else {
                    Ok(
                        liqee.update(
                            slot as int,
                            Position {
                                open_orders: Some(
                                    OpenOrders {
                                        base_locked: (o.base_locked - base) as u64,
                                        quote_locked: (o.quote_locked - quote) as u64,
                                    },
                                ),
                                ..liqee[slot as int]
                            },
                        ),
                    )
                },
                None => Err(MangoError::InvalidState),
            }
        },
        Err(e) => Err(e),
    }
}

/// Records that the venue has cancelled resting spot orders of an account
/// that is being liquidated and has released `base` and `quote` native
/// tokens of what they had reserved. Nothing of value moves: only the
/// reservations shrink.
pub fn force_cancel_spot_orders(
    group: &Group,
    cache: &Cache,
    liqee: &mut Ledger,
    slot: usize,
    base: u64,
    quote: u64,
    now: u64,
) -> (r: Result<(), MangoError>)
    requires
        aligned(group, cache, old(liqee)),
        old(liqee).wf(),
    ensures
        final(liqee).wf(),
        final(liqee).rest_as_in(old(liqee)),
        match spec_force_cancel_spot_orders(group, cache, old(liqee)@, slot, base, quote, now) {
            Ok(l) => r is Ok && final(liqee)@ == l,
            Err(e) => r == Err::<(), MangoError>(e) && final(liqee)@ == old(liqee)@,
        },
{
    let h: I80F48 = match health(group, cache, liqee, HealthType::Maint, now) {
        Ok(h) => h,
        Err(e) => { return Err(e); },
    };
    if !h.is_negative() {
        return Err(MangoError::NotLiquidatable);
    }
    if slot >= liqee.slots.len() {
        return Err(MangoError::InvalidState);
    }
    let position: Position = liqee.slots[slot];
    match position.open_orders {
        Some(o) => {
            if base > o.base_locked || quote > o.quote_locked {
                return Err(MangoError::InvalidState);
            }
            let mut changed: Position = position;
            changed.open_orders = Some(
                OpenOrders { base_locked: o.base_locked - base, quote_locked: o.quote_locked - quote },
            );
            liqee.slots[slot] = changed;
            Ok(())
        },
        None => Err(MangoError::InvalidState),
    }
}

/// An account whose initial health is zero or more cannot be liquidated.
/// Its maintenance health, which is at least its initial health, is zero or
/// more too, so it is healthy, and every liquidation of it, forced
/// cancellation of its orders and resolution of a bankruptcy is refused as
/// `NotLiquidatable`, whatever the other arguments of the call are.
pub proof fn lemma_healthy_cannot_be_liquidated(
    group: &Group,
    cache: &Cache,
    liqee: Seq<Position>,
    liqor: Seq<Position>,
    asset_bank: RootBank,
    asset_node: NodeBank,
    liab_bank: RootBank,
    liab_node: NodeBank,
    asset_type: AssetType,
    asset_index: usize,
    liab_type: AssetType,
    liab_index: usize,
    max_liab_transfer: I80F48,
    base_transfer_request: i64,
    base: u64,
    quote: u64,
    now: u64,
)
    requires
        group.wf(),
        liqee.len() == group@.len(),
        spec_health(group, cache, liqee, HealthType::Init, now) is Ok,
        spec_health(group, cache, liqee, HealthType::Init, now).unwrap().bits >= 0,
        spec_health(group, cache, liqee, HealthType::Maint, now) is Ok,
    ensures
        spec_liquidation_state(group, cache, liqee, now) == Ok::<LiquidationState, MangoError>(
            LiquidationState::Healthy,
        ),
        spec_liquidate_token_and_token(
            group,
            cache,
            liqee,
            liqor,
            asset_bank,
            asset_node,
            liab_bank,
            liab_node,
            asset_index,
            liab_index,
            max_liab_transfer,
            now,
        ) == Err::<TokenLiquidationOutcome, MangoError>(MangoError::NotLiquidatable),
        spec_liquidate_perp_market(
            group,
            cache,
            liqee,
            liqor,
            liab_index,
            base_transfer_request,
            now,
        ) == Err::<PerpLiquidationOutcome, MangoError>(MangoError::NotLiquidatable),
        spec_liquidate_token_and_perp(
            group,
            cache,
            liqee,
            liqor,
            liab_bank,
            liab_node,
            asset_type,
            asset_index,
            liab_type,
            liab_index,
            max_liab_transfer,
            now,
        ) == Err::<TokenPerpLiquidationOutcome, MangoError>(MangoError::NotLiquidatable),
        spec_force_cancel_spot_orders(group, cache, liqee, liab_index, base, quote, now) == Err::<
            Seq<Position>,
            MangoError,
        >(MangoError::NotLiquidatable),
{
    crate::health::lemma_init_health_at_most_maint(group, cache, liqee, now);
}

/// What a liquidation of a perp position moves. The lots go in the
/// direction of the position and are no more than were asked for and no more
/// than the position held. The lots and the quote currency that the account
/// loses the liquidator gains, counted from the two positions as they are
/// once they have settled their funding, and settling moves no lots. The
/// account receives the lots' worth at the oracle price less the fee on it,
/// rounded down, or pays that worth and the fee, so that the quote currency
/// never moves by more in its favour than the lots are worth. The lots'
/// worth is the price times the lots times the size of a lot, exactly, and
/// the quote currency that moves differs from it by the fee, which is the
/// fee rate times that worth, rounded down, and so by no more than the fee
/// rate times that worth.
pub proof fn lemma_perp_liquidation_moves(
    group: &Group,
    cache: &Cache,
    liqee: Seq<Position>,
    liqor: Seq<Position>,
    market_index: usize,
    base_transfer_request: i64,
    now: u64,
)
    requires
        group.wf(),
        cache.wf(),
        liqee.len() == group@.len(),
        liqee.len() == cache@.len(),
        liqee.len() == liqor.len(),
        spec_liquidate_perp_market(
            group,
            cache,
            liqee,
            liqor,
            market_index,
            base_transfer_request,
            now,
        ) is Ok,
    ensures
        ({
            let o = spec_liquidate_perp_market(
                group,
                cache,
                liqee,
                liqor,
                market_index,
                base_transfer_request,
                now,
            ).unwrap();
            let i = market_index as int;
            let from = spec_settle_funding(
                liqee[i].perp,
                cache@[i].long_funding,
                cache@[i].short_funding,
            ).unwrap();
            let to = spec_settle_funding(
                liqor[i].perp,
                cache@[i].long_funding,
                cache@[i].short_funding,
            ).unwrap();
            let lots = o.base_transfer;
            let held = liqee[i].perp.base_position;
            let notional = mul_opt(
                checked(lots * group@[i].base_lot_size * unit()),
                Some(cache@[i].price),
            ).unwrap();
            let worth = if lots > 0 {
                notional.bits as int
            } else {
                -notional.bits
            };
            let fee = (worth * group@[i].perp.liquidation_fee.bits) / unit();
            let received = o.liqee[i].perp.quote_position.bits - from.quote_position.bits;
            &&& held > 0 ==> 0 < lots <= base_transfer_request && lots <= held
            &&& held < 0 ==> base_transfer_request <= lots < 0 && held <= lots
            &&& held != 0
            &&& o.liqee[i].perp.base_position == held - lots
            &&& o.liqor[i].perp.base_position == liqor[i].perp.base_position + lots
            &&& o.liqor[i].perp.quote_position.bits - to.quote_position.bits == -received
            &&& notional.bits == lots * group@[i].base_lot_size * cache@[i].price.bits
            &&& 0 <= worth
            &&& received == notional.bits - fee
            &&& 0 <= fee
            &&& received <= notional.bits
            &&& worth * group@[i].perp.liquidation_fee.bits - unit() < fee * unit() <= worth
                * group@[i].perp.liquidation_fee.bits
            &&& 0 <= (notional.bits - received) * unit() <= worth
                * group@[i].perp.liquidation_fee.bits
            &&& forall|j: int| 0 <= j < liqee.len() && j != i ==> o.liqee[j] == liqee[j]
            &&& forall|j: int| 0 <= j < liqor.len() && j != i ==> o.liqor[j] == liqor[j]
        }),
{
    let i = market_index as int;
    let lot = group@[i].base_lot_size;
    let price = cache@[i].price;
    let rate = group@[i].perp.liquidation_fee;
    assert(group@[i].wf());
    assert(cache@[i].wf());
    let from = spec_settle_funding(
        liqee[i].perp,
        cache@[i].long_funding,
        cache@[i].short_funding,
    ).unwrap();
    let lots = spec_base_transfer(from.base_position, base_transfer_request).unwrap();
    let size = checked(lots * lot * unit()).unwrap();
    let notional = size.spec_mul(price).unwrap();
    let worth = lots * lot * price.bits;
    assert(size.bits * price.bits == unit() * worth) by (nonlinear_arith)
        requires
            size.bits == lots * lot * unit(),
            worth == lots * lot * price.bits,
    ;
    vstd::arithmetic::div_mod::lemma_div_multiples_vanish(worth, unit());
    assert(notional.bits == worth);
    let ll = lots * lot;
    assert(worth == ll * price.bits) by (nonlinear_arith)
        requires
            worth == lots * lot * price.bits,
            ll == lots * lot,
    ;
    if lots > 0 {
        assert(ll > 0) by (nonlinear_arith)
            requires
                ll == lots * lot,
                lots > 0,
                lot > 0,
        ;
        assert(worth >= 0) by (nonlinear_arith)
            requires
                worth == ll * price.bits,
                ll > 0,
                price.bits >= 0,
        ;
        let product = worth * rate.bits;
        assert(product >= 0) by (nonlinear_arith)
            requires
                product == worth * rate.bits,
                worth >= 0,
                rate.bits >= 0,
        ;
        lemma_floor_scaled(product, unit());
    } else {
        assert(ll < 0) by (nonlinear_arith)
            requires
                ll == lots * lot,
                lots < 0,
                lot > 0,
        ;
        assert(worth <= 0) by (nonlinear_arith)
            requires
                worth == ll * price.bits,
                ll < 0,
                price.bits >= 0,
        ;
        let product = (-worth) * rate.bits;
        assert(product >= 0) by (nonlinear_arith)
            requires
                product == (-worth) * rate.bits,
                worth <= 0,
                rate.bits >= 0,
        ;
        lemma_floor_scaled(product, unit());
    }
}

/// A liquidation of a perp position never raises what the position of the
/// account is worth. The lots leave at the oracle price less the fee, and
/// the position is valued at the oracle price, so once its funding is
/// settled the position is worth no more after the call than before it:
/// this call lowers what the account is exposed to and does not add to its
/// health.
pub proof fn lemma_perp_liquidation_does_not_raise_value(
    group: &Group,
    cache: &Cache,
    liqee: Seq<Position>,
    liqor: Seq<Position>,
    market_index: usize,
    base_transfer_request: i64,
    now: u64,
)
    requires
        group.wf(),
        cache.wf(),
        liqee.len() == group@.len(),
        liqee.len() == cache@.len(),
        liqee.len() == liqor.len(),
        spec_liquidate_perp_market(
            group,
            cache,
            liqee,
            liqor,
            market_index,
            base_transfer_request,
            now,
        ) is Ok,
        perp_value(
            spec_settle_funding(
                liqee[market_index as int].perp,
                cache@[market_index as int].long_funding,
                cache@[market_index as int].short_funding,
            ).unwrap(),
            group@[market_index as int].base_lot_size,
            cache@[market_index as int],
        ) is Some,
        perp_value(
            spec_liquidate_perp_market(
                group,
                cache,
                liqee,
                liqor,
                market_index,
                base_transfer_request,
                now,
            ).unwrap().liqee[market_index as int].perp,
            group@[market_index as int].base_lot_size,
            cache@[market_index as int],
        ) is Some,
    ensures
        perp_value(
            spec_liquidate_perp_market(
                group,
                cache,
                liqee,
                liqor,
                market_index,
                base_transfer_request,
                now,
            ).unwrap().liqee[market_index as int].perp,
            group@[market_index as int].base_lot_size,
            cache@[market_index as int],
        ).unwrap().bits <= perp_value(
            spec_settle_funding(
                liqee[market_index as int].perp,
                cache@[market_index as int].long_funding,
                cache@[market_index as int].short_funding,
            ).unwrap(),
            group@[market_index as int].base_lot_size,
            cache@[market_index as int],
        ).unwrap().bits,
{
    lemma_perp_liquidation_moves(
        group,
        cache,
        liqee,
        liqor,
        market_index,
        base_transfer_request,
        now,
    );
    let i = market_index as int;
    let u = unit();
    let lot = group@[i].base_lot_size as int;
    let p = cache@[i].price.bits as int;
    let o = spec_liquidate_perp_market(
        group,
        cache,
        liqee,
        liqor,
        market_index,
        base_transfer_request,
        now,
    ).unwrap();
    let from = spec_settle_funding(
        liqee[i].perp,
        cache@[i].long_funding,
        cache@[i].short_funding,
    ).unwrap();
    let held = from.base_position as int;
    let lots = o.base_transfer as int;
    let before = held * lot * u;
    let moved = lots * lot * u;
    let after = (held - lots) * lot * u;
    assert(after + moved == before) by (nonlinear_arith)
        requires
            before == held * lot * u,
            moved == lots * lot * u,
            after == (held - lots) * lot * u,
    ;
    let bp = before * p;
    let mp = moved * p;
    let ap = after * p;
    assert(ap + mp == bp) by (nonlinear_arith)
        requires
            after + moved == before,
            bp == before * p,
            mp == moved * p,
            ap == after * p,
    ;
    lemma_floor_scaled(bp, u);
    lemma_floor_scaled(mp, u);
    lemma_floor_scaled(ap, u);
    let sum = ap / u + mp / u;
    assert(sum * u == (ap / u) * u + (mp / u) * u) by (nonlinear_arith)
        requires
            sum == ap / u + mp / u,
    ;
    assert(sum * u <= bp);
    assert(sum <= bp / u) by (nonlinear_arith)
        requires
            sum * u <= bp,
            bp < (bp / u) * u + u,
            u > 0,
    ;
}

/// A liquidation of a perp position never leaves the account healthier than
/// zero maintenance health: whenever the call succeeds and the maintenance
/// health of the account as it then stands can be computed, that health is
/// zero or less. The lots leave at no more than they are worth, so the call
/// adds nothing to the health that the account has once its funding is
/// settled, and that health is negative.
pub proof fn lemma_perp_liquidation_does_not_overshoot(
    group: &Group,
    cache: &Cache,
    liqee: Seq<Position>,
    liqor: Seq<Position>,
    market_index: usize,
    base_transfer_request: i64,
    now: u64,
)
    requires
        group.wf(),
        cache.wf(),
        liqee.len() == group@.len(),
        liqee.len() == cache@.len(),
        liqee.len() == liqor.len(),
        spec_liquidate_perp_market(
            group,
            cache,
            liqee,
            liqor,
            market_index,
            base_transfer_request,
            now,
        ) is Ok,
    ensures
        spec_health(
            group,
            cache,
            spec_liquidate_perp_market(
                group,
                cache,
                liqee,
                liqor,
                market_index,
                base_transfer_request,
                now,
            ).unwrap().liqee,
            HealthType::Maint,
            now,
        ) matches Ok(h) ==> h.bits <= 0,
{
    let o = spec_liquidate_perp_market(
        group,
        cache,
        liqee,
        liqor,
        market_index,
        base_transfer_request,
        now,
    ).unwrap();
    let i = market_index as int;
    let from = spec_settle_funding(
        liqee[i].perp,
        cache@[i].long_funding,
        cache@[i].short_funding,
    ).unwrap();
    let settled = with_perp(liqee, i, from);
    let s = group@[i];
    let c = cache@[i];
    assert(s.wf());
    assert(c.wf());
    assert(o.liqee[i] == Position { perp: o.liqee[i].perp, ..settled[i] });
    assert(forall|m: int| 0 <= m < liqee.len() && m != i ==> o.liqee[m] == settled[m]);
    if spec_health(group, cache, o.liqee, HealthType::Maint, now) is Ok {
        let ty = HealthType::Maint;
        if slot_health(settled[i], s, c, ty) is Some && slot_health(o.liqee[i], s, c, ty) is Some {
            crate::health::lemma_slot_health_follows_perp(settled[i], o.liqee[i].perp, s, c, ty);
            lemma_perp_liquidation_does_not_raise_value(
                group,
                cache,
                liqee,
                liqor,
                market_index,
                base_transfer_request,
                now,
            );
            crate::health::lemma_weighted_monotone(
                perp_value(o.liqee[i].perp, s.base_lot_size, c).unwrap(),
                perp_value(from, s.base_lot_size, c).unwrap(),
                s.perp.maint_leverage,
            );
        }
        crate::health::lemma_health_of_two_changed_slots(
            group@,
            cache@,
            settled,
            o.liqee,
            ty,
            liqee.len(),
            i,
            -1,
            0,
            0,
        );
    }
}

} // verus!
