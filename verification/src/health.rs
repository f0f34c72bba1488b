//! Health: the solvency of an account in quote currency.
//!
//! Every slot in the basket of an account adds to its health. A deposit adds
//! its value at the oracle price. A borrow takes its value times the leverage
//! factor of the slot, which is larger for initial health than for
//! maintenance health. A perp position is valued as its base lots at the
//! oracle price plus its quote balance, and counts like a token balance:
//! at par if it is worth something, times the factor if it owes. What resting
//! spot orders have reserved counts at par.
//!
//! An account with negative maintenance health can be liquidated, and a call
//! that takes on risk needs initial health of zero or more.
use crate::account::{Ledger, OpenOrders, PerpPosition, Position};
use crate::error::MangoError;
use crate::fixed_point::{add_opt, checked, mul_opt, try_add, try_mul, unit, I80F48};
use crate::group::{Cache, CacheSlot, Group, HealthType, Slot};
use vstd::prelude::*;

verus! {

/// A value as it counts in health: at par if it is not negative, times the
/// factor `w` if it is.
pub open spec fn weighted(v: Option<I80F48>, w: I80F48) -> Option<I80F48> {
    match v {
        Some(x) => if x.bits >= 0 {
            Some(x)
        } else {
            x.spec_mul(w)
        },
        None => None,
    }
}

/// The value of a token balance in quote currency: the balance times the
/// deposit index for a deposit, times the borrow index for a borrow, times
/// the price.
pub open spec fn token_value(balance: I80F48, c: CacheSlot) -> Option<I80F48> {
    if balance.bits >= 0 {
        mul_opt(balance.spec_mul(c.deposit_index), Some(c.price))
    } else {
        mul_opt(balance.spec_mul(c.borrow_index), Some(c.price))
    }
}

/// The value of a perp position in quote currency: its base lots at the
/// oracle price, plus its quote balance.
pub open spec fn perp_value(p: PerpPosition, base_lot_size: i64, c: CacheSlot) -> Option<I80F48> {
    add_opt(
        mul_opt(checked(p.base_position * base_lot_size * unit()), Some(c.price)),
        Some(p.quote_position),
    )
}

/// The value that resting spot orders have reserved: the base tokens at the
/// oracle price, plus the quote tokens.
pub open spec fn open_orders_value(oo: Option<OpenOrders>, c: CacheSlot) -> Option<I80F48> {
    match oo {
        Some(o) => add_opt(
            I80F48::spec_from_u64(o.base_locked).spec_mul(c.price),
            Some(I80F48::spec_from_u64(o.quote_locked)),
        ),
        None => Some(I80F48 { bits: 0 }),
    }
}

/// What one slot adds to health; nothing if it is not in the basket.
pub open spec fn slot_health(p: Position, s: Slot, c: CacheSlot, ty: HealthType) -> Option<I80F48> {
    if !p.in_basket {
        Some(I80F48 { bits: 0 })
    } else {
        add_opt(
            add_opt(
                weighted(token_value(p.balance, c), s.spot.spec_weight(ty)),
                weighted(perp_value(p.perp, s.base_lot_size, c), s.perp.spec_weight(ty)),
            ),
            open_orders_value(p.open_orders, c),
        )
    }
}

/// The health of the first `k` slots, summed in their order. There is none
/// if a value or a partial sum leaves the range of the arithmetic.
pub open spec fn health_upto(
    slots: Seq<Slot>,
    cache: Seq<CacheSlot>,
    ledger: Seq<Position>,
    ty: HealthType,
    k: nat,
) -> Option<I80F48>
    decreases k,
{
    if k == 0 {
        Some(I80F48 { bits: 0 })
    } else {
        add_opt(
            health_upto(slots, cache, ledger, ty, (k - 1) as nat),
            slot_health(ledger[k - 1], slots[k - 1], cache[k - 1], ty),
        )
    }
}

/// Every slot in the basket has a price and indices that may be read at
/// `now`.
pub open spec fn basket_fresh(
    cache: Seq<CacheSlot>,
    ledger: Seq<Position>,
    now: u64,
    valid_interval: u64,
) -> bool {
    forall|i: int|
        0 <= i < ledger.len() && ledger[i].in_basket ==> (#[trigger] cache[i]).spec_fresh(
            now,
            valid_interval,
        )
}

/// Group, cache and account have the same slots.
pub open spec fn aligned(group: &Group, cache: &Cache, ledger: &Ledger) -> bool {
    group@.len() == cache@.len() && cache@.len() == ledger@.len()
}

/// Whether group, cache and account have the same slots.
pub fn are_aligned(group: &Group, cache: &Cache, ledger: &Ledger) -> (r: bool)
    ensures
        r == aligned(group, cache, ledger),
{
    group.slots.len() == cache.slots.len() && cache.slots.len() == ledger.slots.len()
}

/// The health of an account at time `now`: `InvalidState` if a slot of its
/// basket is stale in the cache, `Fatal` if the sum leaves the range of the
/// arithmetic.
pub open spec fn spec_health(
    group: &Group,
    cache: &Cache,
    ledger: Seq<Position>,
    ty: HealthType,
    now: u64,
) -> Result<I80F48, MangoError> {
    if !basket_fresh(cache@, ledger, now, group.valid_interval) {
        Err(MangoError::InvalidState)
    } else {
        match health_upto(group@, cache@, ledger, ty, ledger.len()) {
            Some(h) => Ok(h),
            None => Err(MangoError::Fatal),
        }
    }
}

fn weigh(v: Option<I80F48>, w: I80F48) -> (r: Option<I80F48>)
    ensures
        r == weighted(v, w),
{
    match v {
        Some(x) => if x.is_negative() {
            x.checked_mul(w)
        } else {
            Some(x)
        },
        None => None,
    }
}

/// The value of a token balance in quote currency.
pub fn token_value_of(balance: I80F48, c: &CacheSlot) -> (r: Option<I80F48>)
    ensures
        r == token_value(balance, *c),
{
    if balance.is_negative() {
        try_mul(balance.checked_mul(c.borrow_index), Some(c.price))
    } else {
        try_mul(balance.checked_mul(c.deposit_index), Some(c.price))
    }
}

/// The value of a perp position in quote currency.
pub fn perp_value_of(p: &PerpPosition, base_lot_size: i64, c: &CacheSlot) -> (r: Option<I80F48>)
    ensures
        r == perp_value(*p, base_lot_size, *c),
{
    assert(-0x4000_0000_0000_0000_0000_0000_0000_0000 <= p.base_position * base_lot_size
        <= 0x4000_0000_0000_0000_0000_0000_0000_0000) by (nonlinear_arith)
        requires
            -0x8000_0000_0000_0000 <= p.base_position <= 0x8000_0000_0000_0000,
            -0x8000_0000_0000_0000 <= base_lot_size <= 0x8000_0000_0000_0000,
    ;
    let lots: i128 = (p.base_position as i128) * (base_lot_size as i128);
    let notional: Option<I80F48> = match lots.checked_mul(0x1_0000_0000_0000) {
        Some(bits) => Some(I80F48 { bits }),
        None => None,
    };
    try_add(try_mul(notional, Some(c.price)), Some(p.quote_position))
}

/// The value that resting spot orders have reserved.
pub fn open_orders_value_of(oo: &Option<OpenOrders>, c: &CacheSlot) -> (r: Option<I80F48>)
    ensures
        r == open_orders_value(*oo, *c),
{
    match oo {
        Some(o) => try_add(
            I80F48::from_u64(o.base_locked).checked_mul(c.price),
            Some(I80F48::from_u64(o.quote_locked)),
        ),
        None => Some(I80F48::zero()),
    }
}

fn slot_health_of(p: &Position, s: &Slot, c: &CacheSlot, ty: HealthType) -> (r: Option<I80F48>)
    ensures
        r == slot_health(*p, *s, *c, ty),
{
    if !p.in_basket {
        Some(I80F48::zero())
    } else {
        try_add(
            try_add(
                weigh(token_value_of(p.balance, c), s.spot.weight(ty)),
                weigh(perp_value_of(&p.perp, s.base_lot_size, c), s.perp.weight(ty)),
            ),
            open_orders_value_of(&p.open_orders, c),
        )
    }
}

/// Computes the health of an account at time `now`.
pub fn health(group: &Group, cache: &Cache, ledger: &Ledger, ty: HealthType, now: u64) -> (r:
    Result<I80F48, MangoError>)
    requires
        aligned(group, cache, ledger),
    ensures
        r == spec_health(group, cache, ledger@, ty, now),
{
    let n: usize = ledger.slots.len();
    let mut i: usize = 0;
    while i < n
        invariant
            i <= n,
            n == ledger@.len(),
            aligned(group, cache, ledger),
            forall|j: int|
                0 <= j < i && ledger@[j].in_basket ==> (#[trigger] cache@[j]).spec_fresh(
                    now,
                    group.valid_interval,
                ),
        decreases n - i,
    {
        if ledger.slots[i].in_basket && !cache.slots[i].fresh(now, group.valid_interval) {
            return Err(MangoError::InvalidState);
        }
        i = i + 1;
    }
    let mut sum: Option<I80F48> = Some(I80F48::zero());
    let mut k: usize = 0;
    while k < n
        invariant
            k <= n,
            n == ledger@.len(),
            aligned(group, cache, ledger),
            sum == health_upto(group@, cache@, ledger@, ty, k as nat),
        decreases n - k,
    {
        sum = try_add(sum, slot_health_of(&ledger.slots[k], &group.slots[k], &cache.slots[k], ty));
        k = k + 1;
    }
    match sum {
        Some(h) => Ok(h),
        None => Err(MangoError::Fatal),
    }
}

/// A larger factor makes a weighted value no larger.
proof fn lemma_weighted_ordered(v: Option<I80F48>, strict: I80F48, lenient: I80F48)
    requires
        lenient.bits <= strict.bits,
        weighted(v, strict) is Some,
        weighted(v, lenient) is Some,
    ensures
        weighted(v, strict).unwrap().bits <= weighted(v, lenient).unwrap().bits,
{
    let x = v.unwrap();
    if x.bits < 0 {
        assert(x.bits * strict.bits <= x.bits * lenient.bits) by (nonlinear_arith)
            requires
                x.bits < 0,
                lenient.bits <= strict.bits,
        ;
        vstd::arithmetic::div_mod::lemma_div_is_ordered(
            x.bits * strict.bits,
            x.bits * lenient.bits,
            unit(),
        );
    }
}

/// A slot adds no more to initial health than to maintenance health.
proof fn lemma_slot_health_ordered(p: Position, s: Slot, c: CacheSlot)
    requires
        s.wf(),
        slot_health(p, s, c, HealthType::Init) is Some,
        slot_health(p, s, c, HealthType::Maint) is Some,
    ensures
        slot_health(p, s, c, HealthType::Init).unwrap().bits <= slot_health(
            p,
            s,
            c,
            HealthType::Maint,
        ).unwrap().bits,
{
    if p.in_basket {
        lemma_weighted_ordered(
            token_value(p.balance, c),
            s.spot.init_leverage,
            s.spot.maint_leverage,
        );
        lemma_weighted_ordered(
            perp_value(p.perp, s.base_lot_size, c),
            s.perp.init_leverage,
            s.perp.maint_leverage,
        );
    }
}

proof fn lemma_health_upto_ordered(
    slots: Seq<Slot>,
    cache: Seq<CacheSlot>,
    ledger: Seq<Position>,
    k: nat,
)
    requires
        k <= slots.len(),
        forall|i: int| 0 <= i < slots.len() ==> (#[trigger] slots[i]).wf(),
        health_upto(slots, cache, ledger, HealthType::Init, k) is Some,
        health_upto(slots, cache, ledger, HealthType::Maint, k) is Some,
    ensures
        health_upto(slots, cache, ledger, HealthType::Init, k).unwrap().bits <= health_upto(
            slots,
            cache,
            ledger,
            HealthType::Maint,
            k,
        ).unwrap().bits,
    decreases k,
{
    if k > 0 {
        lemma_health_upto_ordered(slots, cache, ledger, (k - 1) as nat);
        assert(slots[k - 1].wf());
        lemma_slot_health_ordered(ledger[k - 1], slots[k - 1], cache[k - 1]);
    }
}

/// Initial health is never above maintenance health: where both figures
/// exist for an account, the initial one is the smaller or they are equal.
pub proof fn lemma_init_health_at_most_maint(
    group: &Group,
    cache: &Cache,
    ledger: Seq<Position>,
    now: u64,
)
    requires
        group.wf(),
        ledger.len() == group@.len(),
    ensures
        spec_health(group, cache, ledger, HealthType::Init, now) is Ok && spec_health(
            group,
            cache,
            ledger,
            HealthType::Maint,
            now,
        ) is Ok ==> spec_health(group, cache, ledger, HealthType::Init, now).unwrap().bits
            <= spec_health(group, cache, ledger, HealthType::Maint, now).unwrap().bits,
{
    if spec_health(group, cache, ledger, HealthType::Init, now) is Ok && spec_health(
        group,
        cache,
        ledger,
        HealthType::Maint,
        now,
    ) is Ok {
        lemma_health_upto_ordered(group@, cache@, ledger, ledger.len());
    }
}

/// Health is a sum of what the slots add: an account whose slots each add at
/// least what the slots of another add has at least its health.
pub proof fn lemma_health_upto_monotone(
    slots: Seq<Slot>,
    cache: Seq<CacheSlot>,
    lower: Seq<Position>,
    higher: Seq<Position>,
    ty: HealthType,
    k: nat,
)
    requires
        forall|i: int|
            0 <= i < k && slot_health(lower[i], slots[i], cache[i], ty) is Some && slot_health(
                higher[i],
                slots[i],
                cache[i],
                ty,
            ) is Some ==> slot_health(lower[i], slots[i], cache[i], ty).unwrap().bits
                <= slot_health(higher[i], slots[i], cache[i], ty).unwrap().bits,
        health_upto(slots, cache, lower, ty, k) is Some,
        health_upto(slots, cache, higher, ty, k) is Some,
    ensures
        health_upto(slots, cache, lower, ty, k).unwrap().bits <= health_upto(
            slots,
            cache,
            higher,
            ty,
            k,
        ).unwrap().bits,
    decreases k,
{
    if k > 0 {
        lemma_health_upto_monotone(slots, cache, lower, higher, ty, (k - 1) as nat);
    }
}

/// What a slot adds to health follows its token balance: where only the
/// balance of a slot in the basket changes, the slot adds as much more as
/// the balance counts for more.
pub proof fn lemma_slot_health_follows_balance(
    p: Position,
    balance: I80F48,
    s: Slot,
    c: CacheSlot,
    ty: HealthType,
)
    requires
        p.in_basket,
        slot_health(p, s, c, ty) is Some,
        slot_health(Position { balance, ..p }, s, c, ty) is Some,
    ensures
        weighted(token_value(p.balance, c), s.spot.spec_weight(ty)) is Some,
        weighted(token_value(balance, c), s.spot.spec_weight(ty)) is Some,
        slot_health(Position { balance, ..p }, s, c, ty).unwrap().bits - slot_health(
            p,
            s,
            c,
            ty,
        ).unwrap().bits == weighted(
            token_value(balance, c),
            s.spot.spec_weight(ty),
        ).unwrap().bits - weighted(token_value(p.balance, c), s.spot.spec_weight(ty)).unwrap().bits,
{
}

/// What a slot adds to health follows its perp position: where only the
/// perp position of a slot in the basket changes, the slot adds as much
/// more as the position counts for more.
pub proof fn lemma_slot_health_follows_perp(
    p: Position,
    perp: PerpPosition,
    s: Slot,
    c: CacheSlot,
    ty: HealthType,
)
    requires
        p.in_basket,
        slot_health(p, s, c, ty) is Some,
        slot_health(Position { perp, ..p }, s, c, ty) is Some,
    ensures
        weighted(perp_value(p.perp, s.base_lot_size, c), s.perp.spec_weight(ty)) is Some,
        weighted(perp_value(perp, s.base_lot_size, c), s.perp.spec_weight(ty)) is Some,
        slot_health(Position { perp, ..p }, s, c, ty).unwrap().bits - slot_health(
            p,
            s,
            c,
            ty,
        ).unwrap().bits == weighted(
            perp_value(perp, s.base_lot_size, c),
            s.perp.spec_weight(ty),
        ).unwrap().bits - weighted(
            perp_value(p.perp, s.base_lot_size, c),
            s.perp.spec_weight(ty),
        ).unwrap().bits,
{
}

/// A value that is no larger counts for no more in health.
pub proof fn lemma_weighted_monotone(lower: I80F48, higher: I80F48, w: I80F48)
    requires
        w.bits >= 0,
        lower.bits <= higher.bits,
        weighted(Some(lower), w) is Some,
        weighted(Some(higher), w) is Some,
    ensures
        weighted(Some(lower), w).unwrap().bits <= weighted(Some(higher), w).unwrap().bits,
{
    let u = unit();
    if lower.bits < 0 {
        let lw = lower.bits * w.bits;
        assert(lw <= 0) by (nonlinear_arith)
            requires
                lw == lower.bits * w.bits,
                lower.bits < 0,
                w.bits >= 0,
        ;
        if higher.bits < 0 {
            let hw = higher.bits * w.bits;
            assert(lw <= hw) by (nonlinear_arith)
                requires
                    lw == lower.bits * w.bits,
                    hw == higher.bits * w.bits,
                    lower.bits <= higher.bits,
                    w.bits >= 0,
            ;
            vstd::arithmetic::div_mod::lemma_div_is_ordered(lw, hw, u);
        } else {
            vstd::arithmetic::div_mod::lemma_div_is_ordered(lw, 0, u);
        }
    }
}

/// Health is a sum of what the slots add: where two accounts differ in two
/// slots at most, and each of the two slots adds to the second account no
/// more than a given gain over what it adds to the first, the health of the
/// second exceeds that of the first by no more than the two gains.
pub proof fn lemma_health_of_two_changed_slots(
    slots: Seq<Slot>,
    cache: Seq<CacheSlot>,
    before: Seq<Position>,
    after: Seq<Position>,
    ty: HealthType,
    k: nat,
    i: int,
    j: int,
    gain_i: int,
    gain_j: int,
)
    requires
        i != j,
        gain_i >= 0,
        gain_j >= 0,
        forall|m: int| 0 <= m < k && m != i && m != j ==> after[m] == before[m],
        0 <= i < k && slot_health(before[i], slots[i], cache[i], ty) is Some && slot_health(
            after[i],
            slots[i],
            cache[i],
            ty,
        ) is Some ==> slot_health(after[i], slots[i], cache[i], ty).unwrap().bits <= slot_health(
            before[i],
            slots[i],
            cache[i],
            ty,
        ).unwrap().bits + gain_i,
        0 <= j < k && slot_health(before[j], slots[j], cache[j], ty) is Some && slot_health(
            after[j],
            slots[j],
            cache[j],
            ty,
        ) is Some ==> slot_health(after[j], slots[j], cache[j], ty).unwrap().bits <= slot_health(
            before[j],
            slots[j],
            cache[j],
            ty,
        ).unwrap().bits + gain_j,
        health_upto(slots, cache, before, ty, k) is Some,
        health_upto(slots, cache, after, ty, k) is Some,
    ensures
        health_upto(slots, cache, after, ty, k).unwrap().bits <= health_upto(
            slots,
            cache,
            before,
            ty,
            k,
        ).unwrap().bits + (if 0 <= i < k {
            gain_i
        } else {
            0
        }) + (if 0 <= j < k {
            gain_j
        } else {
            0
        }),
    decreases k,
{
    if k > 0 {
        lemma_health_of_two_changed_slots(
            slots,
            cache,
            before,
            after,
            ty,
            (k - 1) as nat,
            i,
            j,
            gain_i,
            gain_j,
        );
    }
}

/// The value of a token balance does not fall when the balance rises, at a
/// price that is not negative and indices that are positive.
pub proof fn lemma_token_health_monotone(
    lower: I80F48,
    higher: I80F48,
    c: CacheSlot,
    w: I80F48,
)
    requires
        c.wf(),
        w.bits >= unit(),
        lower.bits <= higher.bits,
        weighted(token_value(lower, c), w) is Some,
        weighted(token_value(higher, c), w) is Some,
    ensures
        weighted(token_value(lower, c), w).unwrap().bits <= weighted(
            token_value(higher, c),
            w,
        ).unwrap().bits,
{
    let u = unit();
    let p = c.price.bits as int;
    if lower.bits >= 0 {
        // Two deposits.
        let d = c.deposit_index.bits as int;
        assert(lower.bits * d <= higher.bits * d) by (nonlinear_arith)
            requires
                lower.bits <= higher.bits,
                d > 0,
        ;
        assert(0 <= lower.bits * d) by (nonlinear_arith)
            requires
                0 <= lower.bits,
                d > 0,
        ;
        vstd::arithmetic::div_mod::lemma_div_is_ordered(lower.bits * d, higher.bits * d, u);
        let nl = (lower.bits * d) / u;
        let nh = (higher.bits * d) / u;
        assert(0 <= nl <= nh);
        assert(nl * p <= nh * p && 0 <= nl * p) by (nonlinear_arith)
            requires
                0 <= nl <= nh,
                p >= 0,
        ;
        vstd::arithmetic::div_mod::lemma_div_is_ordered(nl * p, nh * p, u);
    } else if higher.bits >= 0 {
        // A borrow and a deposit: the first is worth nothing or less, the
        // second nothing or more.
        let d = c.deposit_index.bits as int;
        let b = c.borrow_index.bits as int;
        assert(lower.bits * b < 0) by (nonlinear_arith)
            requires
                lower.bits < 0,
                b > 0,
        ;
        assert(0 <= higher.bits * d) by (nonlinear_arith)
            requires
                0 <= higher.bits,
                d > 0,
        ;
        let nl = (lower.bits * b) / u;
        let nh = (higher.bits * d) / u;
        assert(nl <= 0 <= nh);
        assert(nl * p <= 0 <= nh * p) by (nonlinear_arith)
            requires
                nl <= 0 <= nh,
                p >= 0,
        ;
        let vl = (nl * p) / u;
        assert(vl <= 0);
        if vl < 0 {
            assert(vl * w.bits <= 0) by (nonlinear_arith)
                requires
                    vl < 0,
                    w.bits >= 0,
            ;
        }
    } else {
        // Two borrows.
        let b = c.borrow_index.bits as int;
        assert(lower.bits * b <= higher.bits * b) by (nonlinear_arith)
            requires
                lower.bits <= higher.bits,
                b > 0,
        ;
        assert(higher.bits * b < 0) by (nonlinear_arith)
            requires
                higher.bits < 0,
                b > 0,
        ;
        vstd::arithmetic::div_mod::lemma_div_is_ordered(lower.bits * b, higher.bits * b, u);
        let nl = (lower.bits * b) / u;
        let nh = (higher.bits * b) / u;
        assert(nl <= nh <= 0);
        assert(nl * p <= nh * p <= 0) by (nonlinear_arith)
            requires
                nl <= nh <= 0,
                p >= 0,
        ;
        vstd::arithmetic::div_mod::lemma_div_is_ordered(nl * p, nh * p, u);
        let vl = (nl * p) / u;
        let vh = (nh * p) / u;
        assert(vl <= vh <= 0);
        if vh < 0 {
            assert(vl * w.bits <= vh * w.bits) by (nonlinear_arith)
                requires
                    vl <= vh,
                    w.bits >= 0,
            ;
            vstd::arithmetic::div_mod::lemma_div_is_ordered(vl * w.bits, vh * w.bits, u);
        } else if vl < 0 {
            assert(vl * w.bits <= 0) by (nonlinear_arith)
                requires
                    vl < 0,
                    w.bits >= 0,
            ;
        }
    }
}

} // verus!
