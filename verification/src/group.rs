//! The group: the registry of slots and their risk parameters, and the cache
//! of prices and indices that calls read.
//!
//! A slot index means the same thing everywhere: slot `i` of the group, of the
//! cache and of every account speak of the same token, of its spot market and
//! of the perp market on it.
use crate::error::MangoError;
use crate::fixed_point::{unit, I80F48};
use crate::solana::Pubkey;
use crate::state::MAX_TOKENS;
use vstd::prelude::*;

verus! {

/// Which of the two health figures is meant.
#[derive(Clone, Copy, Debug, PartialEq, Eq, Structural)]
pub enum HealthType {
    /// The figure below which an account can be liquidated.
    Maint,
    /// The stricter figure that an account must keep to take on risk.
    Init,
}

/// How strictly a liability is counted, and what a liquidator earns.
#[derive(Clone, Copy, Debug, PartialEq, Eq, Structural)]
pub struct RiskParams {
    /// The factor on a liability in maintenance health.
    pub maint_leverage: I80F48,
    /// The factor on a liability in initial health.
    pub init_leverage: I80F48,
    /// The premium over the oracle price at which a liquidator trades.
    pub liquidation_fee: I80F48,
}

/// One slot of the group: a token with its spot market, and the perp market
/// on that token.
#[derive(Clone, Copy, Debug, PartialEq, Eq, Structural)]
pub struct Slot {
    pub spot: RiskParams,
    pub perp: RiskParams,
    /// Native base units in one lot of the perp market.
    pub base_lot_size: i64,
}

/// The configuration shared by all accounts.
#[derive(Clone, Debug, PartialEq, Eq)]
pub struct Group {
    /// The account that may change the group.
    pub admin: Pubkey,
    /// The age, in seconds, beyond which a cached value may not be read.
    pub valid_interval: u64,
    pub slots: Vec<Slot>,
}

/// What the cache holds for one slot, each part with the time at which it was
/// written.
#[derive(Clone, Copy, Debug, PartialEq, Eq, Structural)]
pub struct CacheSlot {
    /// The oracle price of the token in quote currency.
    pub price: I80F48,
    pub price_updated: u64,
    pub deposit_index: I80F48,
    pub borrow_index: I80F48,
    pub bank_updated: u64,
    pub long_funding: I80F48,
    pub short_funding: I80F48,
    pub perp_updated: u64,
}

/// The snapshot of prices, indices and funding that calls read instead of the
/// oracles, banks and markets themselves.
#[derive(Clone, Debug, PartialEq, Eq)]
pub struct Cache {
    pub slots: Vec<CacheSlot>,
}

impl RiskParams {
    /// A liability counts at least at par, initial health is at least as
    /// strict as maintenance health, and the fee is not negative.
    pub open spec fn wf(self) -> bool {
        &&& unit() <= self.maint_leverage.bits <= self.init_leverage.bits
        &&& 0 <= self.liquidation_fee.bits
    }

    /// The factor on a liability for the given health figure.
    pub open spec fn spec_weight(self, ty: HealthType) -> I80F48 {
        match ty {
            HealthType::Maint => self.maint_leverage,
            HealthType::Init => self.init_leverage,
        }
    }

    /// Whether the parameters are well formed.
    pub fn well_formed(&self) -> (r: bool)
        ensures
            r == self.wf(),
    {
        0x1_0000_0000_0000 <= self.maint_leverage.bits && self.maint_leverage.bits
            <= self.init_leverage.bits && 0 <= self.liquidation_fee.bits
    }

    /// The factor on a liability for the given health figure.
    pub fn weight(&self, ty: HealthType) -> (w: I80F48)
        ensures
            w == self.spec_weight(ty),
    {
        match ty {
            HealthType::Maint => self.maint_leverage,
            HealthType::Init => self.init_leverage,
        }
    }
}

impl Slot {
    /// Both sets of parameters are well formed, and a lot holds something.
    pub open spec fn wf(self) -> bool {
        &&& self.spot.wf()
        &&& self.perp.wf()
        &&& self.base_lot_size > 0
    }

    /// Whether the slot is well formed.
    pub fn well_formed(&self) -> (r: bool)
        ensures
            r == self.wf(),
    {
        self.spot.well_formed() && self.perp.well_formed() && self.base_lot_size > 0
    }
}

impl View for Group {
    type V = Seq<Slot>;

    open spec fn view(&self) -> Seq<Slot> {
        self.slots@
    }
}

impl Group {
    /// There are no more slots than tokens can be listed, and every slot is well
    /// formed.
    pub open spec fn wf(&self) -> bool {
        &&& self@.len() <= MAX_TOKENS
        &&& forall|i: int| 0 <= i < self@.len() ==> (#[trigger] self@[i]).wf()
    }

    /// Whether the group is well formed.
    pub fn well_formed(&self) -> (r: bool)
        ensures
            r == self.wf(),
    {
        let n: usize = self.slots.len();
        if n > MAX_TOKENS {
            return false;
        }
        let mut i: usize = 0;
        while i < n
            invariant
                i <= n,
                n == self@.len(),
                n <= MAX_TOKENS,
                forall|j: int| 0 <= j < i ==> (#[trigger] self@[j]).wf(),
            decreases n - i,
        {
            if !self.slots[i].well_formed() {
                return false;
            }
            i = i + 1;
        }
        true
    }

    /// A group without slots.
    pub fn new(admin: Pubkey, valid_interval: u64) -> (g: Group)
        ensures
            g.admin == admin,
            g.valid_interval == valid_interval,
            g@.len() == 0,
            g.wf(),
    {
        Group { admin, valid_interval, slots: Vec::new() }
    }

    /// Hands the group to `new_admin`, at the request of `signer`. Anyone
    /// but the present administrator is refused with `Unauthorized`.
    pub fn set_admin(&mut self, signer: &Pubkey, new_admin: Pubkey) -> (r: Result<(), MangoError>)
        ensures
            final(self)@ == old(self)@,
            final(self).valid_interval == old(self).valid_interval,
            *signer == old(self).admin ==> r is Ok && final(self).admin == new_admin,
            *signer != old(self).admin ==> r == Err::<(), MangoError>(MangoError::Unauthorized)
                && final(self).admin == old(self).admin,
    {
        if !signer.same(&self.admin) {
            return Err(MangoError::Unauthorized);
        }
        self.admin = new_admin;
        Ok(())
    }

    /// Lists a slot, at the request of `signer`, and returns its index.
    /// Anyone but the administrator is refused with `Unauthorized`, a slot
    /// with parameters that are not well formed or a group that is full with
    /// `InvalidState`.
    pub fn add_slot(&mut self, signer: &Pubkey, slot: Slot) -> (r: Result<usize, MangoError>)
        requires
            old(self).wf(),
        ensures
            final(self).wf(),
            final(self).admin == old(self).admin,
            final(self).valid_interval == old(self).valid_interval,
            *signer != old(self).admin ==> r == Err::<usize, MangoError>(MangoError::Unauthorized),
            *signer == old(self).admin && !(slot.wf() && old(self)@.len() < MAX_TOKENS) ==> r
                == Err::<usize, MangoError>(MangoError::InvalidState),
            *signer == old(self).admin && slot.wf() && old(self)@.len() < MAX_TOKENS ==> r
                == Ok::<usize, MangoError>(old(self)@.len() as usize) && final(self)@ == old(self)@
                .push(slot),
            r is Err ==> final(self)@ == old(self)@,
    {
        if !signer.same(&self.admin) {
            return Err(MangoError::Unauthorized);
        }
        if !slot.well_formed() || self.slots.len() >= MAX_TOKENS {
            return Err(MangoError::InvalidState);
        }
        let index: usize = self.slots.len();
        self.slots.push(slot);
        Ok(index)
    }
}

impl CacheSlot {
    /// Prices are not negative and indices are positive.
    pub open spec fn wf(self) -> bool {
        &&& self.price.bits >= 0
        &&& self.deposit_index.bits > 0
        &&& self.borrow_index.bits > 0
    }

    /// Whether the slot is well formed.
    pub fn well_formed(&self) -> (r: bool)
        ensures
            r == self.wf(),
    {
        self.price.bits >= 0 && self.deposit_index.bits > 0 && self.borrow_index.bits > 0
    }

    /// Whether the slot may be read at time `now`: none of its parts was
    /// written more than `valid_interval` seconds before.
    pub open spec fn spec_fresh(self, now: u64, valid_interval: u64) -> bool {
        &&& now <= self.price_updated + valid_interval
        &&& now <= self.bank_updated + valid_interval
        &&& now <= self.perp_updated + valid_interval
    }

    /// Whether the slot may be read at time `now`.
    pub fn fresh(&self, now: u64, valid_interval: u64) -> (r: bool)
        ensures
            r == self.spec_fresh(now, valid_interval),
    {
        let price_ok = match self.price_updated.checked_add(valid_interval) {
            Some(t) => now <= t,
            None => true,
        };
        let bank_ok = match self.bank_updated.checked_add(valid_interval) {
            Some(t) => now <= t,
            None => true,
        };
        let perp_ok = match self.perp_updated.checked_add(valid_interval) {
            Some(t) => now <= t,
            None => true,
        };
        price_ok && bank_ok && perp_ok
    }

    /// A slot that was never written: no price, indices of one, no funding,
    /// all as of time zero.
    pub open spec fn spec_initial() -> CacheSlot {
        CacheSlot {
            price: I80F48 { bits: 0 },
            price_updated: 0,
            deposit_index: I80F48 { bits: unit() as i128 },
            borrow_index: I80F48 { bits: unit() as i128 },
            bank_updated: 0,
            long_funding: I80F48 { bits: 0 },
            short_funding: I80F48 { bits: 0 },
            perp_updated: 0,
        }
    }

    /// A slot that was never written.
    pub fn initial() -> (c: CacheSlot)
        ensures
            c == Self::spec_initial(),
            c.wf(),
    {
        CacheSlot {
            price: I80F48::zero(),
            price_updated: 0,
            deposit_index: I80F48::one(),
            borrow_index: I80F48::one(),
            bank_updated: 0,
            long_funding: I80F48::zero(),
            short_funding: I80F48::zero(),
            perp_updated: 0,
        }
    }
}

impl View for Cache {
    type V = Seq<CacheSlot>;

    open spec fn view(&self) -> Seq<CacheSlot> {
        self.slots@
    }
}

impl Cache {
    /// Every slot is well formed.
    pub open spec fn wf(&self) -> bool {
        forall|i: int| 0 <= i < self@.len() ==> (#[trigger] self@[i]).wf()
    }

    /// Whether every slot is well formed.
    pub fn well_formed(&self) -> (r: bool)
        ensures
            r == self.wf(),
    {
        let n: usize = self.slots.len();
        let mut i: usize = 0;
        while i < n
            invariant
                i <= n,
                n == self@.len(),
                forall|j: int| 0 <= j < i ==> (#[trigger] self@[j]).wf(),
            decreases n - i,
        {
            if !self.slots[i].well_formed() {
                return false;
            }
            i = i + 1;
        }
        true
    }

    /// A cache of `n` slots that were never written.
    pub fn new(n: usize) -> (c: Cache)
        ensures
            c@.len() == n,
            forall|i: int| 0 <= i < n ==> c@[i] == CacheSlot::spec_initial(),
            c.wf(),
    {
        let mut slots: Vec<CacheSlot> = Vec::new();
        let mut i: usize = 0;
        while i < n
            invariant
                i <= n,
                slots@.len() == i,
                forall|j: int| 0 <= j < i ==> slots@[j] == CacheSlot::spec_initial(),
            decreases n - i,
        {
            slots.push(CacheSlot::initial());
            i = i + 1;
        }
        Cache { slots }
    }

    /// Writes the oracle price of a slot, as of `now`. A slot that does not
    /// exist or a negative price is refused with `InvalidState`.
    pub fn cache_price(&mut self, slot: usize, price: I80F48, now: u64) -> (r: Result<
        (),
        MangoError,
    >)
        requires
            old(self).wf(),
        ensures
            final(self).wf(),
            slot < old(self)@.len() && price.bits >= 0 ==> r is Ok && final(self)@ == old(self)@
                .update(
                slot as int,
                CacheSlot { price, price_updated: now, ..old(self)@[slot as int] },
            ),
            !(slot < old(self)@.len() && price.bits >= 0) ==> r == Err::<(), MangoError>(
                MangoError::InvalidState,
            ) && final(self)@ == old(self)@,
    {
        if slot >= self.slots.len() || price.is_negative() {
            return Err(MangoError::InvalidState);
        }
        let mut c: CacheSlot = self.slots[slot];
        c.price = price;
        c.price_updated = now;
        self.slots[slot] = c;
        Ok(())
    }

    /// Writes the indices of the bank of a slot, as of `now`. A slot that
    /// does not exist or an index that is not positive is refused with
    /// `InvalidState`.
    pub fn cache_root_bank(
        &mut self,
        slot: usize,
        deposit_index: I80F48,
        borrow_index: I80F48,
        now: u64,
    ) -> (r: Result<(), MangoError>)
        requires
            old(self).wf(),
        ensures
            final(self).wf(),
            slot < old(self)@.len() && deposit_index.bits > 0 && borrow_index.bits > 0 ==> r is Ok
                && final(self)@ == old(self)@.update(
                slot as int,
                CacheSlot {
                    deposit_index,
                    borrow_index,
                    bank_updated: now,
                    ..old(self)@[slot as int]
                },
            ),
            !(slot < old(self)@.len() && deposit_index.bits > 0 && borrow_index.bits > 0) ==> r
                == Err::<(), MangoError>(MangoError::InvalidState) && final(self)@ == old(self)@,
    {
        if slot >= self.slots.len() || !deposit_index.is_positive() || !borrow_index.is_positive() {
            return Err(MangoError::InvalidState);
        }
        let mut c: CacheSlot = self.slots[slot];
        c.deposit_index = deposit_index;
        c.borrow_index = borrow_index;
        c.bank_updated = now;
        self.slots[slot] = c;
        Ok(())
    }

    /// Writes the funding of the perp market of a slot, as of `now`. A slot
    /// that does not exist is refused with `InvalidState`.
    pub fn cache_perp_market(
        &mut self,
        slot: usize,
        long_funding: I80F48,
        short_funding: I80F48,
        now: u64,
    ) -> (r: Result<(), MangoError>)
        requires
            old(self).wf(),
        ensures
            final(self).wf(),
            slot < old(self)@.len() ==> r is Ok && final(self)@ == old(self)@.update(
                slot as int,
                CacheSlot {
                    long_funding,
                    short_funding,
                    perp_updated: now,
                    ..old(self)@[slot as int]
                },
            ),
            slot >= old(self)@.len() ==> r == Err::<(), MangoError>(MangoError::InvalidState)
                && final(self)@ == old(self)@,
    {
        if slot >= self.slots.len() {
            return Err(MangoError::InvalidState);
        }
        let mut c: CacheSlot = self.slots[slot];
        c.long_funding = long_funding;
        c.short_funding = short_funding;
        c.perp_updated = now;
        self.slots[slot] = c;
        Ok(())
    }
}

} // verus!
