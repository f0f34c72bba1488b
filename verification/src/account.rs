//! The margin account of one user.
use crate::error::MangoError;
use crate::fixed_point::I80F48;
use crate::solana::Pubkey;
use crate::state::INFO_LEN;
use vstd::prelude::*;

verus! {

/// A position in a perp market.
#[derive(Clone, Copy, Debug, PartialEq, Eq, Structural)]
pub struct PerpPosition {
    /// Base lots held: positive for a long position, negative for a short.
    pub base_position: i64,
    /// Quote currency owed to the position, settled funding included.
    pub quote_position: I80F48,
    /// The long funding of the market up to which this position has settled.
    pub long_settled_funding: I80F48,
    /// The short funding of the market up to which this position has settled.
    pub short_settled_funding: I80F48,
    /// Liquidity incentives earned and not yet redeemed.
    pub mngo_accrued: u64,
}

/// What the account's resting orders on a spot market have reserved.
#[derive(Clone, Copy, Debug, PartialEq, Eq, Structural)]
pub struct OpenOrders {
    /// Native base tokens reserved.
    pub base_locked: u64,
    /// Native quote tokens reserved.
    pub quote_locked: u64,
}

/// What an account holds in one slot.
#[derive(Clone, Copy, Debug, PartialEq, Eq, Structural)]
pub struct Position {
    /// Whether the slot takes part in health.
    pub in_basket: bool,
    /// The token balance in index-scaled units: a deposit if positive, a
    /// borrow if negative.
    pub balance: I80F48,
    pub perp: PerpPosition,
    pub open_orders: Option<OpenOrders>,
}

/// A margin account.
#[derive(Clone, Debug, PartialEq, Eq)]
pub struct Ledger {
    /// The user to whom the account belongs.
    pub owner: Pubkey,
    pub slots: Vec<Position>,
    /// A label that the owner may give the account.
    pub info: [u8; INFO_LEN],
    /// Fee-discount tokens deposited. They take no part in health.
    pub msrm_amount: u64,
}

impl PerpPosition {
    /// Nothing held and nothing owed.
    pub open spec fn is_empty(self) -> bool {
        self.base_position == 0 && self.quote_position.bits == 0
    }
}

impl Position {
    /// A slot that holds anything takes part in health.
    pub open spec fn wf(self) -> bool {
        (self.balance.bits != 0 || self.open_orders is Some || !self.perp.is_empty())
            ==> self.in_basket
    }

    /// Whether the slot is well formed.
    pub fn well_formed(&self) -> (r: bool)
        ensures
            r == self.wf(),
    {
        let holds: bool = self.balance.bits != 0 || self.open_orders.is_some()
            || self.perp.base_position != 0 || self.perp.quote_position.bits != 0;
        !holds || self.in_basket
    }

    /// The slot of a new account.
    pub open spec fn spec_empty() -> Position {
        Position {
            in_basket: false,
            balance: I80F48 { bits: 0 },
            perp: PerpPosition {
                base_position: 0,
                quote_position: I80F48 { bits: 0 },
                long_settled_funding: I80F48 { bits: 0 },
                short_settled_funding: I80F48 { bits: 0 },
                mngo_accrued: 0,
            },
            open_orders: None,
        }
    }

    /// The slot of a new account.
    pub fn empty() -> (p: Position)
        ensures
            p == Self::spec_empty(),
            p.wf(),
    {
        Position {
            in_basket: false,
            balance: I80F48 { bits: 0 },
            perp: PerpPosition {
                base_position: 0,
                quote_position: I80F48 { bits: 0 },
                long_settled_funding: I80F48 { bits: 0 },
                short_settled_funding: I80F48 { bits: 0 },
                mngo_accrued: 0,
            },
            open_orders: None,
        }
    }
}

impl View for Ledger {
    type V = Seq<Position>;

    open spec fn view(&self) -> Seq<Position> {
        self.slots@
    }
}

impl Ledger {
    /// Every slot is well formed.
    pub open spec fn wf(&self) -> bool {
        forall|i: int| 0 <= i < self@.len() ==> (#[trigger] self@[i]).wf()
    }

    /// An account of `owner` with `n` empty slots, no label and no
    /// fee-discount tokens.
    pub fn new(owner: Pubkey, n: usize) -> (l: Ledger)
        ensures
            l.owner == owner,
            l@.len() == n,
            forall|i: int| 0 <= i < n ==> l@[i] == Position::spec_empty(),
            l.info@ == Seq::new(INFO_LEN as nat, |i: int| 0u8),
            l.msrm_amount == 0,
            l.wf(),
    {
        let mut slots: Vec<Position> = Vec::new();
        let mut i: usize = 0;
        while i < n
            invariant
                i <= n,
                slots@.len() == i,
                forall|j: int| 0 <= j < i ==> slots@[j] == Position::spec_empty(),
            decreases n - i,
        {
            slots.push(Position::empty());
            i = i + 1;
        }
        let l = Ledger { owner, slots, info: [0u8; INFO_LEN], msrm_amount: 0 };
        assert(l.info@ =~= Seq::new(INFO_LEN as nat, |i: int| 0u8));
        l
    }

    /// All of the account but its slots is as in `before`: the owner, the
    /// label and the fee-discount tokens.
    pub open spec fn rest_as_in(&self, before: &Ledger) -> bool {
        &&& self.owner == before.owner
        &&& self.info == before.info
        &&& self.msrm_amount == before.msrm_amount
    }

    /// Whether every slot is well formed.
    pub fn well_formed(&self) -> (r: bool)
        ensures
            r == self.wf(),
    {
        let n: usize = self.slots.len();
        let mut i: usize = 0;
        while i < n
            invariant
                i <= n,
                n == self@.len(),
                forall|j: int| 0 <= j < i ==> (#[trigger] self@[j]).wf(),
            decreases n - i,
        {
            if !self.slots[i].well_formed() {
                return false;
            }
            i = i + 1;
        }
        true
    }

    /// Whether `signer` may act for the account: only its owner may, and
    /// anyone else is refused with `Unauthorized`.
    pub fn check_owner(&self, signer: &Pubkey) -> (r: Result<(), MangoError>)
        ensures
            *signer == self.owner ==> r is Ok,
            *signer != self.owner ==> r == Err::<(), MangoError>(MangoError::Unauthorized),
    {
        if signer.same(&self.owner) {
            Ok(())
        } else {
            Err(MangoError::Unauthorized)
        }
    }

    /// Labels the account.
    pub fn add_info(&mut self, info: [u8; INFO_LEN])
        ensures
            final(self).info == info,
            final(self)@ == old(self)@,
            final(self).owner == old(self).owner,
            final(self).msrm_amount == old(self).msrm_amount,
    {
        self.info = info;
    }

    /// Adds fee-discount tokens. An amount that does not fit is refused with
    /// `Fatal`.
    pub fn deposit_msrm(&mut self, quantity: u64) -> (r: Result<(), MangoError>)
        ensures
            final(self)@ == old(self)@,
            final(self).owner == old(self).owner,
            final(self).info == old(self).info,
            old(self).msrm_amount + quantity <= u64::MAX ==> r is Ok && final(self).msrm_amount
                == old(self).msrm_amount + quantity,
            old(self).msrm_amount + quantity > u64::MAX ==> r == Err::<(), MangoError>(
                MangoError::Fatal,
            ) && final(self).msrm_amount == old(self).msrm_amount,
    {
        match self.msrm_amount.checked_add(quantity) {
            Some(a) => {
                self.msrm_amount = a;
                Ok(())
            },
            None => Err(MangoError::Fatal),
        }
    }

    /// Takes fee-discount tokens out. More than the account holds is refused
    /// with `InsufficientFunds`.
    pub fn withdraw_msrm(&mut self, quantity: u64) -> (r: Result<(), MangoError>)
        ensures
            final(self)@ == old(self)@,
            final(self).owner == old(self).owner,
            final(self).info == old(self).info,
            quantity <= old(self).msrm_amount ==> r is Ok && final(self).msrm_amount
                == old(self).msrm_amount - quantity,
            quantity > old(self).msrm_amount ==> r == Err::<(), MangoError>(
                MangoError::InsufficientFunds,
            ) && final(self).msrm_amount == old(self).msrm_amount,
    {
        if quantity > self.msrm_amount {
            return Err(MangoError::InsufficientFunds);
        }
        self.msrm_amount = self.msrm_amount - quantity;
        Ok(())
    }
}

} // verus!
