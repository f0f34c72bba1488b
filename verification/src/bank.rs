//! The interest bank of a token: a root and its pools.
//!
//! Balances are kept in index-scaled units. A deposit of `raw` units is worth
//! `raw * deposit_index` native tokens and a borrow of `raw` units owes
//! `raw * borrow_index`, so interest is paid to every account at once by
//! raising the two indices. Tokens that are added to a borrow repay it before
//! they become a deposit, and tokens that are taken from a deposit use it up
//! before they become a borrow. The root of the bank holds the indices and the
//! rate curve. Its pools hold the tokens, and each keeps the totals of what
//! accounts have deposited and borrowed through it.
use crate::error::MangoError;
use crate::fixed_point::{
    add_opt, div_opt, fits, lemma_div_nonnegative, lemma_floor_scaled, lemma_mul_nonnegative,
    mul_opt, sub_opt, try_add, try_div, try_mul, try_sub, unit, I80F48,
};
use vstd::prelude::*;

verus! {

/// Seconds in a year of 365 days, the period of the interest rates.
pub const YEAR: u64 = 31_536_000;

/// The root of the bank of one token: its indices and its rate curve.
#[derive(Clone, Copy, Debug, PartialEq, Eq, Structural)]
pub struct RootBank {
    /// The utilization at which the rate curve bends.
    pub optimal_util: I80F48,
    /// The yearly borrow rate at optimal utilization.
    pub optimal_rate: I80F48,
    /// The yearly borrow rate at full utilization.
    pub max_rate: I80F48,
    /// The share of the interest that the protocol keeps as its fee,
    /// between nothing and all of it. Depositors receive the rest.
    pub fee_share: I80F48,
    pub deposit_index: I80F48,
    pub borrow_index: I80F48,
    /// The time of the last update of the indices.
    pub last_updated: u64,
}

/// A pool of the bank of one token: what accounts hold through it, and its
/// vault. A bank has one pool or more, and its totals are the sums over
/// them.
#[derive(Clone, Copy, Debug, PartialEq, Eq, Structural)]
pub struct NodeBank {
    /// All deposits through this pool, in index-scaled units.
    pub deposits: I80F48,
    /// All borrows through this pool, in index-scaled units.
    pub borrows: I80F48,
    /// Native tokens in the vault, which is what can be withdrawn.
    pub vault: u64,
}

/// The deposit that a balance is, or zero.
pub open spec fn deposit_part(balance: I80F48) -> int {
    if balance.bits > 0 {
        balance.bits as int
    } else {
        0
    }
}

/// The borrow that a balance is, or zero.
pub open spec fn borrow_part(balance: I80F48) -> int {
    if balance.bits < 0 {
        -balance.bits
    } else {
        0
    }
}

impl RootBank {
    /// Indices are positive and the rate curve rises: the bend lies strictly
    /// between no and full utilization, and the rates are ordered. The fee
    /// is a share.
    pub open spec fn wf(self) -> bool {
        &&& self.deposit_index.bits > 0
        &&& self.borrow_index.bits > 0
        &&& 0 < self.optimal_util.bits < unit()
        &&& 0 <= self.optimal_rate.bits <= self.max_rate.bits
        &&& 0 <= self.fee_share.bits <= unit()
    }

    /// What a borrow of `balance` owes in native tokens, as a number that is
    /// not negative.
    pub open spec fn spec_owed(self, balance: I80F48) -> Option<I80F48> {
        sub_opt(Some(I80F48 { bits: 0 }), balance.spec_mul(self.borrow_index))
    }

    /// The balance after `native` tokens were added to it. Tokens added to a
    /// deposit are divided by the deposit index. Tokens added to a borrow
    /// repay it, divided by the borrow index; where that is more than the
    /// borrow, the borrow is cleared and what the tokens exceed the native
    /// amount owed by is deposited, divided by the deposit index. There is
    /// none for a negative amount or where a number leaves the range of the
    /// arithmetic.
    pub open spec fn credited(self, balance: I80F48, native: I80F48) -> Option<I80F48> {
        if native.bits < 0 {
            None
        } else if balance.bits >= 0 {
            add_opt(Some(balance), native.spec_div(self.deposit_index))
        } else {
            match add_opt(Some(balance), native.spec_div(self.borrow_index)) {
                Some(repaid) => if repaid.bits <= 0 {
                    Some(repaid)
                } else {
                    div_opt(
                        sub_opt(Some(native), self.spec_owed(balance)),
                        Some(self.deposit_index),
                    )
                },
                None => None,
            }
        }
    }

    /// The balance after `native` tokens were taken from it. Tokens taken
    /// from a borrow add to it, divided by the borrow index. Tokens taken
    /// from a deposit lower it, divided by the deposit index; where that is
    /// more than the deposit, the deposit is cleared and what the tokens
    /// exceed its native worth by is borrowed, divided by the borrow index.
    /// There is none for a negative amount or where a number leaves the
    /// range of the arithmetic.
    pub open spec fn debited(self, balance: I80F48, native: I80F48) -> Option<I80F48> {
        if native.bits < 0 {
            None
        } else if balance.bits <= 0 {
            sub_opt(Some(balance), native.spec_div(self.borrow_index))
        } else {
            match sub_opt(Some(balance), native.spec_div(self.deposit_index)) {
                Some(left) => if left.bits >= 0 {
                    Some(left)
                } else {
                    sub_opt(
                        Some(I80F48 { bits: 0 }),
                        div_opt(
                            sub_opt(Some(native), balance.spec_mul(self.deposit_index)),
                            Some(self.borrow_index),
                        ),
                    )
                },
                None => None,
            }
        }
    }

    /// The balance after `quantity` native tokens were added to it.
    pub open spec fn balance_after_deposit(self, balance: I80F48, quantity: u64) -> Option<I80F48> {
        self.credited(balance, I80F48::spec_from_u64(quantity))
    }

    /// The balance after `quantity` native tokens were taken from it.
    pub open spec fn balance_after_withdraw(self, balance: I80F48, quantity: u64) -> Option<
        I80F48,
    > {
        self.debited(balance, I80F48::spec_from_u64(quantity))
    }

    /// What a balance is worth in native tokens, as the exact product of the
    /// two bit patterns: the value times `2^96`, positive for a deposit and
    /// negative for a borrow.
    pub open spec fn exact_value(self, balance: I80F48) -> int {
        if balance.bits >= 0 {
            balance.bits * self.deposit_index.bits
        } else {
            balance.bits * self.borrow_index.bits
        }
    }

    /// The most that the exact value of a balance can be off after tokens
    /// were added and the same tokens taken, or taken and then added: one
    /// unit of each index and two units of the native amount.
    pub open spec fn rounding(self) -> int {
        self.deposit_index.bits + self.borrow_index.bits + 2 * unit()
    }

    /// What a balance is worth in native tokens: positive for a deposit,
    /// negative for a borrow.
    pub open spec fn spec_native(self, balance: I80F48) -> Option<I80F48> {
        if balance.bits >= 0 {
            balance.spec_mul(self.deposit_index)
        } else {
            balance.spec_mul(self.borrow_index)
        }
    }

    /// Whether the root is well formed.
    pub fn well_formed(&self) -> (r: bool)
        ensures
            r == self.wf(),
    {
        self.deposit_index.bits > 0 && self.borrow_index.bits > 0 && 0 < self.optimal_util.bits
            && self.optimal_util.bits < 0x1_0000_0000_0000 && 0 <= self.optimal_rate.bits
            && self.optimal_rate.bits <= self.max_rate.bits && 0 <= self.fee_share.bits
            && self.fee_share.bits <= 0x1_0000_0000_0000
    }

    /// What an index-scaled deposit is worth in native tokens.
    pub open spec fn spec_native_deposit(self, raw: I80F48) -> Option<I80F48> {
        raw.spec_mul(self.deposit_index)
    }

    /// What an index-scaled borrow owes in native tokens.
    pub open spec fn spec_native_borrow(self, raw: I80F48) -> Option<I80F48> {
        raw.spec_mul(self.borrow_index)
    }

    /// What an index-scaled deposit is worth in native tokens, rounded down.
    pub fn native_deposit(&self, raw: I80F48) -> (r: Option<I80F48>)
        ensures
            r == self.spec_native_deposit(raw),
    {
        raw.checked_mul(self.deposit_index)
    }

    /// What an index-scaled borrow owes in native tokens, rounded down.
    pub fn native_borrow(&self, raw: I80F48) -> (r: Option<I80F48>)
        ensures
            r == self.spec_native_borrow(raw),
    {
        raw.checked_mul(self.borrow_index)
    }

    /// What a balance is worth in native tokens, rounded down.
    pub fn native(&self, balance: I80F48) -> (r: Option<I80F48>)
        ensures
            r == self.spec_native(balance),
    {
        if balance.is_negative() {
            balance.checked_mul(self.borrow_index)
        } else {
            balance.checked_mul(self.deposit_index)
        }
    }

    /// The balance after `native` tokens were added to it.
    pub fn credit(&self, balance: I80F48, native: Option<I80F48>) -> (r: Option<I80F48>)
        ensures
            native matches Some(n) ==> r == self.credited(balance, n),
            native is None ==> r is None,
    {
        let n: I80F48 = match native {
            Some(n) => n,
            None => { return None; },
        };
        if n.is_negative() {
            return None;
        }
        if !balance.is_negative() {
            return try_add(Some(balance), n.checked_div(self.deposit_index));
        }
        match try_add(Some(balance), n.checked_div(self.borrow_index)) {
            Some(repaid) => if !repaid.is_positive() {
                Some(repaid)
            } else {
                let owed = try_sub(Some(I80F48::zero()), balance.checked_mul(self.borrow_index));
                try_div(try_sub(Some(n), owed), Some(self.deposit_index))
            },
            None => None,
        }
    }

    /// The balance after `native` tokens were taken from it.
    pub fn debit(&self, balance: I80F48, native: Option<I80F48>) -> (r: Option<I80F48>)
        ensures
            native matches Some(n) ==> r == self.debited(balance, n),
            native is None ==> r is None,
    {
        let n: I80F48 = match native {
            Some(n) => n,
            None => { return None; },
        };
        if n.is_negative() {
            return None;
        }
        if !balance.is_positive() {
            return try_sub(Some(balance), n.checked_div(self.borrow_index));
        }
        match try_sub(Some(balance), n.checked_div(self.deposit_index)) {
            Some(left) => if !left.is_negative() {
                Some(left)
            } else {
                try_sub(
                    Some(I80F48::zero()),
                    try_div(
                        try_sub(Some(n), balance.checked_mul(self.deposit_index)),
                        Some(self.borrow_index),
                    ),
                )
            },
            None => None,
        }
    }

    /// The balance after `quantity` native tokens were added to it.
    pub(crate) fn balance_deposited(&self, balance: I80F48, quantity: u64) -> (r: Option<I80F48>)
        ensures
            r == self.balance_after_deposit(balance, quantity),
    {
        self.credit(balance, Some(I80F48::from_u64(quantity)))
    }

    /// The balance after `quantity` native tokens were taken from it.
    pub(crate) fn balance_withdrawn(&self, balance: I80F48, quantity: u64) -> (r: Option<I80F48>)
        ensures
            r == self.balance_after_withdraw(balance, quantity),
    {
        self.debit(balance, Some(I80F48::from_u64(quantity)))
    }
}

impl NodeBank {
    /// Totals are not negative.
    pub open spec fn wf(self) -> bool {
        self.deposits.bits >= 0 && self.borrows.bits >= 0
    }

    /// Whether the pool is well formed.
    pub fn well_formed(&self) -> (r: bool)
        ensures
            r == self.wf(),
    {
        self.deposits.bits >= 0 && self.borrows.bits >= 0
    }

    /// The pool after one balance changed from `old` to `new` and the vault
    /// came to hold `vault` tokens. There is none if a total leaves its range.
    pub open spec fn rebalanced(self, old: I80F48, new: I80F48, vault: int) -> Option<NodeBank> {
        let deposits = self.deposits.bits + deposit_part(new) - deposit_part(old);
        let borrows = self.borrows.bits + borrow_part(new) - borrow_part(old);
        if 0 <= deposits && fits(deposits) && 0 <= borrows && fits(borrows) && 0 <= vault
            <= u64::MAX {
            Some(
                NodeBank {
                    deposits: I80F48 { bits: deposits as i128 },
                    borrows: I80F48 { bits: borrows as i128 },
                    vault: vault as u64,
                },
            )
        } else {
            None
        }
    }

    /// The pool after one balance changed from `old` to `new` and the vault
    /// came to hold `vault` tokens; none if there is no such vault.
    pub(crate) fn rebalance(&self, old: I80F48, new: I80F48, vault: Option<u64>) -> (r: Option<
        NodeBank,
    >)
        requires
            self.wf(),
        ensures
            vault matches Some(v) ==> r == self.rebalanced(old, new, v as int),
            vault is None ==> r is None,
            r matches Some(node) ==> node.wf(),
    {
        let v: u64 = match vault {
            Some(v) => v,
            None => { return None; },
        };
        let new_deposit: i128 = if new.bits > 0 {
            new.bits
        } else {
            0
        };
        let old_deposit: i128 = if old.bits > 0 {
            old.bits
        } else {
            0
        };
        let new_borrow_negated: i128 = if new.bits < 0 {
            new.bits
        } else {
            0
        };
        let old_borrow_negated: i128 = if old.bits < 0 {
            old.bits
        } else {
            0
        };
        let deposits: i128 = match (self.deposits.bits - old_deposit).checked_add(new_deposit) {
            Some(d) => d,
            None => { return None; },
        };
        let borrows: i128 = match (self.borrows.bits + old_borrow_negated).checked_sub(
            new_borrow_negated,
        ) {
            Some(b) => b,
            None => { return None; },
        };
        if deposits < 0 || borrows < 0 {
            return None;
        }
        Some(
            NodeBank {
                deposits: I80F48 { bits: deposits },
                borrows: I80F48 { bits: borrows },
                vault: v,
            },
        )
    }
}

/// All deposits through the pools, in index-scaled units.
pub open spec fn sum_deposits(nodes: Seq<NodeBank>) -> int
    decreases nodes.len(),
{
    if nodes.len() == 0 {
        0
    } else {
        sum_deposits(nodes.drop_last()) + nodes.last().deposits.bits
    }
}

/// All borrows through the pools, in index-scaled units.
pub open spec fn sum_borrows(nodes: Seq<NodeBank>) -> int
    decreases nodes.len(),
{
    if nodes.len() == 0 {
        0
    } else {
        sum_borrows(nodes.drop_last()) + nodes.last().borrows.bits
    }
}

/// Every pool is well formed.
pub open spec fn nodes_wf(nodes: Seq<NodeBank>) -> bool {
    forall|i: int| 0 <= i < nodes.len() ==> (#[trigger] nodes[i]).wf()
}

/// Whether every pool is well formed.
pub fn nodes_well_formed(nodes: &[NodeBank]) -> (r: bool)
    ensures
        r == nodes_wf(nodes@),
{
    let n: usize = nodes.len();
    let mut i: usize = 0;
    while i < n
        invariant
            i <= n,
            n == nodes@.len(),
            forall|j: int| 0 <= j < i ==> (#[trigger] nodes@[j]).wf(),
        decreases n - i,
    {
        if !nodes[i].well_formed() {
            return false;
        }
        i = i + 1;
    }
    true
}

/// The totals of a bank, deposits first: the sums over its pools, if they
/// are in range.
pub open spec fn spec_totals(nodes: Seq<NodeBank>) -> Option<(I80F48, I80F48)> {
    if fits(sum_deposits(nodes)) && fits(sum_borrows(nodes)) {
        Some(
            (
                I80F48 { bits: sum_deposits(nodes) as i128 },
                I80F48 { bits: sum_borrows(nodes) as i128 },
            ),
        )
    } else {
        None
    }
}

/// The sums over the first pools are not negative and no more than the sums
/// over all.
proof fn lemma_sums_grow(nodes: Seq<NodeBank>, k: int)
    requires
        nodes_wf(nodes),
        0 <= k <= nodes.len(),
    ensures
        0 <= sum_deposits(nodes.subrange(0, k)) <= sum_deposits(nodes),
        0 <= sum_borrows(nodes.subrange(0, k)) <= sum_borrows(nodes),
    decreases nodes.len() - k,
{
    lemma_sums_nonnegative(nodes.subrange(0, k));
    if k < nodes.len() {
        lemma_sums_grow(nodes, k + 1);
        assert(nodes.subrange(0, k + 1).drop_last() =~= nodes.subrange(0, k));
        assert(nodes[k].wf());
    } else {
        assert(nodes.subrange(0, k) =~= nodes);
    }
}

proof fn lemma_sums_nonnegative(nodes: Seq<NodeBank>)
    requires
        nodes_wf(nodes),
    ensures
        0 <= sum_deposits(nodes),
        0 <= sum_borrows(nodes),
    decreases nodes.len(),
{
    if nodes.len() > 0 {
        lemma_sums_nonnegative(nodes.drop_last());
        assert(nodes[nodes.len() - 1].wf());
    }
}

/// Adds up what the pools of a bank hold.
pub fn totals(nodes: &[NodeBank]) -> (r: Option<(I80F48, I80F48)>)
    requires
        nodes_wf(nodes@),
    ensures
        r == spec_totals(nodes@),
        r matches Some((d, b)) ==> d.bits >= 0 && b.bits >= 0,
{
    let n: usize = nodes.len();
    let mut deposits: i128 = 0;
    let mut borrows: i128 = 0;
    let mut i: usize = 0;
    while i < n
        invariant
            i <= n,
            n == nodes@.len(),
            nodes_wf(nodes@),
            deposits == sum_deposits(nodes@.subrange(0, i as int)),
            borrows == sum_borrows(nodes@.subrange(0, i as int)),
        decreases n - i,
    {
        proof {
            lemma_sums_grow(nodes@, i + 1);
            assert(nodes@.subrange(0, i + 1).drop_last() =~= nodes@.subrange(0, i as int));
        }
        deposits = match deposits.checked_add(nodes[i].deposits.bits) {
            Some(d) => d,
            None => { return None; },
        };
        borrows = match borrows.checked_add(nodes[i].borrows.bits) {
            Some(b) => b,
            None => { return None; },
        };
        i = i + 1;
    }
    proof {
        assert(nodes@.subrange(0, n as int) =~= nodes@);
        lemma_sums_nonnegative(nodes@);
    }
    Some((I80F48 { bits: deposits }, I80F48 { bits: borrows }))
}

/// The share of the deposits that is lent out, between zero and one: the
/// native borrows over the native deposits, zero where nothing is deposited
/// and one where more is lent than deposited.
pub open spec fn spec_utilization(bank: RootBank, deposits: I80F48, borrows: I80F48) -> Option<
    I80F48,
> {
    match (deposits.spec_mul(bank.deposit_index), borrows.spec_mul(bank.borrow_index)) {
        (Some(d), Some(b)) => if d.bits <= 0 {
            Some(I80F48 { bits: 0 })
        } else {
            match b.spec_div(d) {
                Some(u) => if u.bits > unit() {
                    Some(I80F48 { bits: unit() as i128 })
                } else {
                    Some(u)
                },
                None => None,
            }
        },
        _ => None,
    }
}

/// The yearly borrow rate at utilization `u`. It rises in a straight line
/// from zero to the optimal rate at optimal utilization, from there in a
/// straight line to the maximal rate at full utilization, and stays at the
/// maximal rate.
pub open spec fn spec_borrow_rate(bank: RootBank, u: I80F48) -> Option<I80F48> {
    if u.bits <= bank.optimal_util.bits {
        div_opt(bank.optimal_rate.spec_mul(u), Some(bank.optimal_util))
    } else if u.bits < unit() {
        add_opt(
            Some(bank.optimal_rate),
            div_opt(
                mul_opt(bank.max_rate.spec_sub(bank.optimal_rate), u.spec_sub(bank.optimal_util)),
                I80F48 { bits: unit() as i128 }.spec_sub(bank.optimal_util),
            ),
        )
    } else {
        Some(bank.max_rate)
    }
}

/// The product of `a` and `b`, rounded up to the next number that the
/// fixed-point type holds.
pub open spec fn mul_up(a: Option<I80F48>, b: Option<I80F48>) -> Option<I80F48> {
    sub_opt(Some(I80F48 { bits: 0 }), mul_opt(sub_opt(Some(I80F48 { bits: 0 }), a), b))
}

fn try_mul_up(a: Option<I80F48>, b: Option<I80F48>) -> (r: Option<I80F48>)
    ensures
        r == mul_up(a, b),
{
    try_sub(Some(I80F48::zero()), try_mul(try_sub(Some(I80F48::zero()), a), b))
}

/// The share of the interest rate that reaches the depositors at
/// utilization `u`: what is lent out of what is deposited pays interest, and
/// the protocol keeps its fee of that.
pub open spec fn spec_depositor_share(bank: RootBank, u: I80F48) -> Option<I80F48> {
    mul_opt(Some(u), I80F48 { bits: unit() as i128 }.spec_sub(bank.fee_share))
}

/// The root after its indices were brought up to `now`, for a bank with the
/// given totals. The borrow index grows by the borrow rate for the share of
/// a year that has passed, and the deposit index by that times the
/// utilization, less the fee of the protocol, so that depositors receive
/// what borrowers pay and the protocol does not keep. The step of the
/// borrow index is rounded up and that of the deposit index down, so that
/// rounding never lets the deposit index grow faster than the borrow index.
/// It fails with `Fatal` if `now` lies before the last update or if a
/// number leaves the range of the arithmetic.
pub open spec fn spec_update_index(
    bank: RootBank,
    deposits: I80F48,
    borrows: I80F48,
    now: u64,
) -> Result<RootBank, MangoError> {
    if now < bank.last_updated {
        Err(MangoError::Fatal)
    } else {
        match spec_utilization(bank, deposits, borrows) {
            Some(u) => {
                let interest = div_opt(
                    mul_opt(
                        spec_borrow_rate(bank, u),
                        Some(I80F48::spec_from_u64((now - bank.last_updated) as u64)),
                    ),
                    Some(I80F48::spec_from_u64(YEAR)),
                );
                match (
                    add_opt(Some(bank.borrow_index), mul_up(Some(bank.borrow_index), interest)),
                    add_opt(
                        Some(bank.deposit_index),
                        mul_opt(
                            Some(bank.deposit_index),
                            mul_opt(interest, spec_depositor_share(bank, u)),
                        ),
                    ),
                ) {
                    (Some(b), Some(d)) => Ok(
                        RootBank { borrow_index: b, deposit_index: d, last_updated: now, ..bank },
                    ),
                    _ => Err(MangoError::Fatal),
                }
            },
            None => Err(MangoError::Fatal),
        }
    }
}

fn utilization(bank: &RootBank, deposits: I80F48, borrows: I80F48) -> (r: Option<I80F48>)
    ensures
        r == spec_utilization(*bank, deposits, borrows),
{
    match (deposits.checked_mul(bank.deposit_index), borrows.checked_mul(bank.borrow_index)) {
        (Some(d), Some(b)) => if !d.is_positive() {
            Some(I80F48::zero())
        } else {
            match b.checked_div(d) {
                Some(u) => if u.bits > 0x1_0000_0000_0000 {
                    Some(I80F48::one())
                } else {
                    Some(u)
                },
                None => None,
            }
        },
        _ => None,
    }
}

fn borrow_rate(bank: &RootBank, u: I80F48) -> (r: Option<I80F48>)
    ensures
        r == spec_borrow_rate(*bank, u),
{
    if u.bits <= bank.optimal_util.bits {
        try_div(bank.optimal_rate.checked_mul(u), Some(bank.optimal_util))
    } else if u.bits < 0x1_0000_0000_0000 {
        try_add(
            Some(bank.optimal_rate),
            try_div(
                try_mul(bank.max_rate.checked_sub(bank.optimal_rate), u.checked_sub(bank.optimal_util)),
                I80F48::one().checked_sub(bank.optimal_util),
            ),
        )
    } else {
        Some(bank.max_rate)
    }
}

/// The root after an update of its indices at `now`, for a bank with the
/// given pools: as for the totals of the pools, and `Fatal` if the totals
/// leave the range of the arithmetic.
pub open spec fn spec_update_root_bank(bank: RootBank, nodes: Seq<NodeBank>, now: u64) -> Result<
    RootBank,
    MangoError,
> {
    match spec_totals(nodes) {
        Some((deposits, borrows)) => spec_update_index(bank, deposits, borrows, now),
        None => Err(MangoError::Fatal),
    }
}

/// Brings the indices of the bank up to `now`, from what its pools hold.
pub fn update_index(bank: &mut RootBank, nodes: &[NodeBank], now: u64) -> (r: Result<
    (),
    MangoError,
>)
    requires
        nodes_wf(nodes@),
    ensures
        match spec_update_root_bank(*old(bank), nodes@, now) {
            Ok(after) => r is Ok && *final(bank) == after,
            Err(e) => r == Err::<(), MangoError>(e) && *final(bank) == *old(bank),
        },
        old(bank).wf() ==> final(bank).wf(),
{
    let (deposits, borrows): (I80F48, I80F48) = match totals(nodes) {
        Some(t) => t,
        None => { return Err(MangoError::Fatal); },
    };
    proof {
        if old(bank).wf() && spec_update_index(*old(bank), deposits, borrows, now) is Ok {
            lemma_update_index_raises(*old(bank), deposits, borrows, now);
        }
    }
    if now < bank.last_updated {
        return Err(MangoError::Fatal);
    }
    let u: I80F48 = match utilization(bank, deposits, borrows) {
        Some(u) => u,
        None => { return Err(MangoError::Fatal); },
    };
    let interest = try_div(
        try_mul(borrow_rate(bank, u), Some(I80F48::from_u64(now - bank.last_updated))),
        Some(I80F48::from_u64(YEAR)),
    );
    match (
        try_add(Some(bank.borrow_index), try_mul_up(Some(bank.borrow_index), interest)),
        try_add(
            Some(bank.deposit_index),
            try_mul(
                Some(bank.deposit_index),
                try_mul(interest, try_mul(Some(u), I80F48::one().checked_sub(bank.fee_share))),
            ),
        ),
    ) {
        (Some(b), Some(d)) => {
            bank.borrow_index = b;
            bank.deposit_index = d;
            bank.last_updated = now;
            Ok(())
        },
        _ => Err(MangoError::Fatal),
    }
}

/// The root after a loss of `loss` native tokens was spread over the
/// depositors of a bank with total deposits of `deposits`: the deposit index
/// falls by the loss per index-scaled unit deposited, rounded towards zero.
/// There is none if nothing is deposited, if the index would not stay
/// positive, or if a number leaves the range of the arithmetic.
pub open spec fn spec_socialize_loss(bank: RootBank, deposits: I80F48, loss: I80F48) -> Option<
    RootBank,
> {
    match sub_opt(Some(bank.deposit_index), loss.spec_div(deposits)) {
        Some(index) => if index.bits > 0 {
            Some(RootBank { deposit_index: index, ..bank })
        } else {
            None
        },
        None => None,
    }
}

/// Spreads a loss of `loss` native tokens over the depositors of the bank by
/// lowering its deposit index. No account is touched: each depositor bears
/// its share when its balance is next valued.
pub fn socialize_loss(bank: &RootBank, deposits: I80F48, loss: I80F48) -> (r: Option<RootBank>)
    requires
        bank.wf(),
    ensures
        r == spec_socialize_loss(*bank, deposits, loss),
        r matches Some(b) ==> b.wf(),
{
    match try_sub(Some(bank.deposit_index), loss.checked_div(deposits)) {
        Some(index) => if index.is_positive() {
            let mut after: RootBank = *bank;
            after.deposit_index = index;
            Some(after)
        } else {
            None
        },
        None => None,
    }
}

/// What deposits of `deposits` index-scaled units are worth in native
/// tokens, as the exact product of the two bit patterns: the value times
/// `2^96`.
pub open spec fn deposit_value(bank: RootBank, deposits: I80F48) -> int {
    deposits.bits * bank.deposit_index.bits
}

/// Spreading a loss takes from the depositors what the loss is, up to the
/// rounding of the index: the value of all deposits falls by the loss, less
/// at most one unit of the index per unit deposited. Where the loss is a
/// whole multiple of the deposits in units of the index, it falls by the
/// loss exactly.
pub proof fn lemma_socialized_loss(bank: RootBank, deposits: I80F48, loss: I80F48)
    requires
        bank.wf(),
        deposits.bits >= 0,
        loss.bits >= 0,
        spec_socialize_loss(bank, deposits, loss) is Some,
    ensures
        ({
            let after = spec_socialize_loss(bank, deposits, loss).unwrap();
            let fall = deposit_value(bank, deposits) - deposit_value(after, deposits);
            &&& loss.bits * unit() - deposits.bits < fall <= loss.bits * unit()
            &&& (loss.bits * unit()) % (deposits.bits as int) == 0 ==> fall == loss.bits * unit()
        }),
{
    let after = spec_socialize_loss(bank, deposits, loss).unwrap();
    let d = deposits.bits as int;
    let n = loss.bits * unit();
    let q = n / d;
    assert(d > 0);
    assert(n >= 0) by (nonlinear_arith)
        requires
            loss.bits >= 0,
            n == loss.bits * unit(),
            unit() == 0x1_0000_0000_0000,
    ;
    assert(crate::fixed_point::div_towards_zero(n, d) == q);
    assert(bank.deposit_index.bits - after.deposit_index.bits == q);
    vstd::arithmetic::div_mod::lemma_fundamental_div_mod(n, d);
    vstd::arithmetic::div_mod::lemma_mod_bound(n, d);
    assert(deposit_value(bank, deposits) - deposit_value(after, deposits) == d * q)
        by (nonlinear_arith)
        requires
            deposit_value(bank, deposits) == d * bank.deposit_index.bits,
            deposit_value(after, deposits) == d * after.deposit_index.bits,
            bank.deposit_index.bits - after.deposit_index.bits == q,
    ;
}

/// Utilization lies between zero and one.
proof fn lemma_utilization_bounded(bank: RootBank, deposits: I80F48, borrows: I80F48)
    requires
        bank.wf(),
        deposits.bits >= 0,
        borrows.bits >= 0,
        spec_utilization(bank, deposits, borrows) is Some,
    ensures
        0 <= spec_utilization(bank, deposits, borrows).unwrap().bits <= unit(),
{
    lemma_mul_nonnegative(deposits, bank.deposit_index);
    lemma_mul_nonnegative(borrows, bank.borrow_index);
    let d = deposits.spec_mul(bank.deposit_index).unwrap();
    let b = borrows.spec_mul(bank.borrow_index).unwrap();
    if d.bits > 0 {
        lemma_div_nonnegative(b, d);
    }
}

/// The borrow rate is not negative.
proof fn lemma_borrow_rate_nonnegative(bank: RootBank, u: I80F48)
    requires
        bank.wf(),
        0 <= u.bits <= unit(),
        spec_borrow_rate(bank, u) is Some,
    ensures
        spec_borrow_rate(bank, u).unwrap().bits >= 0,
{
    if u.bits <= bank.optimal_util.bits {
        lemma_mul_nonnegative(bank.optimal_rate, u);
        lemma_div_nonnegative(bank.optimal_rate.spec_mul(u).unwrap(), bank.optimal_util);
    } else if u.bits < unit() {
        let rise = bank.max_rate.spec_sub(bank.optimal_rate).unwrap();
        let run = u.spec_sub(bank.optimal_util).unwrap();
        let span = (I80F48 { bits: unit() as i128 }).spec_sub(bank.optimal_util).unwrap();
        lemma_mul_nonnegative(rise, run);
        lemma_div_nonnegative(rise.spec_mul(run).unwrap(), span);
    }
}

/// Interest never lowers an index, and the borrow index grows at least as
/// fast as the deposit index: after an update both indices are at least
/// what they were, the ratio of the new borrow index to the old is at least
/// that of the new deposit index to the old, the root stays well formed,
/// and nothing else but the time of the update has changed. An update at
/// the time of the last one changes nothing.
pub proof fn lemma_update_index_raises(
    bank: RootBank,
    deposits: I80F48,
    borrows: I80F48,
    now: u64,
)
    requires
        bank.wf(),
        deposits.bits >= 0,
        borrows.bits >= 0,
        spec_update_index(bank, deposits, borrows, now) is Ok,
    ensures
        ({
            let after = spec_update_index(bank, deposits, borrows, now).unwrap();
            &&& after.borrow_index.bits >= bank.borrow_index.bits
            &&& after.deposit_index.bits >= bank.deposit_index.bits
            &&& after.borrow_index.bits * bank.deposit_index.bits >= after.deposit_index.bits
                * bank.borrow_index.bits
            &&& now == bank.last_updated ==> after == bank
            &&& after.wf()
            &&& after == RootBank {
                borrow_index: after.borrow_index,
                deposit_index: after.deposit_index,
                last_updated: now,
                ..bank
            }
        }),
{
    let after = spec_update_index(bank, deposits, borrows, now).unwrap();
    let u = spec_utilization(bank, deposits, borrows).unwrap();
    lemma_utilization_bounded(bank, deposits, borrows);
    let rate = spec_borrow_rate(bank, u).unwrap();
    lemma_borrow_rate_nonnegative(bank, u);
    let elapsed = I80F48::spec_from_u64((now - bank.last_updated) as u64);
    let year = I80F48::spec_from_u64(YEAR);
    assert(elapsed.bits >= 0 && year.bits > 0) by (nonlinear_arith)
        requires
            elapsed.bits == (now - bank.last_updated) * unit(),
            year.bits == YEAR * unit(),
            now >= bank.last_updated,
            unit() == 0x1_0000_0000_0000,
            YEAR == 31_536_000,
    ;
    lemma_mul_nonnegative(rate, elapsed);
    let interest = rate.spec_mul(elapsed).unwrap().spec_div(year).unwrap();
    lemma_div_nonnegative(rate.spec_mul(elapsed).unwrap(), year);
    let rest = (I80F48 { bits: unit() as i128 }).spec_sub(bank.fee_share).unwrap();
    lemma_mul_nonnegative(u, rest);
    let share = spec_depositor_share(bank, u).unwrap();
    let ur = u.bits * rest.bits;
    assert(0 <= ur <= unit() * unit()) by (nonlinear_arith)
        requires
            ur == u.bits * rest.bits,
            0 <= u.bits <= unit(),
            0 <= rest.bits <= unit(),
    ;
    vstd::arithmetic::div_mod::lemma_div_is_ordered(ur, unit() * unit(), unit());
    vstd::arithmetic::div_mod::lemma_div_multiples_vanish(unit(), unit());
    assert(0 <= share.bits <= unit());
    lemma_mul_nonnegative(interest, share);
    let kept = interest.spec_mul(share).unwrap();
    lemma_mul_nonnegative(bank.deposit_index, kept);
    let b0 = bank.borrow_index.bits as int;
    let d0 = bank.deposit_index.bits as int;
    let i = interest.bits as int;
    let k = kept.bits as int;
    let un = unit();
    // The step of the borrow index, scaled, is at least the exact product.
    let db = after.borrow_index.bits - b0;
    let nb = (-b0) * i;
    let bi = b0 * i;
    assert(nb == -bi) by (nonlinear_arith)
        requires
            nb == (-b0) * i,
            bi == b0 * i,
    ;
    assert(bi >= 0) by (nonlinear_arith)
        requires
            bi == b0 * i,
            b0 > 0,
            i >= 0,
    ;
    assert(db == -(nb / un));
    lemma_floor_scaled(nb, un);
    let q = nb / un;
    assert(q <= 0) by (nonlinear_arith)
        requires
            q * un <= nb,
            nb <= 0,
            un > 0,
            nb < q * un + un,
    ;
    assert(db * un >= bi) by (nonlinear_arith)
        requires
            db == -q,
            q * un <= nb,
            nb == -bi,
    ;
    // The step of the deposit index, scaled, is at most the exact product.
    let dd = after.deposit_index.bits - d0;
    let iu = i * share.bits;
    assert(0 <= iu <= i * un) by (nonlinear_arith)
        requires
            iu == i * share.bits,
            i >= 0,
            0 <= share.bits <= un,
    ;
    assert(k == iu / un);
    vstd::arithmetic::div_mod::lemma_div_is_ordered(iu, i * un, un);
    vstd::arithmetic::div_mod::lemma_div_multiples_vanish(i, un);
    assert(k <= i);
    let dk = d0 * k;
    assert(dd == dk / un);
    lemma_floor_scaled(dk, un);
    assert(dk <= d0 * i) by (nonlinear_arith)
        requires
            dk == d0 * k,
            0 <= k <= i,
            d0 > 0,
    ;
    assert(dd * un <= d0 * i);
    assert(db * d0 >= dd * b0) by (nonlinear_arith)
        requires
            db * un >= bi,
            bi == b0 * i,
            dd * un <= d0 * i,
            un > 0,
            b0 > 0,
            d0 > 0,
            i >= 0,
            db >= 0,
            dd >= 0,
    ;
    assert((b0 + db) * d0 >= (d0 + dd) * b0) by (nonlinear_arith)
        requires
            db * d0 >= dd * b0,
    ;
    if now == bank.last_updated {
        // No time has passed: no interest has accrued.
        let re = rate.bits * elapsed.bits;
        assert(re == 0) by (nonlinear_arith)
            requires
                re == rate.bits * elapsed.bits,
                elapsed.bits == 0,
        ;
        assert(i == 0);
        assert(nb == 0) by (nonlinear_arith)
            requires
                nb == (-b0) * i,
                i == 0,
        ;
        assert(iu == 0) by (nonlinear_arith)
            requires
                iu == i * share.bits,
                i == 0,
        ;
        assert(k == 0);
        assert(dk == 0) by (nonlinear_arith)
            requires
                dk == d0 * k,
                k == 0,
        ;
        assert(db == 0 && dd == 0);
    }
}

/// What a balance of `e`, which is not negative, is worth.
proof fn lemma_value_of_deposit(bank: RootBank, balance: I80F48, e: int)
    requires
        balance.bits == e,
        e >= 0,
    ensures
        bank.exact_value(balance) == e * bank.deposit_index.bits,
        e == 0 ==> bank.exact_value(balance) == 0,
{
    if e == 0 {
        assert(balance.bits * bank.deposit_index.bits == 0) by (nonlinear_arith)
            requires
                balance.bits == 0,
        ;
    }
}

/// What a balance of `-e`, for `e` that is not negative, is worth.
proof fn lemma_value_of_borrow(bank: RootBank, balance: I80F48, e: int)
    requires
        balance.bits == -e,
        e >= 0,
    ensures
        bank.exact_value(balance) == -(e * bank.borrow_index.bits),
        e == 0 ==> bank.exact_value(balance) == 0,
{
    let b = bank.borrow_index.bits as int;
    if e == 0 {
        assert(e * b == 0) by (nonlinear_arith)
            requires
                e == 0,
        ;
        assert(balance.bits * bank.deposit_index.bits == 0) by (nonlinear_arith)
            requires
                balance.bits == 0,
        ;
    } else {
        assert((-e) * b == -(e * b)) by (nonlinear_arith);
    }
}

/// The native amount that a borrow of `-x` owes, scaled, lies within one
/// unit above the exact product.
proof fn lemma_owed_scaled(x: int, b: int) -> (owed: int)
    requires
        x < 0,
        b > 0,
    ensures
        owed == -((x * b) / unit()),
        owed > 0,
        -(x * b) <= owed * unit() < -(x * b) + unit(),
{
    let xb = x * b;
    assert(xb < 0) by (nonlinear_arith)
        requires
            x < 0,
            b > 0,
            xb == x * b,
    ;
    lemma_floor_scaled(xb, unit());
    let owed = -(xb / unit());
    assert(owed * unit() == -((xb / unit()) * unit())) by (nonlinear_arith)
        requires
            owed == -(xb / unit()),
    ;
    owed
}

/// The remainder `n - k`, scaled.
proof fn lemma_rest_scaled(n: int, k: int) -> (rest: int)
    ensures
        rest == (n - k) * unit(),
        rest == n * unit() - k * unit(),
{
    let rest = (n - k) * unit();
    assert(rest == n * unit() - k * unit()) by (nonlinear_arith)
        requires
            rest == (n - k) * unit(),
    ;
    rest
}

/// A quotient that exceeds `y` has a dividend that exceeds `y` times the
/// divisor by at least the divisor.
proof fn lemma_quotient_exceeds(x: int, d: int, y: int)
    requires
        d > 0,
        x / d >= y + 1,
    ensures
        x >= y * d + d,
{
    lemma_floor_scaled(x, d);
    assert((x / d) * d >= (y + 1) * d) by (nonlinear_arith)
        requires
            x / d >= y + 1,
            d > 0,
    ;
    assert((y + 1) * d == y * d + d) by (nonlinear_arith);
}

/// Tokens that are added to a balance and taken from it again leave what
/// the balance is worth as it was, up to rounding: the exact value of the
/// balance ends within one unit of each index and two units of the native
/// amount of where it began, whether or not the tokens carried the balance
/// across zero. Where the balance is strictly on one side of zero after the
/// tokens were added, and was on that side before, it ends as it began.
pub proof fn lemma_credit_then_debit(bank: RootBank, balance: I80F48, native: I80F48)
    requires
        bank.wf(),
        bank.credited(balance, native) is Some,
        bank.debited(bank.credited(balance, native).unwrap(), native) is Some,
    ensures
        ({
            let mid = bank.credited(balance, native).unwrap();
            let end = bank.debited(mid, native).unwrap();
            &&& -bank.rounding() < bank.exact_value(end) - bank.exact_value(balance)
                < bank.rounding()
            &&& (balance.bits >= 0 && mid.bits > 0) || (balance.bits < 0 && mid.bits < 0) ==> end
                == balance
        }),
{
    let u = unit();
    let d = bank.deposit_index.bits as int;
    let b = bank.borrow_index.bits as int;
    let n = native.bits as int;
    let x = balance.bits as int;
    let mid = bank.credited(balance, native).unwrap();
    let end = bank.debited(mid, native).unwrap();
    let nu = lemma_rest_scaled(n, 0);
    assert(nu == n * u);
    assert(nu >= 0) by (nonlinear_arith)
        requires
            n >= 0,
            u > 0,
            nu == n * u,
    ;
    let rd = nu / d;
    let rb = nu / b;
    lemma_floor_scaled(nu, d);
    lemma_floor_scaled(nu, b);
    let start_value = bank.exact_value(balance);
    let end_value = bank.exact_value(end);
    if x >= 0 {
        assert(mid.bits == x + rd);
        if mid.bits > 0 {
            assert(end == balance);
        } else {
            // Nothing was there, and the tokens were worth less than one
            // unit of the deposit index.
            assert(x == 0 && rd == 0);
            assert(nu < d);
            assert(end.bits == -rb);
            lemma_value_of_borrow(bank, end, rb);
            lemma_value_of_deposit(bank, balance, 0);
            assert(start_value == 0);
            assert(end_value == -(rb * b));
            assert(-d < end_value - start_value <= 0);
        }
    } else if x + rb <= 0 {
        assert(mid.bits == x + rb);
        assert(end == balance);
    } else {
        // The borrow is repaid in full.
        let owed = lemma_owed_scaled(x, b);
        lemma_quotient_exceeds(nu, b, -x);
        assert((-x) * b == -(x * b)) by (nonlinear_arith);
        assert(nu >= -(x * b) + b);
        assert(owed * u < nu + u);
        assert(owed <= n) by (nonlinear_arith)
            requires
                owed * u < n * u + u,
                u > 0,
        ;
        let remu = lemma_rest_scaled(n, owed);
        assert(remu >= 0);
        lemma_floor_scaled(remu, d);
        assert(mid.bits == remu / d);
        lemma_value_of_borrow(bank, balance, -x);
        assert(start_value == -((-x) * b));
        assert(start_value == x * b);
        if mid.bits == 0 {
            assert(remu < d);
            assert(end.bits == -rb);
            lemma_value_of_borrow(bank, end, rb);
            assert(end_value == -(rb * b));
            assert(-d - u < end_value - start_value < b);
        } else {
            vstd::arithmetic::div_mod::lemma_div_is_ordered(remu, nu, d);
            if mid.bits - rd >= 0 {
                assert(mid.bits == rd);
                assert(end.bits == 0);
                lemma_value_of_deposit(bank, end, 0);
                assert(end_value == 0);
                assert(nu - remu < d);
                assert(0 < end_value - start_value < d);
            } else {
                let md = mid.bits * d;
                assert(md == (remu / d) * d);
                assert(md >= 0);
                lemma_floor_scaled(md, u);
                let have = md / u;
                let rem2u = lemma_rest_scaled(n, have);
                assert(rem2u >= 0);
                lemma_floor_scaled(rem2u, b);
                let e = rem2u / b;
                assert(end.bits == -e);
                lemma_value_of_borrow(bank, end, e);
                assert(end_value == -(e * b));
                assert(owed * u <= rem2u < owed * u + d + u);
                assert(-d - 2 * u < end_value - start_value < b);
            }
        }
    }
}

/// Tokens that are taken from a balance and added to it again leave what
/// the balance is worth as it was, up to rounding, whether or not the tokens
/// carried the balance across zero. Where the balance is strictly on one
/// side of zero after the tokens were taken, and was on that side before, it
/// ends as it began.
pub proof fn lemma_debit_then_credit(bank: RootBank, balance: I80F48, native: I80F48)
    requires
        bank.wf(),
        bank.debited(balance, native) is Some,
        bank.credited(bank.debited(balance, native).unwrap(), native) is Some,
    ensures
        ({
            let mid = bank.debited(balance, native).unwrap();
            let end = bank.credited(mid, native).unwrap();
            &&& -bank.rounding() < bank.exact_value(end) - bank.exact_value(balance)
                < bank.rounding()
            &&& (balance.bits > 0 && mid.bits > 0) || (balance.bits <= 0 && mid.bits < 0) ==> end
                == balance
        }),
{
    let u = unit();
    let d = bank.deposit_index.bits as int;
    let b = bank.borrow_index.bits as int;
    let n = native.bits as int;
    let x = balance.bits as int;
    let mid = bank.debited(balance, native).unwrap();
    let end = bank.credited(mid, native).unwrap();
    let nu = lemma_rest_scaled(n, 0);
    assert(nu == n * u);
    assert(nu >= 0) by (nonlinear_arith)
        requires
            n >= 0,
            u > 0,
            nu == n * u,
    ;
    let rd = nu / d;
    let rb = nu / b;
    lemma_floor_scaled(nu, d);
    lemma_floor_scaled(nu, b);
    let start_value = bank.exact_value(balance);
    let end_value = bank.exact_value(end);
    if x <= 0 {
        assert(mid.bits == x - rb);
        if mid.bits < 0 {
            assert(end.bits == mid.bits + rb);
            assert(end == balance);
        } else {
            // Nothing was there, and the tokens were worth less than one
            // unit of the borrow index.
            assert(x == 0 && rb == 0);
            assert(nu < b);
            assert(end.bits == rd);
            lemma_value_of_deposit(bank, end, rd);
            lemma_value_of_deposit(bank, balance, 0);
            assert(start_value == 0);
            assert(end_value == rd * d);
            assert(0 <= end_value - start_value < b);
        }
    } else if x - rd >= 0 {
        assert(mid.bits == x - rd);
        assert(end == balance);
    } else {
        // The deposit is used up.
        let xd = x * d;
        assert(xd > 0) by (nonlinear_arith)
            requires
                x > 0,
                d > 0,
                xd == x * d,
        ;
        lemma_floor_scaled(xd, u);
        let have = xd / u;
        lemma_quotient_exceeds(nu, d, x);
        assert(nu >= xd + d);
        assert(have * u < nu);
        assert(have < n) by (nonlinear_arith)
            requires
                have * u < n * u,
                u > 0,
        ;
        let remu = lemma_rest_scaled(n, have);
        assert(remu > 0);
        lemma_floor_scaled(remu, b);
        let m = remu / b;
        assert(mid.bits == -m);
        lemma_value_of_deposit(bank, balance, x);
        assert(start_value == xd);
        if mid.bits == 0 {
            assert(remu < b);
            assert(end.bits == rd);
            lemma_value_of_deposit(bank, end, rd);
            assert(end_value == rd * d);
            assert(0 < end_value - start_value < b);
        } else {
            vstd::arithmetic::div_mod::lemma_div_is_ordered(remu, nu, b);
            assert(m <= rb);
            if mid.bits + rb <= 0 {
                assert(m == rb);
                assert(end.bits == 0);
                lemma_value_of_deposit(bank, end, 0);
                assert(end_value == 0);
                assert(nu - remu < b);
                assert(-b - u < end_value - start_value < 0);
            } else {
                let owed = lemma_owed_scaled(-m, b);
                assert((-m) * b == -(m * b)) by (nonlinear_arith);
                assert(m * b <= owed * u < m * b + u);
                let rem2u = lemma_rest_scaled(n, owed);
                assert(have * u - u < rem2u < have * u + b);
                assert(rem2u >= 0);
                lemma_floor_scaled(rem2u, d);
                let e = rem2u / d;
                assert(end.bits == e);
                lemma_value_of_deposit(bank, end, e);
                assert(end_value == e * d);
                assert(-d - 2 * u < end_value - start_value < b);
            }
        }
    }
}

/// Tokens that are added to a balance never lower it.
pub proof fn lemma_credit_raises(bank: RootBank, balance: I80F48, native: I80F48)
    requires
        bank.wf(),
        bank.credited(balance, native) is Some,
    ensures
        balance.bits <= bank.credited(balance, native).unwrap().bits,
{
    let u = unit();
    let d = bank.deposit_index.bits as int;
    let b = bank.borrow_index.bits as int;
    let x = balance.bits as int;
    let n = native.bits as int;
    let nu = lemma_rest_scaled(n, 0);
    assert(nu >= 0) by (nonlinear_arith)
        requires
            n >= 0,
            u > 0,
            nu == n * u,
    ;
    lemma_floor_scaled(nu, d);
    lemma_floor_scaled(nu, b);
    if x < 0 && x + nu / b > 0 {
        // The borrow is repaid in full, and what is left is deposited.
        let owed = lemma_owed_scaled(x, b);
        lemma_quotient_exceeds(nu, b, -x);
        assert((-x) * b == -(x * b)) by (nonlinear_arith);
        assert(owed * u < nu + u);
        assert(owed <= n) by (nonlinear_arith)
            requires
                owed * u < n * u + u,
                u > 0,
        ;
        let remu = lemma_rest_scaled(n, owed);
        assert(remu >= 0);
        lemma_floor_scaled(remu, d);
    }
}

/// Tokens that are added to a borrow, no more than the borrow owes, leave no
/// deposit: the balance stays at or below zero.
pub proof fn lemma_repaying_within_owed(bank: RootBank, balance: I80F48, native: I80F48)
    requires
        bank.wf(),
        balance.bits < 0,
        0 <= native.bits,
        bank.spec_owed(balance) is Some,
        native.bits <= bank.spec_owed(balance).unwrap().bits,
        bank.credited(balance, native) is Some,
    ensures
        bank.credited(balance, native).unwrap().bits <= 0,
{
    let u = unit();
    let d = bank.deposit_index.bits as int;
    let b = bank.borrow_index.bits as int;
    let x = balance.bits as int;
    let n = native.bits as int;
    let nu = lemma_rest_scaled(n, 0);
    assert(nu >= 0) by (nonlinear_arith)
        requires
            n >= 0,
            u > 0,
            nu == n * u,
    ;
    lemma_floor_scaled(nu, b);
    if x + nu / b > 0 {
        // The tokens are all that is owed, and nothing is left to deposit.
        let owed = lemma_owed_scaled(x, b);
        lemma_quotient_exceeds(nu, b, -x);
        assert((-x) * b == -(x * b)) by (nonlinear_arith);
        assert(owed * u < nu + u);
        assert(owed <= n) by (nonlinear_arith)
            requires
                owed * u < n * u + u,
                u > 0,
        ;
        assert(n == owed);
        let remu = lemma_rest_scaled(n, owed);
        assert(remu == 0);
        lemma_floor_scaled(remu, d);
        assert(remu / d == 0) by {
            if remu / d != 0 {
                assert((remu / d) * d >= d || (remu / d) * d <= -d) by (nonlinear_arith)
                    requires
                        remu / d != 0,
                        d > 0,
                ;
            }
        }
    }
}

/// Tokens that are added to a borrow and leave no deposit raise the balance
/// by no more than the tokens divided by the borrow index.
pub proof fn lemma_repaying_raises_by(bank: RootBank, balance: I80F48, native: I80F48)
    requires
        bank.wf(),
        balance.bits < 0,
        0 <= native.bits,
        bank.credited(balance, native) matches Some(after) && after.bits <= 0,
    ensures
        bank.credited(balance, native).unwrap().bits <= balance.bits + (native.bits * unit()) / (
        bank.borrow_index.bits as int),
{
    let nu = native.bits * unit();
    assert(nu >= 0) by (nonlinear_arith)
        requires
            nu == native.bits * unit(),
            native.bits >= 0,
            unit() > 0,
    ;
}

/// Tokens that are taken from a deposit do not raise the balance.
pub proof fn lemma_taking_lowers(bank: RootBank, balance: I80F48, native: I80F48)
    requires
        bank.wf(),
        balance.bits > 0,
        0 <= native.bits,
        bank.debited(balance, native) is Some,
    ensures
        bank.debited(balance, native).unwrap().bits <= balance.bits,
{
    let u = unit();
    let d = bank.deposit_index.bits as int;
    let b = bank.borrow_index.bits as int;
    let x = balance.bits as int;
    let n = native.bits as int;
    let nu = n * u;
    assert(nu >= 0) by (nonlinear_arith)
        requires
            nu == n * u,
            n >= 0,
            u > 0,
    ;
    lemma_floor_scaled(nu, d);
    let q = nu / d;
    assert(native.spec_div(bank.deposit_index).unwrap().bits == q);
    if x - q < 0 {
        // More is taken than the deposit is worth: what is left is a borrow.
        let xd = x * d;
        let worth = xd / u;
        assert(xd <= nu) by (nonlinear_arith)
            requires
                xd == x * d,
                q * d <= nu,
                q >= x + 1,
                d > 0,
        ;
        vstd::arithmetic::div_mod::lemma_div_is_ordered(xd, nu, u);
        assert(nu == u * n) by (nonlinear_arith)
            requires
                nu == n * u,
        ;
        vstd::arithmetic::div_mod::lemma_div_multiples_vanish(n, u);
        assert(worth <= n);
        let over = (n - worth) * u;
        assert(over >= 0) by (nonlinear_arith)
            requires
                over == (n - worth) * u,
                n - worth >= 0,
                u > 0,
        ;
        lemma_floor_scaled(over, b);
    }
}

/// Tokens that are taken from a deposit, no more than the deposit is worth,
/// leave no borrow: the balance stays at or above zero.
pub proof fn lemma_taking_within_worth(bank: RootBank, balance: I80F48, native: I80F48)
    requires
        bank.wf(),
        balance.bits > 0,
        0 <= native.bits,
        bank.spec_native(balance) is Some,
        native.bits <= bank.spec_native(balance).unwrap().bits,
        bank.debited(balance, native) is Some,
    ensures
        bank.debited(balance, native).unwrap().bits >= 0,
{
    let u = unit();
    let d = bank.deposit_index.bits as int;
    let x = balance.bits as int;
    let n = native.bits as int;
    let nu = lemma_rest_scaled(n, 0);
    assert(nu >= 0) by (nonlinear_arith)
        requires
            n >= 0,
            u > 0,
            nu == n * u,
    ;
    lemma_floor_scaled(nu, d);
    if x - nu / d < 0 {
        // Tokens that use the deposit up are worth more than it.
        let xd = x * d;
        lemma_floor_scaled(xd, u);
        let have = xd / u;
        lemma_quotient_exceeds(nu, d, x);
        assert(have * u < nu);
        assert(have < n) by (nonlinear_arith)
            requires
                have * u < n * u,
                u > 0,
        ;
    }
}

/// Tokens that are added to a balance add their worth to it and no more:
/// the exact value of the balance rises by the tokens, less what is lost to
/// rounding, which is less than one unit of each index and one unit of the
/// native amount.
pub proof fn lemma_credit_adds_its_worth(bank: RootBank, balance: I80F48, native: I80F48)
    requires
        bank.wf(),
        bank.credited(balance, native) is Some,
    ensures
        native.bits * unit() - bank.rounding() < bank.exact_value(
            bank.credited(balance, native).unwrap(),
        ) - bank.exact_value(balance) <= native.bits * unit(),
{
    let u = unit();
    let d = bank.deposit_index.bits as int;
    let b = bank.borrow_index.bits as int;
    let x = balance.bits as int;
    let n = native.bits as int;
    let after = bank.credited(balance, native).unwrap();
    let nu = lemma_rest_scaled(n, 0);
    assert(nu == n * u);
    assert(nu >= 0) by (nonlinear_arith)
        requires
            n >= 0,
            u > 0,
            nu == n * u,
    ;
    let rd = nu / d;
    let rb = nu / b;
    lemma_floor_scaled(nu, d);
    lemma_floor_scaled(nu, b);
    let gain = bank.exact_value(after) - bank.exact_value(balance);
    if x >= 0 {
        lemma_value_of_deposit(bank, balance, x);
        lemma_value_of_deposit(bank, after, x + rd);
        assert((x + rd) * d == x * d + rd * d) by (nonlinear_arith);
        assert(gain == rd * d);
    } else if x + rb <= 0 {
        lemma_value_of_borrow(bank, balance, -x);
        lemma_value_of_borrow(bank, after, -x - rb);
        assert((-x) * b == (-x - rb) * b + rb * b) by (nonlinear_arith);
        assert(gain == rb * b);
    } else {
        let owed = lemma_owed_scaled(x, b);
        lemma_quotient_exceeds(nu, b, -x);
        assert((-x) * b == -(x * b)) by (nonlinear_arith);
        assert(owed * u < nu + u);
        assert(owed <= n) by (nonlinear_arith)
            requires
                owed * u < n * u + u,
                u > 0,
        ;
        let remu = lemma_rest_scaled(n, owed);
        assert(remu >= 0);
        lemma_floor_scaled(remu, d);
        let m = remu / d;
        assert(after.bits == m);
        lemma_value_of_deposit(bank, after, m);
        lemma_value_of_borrow(bank, balance, -x);
        assert(gain == m * d + (-x) * b);
        assert(nu - d - u < gain <= nu);
    }
}

/// Tokens that are taken from a balance take their worth from it and no
/// more: the exact value of the balance falls by the tokens, up to
/// rounding, which is less than one unit of each index and one unit of the
/// native amount.
pub proof fn lemma_debit_takes_its_worth(bank: RootBank, balance: I80F48, native: I80F48)
    requires
        bank.wf(),
        bank.debited(balance, native) is Some,
    ensures
        native.bits * unit() - bank.rounding() < bank.exact_value(balance) - bank.exact_value(
            bank.debited(balance, native).unwrap(),
        ) < native.bits * unit() + unit(),
{
    let u = unit();
    let d = bank.deposit_index.bits as int;
    let b = bank.borrow_index.bits as int;
    let x = balance.bits as int;
    let n = native.bits as int;
    let after = bank.debited(balance, native).unwrap();
    let nu = lemma_rest_scaled(n, 0);
    assert(nu == n * u);
    assert(nu >= 0) by (nonlinear_arith)
        requires
            n >= 0,
            u > 0,
            nu == n * u,
    ;
    let rd = nu / d;
    let rb = nu / b;
    lemma_floor_scaled(nu, d);
    lemma_floor_scaled(nu, b);
    let fall = bank.exact_value(balance) - bank.exact_value(after);
    if x <= 0 {
        lemma_value_of_borrow(bank, balance, -x);
        lemma_value_of_borrow(bank, after, -x + rb);
        assert((-x + rb) * b == (-x) * b + rb * b) by (nonlinear_arith);
        assert(fall == rb * b);
    } else if x - rd >= 0 {
        lemma_value_of_deposit(bank, balance, x);
        lemma_value_of_deposit(bank, after, x - rd);
        assert(x * d == (x - rd) * d + rd * d) by (nonlinear_arith);
        assert(fall == rd * d);
    } else {
        let xd = x * d;
        assert(xd > 0) by (nonlinear_arith)
            requires
                x > 0,
                d > 0,
                xd == x * d,
        ;
        lemma_floor_scaled(xd, u);
        let have = xd / u;
        lemma_quotient_exceeds(nu, d, x);
        assert(have * u < nu);
        assert(have < n) by (nonlinear_arith)
            requires
                have * u < n * u,
                u > 0,
        ;
        let remu = lemma_rest_scaled(n, have);
        assert(remu > 0);
        lemma_floor_scaled(remu, b);
        let m = remu / b;
        assert(after.bits == -m);
        lemma_value_of_borrow(bank, after, m);
        lemma_value_of_deposit(bank, balance, x);
        assert(fall == xd + m * b);
        assert(nu - b < fall < nu + u);
    }
}

} // verus!
