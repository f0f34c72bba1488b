//! Deposits and withdrawals.
//!
//! A deposit adds tokens to one balance of an account and a withdrawal takes
//! tokens from it, and the tokens move into or out of the vault of a pool of
//! the bank. Tokens are converted at the index of the side that they act
//! on: a deposit into a borrow repays it at the borrow index and becomes a
//! deposit, at the deposit index, only with what is left, and a withdrawal
//! uses a deposit up before it borrows. A withdrawal is checked against what
//! the vault holds and against the initial health of the account after it.
//! A call that fails changes nothing.
use crate::account::{Ledger, Position};
use crate::bank::{
    borrow_part, deposit_part, lemma_credit_adds_its_worth, lemma_credit_raises,
    lemma_credit_then_debit, lemma_debit_takes_its_worth, lemma_debit_then_credit, NodeBank,
    RootBank,
};
use crate::error::MangoError;
use crate::fixed_point::{unit, I80F48};
use crate::group::{Cache, Group, HealthType};
use crate::health::{
    aligned, health, lemma_health_upto_monotone, lemma_token_health_monotone, slot_health,
    spec_health,
};
use vstd::prelude::*;

verus! {

/// The account with the balance of `slot` replaced and the slot in the
/// basket.
pub open spec fn with_balance(ledger: Seq<Position>, slot: int, balance: I80F48) -> Seq<Position> {
    ledger.update(slot, Position { balance, in_basket: true, ..ledger[slot] })
}

/// What a deposit of `quantity` native tokens into `slot` does to the account
/// and to the pool that takes the tokens: `InvalidState` if the account has
/// no such slot, `Fatal` if the balance, a total of the pool or the vault
/// leaves its range.
pub open spec fn spec_deposit(
    ledger: Seq<Position>,
    bank: RootBank,
    node: NodeBank,
    slot: usize,
    quantity: u64,
) -> Result<(Seq<Position>, NodeBank), MangoError> {
    if slot >= ledger.len() {
        Err(MangoError::InvalidState)
    } else {
        match bank.balance_after_deposit(ledger[slot as int].balance, quantity) {
            Some(balance) => match node.rebalanced(
                ledger[slot as int].balance,
                balance,
                node.vault + quantity,
            ) {
                Some(b) => Ok((with_balance(ledger, slot as int, balance), b)),
                None => Err(MangoError::Fatal),
            },
            None => Err(MangoError::Fatal),
        }
    }
}

/// What a withdrawal of `quantity` native tokens from `slot` does to the
/// account and to the pool that gives the tokens. It fails, in this order,
/// with
/// - `InvalidState` if the account has no such slot,
/// - `InsufficientFunds` if the vault holds less than `quantity`,
/// - `Fatal` if the new balance leaves the range of the arithmetic,
/// - `InsufficientHealth` if the withdrawal borrows and `allow_borrow` is not
///   set,
/// - whatever the computation of the initial health of the account after the
///   withdrawal fails with,
/// - `InsufficientHealth` if that health is negative,
/// - `Fatal` if a total of the pool leaves its range.
pub open spec fn spec_withdraw(
    group: &Group,
    cache: &Cache,
    ledger: Seq<Position>,
    bank: RootBank,
    node: NodeBank,
    slot: usize,
    quantity: u64,
    allow_borrow: bool,
    now: u64,
) -> Result<(Seq<Position>, NodeBank), MangoError> {
    if slot >= ledger.len() {
        Err(MangoError::InvalidState)
    } else if quantity > node.vault {
        Err(MangoError::InsufficientFunds)
    } else {
        let old = ledger[slot as int].balance;
        match bank.balance_after_withdraw(old, quantity) {
            Some(balance) => {
                let after = with_balance(ledger, slot as int, balance);
                if borrow_part(balance) > borrow_part(old) && !allow_borrow {
                    Err(MangoError::InsufficientHealth)
                } else {
                    match spec_health(group, cache, after, HealthType::Init, now) {
                        Ok(h) => if h.bits < 0 {
                            Err(MangoError::InsufficientHealth)
                        } else {
                            match node.rebalanced(old, balance, node.vault - quantity) {
                                Some(b) => Ok((after, b)),
                                None => Err(MangoError::Fatal),
                            }
                        },
                        Err(e) => Err(e),
                    }
                }
            },
            None => Err(MangoError::Fatal),
        }
    }
}

/// Deposits `quantity` native tokens into `slot` of the account, through the
/// pool `node` of the bank of the token.
pub fn deposit(
    ledger: &mut Ledger,
    bank: &RootBank,
    node: &mut NodeBank,
    slot: usize,
    quantity: u64,
) -> (r: Result<(), MangoError>)
    requires
        old(ledger).wf(),
        old(node).wf(),
    ensures
        final(ledger).wf(),
        final(ledger).rest_as_in(old(ledger)),
        final(node).wf(),
        match spec_deposit(old(ledger)@, *bank, *old(node), slot, quantity) {
            Ok((l, n)) => r is Ok && final(ledger)@ == l && *final(node) == n,
            Err(e) => {
                &&& r == Err::<(), MangoError>(e)
                &&& final(ledger)@ == old(ledger)@
                &&& *final(node) == *old(node)
            },
        },
{
    if slot >= ledger.slots.len() {
        return Err(MangoError::InvalidState);
    }
    let position: Position = ledger.slots[slot];
    let balance: I80F48 = match bank.balance_deposited(position.balance, quantity) {
        Some(b) => b,
        None => { return Err(MangoError::Fatal); },
    };
    let new_node: NodeBank = match node.rebalance(
        position.balance,
        balance,
        node.vault.checked_add(quantity),
    ) {
        Some(n) => n,
        None => { return Err(MangoError::Fatal); },
    };
    let mut changed: Position = position;
    changed.balance = balance;
    changed.in_basket = true;
    ledger.slots[slot] = changed;
    *node = new_node;
    Ok(())
}

/// Withdraws `quantity` native tokens from `slot` of the account, out of the
/// pool `node` of the bank of the token, borrowing what the deposit does not
/// cover if `allow_borrow` is set.
///
/// The withdrawal is refused if the initial health of the account would be
/// negative after it, and health of exactly zero is enough.
pub fn withdraw(
    group: &Group,
    cache: &Cache,
    ledger: &mut Ledger,
    bank: &RootBank,
    node: &mut NodeBank,
    slot: usize,
    quantity: u64,
    allow_borrow: bool,
    now: u64,
) -> (r: Result<(), MangoError>)
    requires
        aligned(group, cache, old(ledger)),
        old(ledger).wf(),
        old(node).wf(),
    ensures
        final(ledger).wf(),
        final(ledger).rest_as_in(old(ledger)),
        final(node).wf(),
        match spec_withdraw(
            group,
            cache,
            old(ledger)@,
            *bank,
            *old(node),
            slot,
            quantity,
            allow_borrow,
            now,
        ) {
            Ok((l, n)) => r is Ok && final(ledger)@ == l && *final(node) == n,
            Err(e) => {
                &&& r == Err::<(), MangoError>(e)
                &&& final(ledger)@ == old(ledger)@
                &&& *final(node) == *old(node)
            },
        },
{
    if slot >= ledger.slots.len() {
        return Err(MangoError::InvalidState);
    }
    if quantity > node.vault {
        return Err(MangoError::InsufficientFunds);
    }
    let position: Position = ledger.slots[slot];
    let balance: I80F48 = match bank.balance_withdrawn(position.balance, quantity) {
        Some(b) => b,
        None => { return Err(MangoError::Fatal); },
    };
    let borrows: bool = balance.bits < 0 && balance.bits < position.balance.bits;
    if borrows && !allow_borrow {
        return Err(MangoError::InsufficientHealth);
    }
    let mut changed: Position = position;
    changed.balance = balance;
    changed.in_basket = true;
    ledger.slots[slot] = changed;
    let refused: Option<MangoError> = match health(group, cache, ledger, HealthType::Init, now) {
        Ok(h) => if h.is_negative() {
            Some(MangoError::InsufficientHealth)
        } else {
            match node.rebalance(position.balance, balance, Some(node.vault - quantity)) {
                Some(n) => {
                    *node = n;
                    None
                },
                None => Some(MangoError::Fatal),
            }
        },
        Err(e) => Some(e),
    };
    match refused {
        Some(e) => {
            ledger.slots[slot] = position;
            assert(ledger@ =~= old(ledger)@);
            Err(e)
        },
        None => Ok(()),
    }
}

/// A deposit moves the quantity and nothing else: the vault holds the
/// quantity more, what the balance of the slot is worth rises by the
/// quantity, less what is lost to rounding, the totals of the pool move by
/// what the balance has, and every other slot is as before.
pub proof fn lemma_deposit_adds_the_quantity(
    ledger: Seq<Position>,
    bank: RootBank,
    node: NodeBank,
    slot: usize,
    quantity: u64,
)
    requires
        bank.wf(),
        spec_deposit(ledger, bank, node, slot, quantity) is Ok,
    ensures
        ({
            let (after, fuller) = spec_deposit(ledger, bank, node, slot, quantity).unwrap();
            let old = ledger[slot as int].balance;
            let new = after[slot as int].balance;
            &&& after == with_balance(ledger, slot as int, new)
            &&& fuller.vault == node.vault + quantity
            &&& quantity * unit() * unit() - bank.rounding() < bank.exact_value(new)
                - bank.exact_value(old) <= quantity * unit() * unit()
            &&& fuller.deposits.bits - node.deposits.bits == deposit_part(new) - deposit_part(old)
            &&& fuller.borrows.bits - node.borrows.bits == borrow_part(new) - borrow_part(old)
        }),
{
    lemma_credit_adds_its_worth(bank, ledger[slot as int].balance, I80F48::spec_from_u64(quantity));
}

/// A withdrawal that is accepted moves the quantity and nothing else: the
/// vault holds the quantity less, what the balance of the slot is worth
/// falls by the quantity, up to rounding, the totals of the pool move by
/// what the balance has, and every other slot is as before.
pub proof fn lemma_withdraw_takes_the_quantity(
    group: &Group,
    cache: &Cache,
    ledger: Seq<Position>,
    bank: RootBank,
    node: NodeBank,
    slot: usize,
    quantity: u64,
    allow_borrow: bool,
    now: u64,
)
    requires
        bank.wf(),
        spec_withdraw(group, cache, ledger, bank, node, slot, quantity, allow_borrow, now) is Ok,
    ensures
        ({
            let (after, emptier) = spec_withdraw(
                group,
                cache,
                ledger,
                bank,
                node,
                slot,
                quantity,
                allow_borrow,
                now,
            ).unwrap();
            let old = ledger[slot as int].balance;
            let new = after[slot as int].balance;
            &&& after == with_balance(ledger, slot as int, new)
            &&& emptier.vault == node.vault - quantity
            &&& quantity * unit() * unit() - bank.rounding() < bank.exact_value(old)
                - bank.exact_value(new) < quantity * unit() * unit() + unit()
            &&& emptier.deposits.bits - node.deposits.bits == deposit_part(new) - deposit_part(
                old,
            )
            &&& emptier.borrows.bits - node.borrows.bits == borrow_part(new) - borrow_part(old)
        }),
{
    lemma_debit_takes_its_worth(bank, ledger[slot as int].balance, I80F48::spec_from_u64(quantity));
}

/// A deposit followed by a withdrawal of the same quantity, with the indices
/// unchanged in between, gives the balance back up to rounding: what the
/// balance is worth ends within one unit of each index and two units of the
/// native amount of where it began, also where the deposit repaid a borrow
/// in full. Where the balance is strictly on one side of zero after the
/// deposit, and was on that side before, it ends exactly as it began.
pub proof fn lemma_deposit_then_withdraw(bank: RootBank, balance: I80F48, quantity: u64)
    requires
        bank.wf(),
        bank.balance_after_deposit(balance, quantity) is Some,
        bank.balance_after_withdraw(
            bank.balance_after_deposit(balance, quantity).unwrap(),
            quantity,
        ) is Some,
    ensures
        ({
            let mid = bank.balance_after_deposit(balance, quantity).unwrap();
            let end = bank.balance_after_withdraw(mid, quantity).unwrap();
            &&& -bank.rounding() < bank.exact_value(end) - bank.exact_value(balance)
                < bank.rounding()
            &&& (balance.bits >= 0 && mid.bits > 0) || (balance.bits < 0 && mid.bits < 0) ==> end
                == balance
        }),
{
    lemma_credit_then_debit(bank, balance, I80F48::spec_from_u64(quantity));
}

/// A withdrawal followed by a deposit of the same quantity, with the indices
/// unchanged in between, gives the balance back up to rounding, also where
/// the withdrawal used a deposit up and borrowed. Where the balance is
/// strictly on one side of zero after the withdrawal, and was on that side
/// before, it ends exactly as it began.
pub proof fn lemma_withdraw_then_deposit(bank: RootBank, balance: I80F48, quantity: u64)
    requires
        bank.wf(),
        bank.balance_after_withdraw(balance, quantity) is Some,
        bank.balance_after_deposit(
            bank.balance_after_withdraw(balance, quantity).unwrap(),
            quantity,
        ) is Some,
    ensures
        ({
            let mid = bank.balance_after_withdraw(balance, quantity).unwrap();
            let end = bank.balance_after_deposit(mid, quantity).unwrap();
            &&& -bank.rounding() < bank.exact_value(end) - bank.exact_value(balance)
                < bank.rounding()
            &&& (balance.bits > 0 && mid.bits > 0) || (balance.bits <= 0 && mid.bits < 0) ==> end
                == balance
        }),
{
    lemma_debit_then_credit(bank, balance, I80F48::spec_from_u64(quantity));
}

/// The balance after a deposit and withdrawal of each quantity in turn.
pub open spec fn after_pairs(bank: RootBank, balance: I80F48, quantities: Seq<u64>) -> Option<
    I80F48,
>
    decreases quantities.len(),
{
    if quantities.len() == 0 {
        Some(balance)
    } else {
        match after_pairs(bank, balance, quantities.drop_last()) {
            Some(b) => match bank.balance_after_deposit(b, quantities.last()) {
                Some(mid) => bank.balance_after_withdraw(mid, quantities.last()),
                None => None,
            },
            None => None,
        }
    }
}

/// Any sequence of deposits, each followed by the withdrawal of the same
/// quantity, gives the balance back up to rounding: what the balance is
/// worth ends within the rounding of one pair, for each pair, of where it
/// began.
pub proof fn lemma_pairs_round_trip(bank: RootBank, balance: I80F48, quantities: Seq<u64>)
    requires
        bank.wf(),
        after_pairs(bank, balance, quantities) is Some,
    ensures
        ({
            let end = after_pairs(bank, balance, quantities).unwrap();
            &&& -(quantities.len() * bank.rounding()) <= bank.exact_value(end) - bank.exact_value(
                balance,
            ) <= quantities.len() * bank.rounding()
        }),
    decreases quantities.len(),
{
    if quantities.len() > 0 {
        let rest = quantities.drop_last();
        lemma_pairs_round_trip(bank, balance, rest);
        let before = after_pairs(bank, balance, rest).unwrap();
        lemma_deposit_then_withdraw(bank, before, quantities.last());
        assert(quantities.len() * bank.rounding() == rest.len() * bank.rounding()
            + bank.rounding()) by (nonlinear_arith)
            requires
                quantities.len() == rest.len() + 1,
        ;
    } else {
        assert(quantities.len() * bank.rounding() == 0) by (nonlinear_arith)
            requires
                quantities.len() == 0,
        ;
    }
}

/// A deposit that succeeds, followed by a withdrawal of the same quantity
/// that succeeds, changes nothing but the balance of the slot, and that only
/// within rounding: every other slot is as before, the vault holds what it
/// held, the totals of the pool have moved by what the balance has, and what
/// the balance is worth is within the rounding of one pair of where it
/// began. Where the balance is strictly on one side of zero between the two
/// calls, and was on that side before, balance and pool end exactly as they
/// began.
pub proof fn lemma_deposit_withdraw_restores(
    group: &Group,
    cache: &Cache,
    ledger: Seq<Position>,
    bank: RootBank,
    node: NodeBank,
    slot: usize,
    quantity: u64,
    allow_borrow: bool,
    now: u64,
)
    requires
        bank.wf(),
        node.wf(),
        spec_deposit(ledger, bank, node, slot, quantity) is Ok,
        spec_withdraw(
            group,
            cache,
            spec_deposit(ledger, bank, node, slot, quantity).unwrap().0,
            bank,
            spec_deposit(ledger, bank, node, slot, quantity).unwrap().1,
            slot,
            quantity,
            allow_borrow,
            now,
        ) is Ok,
    ensures
        ({
            let start = ledger[slot as int].balance;
            let (deposited, fuller) = spec_deposit(ledger, bank, node, slot, quantity).unwrap();
            let (withdrawn, emptier) = spec_withdraw(
                group,
                cache,
                deposited,
                bank,
                fuller,
                slot,
                quantity,
                allow_borrow,
                now,
            ).unwrap();
            let mid = deposited[slot as int].balance;
            let end = withdrawn[slot as int].balance;
            &&& withdrawn == with_balance(ledger, slot as int, end)
            &&& -bank.rounding() < bank.exact_value(end) - bank.exact_value(start)
                < bank.rounding()
            &&& emptier.vault == node.vault
            &&& emptier.deposits.bits - node.deposits.bits == deposit_part(end) - deposit_part(
                start,
            )
            &&& emptier.borrows.bits - node.borrows.bits == borrow_part(end) - borrow_part(start)
            &&& (start.bits >= 0 && mid.bits > 0) || (start.bits < 0 && mid.bits < 0) ==> end
                == start && emptier == node
        }),
{
    let start = ledger[slot as int].balance;
    let (deposited, fuller) = spec_deposit(ledger, bank, node, slot, quantity).unwrap();
    let (withdrawn, emptier) = spec_withdraw(
        group,
        cache,
        deposited,
        bank,
        fuller,
        slot,
        quantity,
        allow_borrow,
        now,
    ).unwrap();
    let end = withdrawn[slot as int].balance;
    lemma_deposit_then_withdraw(bank, start, quantity);
    assert(withdrawn =~= with_balance(ledger, slot as int, end));
}

/// A withdrawal that succeeds, followed by a deposit of the same quantity
/// that succeeds, changes nothing but the balance of the slot, and that only
/// within rounding, also where the withdrawal took the balance below zero:
/// every other slot is as before, the vault holds what it held, the totals
/// of the pool have moved by what the balance has, and what the balance is
/// worth is within the rounding of one pair of where it began. Where the
/// balance is strictly on one side of zero between the two calls, and was on
/// that side before, balance and pool end exactly as they began.
pub proof fn lemma_withdraw_deposit_restores(
    group: &Group,
    cache: &Cache,
    ledger: Seq<Position>,
    bank: RootBank,
    node: NodeBank,
    slot: usize,
    quantity: u64,
    allow_borrow: bool,
    now: u64,
)
    requires
        bank.wf(),
        node.wf(),
        spec_withdraw(group, cache, ledger, bank, node, slot, quantity, allow_borrow, now) is Ok,
        spec_deposit(
            spec_withdraw(
                group,
                cache,
                ledger,
                bank,
                node,
                slot,
                quantity,
                allow_borrow,
                now,
            ).unwrap().0,
            bank,
            spec_withdraw(
                group,
                cache,
                ledger,
                bank,
                node,
                slot,
                quantity,
                allow_borrow,
                now,
            ).unwrap().1,
            slot,
            quantity,
        ) is Ok,
    ensures
        ({
            let start = ledger[slot as int].balance;
            let (withdrawn, emptier) = spec_withdraw(
                group,
                cache,
                ledger,
                bank,
                node,
                slot,
                quantity,
                allow_borrow,
                now,
            ).unwrap();
            let (deposited, fuller) = spec_deposit(withdrawn, bank, emptier, slot, quantity).unwrap();
            let mid = withdrawn[slot as int].balance;
            let end = deposited[slot as int].balance;
            &&& deposited == with_balance(ledger, slot as int, end)
            &&& -bank.rounding() < bank.exact_value(end) - bank.exact_value(start)
                < bank.rounding()
            &&& fuller.vault == node.vault
            &&& fuller.deposits.bits - node.deposits.bits == deposit_part(end) - deposit_part(
                start,
            )
            &&& fuller.borrows.bits - node.borrows.bits == borrow_part(end) - borrow_part(start)
            &&& (start.bits > 0 && mid.bits > 0) || (start.bits <= 0 && mid.bits < 0) ==> end
                == start && fuller == node
        }),
{
    let start = ledger[slot as int].balance;
    let (withdrawn, emptier) = spec_withdraw(
        group,
        cache,
        ledger,
        bank,
        node,
        slot,
        quantity,
        allow_borrow,
        now,
    ).unwrap();
    let (deposited, fuller) = spec_deposit(withdrawn, bank, emptier, slot, quantity).unwrap();
    let end = deposited[slot as int].balance;
    lemma_withdraw_then_deposit(bank, start, quantity);
    assert(deposited =~= with_balance(ledger, slot as int, end));
}

/// The boundary of a withdrawal is initial health of zero. A withdrawal that
/// would leave the account with negative initial health is refused. One
/// that would leave it with zero or more is accepted, provided that the
/// vault holds the tokens, that the withdrawal borrows only if it may, and
/// that the totals of the pool stay in range. An accepted withdrawal leaves
/// the account with the health that was projected, exactly zero at the
/// boundary, and the vault with the quantity less.
pub proof fn lemma_withdraw_health_boundary(
    group: &Group,
    cache: &Cache,
    ledger: Seq<Position>,
    bank: RootBank,
    node: NodeBank,
    slot: usize,
    quantity: u64,
    allow_borrow: bool,
    now: u64,
)
    requires
        slot < ledger.len(),
        bank.balance_after_withdraw(ledger[slot as int].balance, quantity) is Some,
        spec_health(
            group,
            cache,
            with_balance(
                ledger,
                slot as int,
                bank.balance_after_withdraw(ledger[slot as int].balance, quantity).unwrap(),
            ),
            HealthType::Init,
            now,
        ) is Ok,
    ensures
        ({
            let old = ledger[slot as int].balance;
            let balance = bank.balance_after_withdraw(old, quantity).unwrap();
            let after = with_balance(ledger, slot as int, balance);
            let h = spec_health(group, cache, after, HealthType::Init, now).unwrap();
            let r = spec_withdraw(
                group,
                cache,
                ledger,
                bank,
                node,
                slot,
                quantity,
                allow_borrow,
                now,
            );
            &&& h.bits < 0 ==> r is Err
            &&& h.bits >= 0 && quantity <= node.vault && (allow_borrow || borrow_part(balance)
                <= borrow_part(old)) && node.rebalanced(old, balance, node.vault - quantity)
                is Some ==> r == Ok::<(Seq<Position>, NodeBank), MangoError>(
                (after, node.rebalanced(old, balance, node.vault - quantity).unwrap()),
            )
            &&& r matches Ok((left, paid)) ==> {
                &&& left == after
                &&& spec_health(group, cache, left, HealthType::Init, now) == Ok::<
                    I80F48,
                    MangoError,
                >(h)
                &&& h.bits >= 0
                &&& paid.vault == node.vault - quantity
            }
        }),
{
}

/// What crediting the proceeds of a spot market does: `base` native tokens
/// go to the balance of `base_slot` and `quote` native tokens to the balance
/// of `quote_slot`, as two deposits do. Health is not consulted.
pub open spec fn spec_settle_spot_funds(
    ledger: Seq<Position>,
    base_bank: RootBank,
    base_node: NodeBank,
    quote_bank: RootBank,
    quote_node: NodeBank,
    base_slot: usize,
    quote_slot: usize,
    base: u64,
    quote: u64,
) -> Result<(Seq<Position>, NodeBank, NodeBank), MangoError> {
    if base_slot == quote_slot {
        Err(MangoError::InvalidState)
    } else {
        match spec_deposit(ledger, base_bank, base_node, base_slot, base) {
            Ok((credited, b)) => match spec_deposit(
                credited,
                quote_bank,
                quote_node,
                quote_slot,
                quote,
            ) {
                Ok((settled, q)) => Ok((settled, b, q)),
                Err(e) => Err(e),
            },
            Err(e) => Err(e),
        }
    }
}

/// Credits the account with what a spot market paid out: `base` tokens of
/// the market's token and `quote` tokens of the quote token. Both balances
/// change or, if one cannot, neither.
pub fn settle_spot_funds(
    ledger: &mut Ledger,
    base_bank: &RootBank,
    base_node: &mut NodeBank,
    quote_bank: &RootBank,
    quote_node: &mut NodeBank,
    base_slot: usize,
    quote_slot: usize,
    base: u64,
    quote: u64,
) -> (r: Result<(), MangoError>)
    requires
        old(ledger).wf(),
        old(base_node).wf(),
        old(quote_node).wf(),
    ensures
        final(ledger).wf(),
        final(ledger).rest_as_in(old(ledger)),
        final(base_node).wf(),
        final(quote_node).wf(),
        match spec_settle_spot_funds(
            old(ledger)@,
            *base_bank,
            *old(base_node),
            *quote_bank,
            *old(quote_node),
            base_slot,
            quote_slot,
            base,
            quote,
        ) {
            Ok((l, b, q)) => {
                &&& r is Ok
                &&& final(ledger)@ == l
                &&& *final(base_node) == b
                &&& *final(quote_node) == q
            },
            Err(e) => {
                &&& r == Err::<(), MangoError>(e)
                &&& final(ledger)@ == old(ledger)@
                &&& *final(base_node) == *old(base_node)
                &&& *final(quote_node) == *old(quote_node)
            },
        },
{
    if base_slot == quote_slot {
        return Err(MangoError::InvalidState);
    }
    if base_slot >= ledger.slots.len() {
        return Err(MangoError::InvalidState);
    }
    let before: Position = ledger.slots[base_slot];
    let node_before: NodeBank = *base_node;
    match deposit(ledger, base_bank, base_node, base_slot, base) {
        Ok(()) => {},
        Err(e) => { return Err(e); },
    }
    match deposit(ledger, quote_bank, quote_node, quote_slot, quote) {
        Ok(()) => Ok(()),
        Err(e) => {
            ledger.slots[base_slot] = before;
            *base_node = node_before;
            assert(ledger@ =~= old(ledger)@);
            Err(e)
        },
    }
}

/// A deposit never lowers health, which is why it needs no look at health:
/// where the health of the account can be computed before and after a
/// deposit, it is no lower after.
pub proof fn lemma_deposit_does_not_lower_health(
    group: &Group,
    cache: &Cache,
    ledger: Seq<Position>,
    bank: RootBank,
    node: NodeBank,
    slot: usize,
    quantity: u64,
    ty: HealthType,
    now: u64,
)
    requires
        group.wf(),
        cache.wf(),
        bank.wf(),
        group@.len() == ledger.len(),
        cache@.len() == ledger.len(),
        forall|i: int| 0 <= i < ledger.len() ==> (#[trigger] ledger[i]).wf(),
        spec_deposit(ledger, bank, node, slot, quantity) is Ok,
        spec_health(group, cache, ledger, ty, now) is Ok,
        spec_health(
            group,
            cache,
            spec_deposit(ledger, bank, node, slot, quantity).unwrap().0,
            ty,
            now,
        ) is Ok,
    ensures
        spec_health(group, cache, ledger, ty, now).unwrap().bits <= spec_health(
            group,
            cache,
            spec_deposit(ledger, bank, node, slot, quantity).unwrap().0,
            ty,
            now,
        ).unwrap().bits,
{
    let after = spec_deposit(ledger, bank, node, slot, quantity).unwrap().0;
    let s = slot as int;
    let old = ledger[s].balance;
    let new = after[s].balance;
    // The balance does not fall.
    lemma_credit_raises(bank, old, I80F48::spec_from_u64(quantity));
    assert(old.bits <= new.bits);
    assert forall|i: int|
        0 <= i < ledger.len() && slot_health(ledger[i], group@[i], cache@[i], ty) is Some
            && slot_health(after[i], group@[i], cache@[i], ty) is Some implies slot_health(
        ledger[i],
        group@[i],
        cache@[i],
        ty,
    ).unwrap().bits <= slot_health(after[i], group@[i], cache@[i], ty).unwrap().bits by {
        if i == s {
            assert(group@[i].wf());
            assert(cache@[i].wf());
            assert(ledger[i].wf());
            let w = group@[i].spot.spec_weight(ty);
            if ledger[i].in_basket {
                lemma_token_health_monotone(old, new, cache@[i], w);
            } else {
                // An empty slot added nothing, and a deposit adds nothing or
                // more.
                assert(old.bits == 0);
                let zero = I80F48 { bits: 0 };
                assert(crate::health::token_value(zero, cache@[i]) == Some(zero)) by {
                    assert(0 * cache@[i].deposit_index.bits == 0);
                    assert(0 * cache@[i].price.bits == 0);
                }
                lemma_token_health_monotone(zero, new, cache@[i], w);
                assert(0 * group@[i].base_lot_size * crate::fixed_point::unit() == 0);
                assert(0 * cache@[i].price.bits == 0);
            }
        }
    }
    lemma_health_upto_monotone(group@, cache@, ledger, after, ty, ledger.len());
}

} // verus!
