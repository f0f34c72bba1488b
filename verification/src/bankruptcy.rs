//! Bankruptcy: what an account owes when it has nothing left.
//!
//! An account with negative maintenance health and no assets cannot be
//! liquidated any further. What it still owes is met by the insurance fund,
//! as far as the fund and the caller's limit go, and all that the fund does
//! not pay is spread over the depositors of the token by lowering the
//! deposit index of its bank, so that each of them bears its share when its
//! balance is next valued. The account owes nothing afterwards.
use crate::account::{Ledger, PerpPosition, Position};
use crate::bank::{
    nodes_wf, socialize_loss, spec_socialize_loss, spec_totals, totals, NodeBank, RootBank,
};
use crate::error::MangoError;
use crate::fixed_point::{sub_opt, try_sub, unit, I80F48};
use crate::group::{Cache, Group, HealthType};
use crate::health::{aligned, health, spec_health};
use crate::liquidation::{
    has_no_assets, no_assets, set_balance, set_perp, spec_liquidation_state, with_perp,
    LiquidationState,
};
use crate::perp::{settle_funding, spec_settle_funding};
use crate::settle::with_balance;
use vstd::prelude::*;

verus! {

/// How a deficit is met: what the insurance fund pays, in whole tokens, and
/// what is then left of the deficit, which falls to the depositors.
pub struct Cover {
    pub covered: u64,
    pub rest: I80F48,
}

/// How a deficit of `owed` is met by a fund of `insurance` tokens when the
/// caller allows `max_liab_transfer`: the fund pays the whole tokens of the
/// deficit, at most what it holds and at most what the caller allows.
pub open spec fn spec_cover(owed: I80F48, insurance: u64, max_liab_transfer: I80F48) -> Cover
    recommends
        owed.bits >= 0,
        max_liab_transfer.bits >= 0,
{
    let want = (owed.bits as int) / unit();
    let cap = (max_liab_transfer.bits as int) / unit();
    let least = if want <= cap {
        want
    } else {
        cap
    };
    let covered = if least <= insurance {
        least
    } else {
        insurance as int
    };
    Cover { covered: covered as u64, rest: I80F48 { bits: (owed.bits - covered * unit()) as i128 } }
}

/// Works out how a deficit is met.
pub fn cover(owed: I80F48, insurance: u64, max_liab_transfer: I80F48) -> (c: Cover)
    requires
        owed.bits >= 0,
        max_liab_transfer.bits >= 0,
    ensures
        c == spec_cover(owed, insurance, max_liab_transfer),
        c.covered <= insurance,
        0 <= c.rest.bits <= owed.bits,
        c.covered * unit() + c.rest.bits == owed.bits,
{
    let want: i128 = owed.bits / 0x1_0000_0000_0000;
    let cap: i128 = max_liab_transfer.bits / 0x1_0000_0000_0000;
    let least: i128 = if want <= cap {
        want
    } else {
        cap
    };
    let covered: u64 = if least <= insurance as i128 {
        least as u64
    } else {
        insurance
    };
    Cover { covered, rest: I80F48 { bits: owed.bits - (covered as i128) * 0x1_0000_0000_0000 } }
}

/// The state after the resolution of a bankruptcy.
pub struct BankruptcyOutcome {
    pub liqee: Seq<Position>,
    /// The root of the bank after the call.
    pub bank: RootBank,
    /// The pools of the bank after the call.
    pub nodes: Seq<NodeBank>,
    /// What the insurance fund still holds.
    pub insurance: u64,
    /// What the insurance fund paid.
    pub covered: u64,
    /// The loss that was spread over the depositors.
    pub socialized: I80F48,
}

/// The root after what is left of a deficit was spread over the depositors
/// of the bank; unchanged where nothing is left. It fails with `Fatal` if
/// the totals of the pools leave the range of the arithmetic and with
/// `InsufficientFunds` if the depositors cannot bear what is left.
pub open spec fn spec_spread(bank: RootBank, nodes: Seq<NodeBank>, rest: I80F48) -> Result<
    RootBank,
    MangoError,
> {
    if rest.bits == 0 {
        Ok(bank)
    } else {
        match spec_totals(nodes) {
            Some((deposits, _)) => match spec_socialize_loss(bank, deposits, rest) {
                Some(b) => Ok(b),
                None => Err(MangoError::InsufficientFunds),
            },
            None => Err(MangoError::Fatal),
        }
    }
}

/// Spreads what is left of a deficit over the depositors of the bank.
fn spread(bank: &RootBank, nodes: &[NodeBank], rest: I80F48) -> (r: Result<RootBank, MangoError>)
    requires
        bank.wf(),
        nodes_wf(nodes@),
    ensures
        r == spec_spread(*bank, nodes@, rest),
        r matches Ok(b) ==> b.wf(),
{
    if rest.bits == 0 {
        return Ok(*bank);
    }
    match totals(nodes) {
        Some((deposits, _)) => match socialize_loss(bank, deposits, rest) {
            Some(b) => Ok(b),
            None => Err(MangoError::InsufficientFunds),
        },
        None => Err(MangoError::Fatal),
    }
}

/// A borrow owes a native amount that is not negative.
proof fn lemma_borrow_owes(bank: RootBank, borrow: I80F48)
    requires
        bank.wf(),
        borrow.bits < 0,
        sub_opt(Some(I80F48 { bits: 0 }), bank.spec_native(borrow)) is Some,
    ensures
        sub_opt(Some(I80F48 { bits: 0 }), bank.spec_native(borrow)).unwrap().bits >= 0,
{
    assert(borrow.bits * bank.borrow_index.bits < 0) by (nonlinear_arith)
        requires
            borrow.bits < 0,
            bank.borrow_index.bits > 0,
    ;
}

/// What the resolution of a bankrupt borrow in slot `liab_index` does. The
/// insurance fund pays what it can of the borrow, at most what the caller
/// allows, into the vault of the pool at `node_index`, through which the
/// borrow is held. The borrow is cleared, and all that the fund did not pay
/// is spread over the depositors of the token. It fails, in this order,
/// with
/// - whatever the computation of the maintenance health of the account fails
///   with,
/// - `NotLiquidatable` if that health is not negative,
/// - `InvalidState` if the slot or the pool does not exist, if
///   `max_liab_transfer` is negative, if the account still holds assets, or
///   if the slot holds no borrow,
/// - `Fatal` if a number leaves the range of the arithmetic,
/// - `InsufficientFunds` if the depositors cannot bear what is left.
pub open spec fn spec_resolve_token_bankruptcy(
    group: &Group,
    cache: &Cache,
    liqee: Seq<Position>,
    bank: RootBank,
    nodes: Seq<NodeBank>,
    node_index: usize,
    insurance: u64,
    liab_index: usize,
    max_liab_transfer: I80F48,
    now: u64,
) -> Result<BankruptcyOutcome, MangoError> {
    match spec_health(group, cache, liqee, HealthType::Maint, now) {
        Ok(h) => if h.bits >= 0 {
            Err(MangoError::NotLiquidatable)
        } else if liab_index >= liqee.len() || node_index >= nodes.len() || max_liab_transfer.bits
            < 0 || !no_assets(liqee) || liqee[liab_index as int].balance.bits >= 0 {
            Err(MangoError::InvalidState)
        } else {
            let borrow = liqee[liab_index as int].balance;
            let node = nodes[node_index as int];
            let nothing = I80F48 { bits: 0 };
            match sub_opt(Some(nothing), bank.spec_native(borrow)) {
                Some(owed) => {
                    let c = spec_cover(owed, insurance, max_liab_transfer);
                    match node.rebalanced(borrow, nothing, node.vault + c.covered) {
                        Some(paid) => {
                            let pools = nodes.update(node_index as int, paid);
                            match spec_spread(bank, pools, c.rest) {
                                Ok(root) => Ok(
                                    BankruptcyOutcome {
                                        liqee: with_balance(liqee, liab_index as int, nothing),
                                        bank: root,
                                        nodes: pools,
                                        insurance: (insurance - c.covered) as u64,
                                        covered: c.covered,
                                        socialized: c.rest,
                                    },
                                ),
                                Err(e) => Err(e),
                            }
                        },
                        None => Err(MangoError::Fatal),
                    }
                },
                None => Err(MangoError::Fatal),
            }
        },
        Err(e) => Err(e),
    }
}

/// Resolves a bankrupt borrow: the insurance fund pays what it can, at most
/// `max_liab_transfer`, into the pool at `node_index`, the borrow is
/// cleared, and all that the fund did not pay is spread over the depositors
/// of the token by lowering the deposit index of its bank. Returns what the
/// fund paid and the loss that was spread.
pub fn resolve_token_bankruptcy(
    group: &Group,
    cache: &Cache,
    liqee: &mut Ledger,
    bank: &mut RootBank,
    nodes: &mut Vec<NodeBank>,
    node_index: usize,
    insurance: &mut u64,
    liab_index: usize,
    max_liab_transfer: I80F48,
    now: u64,
) -> (r: Result<(u64, I80F48), MangoError>)
    requires
        aligned(group, cache, old(liqee)),
        old(liqee).wf(),
        old(bank).wf(),
        nodes_wf(old(nodes)@),
    ensures
        final(liqee).wf(),
        final(liqee).rest_as_in(old(liqee)),
        final(bank).wf(),
        nodes_wf(final(nodes)@),
        match spec_resolve_token_bankruptcy(
            group,
            cache,
            old(liqee)@,
            *old(bank),
            old(nodes)@,
            node_index,
            *old(insurance),
            liab_index,
            max_liab_transfer,
            now,
        ) {
            Ok(o) => {
                &&& r == Ok::<(u64, I80F48), MangoError>((o.covered, o.socialized))
                &&& final(liqee)@ == o.liqee
                &&& *final(bank) == o.bank
                &&& final(nodes)@ == o.nodes
                &&& *final(insurance) == o.insurance
            },
            Err(e) => {
                &&& r == Err::<(u64, I80F48), MangoError>(e)
                &&& final(liqee)@ == old(liqee)@
                &&& *final(bank) == *old(bank)
                &&& final(nodes)@ == old(nodes)@
                &&& *final(insurance) == *old(insurance)
            },
        },
{
    let h: I80F48 = match health(group, cache, liqee, HealthType::Maint, now) {
        Ok(h) => h,
        Err(e) => { return Err(e); },
    };
    if !h.is_negative() {
        return Err(MangoError::NotLiquidatable);
    }
    if liab_index >= liqee.slots.len() || node_index >= nodes.len()
        || max_liab_transfer.is_negative() || !has_no_assets(liqee) {
        return Err(MangoError::InvalidState);
    }
    let borrow: I80F48 = liqee.slots[liab_index].balance;
    let node: NodeBank = nodes[node_index];
    if !borrow.is_negative() {
        return Err(MangoError::InvalidState);
    }
    let owed: I80F48 = match try_sub(Some(I80F48::zero()), bank.native(borrow)) {
        Some(o) => o,
        None => { return Err(MangoError::Fatal); },
    };
    proof {
        lemma_borrow_owes(*bank, borrow);
    }
    let c: Cover = cover(owed, *insurance, max_liab_transfer);
    let paid: NodeBank = match node.rebalance(
        borrow,
        I80F48::zero(),
        node.vault.checked_add(c.covered),
    ) {
        Some(n) => n,
        None => { return Err(MangoError::Fatal); },
    };
    nodes[node_index] = paid;
    let root: RootBank = match spread(bank, nodes.as_slice(), c.rest) {
        Ok(b) => b,
        Err(e) => {
            nodes[node_index] = node;
            assert(nodes@ =~= old(nodes)@);
            return Err(e);
        },
    };
    set_balance(liqee, liab_index, I80F48::zero());
    *bank = root;
    *insurance = *insurance - c.covered;
    Ok((c.covered, c.rest))
}

/// What the resolution of a bankrupt perp position in slot `liab_index`
/// does. The position first settles its funding. The insurance fund pays
/// what it can of what the position owes, at most what the caller allows,
/// into the vault of the pool at `node_index` of the bank of the quote
/// token. The quote balance of the position is cleared, and all that the
/// fund did not pay is spread over the depositors of the quote token. It
/// fails, in this order, with
/// - whatever the computation of the maintenance health of the account fails
///   with,
/// - `NotLiquidatable` if that health is not negative,
/// - `InvalidState` if the slot or the pool does not exist or
///   `max_liab_transfer` is negative,
/// - `Fatal` if the funding cannot be settled within the range of the
///   arithmetic,
/// - `InvalidState` if the account still holds assets, or if the position
///   holds base lots or owes nothing,
/// - `Fatal` if a number leaves its range,
/// - `InsufficientFunds` if the depositors cannot bear what is left.
pub open spec fn spec_resolve_perp_bankruptcy(
    group: &Group,
    cache: &Cache,
    liqee: Seq<Position>,
    quote_bank: RootBank,
    quote_nodes: Seq<NodeBank>,
    node_index: usize,
    insurance: u64,
    liab_index: usize,
    max_liab_transfer: I80F48,
    now: u64,
) -> Result<BankruptcyOutcome, MangoError> {
    match spec_health(group, cache, liqee, HealthType::Maint, now) {
        Ok(h) => if h.bits >= 0 {
            Err(MangoError::NotLiquidatable)
        } else if liab_index >= liqee.len() || node_index >= quote_nodes.len()
            || max_liab_transfer.bits < 0 {
            Err(MangoError::InvalidState)
        } else {
            let i = liab_index as int;
            let node = quote_nodes[node_index as int];
            let nothing = I80F48 { bits: 0 };
            match spec_settle_funding(
                liqee[i].perp,
                cache@[i].long_funding,
                cache@[i].short_funding,
            ) {
                Some(p) => if !no_assets(liqee) || p.base_position != 0 || p.quote_position.bits
                    >= 0 {
                    Err(MangoError::InvalidState)
                } else {
                    match nothing.spec_sub(p.quote_position) {
                        Some(owed) => {
                            let c = spec_cover(owed, insurance, max_liab_transfer);
                            match node.rebalanced(nothing, nothing, node.vault + c.covered) {
                                Some(paid) => {
                                    let pools = quote_nodes.update(node_index as int, paid);
                                    match spec_spread(quote_bank, pools, c.rest) {
                                        Ok(root) => Ok(
                                            BankruptcyOutcome {
                                                liqee: with_perp(
                                                    liqee,
                                                    i,
                                                    PerpPosition { quote_position: nothing, ..p },
                                                ),
                                                bank: root,
                                                nodes: pools,
                                                insurance: (insurance - c.covered) as u64,
                                                covered: c.covered,
                                                socialized: c.rest,
                                            },
                                        ),
                                        Err(e) => Err(e),
                                    }
                                },
                                None => Err(MangoError::Fatal),
                            }
                        },
                        None => Err(MangoError::Fatal),
                    }
                },
                None => Err(MangoError::Fatal),
            }
        },
        Err(e) => Err(e),
    }
}

/// Resolves a bankrupt perp position: the insurance fund pays what it can of
/// what the position owes, at most `max_liab_transfer`, into the pool at
/// `node_index` of the bank of the quote token, the quote balance of the
/// position is cleared, and all that the fund did not pay is spread over
/// the depositors of the quote token by lowering the deposit index of that
/// bank. Returns what the fund paid and the loss that was spread.
pub fn resolve_perp_bankruptcy(
    group: &Group,
    cache: &Cache,
    liqee: &mut Ledger,
    quote_bank: &mut RootBank,
    quote_nodes: &mut Vec<NodeBank>,
    node_index: usize,
    insurance: &mut u64,
    liab_index: usize,
    max_liab_transfer: I80F48,
    now: u64,
) -> (r: Result<(u64, I80F48), MangoError>)
    requires
        aligned(group, cache, old(liqee)),
        old(liqee).wf(),
        old(quote_bank).wf(),
        nodes_wf(old(quote_nodes)@),
    ensures
        final(liqee).wf(),
        final(liqee).rest_as_in(old(liqee)),
        final(quote_bank).wf(),
        nodes_wf(final(quote_nodes)@),
        match spec_resolve_perp_bankruptcy(
            group,
            cache,
            old(liqee)@,
            *old(quote_bank),
            old(quote_nodes)@,
            node_index,
            *old(insurance),
            liab_index,
            max_liab_transfer,
            now,
        ) {
            Ok(o) => {
                &&& r == Ok::<(u64, I80F48), MangoError>((o.covered, o.socialized))
                &&& final(liqee)@ == o.liqee
                &&& *final(quote_bank) == o.bank
                &&& final(quote_nodes)@ == o.nodes
                &&& *final(insurance) == o.insurance
            },
            Err(e) => {
                &&& r == Err::<(u64, I80F48), MangoError>(e)
                &&& final(liqee)@ == old(liqee)@
                &&& *final(quote_bank) == *old(quote_bank)
                &&& final(quote_nodes)@ == old(quote_nodes)@
                &&& *final(insurance) == *old(insurance)
            },
        },
{
    let h: I80F48 = match health(group, cache, liqee, HealthType::Maint, now) {
        Ok(h) => h,
        Err(e) => { return Err(e); },
    };
    if !h.is_negative() {
        return Err(MangoError::NotLiquidatable);
    }
    if liab_index >= liqee.slots.len() || node_index >= quote_nodes.len()
        || max_liab_transfer.is_negative() {
        return Err(MangoError::InvalidState);
    }
    let node: NodeBank = quote_nodes[node_index];
    let c = &cache.slots[liab_index];
    let p: PerpPosition = match settle_funding(
        &liqee.slots[liab_index].perp,
        c.long_funding,
        c.short_funding,
    ) {
        Some(p) => p,
        None => { return Err(MangoError::Fatal); },
    };
    if !has_no_assets(liqee) || p.base_position != 0 || !p.quote_position.is_negative() {
        return Err(MangoError::InvalidState);
    }
    let owed: I80F48 = match I80F48::zero().checked_sub(p.quote_position) {
        Some(o) => o,
        None => { return Err(MangoError::Fatal); },
    };
    let cv: Cover = cover(owed, *insurance, max_liab_transfer);
    let paid: NodeBank = match node.rebalance(
        I80F48::zero(),
        I80F48::zero(),
        node.vault.checked_add(cv.covered),
    ) {
        Some(n) => n,
        None => { return Err(MangoError::Fatal); },
    };
    quote_nodes[node_index] = paid;
    let root: RootBank = match spread(quote_bank, quote_nodes.as_slice(), cv.rest) {
        Ok(b) => b,
        Err(e) => {
            quote_nodes[node_index] = node;
            assert(quote_nodes@ =~= old(quote_nodes)@);
            return Err(e);
        },
    };
    let mut cleared: PerpPosition = p;
    cleared.quote_position = I80F48::zero();
    set_perp(liqee, liab_index, cleared);
    *quote_bank = root;
    *insurance = *insurance - cv.covered;
    Ok((cv.covered, cv.rest))
}

/// Resolving a bankruptcy leaves nothing owed: the borrow, or the quote
/// balance of the perp position, is zero afterwards, the insurance fund has
/// paid no more than it held, and the loss that is spread over the
/// depositors of the bank is all that the fund did not pay. Where the fund
/// paid everything, the bank is as it was.
pub proof fn lemma_resolution_clears_the_debt(
    group: &Group,
    cache: &Cache,
    liqee: Seq<Position>,
    bank: RootBank,
    nodes: Seq<NodeBank>,
    node_index: usize,
    insurance: u64,
    liab_index: usize,
    max_liab_transfer: I80F48,
    now: u64,
)
    requires
        bank.wf(),
    ensures
        spec_resolve_token_bankruptcy(
            group,
            cache,
            liqee,
            bank,
            nodes,
            node_index,
            insurance,
            liab_index,
            max_liab_transfer,
            now,
        ) matches Ok(o) ==> {
            &&& o.liqee[liab_index as int].balance.bits == 0
            &&& o.covered <= insurance
            &&& o.insurance + o.covered == insurance
            &&& bank.spec_native(liqee[liab_index as int].balance) matches Some(n)
            &&& o.socialized.bits + o.covered * unit() == -n.bits
            &&& 0 <= o.socialized.bits
            &&& spec_spread(bank, o.nodes, o.socialized) == Ok::<RootBank, MangoError>(o.bank)
            &&& o.socialized.bits == 0 ==> o.bank == bank
        },
        spec_resolve_perp_bankruptcy(
            group,
            cache,
            liqee,
            bank,
            nodes,
            node_index,
            insurance,
            liab_index,
            max_liab_transfer,
            now,
        ) matches Ok(o) ==> {
            &&& o.liqee[liab_index as int].perp.quote_position.bits == 0
            &&& o.liqee[liab_index as int].perp.base_position == 0
            &&& o.covered <= insurance
            &&& o.insurance + o.covered == insurance
            &&& 0 <= o.socialized.bits
            &&& spec_spread(bank, o.nodes, o.socialized) == Ok::<RootBank, MangoError>(o.bank)
            &&& o.socialized.bits == 0 ==> o.bank == bank
        },
{
    if spec_resolve_token_bankruptcy(
        group,
        cache,
        liqee,
        bank,
        nodes,
        node_index,
        insurance,
        liab_index,
        max_liab_transfer,
        now,
    ) is Ok {
        lemma_borrow_owes(bank, liqee[liab_index as int].balance);
    }
}

/// A bankruptcy is resolved only for an account that is bankrupt: whenever
/// one of the two calls succeeds, the account had negative maintenance
/// health and held no assets.
pub proof fn lemma_resolution_needs_its_state(
    group: &Group,
    cache: &Cache,
    liqee: Seq<Position>,
    bank: RootBank,
    nodes: Seq<NodeBank>,
    node_index: usize,
    insurance: u64,
    liab_index: usize,
    max_liab_transfer: I80F48,
    now: u64,
)
    ensures
        spec_resolve_token_bankruptcy(
            group,
            cache,
            liqee,
            bank,
            nodes,
            node_index,
            insurance,
            liab_index,
            max_liab_transfer,
            now,
        ) is Ok ==> spec_liquidation_state(group, cache, liqee, now) == Ok::<
            LiquidationState,
            MangoError,
        >(LiquidationState::Bankrupt),
        spec_resolve_perp_bankruptcy(
            group,
            cache,
            liqee,
            bank,
            nodes,
            node_index,
            insurance,
            liab_index,
            max_liab_transfer,
            now,
        ) is Ok ==> spec_liquidation_state(group, cache, liqee, now) == Ok::<
            LiquidationState,
            MangoError,
        >(LiquidationState::Bankrupt),
{
}

/// No bankruptcy is resolved for an account that is healthy: where its
/// maintenance health is zero or more, both calls are refused as
/// `NotLiquidatable`, whatever their other arguments are.
pub proof fn lemma_healthy_is_not_bankrupt(
    group: &Group,
    cache: &Cache,
    liqee: Seq<Position>,
    bank: RootBank,
    nodes: Seq<NodeBank>,
    node_index: usize,
    insurance: u64,
    liab_index: usize,
    max_liab_transfer: I80F48,
    now: u64,
)
    requires
        spec_health(group, cache, liqee, HealthType::Maint, now) matches Ok(h) && h.bits >= 0,
    ensures
        spec_resolve_token_bankruptcy(
            group,
            cache,
            liqee,
            bank,
            nodes,
            node_index,
            insurance,
            liab_index,
            max_liab_transfer,
            now,
        ) == Err::<BankruptcyOutcome, MangoError>(MangoError::NotLiquidatable),
        spec_resolve_perp_bankruptcy(
            group,
            cache,
            liqee,
            bank,
            nodes,
            node_index,
            insurance,
            liab_index,
            max_liab_transfer,
            now,
        ) == Err::<BankruptcyOutcome, MangoError>(MangoError::NotLiquidatable),
{
}

} // verus!
