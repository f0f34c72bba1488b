//! A perp market: its funding, and the events of its book.
//!
//! Funding is a cash flow between long and short positions that pulls the
//! price of the book towards the oracle price. The market only accumulates
//! it, per base lot, and each position pays or receives what has accrued
//! since it last settled whenever it is touched.
//!
//! The book commits its fills and cancellations as events, each with a
//! sequence number, and the market applies them one by one in that order.
use crate::account::PerpPosition;
use crate::error::MangoError;
use crate::fixed_point::{
    add_opt, checked, div_opt, mul_opt, sub_opt, try_add, try_div, try_mul, try_sub, unit, I80F48,
};
use crate::matching::Side;
use vstd::prelude::*;

verus! {

/// Seconds in a day, the period over which a constant skew of the book pays
/// its full rate.
pub const DAY: u64 = 86_400;

/// The state of one perp market.
#[derive(Clone, Copy, Debug, PartialEq, Eq, Structural)]
pub struct PerpMarket {
    /// Native base units in one base lot.
    pub base_lot_size: i64,
    /// Native quote units in one quote lot.
    pub quote_lot_size: i64,
    pub maker_fee: I80F48,
    pub taker_fee: I80F48,
    /// The largest skew of the book that funding follows, in hundredths of
    /// a percent of the oracle price.
    pub max_depth_bps: I80F48,
    /// Liquidity incentives per base lot and second of resting.
    pub rate: I80F48,
    /// Base lots held long, over all accounts.
    pub open_interest: i64,
    /// Funding accrued per base lot held long.
    pub long_funding: I80F48,
    /// Funding accrued per base lot held short.
    pub short_funding: I80F48,
    /// The time of the last funding update.
    pub last_updated: u64,
    /// The sequence number of the next event to apply.
    pub seq_num: u64,
    /// Fees taken from fills and not yet moved out.
    pub fees_accrued: I80F48,
}

/// The position after it has settled with the market: a long position pays
/// what long funding has accrued since it last settled, per lot, and a short
/// position receives what short funding has.
pub open spec fn spec_settle_funding(
    p: PerpPosition,
    long_funding: I80F48,
    short_funding: I80F48,
) -> Option<PerpPosition> {
    let due = if p.base_position > 0 {
        mul_opt(
            long_funding.spec_sub(p.long_settled_funding),
            Some(I80F48::spec_from_i64(p.base_position)),
        )
    } else if p.base_position < 0 {
        mul_opt(
            short_funding.spec_sub(p.short_settled_funding),
            Some(I80F48::spec_from_i64(p.base_position)),
        )
    } else {
        Some(I80F48 { bits: 0 })
    };
    match sub_opt(Some(p.quote_position), due) {
        Some(q) => Some(
            PerpPosition {
                quote_position: q,
                long_settled_funding: long_funding,
                short_settled_funding: short_funding,
                ..p
            },
        ),
        None => None,
    }
}

/// Settles the funding of a position with the market.
pub fn settle_funding(p: &PerpPosition, long_funding: I80F48, short_funding: I80F48) -> (r: Option<
    PerpPosition,
>)
    ensures
        r == spec_settle_funding(*p, long_funding, short_funding),
{
    let due = if p.base_position > 0 {
        try_mul(
            long_funding.checked_sub(p.long_settled_funding),
            Some(I80F48::from_i64(p.base_position)),
        )
    } else if p.base_position < 0 {
        try_mul(
            short_funding.checked_sub(p.short_settled_funding),
            Some(I80F48::from_i64(p.base_position)),
        )
    } else {
        Some(I80F48::zero())
    };
    match try_sub(Some(p.quote_position), due) {
        Some(q) => {
            let mut settled: PerpPosition = *p;
            settled.quote_position = q;
            settled.long_settled_funding = long_funding;
            settled.short_settled_funding = short_funding;
            Some(settled)
        },
        None => None,
    }
}

/// `x` held between `-bound` and `bound`.
pub open spec fn clamped(x: I80F48, bound: I80F48) -> I80F48 {
    if x.bits > bound.bits {
        bound
    } else if x.bits < -bound.bits {
        I80F48 { bits: (-bound.bits) as i128 }
    } else {
        x
    }
}

/// The skew of the book against the oracle price, as a fraction of that
/// price and held within the bound of the market: the midpoint of best bid
/// and best ask over the oracle price, less one. A book with bids only is
/// at the upper bound, one with asks only at the lower, and an empty book
/// has no skew.
pub open spec fn spec_skew(
    bid: Option<I80F48>,
    ask: Option<I80F48>,
    index_price: I80F48,
    bound: I80F48,
) -> Option<I80F48> {
    match (bid, ask) {
        (Some(b), Some(a)) => match sub_opt(
            div_opt(
                div_opt(b.spec_add(a), Some(I80F48 { bits: (2 * unit()) as i128 })),
                Some(index_price),
            ),
            Some(I80F48 { bits: unit() as i128 }),
        ) {
            Some(d) => Some(clamped(d, bound)),
            None => None,
        },
        (Some(_), None) => Some(bound),
        (None, Some(_)) => Some(I80F48 { bits: (-bound.bits) as i128 }),
        (None, None) => Some(I80F48 { bits: 0 }),
    }
}

/// The largest skew that funding follows, as a fraction of the oracle price.
pub open spec fn spec_skew_bound(m: PerpMarket) -> Option<I80F48> {
    m.max_depth_bps.spec_div(I80F48::spec_from_u64(10_000))
}

/// The market after a funding update at `now`: both funding counters grow
/// by the skew, held within the bound of the market, times the oracle price
/// times the lot size, for the share of a day that has passed since the last
/// update. It fails with `Fatal` if `now` lies before the last update or if
/// a number leaves the range of the arithmetic, which a price of zero under
/// a book with both sides makes it do, and with `InvalidState` if the bound
/// of the market is negative.
pub open spec fn spec_update_funding(
    m: PerpMarket,
    bid: Option<I80F48>,
    ask: Option<I80F48>,
    index_price: I80F48,
    now: u64,
) -> Result<PerpMarket, MangoError> {
    if now < m.last_updated {
        Err(MangoError::Fatal)
    } else if m.max_depth_bps.bits < 0 {
        Err(MangoError::InvalidState)
    } else {
        match spec_skew_bound(m) {
            Some(bound) => {
                let delta = div_opt(
                    mul_opt(
                        mul_opt(
                            mul_opt(spec_skew(bid, ask, index_price, bound), Some(index_price)),
                            Some(I80F48::spec_from_i64(m.base_lot_size)),
                        ),
                        Some(I80F48::spec_from_u64((now - m.last_updated) as u64)),
                    ),
                    Some(I80F48::spec_from_u64(DAY)),
                );
                match (
                    add_opt(Some(m.long_funding), delta),
                    add_opt(Some(m.short_funding), delta),
                ) {
                    (Some(l), Some(s)) => Ok(
                        PerpMarket { long_funding: l, short_funding: s, last_updated: now, ..m },
                    ),
                    _ => Err(MangoError::Fatal),
                }
            },
            None => Err(MangoError::Fatal),
        }
    }
}

fn skew(bid: Option<I80F48>, ask: Option<I80F48>, index_price: I80F48, bound: I80F48) -> (r:
    Option<I80F48>)
    requires
        bound.bits >= 0,
    ensures
        r == spec_skew(bid, ask, index_price, bound),
{
    match (bid, ask) {
        (Some(b), Some(a)) => match try_sub(
            try_div(try_div(b.checked_add(a), Some(I80F48::from_u64(2))), Some(index_price)),
            Some(I80F48::one()),
        ) {
            Some(d) => if d.bits > bound.bits {
                Some(bound)
            } else if d.bits < -bound.bits {
                Some(I80F48 { bits: -bound.bits })
            } else {
                Some(d)
            },
            None => None,
        },
        (Some(_), None) => Some(bound),
        (None, Some(_)) => Some(I80F48 { bits: -bound.bits }),
        (None, None) => Some(I80F48::zero()),
    }
}

/// Brings the funding of the market up to `now`, from the best bid and ask
/// of its book and the oracle price. A second update at the same time
/// changes nothing.
pub fn update_funding(
    m: &mut PerpMarket,
    bid: Option<I80F48>,
    ask: Option<I80F48>,
    index_price: I80F48,
    now: u64,
) -> (r: Result<(), MangoError>)
    ensures
        match spec_update_funding(*old(m), bid, ask, index_price, now) {
            Ok(after) => r is Ok && *final(m) == after,
            Err(e) => r == Err::<(), MangoError>(e) && *final(m) == *old(m),
        },
{
    if now < m.last_updated {
        return Err(MangoError::Fatal);
    }
    if m.max_depth_bps.is_negative() {
        return Err(MangoError::InvalidState);
    }
    let bound: I80F48 = match m.max_depth_bps.checked_div(I80F48::from_u64(10_000)) {
        Some(b) => b,
        None => { return Err(MangoError::Fatal); },
    };
    proof {
        crate::fixed_point::lemma_div_nonnegative(m.max_depth_bps, I80F48::spec_from_u64(10_000));
    }
    let delta = try_div(
        try_mul(
            try_mul(
                try_mul(skew(bid, ask, index_price, bound), Some(index_price)),
                Some(I80F48::from_i64(m.base_lot_size)),
            ),
            Some(I80F48::from_u64(now - m.last_updated)),
        ),
        Some(I80F48::from_u64(DAY)),
    );
    match (try_add(Some(m.long_funding), delta), try_add(Some(m.short_funding), delta)) {
        (Some(l), Some(s)) => {
            m.long_funding = l;
            m.short_funding = s;
            m.last_updated = now;
            Ok(())
        },
        _ => Err(MangoError::Fatal),
    }
}

/// A funding update at the time of the last one changes nothing, if it
/// succeeds.
pub proof fn lemma_update_funding_idempotent(
    m: PerpMarket,
    bid: Option<I80F48>,
    ask: Option<I80F48>,
    index_price: I80F48,
)
    ensures
        spec_update_funding(m, bid, ask, index_price, m.last_updated) matches Ok(after)
            ==> after == m,
{
    if spec_skew_bound(m) is Some {
        let s = mul_opt(
            mul_opt(
                spec_skew(bid, ask, index_price, spec_skew_bound(m).unwrap()),
                Some(index_price),
            ),
            Some(I80F48::spec_from_i64(m.base_lot_size)),
        );
        if s is Some {
            assert((s.unwrap().bits * 0) / unit() == 0);
        }
    }
}

/// A trade between a resting order and an incoming one.
#[derive(Clone, Copy, Debug, PartialEq, Eq, Structural)]
pub struct FillEvent {
    pub seq_num: u64,
    /// The side of the incoming order.
    pub taker_side: Side,
    /// The place of the maker's position among those given with the call.
    pub maker: usize,
    /// The place of the taker's position among those given with the call.
    pub taker: usize,
    /// Quote lots per base lot.
    pub price: i64,
    /// Base lots.
    pub quantity: i64,
    /// How long the maker's order rested on the book, in seconds.
    pub resting_seconds: u64,
}

/// An order that left the book without trading.
#[derive(Clone, Copy, Debug, PartialEq, Eq, Structural)]
pub struct OutEvent {
    pub seq_num: u64,
    /// The place of the owner's position among those given with the call.
    pub owner: usize,
    pub side: Side,
    /// Base lots.
    pub quantity: i64,
}

/// What the book committed.
#[derive(Clone, Copy, Debug, PartialEq, Eq, Structural)]
pub enum Event {
    Fill(FillEvent),
    Out(OutEvent),
}

impl Event {
    /// The sequence number of the event.
    pub open spec fn spec_seq_num(self) -> u64 {
        match self {
            Event::Fill(f) => f.seq_num,
            Event::Out(o) => o.seq_num,
        }
    }

    /// The sequence number of the event.
    pub fn seq_num(&self) -> (n: u64)
        ensures
            n == self.spec_seq_num(),
    {
        match self {
            Event::Fill(f) => f.seq_num,
            Event::Out(o) => o.seq_num,
        }
    }
}

/// The base lots held long in a position.
pub open spec fn long_lots(base_position: int) -> int {
    if base_position > 0 {
        base_position
    } else {
        0
    }
}

/// The position after it settled its funding and then bought or sold
/// `quantity` lots for `quote` and paid the fee on it.
pub open spec fn spec_traded(
    p: PerpPosition,
    m: PerpMarket,
    buys: bool,
    quantity: i64,
    quote: I80F48,
    fee_rate: I80F48,
) -> Option<PerpPosition> {
    match spec_settle_funding(p, m.long_funding, m.short_funding) {
        Some(s) => {
            let base = if buys {
                s.base_position + quantity
            } else {
                s.base_position - quantity
            };
            let gross = if buys {
                s.quote_position.spec_sub(quote)
            } else {
                s.quote_position.spec_add(quote)
            };
            match sub_opt(gross, quote.spec_mul(fee_rate)) {
                Some(net) => if i64::MIN <= base <= i64::MAX {
                    Some(PerpPosition { base_position: base as i64, quote_position: net, ..s })
                } else {
                    None
                },
                None => None,
            }
        },
        None => None,
    }
}

/// The incentives that a maker earns on a fill: the rate of the market times
/// the lots times the seconds that the order rested, rounded down.
pub open spec fn spec_incentive(rate: I80F48, quantity: i64, resting_seconds: u64) -> Option<
    I80F48,
> {
    mul_opt(
        rate.spec_mul(I80F48::spec_from_i64(quantity)),
        Some(I80F48::spec_from_u64(resting_seconds)),
    )
}

/// The position with the incentives added, in whole tokens.
pub open spec fn spec_rewarded(p: PerpPosition, incentive: Option<I80F48>) -> Option<
    PerpPosition,
> {
    match incentive {
        Some(i) => if 0 <= (i.bits as int) / unit() && p.mngo_accrued + (i.bits as int) / unit() <= u64::MAX {
            Some(PerpPosition { mngo_accrued: (p.mngo_accrued + (i.bits as int) / unit()) as u64, ..p })
        } else {
            None
        },
        None => None,
    }
}

/// The native quote currency that a fill moves: lots times price times the
/// size of a quote lot.
pub open spec fn spec_fill_quote(f: FillEvent, m: PerpMarket) -> Option<I80F48> {
    checked(f.quantity * f.price * m.quote_lot_size * unit())
}

/// The market after a fill changed two positions.
pub open spec fn spec_market_after_fill(
    m: PerpMarket,
    quote: I80F48,
    long_before: int,
    long_after: int,
) -> Option<PerpMarket> {
    let interest = m.open_interest + long_after - long_before;
    match (
        add_opt(
            Some(m.fees_accrued),
            add_opt(quote.spec_mul(m.maker_fee), quote.spec_mul(m.taker_fee)),
        ),
        i64::MIN <= interest <= i64::MAX && m.seq_num < u64::MAX,
    ) {
        (Some(fees), true) => Some(
            PerpMarket {
                fees_accrued: fees,
                open_interest: interest as i64,
                seq_num: (m.seq_num + 1) as u64,
                ..m
            },
        ),
        _ => None,
    }
}

/// What applying one event does to the market and to the positions given
/// with the call. It fails with
/// - `Fatal` if the event was applied before: its sequence number is below
///   that of the next event,
/// - `InvalidState` if it is not yet its turn: its number is above,
/// - `InvalidState` if it names a position that was not given, or if a fill
///   has a price or a quantity that is not positive,
/// - `Fatal` if a number leaves its range.
/// A fill first changes the taker's position and then the maker's; an order
/// that left the book changes no position.
pub open spec fn spec_apply_event(m: PerpMarket, positions: Seq<PerpPosition>, e: Event) -> Result<
    (PerpMarket, Seq<PerpPosition>),
    MangoError,
> {
    if e.spec_seq_num() < m.seq_num {
        Err(MangoError::Fatal)
    } else if e.spec_seq_num() > m.seq_num {
        Err(MangoError::InvalidState)
    } else {
        match e {
            Event::Out(o) => if o.owner >= positions.len() {
                Err(MangoError::InvalidState)
            } else if m.seq_num == u64::MAX {
                Err(MangoError::Fatal)
            } else {
                Ok((PerpMarket { seq_num: (m.seq_num + 1) as u64, ..m }, positions))
            },
            Event::Fill(f) => if f.maker >= positions.len() || f.taker >= positions.len()
                || f.price <= 0 || f.quantity <= 0 {
                Err(MangoError::InvalidState)
            } else {
                match spec_fill_quote(f, m) {
                    Some(quote) => {
                        let buys = f.taker_side == Side::Bid;
                        match spec_traded(
                            positions[f.taker as int],
                            m,
                            buys,
                            f.quantity,
                            quote,
                            m.taker_fee,
                        ) {
                            Some(taker) => {
                                let mid = positions.update(f.taker as int, taker);
                                match spec_rewarded_maker(mid[f.maker as int], m, f, quote, buys) {
                                    Some(maker) => match spec_market_after_fill(
                                        m,
                                        quote,
                                        long_lots(positions[f.taker as int].base_position as int)
                                            + long_lots(mid[f.maker as int].base_position as int),
                                        long_lots(taker.base_position as int) + long_lots(
                                            maker.base_position as int,
                                        ),
                                    ) {
                                        Some(after) => Ok(
                                            (after, mid.update(f.maker as int, maker)),
                                        ),
                                        None => Err(MangoError::Fatal),
                                    },
                                    None => Err(MangoError::Fatal),
                                }
                            },
                            None => Err(MangoError::Fatal),
                        }
                    },
                    None => Err(MangoError::Fatal),
                }
            },
        }
    }
}

/// The maker's position after a fill: traded on the side opposite to the
/// taker's, and rewarded for the time that its order rested.
pub open spec fn spec_rewarded_maker(
    p: PerpPosition,
    m: PerpMarket,
    f: FillEvent,
    quote: I80F48,
    taker_buys: bool,
) -> Option<PerpPosition> {
    match spec_traded(p, m, !taker_buys, f.quantity, quote, m.maker_fee) {
        Some(t) => spec_rewarded(t, spec_incentive(m.rate, f.quantity, f.resting_seconds)),
        None => None,
    }
}

fn traded(
    p: &PerpPosition,
    m: &PerpMarket,
    buys: bool,
    quantity: i64,
    quote: I80F48,
    fee_rate: I80F48,
) -> (r: Option<PerpPosition>)
    ensures
        r == spec_traded(*p, *m, buys, quantity, quote, fee_rate),
{
    match settle_funding(p, m.long_funding, m.short_funding) {
        Some(s) => {
            let base = if buys {
                s.base_position.checked_add(quantity)
            } else {
                s.base_position.checked_sub(quantity)
            };
            let gross = if buys {
                s.quote_position.checked_sub(quote)
            } else {
                s.quote_position.checked_add(quote)
            };
            match (try_sub(gross, quote.checked_mul(fee_rate)), base) {
                (Some(net), Some(b)) => {
                    let mut t: PerpPosition = s;
                    t.base_position = b;
                    t.quote_position = net;
                    Some(t)
                },
                _ => None,
            }
        },
        None => None,
    }
}

fn rewarded(p: &PerpPosition, incentive: Option<I80F48>) -> (r: Option<PerpPosition>)
    ensures
        r == spec_rewarded(*p, incentive),
{
    match incentive {
        Some(i) => {
            if i.bits < 0 {
                assert((i.bits as int) / unit() < 0);
                return None;
            }
            let whole: i128 = i.bits / 0x1_0000_0000_0000;
            if whole > (u64::MAX - p.mngo_accrued) as i128 {
                return None;
            }
            let mut t: PerpPosition = *p;
            t.mngo_accrued = p.mngo_accrued + whole as u64;
            Some(t)
        },
        None => None,
    }
}

fn fill_quote(f: &FillEvent, m: &PerpMarket) -> (r: Option<I80F48>)
    ensures
        r == spec_fill_quote(*f, *m),
{
    assert(-0x4000_0000_0000_0000_0000_0000_0000_0000 <= f.quantity * f.price
        <= 0x4000_0000_0000_0000_0000_0000_0000_0000) by (nonlinear_arith)
        requires
            -0x8000_0000_0000_0000 <= f.quantity <= 0x8000_0000_0000_0000,
            -0x8000_0000_0000_0000 <= f.price <= 0x8000_0000_0000_0000,
    ;
    let lots: i128 = (f.quantity as i128) * (f.price as i128);
    let native: i128 = match lots.checked_mul(m.quote_lot_size as i128) {
        Some(n) => n,
        None => {
            assert(!crate::fixed_point::fits(f.quantity * f.price * m.quote_lot_size * unit()))
                by (nonlinear_arith)
                requires
                    !crate::fixed_point::fits(lots * m.quote_lot_size),
                    lots == f.quantity * f.price,
                    unit() == 0x1_0000_0000_0000,
            ;
            return None;
        },
    };
    assert(native * unit() == f.quantity * f.price * m.quote_lot_size * unit()) by (nonlinear_arith)
        requires
            native == lots * m.quote_lot_size,
            lots == f.quantity * f.price,
    ;
    match native.checked_mul(0x1_0000_0000_0000) {
        Some(bits) => Some(I80F48 { bits }),
        None => None,
    }
}

fn long_lots_of(base_position: i64) -> (r: i128)
    ensures
        r == long_lots(base_position as int),
{
    if base_position > 0 {
        base_position as i128
    } else {
        0
    }
}

fn market_after_fill(m: &PerpMarket, quote: I80F48, long_before: i128, long_after: i128) -> (r:
    Option<PerpMarket>)
    requires
        0 <= long_before <= 0x1_0000_0000_0000_0000,
        0 <= long_after <= 0x1_0000_0000_0000_0000,
    ensures
        r == spec_market_after_fill(*m, quote, long_before as int, long_after as int),
{
    let interest: i128 = m.open_interest as i128 + long_after - long_before;
    let fees = try_add(
        Some(m.fees_accrued),
        try_add(quote.checked_mul(m.maker_fee), quote.checked_mul(m.taker_fee)),
    );
    match fees {
        Some(fees) => {
            if interest < i64::MIN as i128 || interest > i64::MAX as i128 || m.seq_num == u64::MAX {
                return None;
            }
            let mut after: PerpMarket = *m;
            after.fees_accrued = fees;
            after.open_interest = interest as i64;
            after.seq_num = m.seq_num + 1;
            Some(after)
        },
        None => None,
    }
}

/// Applies one event to the market and to the positions given with the
/// call.
pub fn apply_event(m: &mut PerpMarket, positions: &mut Vec<PerpPosition>, e: &Event) -> (r: Result<
    (),
    MangoError,
>)
    ensures
        match spec_apply_event(*old(m), old(positions)@, *e) {
            Ok((after, ps)) => r is Ok && *final(m) == after && final(positions)@ == ps,
            Err(err) => {
                &&& r == Err::<(), MangoError>(err)
                &&& *final(m) == *old(m)
                &&& final(positions)@ == old(positions)@
            },
        },
{
    if e.seq_num() < m.seq_num {
        return Err(MangoError::Fatal);
    }
    if e.seq_num() > m.seq_num {
        return Err(MangoError::InvalidState);
    }
    match e {
        Event::Out(o) => {
            if o.owner >= positions.len() {
                return Err(MangoError::InvalidState);
            }
            if m.seq_num == u64::MAX {
                return Err(MangoError::Fatal);
            }
            m.seq_num = m.seq_num + 1;
            Ok(())
        },
        Event::Fill(f) => {
            if f.maker >= positions.len() || f.taker >= positions.len() || f.price <= 0
                || f.quantity <= 0 {
                return Err(MangoError::InvalidState);
            }
            let quote: I80F48 = match fill_quote(f, m) {
                Some(q) => q,
                None => { return Err(MangoError::Fatal); },
            };
            let buys: bool = match f.taker_side {
                Side::Bid => true,
                Side::Ask => false,
            };
            let taker_before: PerpPosition = positions[f.taker];
            let taker: PerpPosition = match traded(
                &taker_before,
                m,
                buys,
                f.quantity,
                quote,
                m.taker_fee,
            ) {
                Some(t) => t,
                None => { return Err(MangoError::Fatal); },
            };
            let maker_before: PerpPosition = if f.maker == f.taker {
                taker
            } else {
                positions[f.maker]
            };
            let maker: PerpPosition = match traded(
                &maker_before,
                m,
                !buys,
                f.quantity,
                quote,
                m.maker_fee,
            ) {
                Some(t) => match rewarded(
                    &t,
                    try_mul(
                        m.rate.checked_mul(I80F48::from_i64(f.quantity)),
                        Some(I80F48::from_u64(f.resting_seconds)),
                    ),
                ) {
                    Some(t) => t,
                    None => { return Err(MangoError::Fatal); },
                },
                None => { return Err(MangoError::Fatal); },
            };
            let after: PerpMarket = match market_after_fill(
                m,
                quote,
                long_lots_of(taker_before.base_position) + long_lots_of(maker_before.base_position),
                long_lots_of(taker.base_position) + long_lots_of(maker.base_position),
            ) {
                Some(a) => a,
                None => { return Err(MangoError::Fatal); },
            };
            positions[f.taker] = taker;
            positions[f.maker] = maker;
            *m = after;
            Ok(())
        },
    }
}

/// An event is never applied twice: once an event has been applied, every
/// event with its sequence number is refused as `Fatal`, whatever positions
/// are given with it.
pub proof fn lemma_event_applies_once(
    m: PerpMarket,
    positions: Seq<PerpPosition>,
    e: Event,
    again: Event,
    others: Seq<PerpPosition>,
)
    requires
        spec_apply_event(m, positions, e) is Ok,
        again.spec_seq_num() == e.spec_seq_num(),
    ensures
        spec_apply_event(spec_apply_event(m, positions, e).unwrap().0, others, again) == Err::<
            (PerpMarket, Seq<PerpPosition>),
            MangoError,
        >(MangoError::Fatal),
{
}

/// What applying the first `k` events in their order does. The first event
/// that is refused fails the whole.
pub open spec fn spec_apply_events(
    m: PerpMarket,
    positions: Seq<PerpPosition>,
    events: Seq<Event>,
    k: nat,
) -> Result<(PerpMarket, Seq<PerpPosition>), MangoError>
    decreases k,
{
    if k == 0 {
        Ok((m, positions))
    } else {
        match spec_apply_events(m, positions, events, (k - 1) as nat) {
            Ok((market, held)) => spec_apply_event(market, held, events[k - 1]),
            Err(e) => Err(e),
        }
    }
}

/// How many events a call with the given limit consumes.
pub open spec fn batch_len(events: Seq<Event>, limit: usize) -> nat {
    if limit <= events.len() {
        limit as nat
    } else {
        events.len()
    }
}

fn copy_positions(positions: &Vec<PerpPosition>) -> (r: Vec<PerpPosition>)
    ensures
        r@ == positions@,
{
    let n: usize = positions.len();
    let mut r: Vec<PerpPosition> = Vec::new();
    let mut i: usize = 0;
    while i < n
        invariant
            i <= n,
            n == positions@.len(),
            r@ == positions@.subrange(0, i as int),
        decreases n - i,
    {
        r.push(positions[i]);
        assert(r@ =~= positions@.subrange(0, i + 1));
        i = i + 1;
    }
    assert(positions@.subrange(0, n as int) =~= positions@);
    r
}

/// Applies the first events of the queue, at most `limit` of them, in their
/// order, and returns how many were applied. Either all of them are applied
/// or, if one is refused, none.
pub fn consume_events(
    m: &mut PerpMarket,
    positions: &mut Vec<PerpPosition>,
    events: &[Event],
    limit: usize,
) -> (r: Result<usize, MangoError>)
    ensures
        match spec_apply_events(*old(m), old(positions)@, events@, batch_len(events@, limit)) {
            Ok((after, ps)) => {
                &&& r == Ok::<usize, MangoError>(batch_len(events@, limit) as usize)
                &&& *final(m) == after
                &&& final(positions)@ == ps
            },
            Err(e) => {
                &&& r == Err::<usize, MangoError>(e)
                &&& *final(m) == *old(m)
                &&& final(positions)@ == old(positions)@
            },
        },
{
    let n: usize = if limit <= events.len() {
        limit
    } else {
        events.len()
    };
    let mut market: PerpMarket = *m;
    let mut work: Vec<PerpPosition> = copy_positions(positions);
    let mut i: usize = 0;
    while i < n
        invariant
            i <= n,
            n == batch_len(events@, limit),
            n <= events@.len(),
            *m == *old(m),
            positions@ == old(positions)@,
            spec_apply_events(*old(m), old(positions)@, events@, i as nat) == Ok::<
                (PerpMarket, Seq<PerpPosition>),
                MangoError,
            >((market, work@)),
        decreases n - i,
    {
        match apply_event(&mut market, &mut work, &events[i]) {
            Ok(()) => {},
            Err(e) => {
                proof {
                    lemma_apply_events_fails_on(*old(m), old(positions)@, events@, i as nat, n as nat);
                }
                return Err(e);
            },
        }
        i = i + 1;
    }
    *m = market;
    *positions = work;
    Ok(n)
}

/// Once a prefix of the events fails, every longer prefix fails the same
/// way.
proof fn lemma_apply_events_fails_on(
    m: PerpMarket,
    positions: Seq<PerpPosition>,
    events: Seq<Event>,
    i: nat,
    k: nat,
)
    requires
        i < k,
        spec_apply_events(m, positions, events, i + 1) is Err,
    ensures
        spec_apply_events(m, positions, events, k) == spec_apply_events(
            m,
            positions,
            events,
            i + 1,
        ),
    decreases k,
{
    if k > i + 1 {
        lemma_apply_events_fails_on(m, positions, events, i, (k - 1) as nat);
    }
}

/// A batch of events is never consumed twice: after a batch with at least
/// one event has been consumed, consuming the same events again is refused
/// as `Fatal`, whatever state the positions are in.
pub proof fn lemma_batch_consumed_once(
    m: PerpMarket,
    positions: Seq<PerpPosition>,
    events: Seq<Event>,
    k: nat,
    others: Seq<PerpPosition>,
)
    requires
        0 < k <= events.len(),
        spec_apply_events(m, positions, events, k) is Ok,
    ensures
        spec_apply_events(spec_apply_events(m, positions, events, k).unwrap().0, others, events, k)
            == Err::<(PerpMarket, Seq<PerpPosition>), MangoError>(MangoError::Fatal),
{
    let after = spec_apply_events(m, positions, events, k).unwrap().0;
    lemma_apply_events_ok_prefix(m, positions, events, 1, k);
    lemma_apply_events_advances(m, positions, events, 1);
    lemma_apply_events_advances(m, positions, events, k);
    assert(spec_apply_events(m, positions, events, 0) == Ok::<
        (PerpMarket, Seq<PerpPosition>),
        MangoError,
    >((m, positions)));
    assert(events[0].spec_seq_num() == m.seq_num);
    assert(spec_apply_events(after, others, events, 0) == Ok::<
        (PerpMarket, Seq<PerpPosition>),
        MangoError,
    >((after, others)));
    assert(spec_apply_events(after, others, events, 1) is Err);
    if k > 1 {
        lemma_apply_events_fails_on(after, others, events, 0, k);
    }
}

/// A prefix of a batch that succeeds succeeds too.
proof fn lemma_apply_events_ok_prefix(
    m: PerpMarket,
    positions: Seq<PerpPosition>,
    events: Seq<Event>,
    i: nat,
    k: nat,
)
    requires
        i <= k,
        spec_apply_events(m, positions, events, k) is Ok,
    ensures
        spec_apply_events(m, positions, events, i) is Ok,
    decreases k,
{
    if i < k {
        lemma_apply_events_ok_prefix(m, positions, events, i, (k - 1) as nat);
    }
}

/// Each event that is applied moves the sequence number of the market on by
/// one.
proof fn lemma_apply_events_advances(
    m: PerpMarket,
    positions: Seq<PerpPosition>,
    events: Seq<Event>,
    k: nat,
)
    requires
        spec_apply_events(m, positions, events, k) is Ok,
    ensures
        spec_apply_events(m, positions, events, k).unwrap().0.seq_num == m.seq_num + k,
        k > 0 ==> events[k - 1].spec_seq_num() == m.seq_num + k - 1,
    decreases k,
{
    if k > 0 {
        lemma_apply_events_advances(m, positions, events, (k - 1) as nat);
    }
}

/// A position has settled with the market: it has paid and received all
/// funding that has accrued.
pub open spec fn settled(p: PerpPosition, m: PerpMarket) -> bool {
    p.long_settled_funding == m.long_funding && p.short_settled_funding == m.short_funding
}

/// A fill neither makes nor destroys anything. Between two positions that
/// have settled with the market, the lots that one gains the other loses,
/// and the quote currency that the two lose is what the market takes in
/// fees.
pub proof fn lemma_fill_conserves(m: PerpMarket, positions: Seq<PerpPosition>, f: FillEvent)
    requires
        f.maker != f.taker,
        f.maker < positions.len(),
        f.taker < positions.len(),
        settled(positions[f.maker as int], m),
        settled(positions[f.taker as int], m),
        spec_apply_event(m, positions, Event::Fill(f)) is Ok,
    ensures
        ({
            let (after, ps) = spec_apply_event(m, positions, Event::Fill(f)).unwrap();
            let maker = positions[f.maker as int];
            let taker = positions[f.taker as int];
            &&& ps.len() == positions.len()
            &&& forall|i: int|
                0 <= i < ps.len() && i != f.maker && i != f.taker ==> ps[i] == positions[i]
            &&& ps[f.maker as int].base_position + ps[f.taker as int].base_position
                == maker.base_position + taker.base_position
            &&& ps[f.maker as int].quote_position.bits + ps[f.taker as int].quote_position.bits
                + after.fees_accrued.bits == maker.quote_position.bits + taker.quote_position.bits
                + m.fees_accrued.bits
        }),
{
    lemma_settled_owes_nothing(positions[f.maker as int], m);
    lemma_settled_owes_nothing(positions[f.taker as int], m);
}

/// A position that has settled with the market owes no funding: settling
/// again leaves it as it is.
pub proof fn lemma_settled_owes_nothing(p: PerpPosition, m: PerpMarket)
    requires
        settled(p, m),
    ensures
        spec_settle_funding(p, m.long_funding, m.short_funding) == Some(p),
{
    let lots = I80F48::spec_from_i64(p.base_position);
    assert(0 * lots.bits == 0);
    assert((0 * lots.bits) / unit() == 0);
}

} // verus!
