use mango::account::{Ledger, PerpPosition};
use mango::error::MangoError;
use mango::fixed_point::I80F48;
use mango::matching::Side;
use mango::perp::{
    apply_event, consume_events, settle_funding, update_funding, Event, FillEvent, OutEvent,
    PerpMarket, DAY,
};
use mango::solana::Pubkey;

const ONE: i128 = 1 << 48;

fn fx(x: f64) -> I80F48 {
    I80F48 { bits: fixed::types::I80F48::from_num(x).to_bits() }
}

fn whole(n: i64) -> I80F48 {
    I80F48 { bits: (n as i128) * ONE }
}

fn market() -> PerpMarket {
    PerpMarket {
        base_lot_size: 1,
        quote_lot_size: 1,
        maker_fee: whole(0),
        taker_fee: whole(0),
        max_depth_bps: whole(2500),
        rate: whole(0),
        open_interest: 0,
        long_funding: whole(0),
        short_funding: whole(0),
        last_updated: 1000,
        seq_num: 0,
        fees_accrued: whole(0),
    }
}

fn flat() -> PerpPosition {
    Ledger::new(Pubkey([0; 32]), 1).slots[0].perp
}

fn fill(seq_num: u64, taker_side: Side, maker: usize, taker: usize, price: i64, quantity: i64) -> Event {
    Event::Fill(FillEvent { seq_num, taker_side, maker, taker, price, quantity, resting_seconds: 0 })
}

#[test]
fn settle_funding_charges_long_positions_and_pays_short_ones() {
    let long = PerpPosition { base_position: 5, quote_position: whole(100), ..flat() };
    let s = settle_funding(&long, whole(3), whole(7)).unwrap();
    assert_eq!(s.quote_position, whole(85));
    assert_eq!((s.long_settled_funding, s.short_settled_funding), (whole(3), whole(7)));
    assert_eq!(s.base_position, 5);
    let short = PerpPosition { base_position: -5, quote_position: whole(100), ..flat() };
    let s = settle_funding(&short, whole(3), whole(7)).unwrap();
    assert_eq!(s.quote_position, whole(135));
    let none = PerpPosition { quote_position: whole(100), ..flat() };
    let s = settle_funding(&none, whole(3), whole(7)).unwrap();
    assert_eq!(s.quote_position, whole(100));
    assert_eq!(s.long_settled_funding, whole(3));
}

#[test]
fn settle_funding_twice_charges_once() {
    let long = PerpPosition { base_position: 5, quote_position: whole(100), ..flat() };
    let once = settle_funding(&long, whole(3), whole(7)).unwrap();
    assert_eq!(settle_funding(&once, whole(3), whole(7)), Some(once));
}

#[test]
fn settle_funding_out_of_range_fails() {
    let long = PerpPosition {
        base_position: i64::MAX,
        quote_position: whole(0),
        ..flat()
    };
    assert_eq!(settle_funding(&long, I80F48 { bits: i128::MAX }, whole(0)), None);
}

#[test]
fn update_funding_follows_the_skew_of_the_book() {
    // The midpoint of 10 and 12 is a tenth above the oracle price of 10.
    let mut m = PerpMarket { base_lot_size: 4, ..market() };
    assert_eq!(update_funding(&mut m, Some(whole(10)), Some(whole(12)), whole(10), 1000 + DAY), Ok(()));
    // A tenth is not a fixed-point number: the skew is cut off, and 40 times
    // the skew accrues per lot over a day.
    let skew = (11 * ONE / 10) - ONE;
    assert_eq!(m.long_funding.bits, skew * 40);
    assert_eq!(m.short_funding.bits, skew * 40);
    assert_eq!(m.last_updated, 1000 + DAY);
}

#[test]
fn update_funding_of_an_exact_skew() {
    // The midpoint of 11 and 14 is a quarter above the oracle price of 10.
    let mut m = PerpMarket { base_lot_size: 4, max_depth_bps: whole(10_000), ..market() };
    assert_eq!(update_funding(&mut m, Some(whole(11)), Some(whole(14)), whole(10), 1000 + DAY / 4), Ok(()));
    // 0.25 * 10 * 4 for a quarter of a day.
    assert_eq!(m.long_funding, fx(2.5));
    assert_eq!(m.short_funding, fx(2.5));
}

#[test]
fn update_funding_is_bounded() {
    // The midpoint is half above the oracle price; the market follows a quarter.
    let mut m = market();
    assert_eq!(update_funding(&mut m, Some(whole(14)), Some(whole(16)), whole(10), 1000 + DAY / 2), Ok(()));
    assert_eq!(m.long_funding, fx(1.25));
    assert_eq!(m.short_funding, fx(1.25));
    let mut m = market();
    assert_eq!(update_funding(&mut m, Some(whole(2)), Some(whole(4)), whole(10), 1000 + DAY), Ok(()));
    assert_eq!(m.long_funding, fx(-2.5));
}

#[test]
fn update_funding_of_a_one_sided_book_is_at_the_bound() {
    let mut m = market();
    assert_eq!(update_funding(&mut m, Some(whole(1)), None, whole(10), 1000 + DAY), Ok(()));
    assert_eq!(m.long_funding, fx(2.5));
    let mut m = market();
    assert_eq!(update_funding(&mut m, None, Some(whole(100)), whole(10), 1000 + DAY), Ok(()));
    assert_eq!(m.long_funding, fx(-2.5));
    let mut m = market();
    assert_eq!(update_funding(&mut m, None, None, whole(10), 1000 + DAY), Ok(()));
    assert_eq!(m.long_funding, whole(0));
    assert_eq!(m.last_updated, 1000 + DAY);
}

#[test]
fn update_funding_at_the_same_time_changes_nothing() {
    let mut m = PerpMarket { long_funding: whole(3), short_funding: whole(4), ..market() };
    let before = m;
    assert_eq!(update_funding(&mut m, Some(whole(14)), Some(whole(16)), whole(10), 1000), Ok(()));
    assert_eq!(m, before);
}

#[test]
fn update_funding_refuses_a_clock_that_went_back() {
    let mut m = market();
    let before = m;
    assert_eq!(
        update_funding(&mut m, Some(whole(14)), Some(whole(16)), whole(10), 999),
        Err(MangoError::Fatal)
    );
    assert_eq!(m, before);
    let mut m = PerpMarket { max_depth_bps: whole(-2500), ..market() };
    assert_eq!(
        update_funding(&mut m, Some(whole(14)), Some(whole(16)), whole(10), 1001),
        Err(MangoError::InvalidState)
    );
    let mut m = market();
    assert_eq!(
        update_funding(&mut m, Some(whole(14)), Some(whole(16)), whole(0), 1001),
        Err(MangoError::Fatal)
    );
}

#[test]
fn a_fill_moves_lots_and_quote_between_taker_and_maker() {
    let mut m = PerpMarket { quote_lot_size: 10, ..market() };
    let mut positions = vec![flat(), flat()];
    assert_eq!(apply_event(&mut m, &mut positions, &fill(0, Side::Bid, 1, 0, 7, 3)), Ok(()));
    assert_eq!(positions[0].base_position, 3);
    assert_eq!(positions[0].quote_position, whole(-210));
    assert_eq!(positions[1].base_position, -3);
    assert_eq!(positions[1].quote_position, whole(210));
    assert_eq!(m.seq_num, 1);
    assert_eq!(m.open_interest, 3);
    assert_eq!(apply_event(&mut m, &mut positions, &fill(1, Side::Ask, 1, 0, 8, 5)), Ok(()));
    assert_eq!(positions[0].base_position, -2);
    assert_eq!(positions[0].quote_position, whole(190));
    assert_eq!(positions[1].base_position, 2);
    assert_eq!(positions[1].quote_position, whole(-190));
    assert_eq!(m.seq_num, 2);
    assert_eq!(m.open_interest, 2);
}

#[test]
fn a_fill_charges_fees_and_rewards_the_maker() {
    let mut m = PerpMarket {
        maker_fee: fx(-0.125),
        taker_fee: fx(0.5),
        rate: fx(0.5),
        ..market()
    };
    let mut positions = vec![flat(), flat()];
    let e = Event::Fill(FillEvent {
        seq_num: 0,
        taker_side: Side::Ask,
        maker: 0,
        taker: 1,
        price: 10,
        quantity: 8,
        resting_seconds: 5,
    });
    assert_eq!(apply_event(&mut m, &mut positions, &e), Ok(()));
    // The maker buys 8 lots for 80 and receives a rebate of 10.
    assert_eq!(positions[0].base_position, 8);
    assert_eq!(positions[0].quote_position, whole(-70));
    // 8 lots for 5 seconds at half a token per lot and second.
    assert_eq!(positions[0].mngo_accrued, 20);
    // The taker sells for 80 and pays a fee of 40.
    assert_eq!(positions[1].base_position, -8);
    assert_eq!(positions[1].quote_position, whole(40));
    assert_eq!(positions[1].mngo_accrued, 0);
    assert_eq!(m.fees_accrued, whole(30));
}

#[test]
fn a_fill_settles_funding_first() {
    let mut m = PerpMarket { long_funding: whole(2), short_funding: whole(3), ..market() };
    let mut positions = vec![
        PerpPosition { base_position: 10, ..flat() },
        PerpPosition { base_position: -10, ..flat() },
    ];
    assert_eq!(apply_event(&mut m, &mut positions, &fill(0, Side::Bid, 1, 0, 1, 1)), Ok(()));
    assert_eq!(positions[0].quote_position, whole(-21));
    assert_eq!(positions[1].quote_position, whole(31));
    assert_eq!(positions[0].long_settled_funding, whole(2));
    assert_eq!(positions[1].short_settled_funding, whole(3));
}

#[test]
fn a_fill_against_oneself_changes_only_fees() {
    let mut m = PerpMarket { taker_fee: fx(0.5), ..market() };
    let mut positions = vec![PerpPosition { base_position: 4, ..flat() }];
    assert_eq!(apply_event(&mut m, &mut positions, &fill(0, Side::Bid, 0, 0, 2, 3)), Ok(()));
    assert_eq!(positions[0].base_position, 4);
    assert_eq!(positions[0].quote_position, whole(-3));
    assert_eq!(m.open_interest, 0);
    assert_eq!(m.fees_accrued, whole(3));
}

#[test]
fn an_event_is_applied_once() {
    let mut m = market();
    let mut positions = vec![flat(), flat()];
    let e = fill(0, Side::Bid, 1, 0, 7, 3);
    assert_eq!(apply_event(&mut m, &mut positions, &e), Ok(()));
    let before = (m, positions.clone());
    assert_eq!(apply_event(&mut m, &mut positions, &e), Err(MangoError::Fatal));
    assert_eq!((m, positions.clone()), before);
    let out = Event::Out(OutEvent { seq_num: 0, owner: 0, side: Side::Bid, quantity: 1 });
    assert_eq!(apply_event(&mut m, &mut positions, &out), Err(MangoError::Fatal));
    assert_eq!((m, positions), before);
}

#[test]
fn an_event_out_of_turn_is_refused() {
    let mut m = market();
    let mut positions = vec![flat(), flat()];
    let before = (m, positions.clone());
    assert_eq!(
        apply_event(&mut m, &mut positions, &fill(1, Side::Bid, 1, 0, 7, 3)),
        Err(MangoError::InvalidState)
    );
    assert_eq!((m, positions), before);
}

#[test]
fn an_out_event_moves_the_queue_on() {
    let mut m = market();
    let mut positions = vec![flat()];
    let out = Event::Out(OutEvent { seq_num: 0, owner: 0, side: Side::Ask, quantity: 9 });
    assert_eq!(out.seq_num(), 0);
    assert_eq!(apply_event(&mut m, &mut positions, &out), Ok(()));
    assert_eq!(m, PerpMarket { seq_num: 1, ..market() });
    assert_eq!(positions, vec![flat()]);
    let stranger = Event::Out(OutEvent { seq_num: 1, owner: 1, side: Side::Ask, quantity: 9 });
    assert_eq!(apply_event(&mut m, &mut positions, &stranger), Err(MangoError::InvalidState));
}

#[test]
fn a_fill_with_bad_fields_is_refused() {
    let mut m = market();
    let mut positions = vec![flat(), flat()];
    let before = (m, positions.clone());
    for e in [
        fill(0, Side::Bid, 2, 0, 7, 3),
        fill(0, Side::Bid, 0, 2, 7, 3),
        fill(0, Side::Bid, 1, 0, 0, 3),
        fill(0, Side::Bid, 1, 0, 7, 0),
        fill(0, Side::Bid, 1, 0, -7, 3),
        fill(0, Side::Bid, 1, 0, 7, -3),
    ] {
        assert_eq!(apply_event(&mut m, &mut positions, &e), Err(MangoError::InvalidState));
        assert_eq!((m, positions.clone()), before);
    }
    assert_eq!(
        apply_event(&mut m, &mut positions, &fill(0, Side::Bid, 1, 0, i64::MAX, i64::MAX)),
        Err(MangoError::Fatal)
    );
    let mut last = PerpMarket { seq_num: u64::MAX, ..market() };
    assert_eq!(
        apply_event(&mut last, &mut positions, &fill(u64::MAX, Side::Bid, 1, 0, 1, 1)),
        Err(MangoError::Fatal)
    );
    assert_eq!((m, positions), before);
}

#[test]
fn consume_events_takes_at_most_the_limit() {
    let mut m = market();
    let mut positions = vec![flat(), flat()];
    let events = [
        fill(0, Side::Bid, 1, 0, 10, 1),
        fill(1, Side::Bid, 1, 0, 10, 2),
        fill(2, Side::Bid, 1, 0, 10, 4),
    ];
    assert_eq!(consume_events(&mut m, &mut positions, &events, 2), Ok(2));
    assert_eq!(positions[0].base_position, 3);
    assert_eq!(m.seq_num, 2);
    assert_eq!(consume_events(&mut m, &mut positions, &events[2..], 8), Ok(1));
    assert_eq!(positions[0].base_position, 7);
    assert_eq!(positions[1].quote_position, whole(70));
    assert_eq!(m.seq_num, 3);
    assert_eq!(consume_events(&mut m, &mut positions, &events[3..], 8), Ok(0));
    assert_eq!(consume_events(&mut m, &mut positions, &events, 0), Ok(0));
    assert_eq!(m.seq_num, 3);
}

#[test]
fn consume_events_applies_all_or_none() {
    let mut m = market();
    let mut positions = vec![flat(), flat()];
    let events = [
        fill(0, Side::Bid, 1, 0, 10, 1),
        fill(1, Side::Bid, 1, 0, 10, 2),
        fill(1, Side::Bid, 1, 0, 10, 2),
    ];
    let before = (m, positions.clone());
    assert_eq!(consume_events(&mut m, &mut positions, &events, 3), Err(MangoError::Fatal));
    assert_eq!((m, positions.clone()), before);
    let gap = [fill(0, Side::Bid, 1, 0, 10, 1), fill(2, Side::Bid, 1, 0, 10, 2)];
    assert_eq!(consume_events(&mut m, &mut positions, &gap, 3), Err(MangoError::InvalidState));
    assert_eq!((m, positions), before);
}

#[test]
fn consume_events_refuses_a_batch_that_was_consumed() {
    let mut m = market();
    let mut positions = vec![flat(), flat()];
    let events = [fill(0, Side::Bid, 1, 0, 10, 1), fill(1, Side::Ask, 1, 0, 10, 2)];
    assert_eq!(consume_events(&mut m, &mut positions, &events, 2), Ok(2));
    let before = (m, positions.clone());
    assert_eq!(consume_events(&mut m, &mut positions, &events, 2), Err(MangoError::Fatal));
    assert_eq!(consume_events(&mut m, &mut positions, &events, 1), Err(MangoError::Fatal));
    assert_eq!(consume_events(&mut m, &mut positions, &events[1..], 1), Err(MangoError::Fatal));
    assert_eq!((m, positions), before);
}

#[test]
fn a_fill_makes_and_destroys_nothing() {
    let mut m = PerpMarket { maker_fee: fx(-0.125), taker_fee: fx(0.375), ..market() };
    let mut positions = vec![
        PerpPosition { base_position: 7, quote_position: fx(-12.5), ..flat() },
        PerpPosition { base_position: -3, quote_position: whole(40), ..flat() },
        PerpPosition { base_position: 1, quote_position: whole(1), ..flat() },
    ];
    let before = (m, positions.clone());
    assert_eq!(apply_event(&mut m, &mut positions, &fill(0, Side::Ask, 0, 1, 9, 4)), Ok(()));
    assert_eq!(positions[2], before.1[2]);
    assert_eq!(
        positions[0].base_position + positions[1].base_position,
        before.1[0].base_position + before.1[1].base_position
    );
    assert_eq!(
        positions[0].quote_position.bits + positions[1].quote_position.bits + m.fees_accrued.bits,
        before.1[0].quote_position.bits + before.1[1].quote_position.bits + before.0.fees_accrued.bits
    );
    assert_eq!(m.fees_accrued, whole(9));
}
