use mango::account::{Ledger, OpenOrders};
use mango::bank::{NodeBank, RootBank};
use mango::error::MangoError;
use mango::fixed_point::I80F48;
use mango::group::{Cache, Group, HealthType, RiskParams, Slot};
use mango::health::health;
use mango::bankruptcy::{cover, resolve_perp_bankruptcy, resolve_token_bankruptcy};
use mango::liquidation::{
    deficit_cap, factor_below, force_cancel_spot_orders, has_no_assets, liquidate_perp_market,
    liquidate_token_and_perp, liquidate_token_and_token, liquidation_state, net_cap,
    plan_token_liquidation, transfer_amount, LiquidationState,
};
use mango::matching::Side;
use mango::perp::{apply_event, Event, FillEvent, PerpMarket};
use mango::settle::deposit;
use mango::solana::Pubkey;
use mango::state::AssetType;

const ONE: i128 = 1 << 48;

fn fx(x: f64) -> I80F48 {
    I80F48 { bits: fixed::types::I80F48::from_num(x).to_bits() }
}

fn whole(n: i64) -> I80F48 {
    I80F48 { bits: (n as i128) * ONE }
}

fn key(b: u8) -> Pubkey {
    Pubkey([b; 32])
}

fn risk(maint: f64, init: f64, fee: f64) -> RiskParams {
    RiskParams { maint_leverage: fx(maint), init_leverage: fx(init), liquidation_fee: fx(fee) }
}

fn group(spot: RiskParams, perp: RiskParams) -> Group {
    Group {
        admin: key(1),
        valid_interval: 10,
        slots: vec![
            Slot { spot, perp, base_lot_size: 1 },
            Slot { spot, perp, base_lot_size: 1 },
        ],
    }
}

fn cache_at(prices: &[f64], now: u64) -> Cache {
    let mut cache = Cache::new(prices.len());
    for (i, p) in prices.iter().enumerate() {
        cache.cache_price(i, fx(*p), now).unwrap();
        cache.cache_root_bank(i, whole(1), whole(1), now).unwrap();
        cache.cache_perp_market(i, whole(0), whole(0), now).unwrap();
    }
    cache
}

fn root() -> RootBank {
    RootBank {
        optimal_util: fx(0.5),
        optimal_rate: fx(0.25),
        max_rate: fx(1.0),
        fee_share: whole(0),
        deposit_index: whole(1),
        borrow_index: whole(1),
        last_updated: 0,
    }
}

fn pool(deposits: i64, borrows: i64) -> NodeBank {
    NodeBank { deposits: whole(deposits), borrows: whole(borrows), vault: 0 }
}

fn ledger_with(owner: u8, balances: &[i64]) -> Ledger {
    let mut l = Ledger::new(key(owner), balances.len());
    for (i, b) in balances.iter().enumerate() {
        if *b != 0 {
            l.slots[i].balance = whole(*b);
            l.slots[i].in_basket = true;
        }
    }
    l
}

#[test]
fn transfer_amount_is_the_least_of_its_bounds() {
    assert_eq!(transfer_amount(whole(4), whole(10), whole(9), Some(whole(8))), whole(4));
    assert_eq!(transfer_amount(whole(40), whole(10), whole(9), Some(whole(8))), whole(8));
    assert_eq!(transfer_amount(whole(40), whole(10), whole(9), None), whole(9));
    assert_eq!(transfer_amount(whole(40), whole(7), whole(9), None), whole(7));
    assert_eq!(transfer_amount(whole(40), whole(7), whole(9), Some(whole(0))), whole(0));
}

#[test]
fn transfer_amount_is_never_negative() {
    assert_eq!(transfer_amount(whole(4), whole(-1), whole(9), None), whole(0));
    assert_eq!(transfer_amount(whole(4), whole(1), whole(9), Some(whole(-3))), whole(0));
    assert_eq!(transfer_amount(whole(-4), whole(1), whole(9), None), whole(0));
}

#[test]
fn transfer_amount_stays_within_its_bounds() {
    let mut seed: u64 = 88172645463325252;
    let mut next = move || {
        seed ^= seed << 13;
        seed ^= seed >> 7;
        seed ^= seed << 17;
        I80F48 { bits: (seed >> 4) as i128 }
    };
    for i in 0..1000 {
        let (max, owed, asset) = (next(), next(), next());
        let deficit = if i % 3 == 0 { None } else { Some(next()) };
        let t = transfer_amount(max, owed, asset, deficit);
        assert!(t.bits >= 0);
        assert!(t.bits <= max.bits && t.bits <= owed.bits && t.bits <= asset.bits);
        if let Some(d) = deficit {
            assert!(t.bits <= d.bits);
        }
    }
}

/// An account with 100 of token 0 at a price of 1 and 10 of token 1, at a
/// price of 10, borrowed. With a factor of 2 its maintenance health is -100.
fn token_case(deposit: i64) -> (Group, Cache, Ledger, Ledger, NodeBank, NodeBank) {
    let g = group(risk(2.0, 3.0, 0.0), risk(2.0, 3.0, 0.0));
    let c = cache_at(&[1.0, 10.0], 100);
    let liqee = ledger_with(2, &[deposit, -10]);
    let liqor = ledger_with(3, &[0, 50]);
    (g, c, liqee, liqor, pool(deposit, 0), pool(50, 10))
}

#[test]
fn token_liquidation_moves_what_the_caller_allows() {
    let (g, c, mut liqee, mut liqor, mut asset_bank, mut liab_bank) = token_case(100);
    assert_eq!(health(&g, &c, &liqee, HealthType::Maint, 100), Ok(whole(-100)));
    let r = liquidate_token_and_token(
        &g, &c, &mut liqee, &mut liqor, &root(), &mut asset_bank, &root(), &mut liab_bank, 0, 1, whole(4), 100,
    );
    assert_eq!(r, Ok(whole(4)));
    assert_eq!(liqee.slots[1].balance, whole(-6));
    assert_eq!(liqee.slots[0].balance, whole(60));
    assert_eq!(liqor.slots[1].balance, whole(46));
    assert_eq!(liqor.slots[0].balance, whole(40));
    assert!(liqor.slots[0].in_basket);
    assert_eq!((liab_bank.deposits, liab_bank.borrows), (whole(46), whole(6)));
    assert_eq!((asset_bank.deposits, asset_bank.borrows), (whole(100), whole(0)));
    assert_eq!(health(&g, &c, &liqee, HealthType::Maint, 100), Ok(whole(-60)));
}

#[test]
fn token_liquidation_stops_when_one_side_is_exhausted() {
    let (g, c, mut liqee, mut liqor, mut asset_bank, mut liab_bank) = token_case(100);
    let r = liquidate_token_and_token(
        &g, &c, &mut liqee, &mut liqor, &root(), &mut asset_bank, &root(), &mut liab_bank, 0, 1, whole(1000), 100,
    );
    assert_eq!(r, Ok(whole(10)));
    assert_eq!(liqee.slots[1].balance, whole(0));
    assert_eq!(liqee.slots[0].balance, whole(0));
    assert_eq!(health(&g, &c, &liqee, HealthType::Maint, 100), Ok(whole(0)));
}

#[test]
fn token_liquidation_stops_at_zero_health() {
    let (g, c, mut liqee, mut liqor, mut asset_bank, mut liab_bank) = token_case(150);
    assert_eq!(health(&g, &c, &liqee, HealthType::Maint, 100), Ok(whole(-50)));
    let r = liquidate_token_and_token(
        &g, &c, &mut liqee, &mut liqor, &root(), &mut asset_bank, &root(), &mut liab_bank, 0, 1, whole(1000), 100,
    );
    assert_eq!(r, Ok(whole(5)));
    assert_eq!(liqee.slots[1].balance, whole(-5));
    assert_eq!(liqee.slots[0].balance, whole(100));
    assert_eq!(health(&g, &c, &liqee, HealthType::Maint, 100), Ok(whole(0)));
    // The account is healthy again and cannot be liquidated further.
    let before = (liqee.clone(), liqor.clone(), asset_bank, liab_bank);
    let r = liquidate_token_and_token(
        &g, &c, &mut liqee, &mut liqor, &root(), &mut asset_bank, &root(), &mut liab_bank, 0, 1, whole(1000), 100,
    );
    assert_eq!(r, Err(MangoError::NotLiquidatable));
    assert_eq!((liqee, liqor, asset_bank, liab_bank), before);
}

#[test]
fn token_liquidation_pays_the_fee_to_the_liquidator() {
    let g = group(risk(2.0, 3.0, 0.25), risk(2.0, 3.0, 0.0));
    let c = cache_at(&[1.0, 10.0], 100);
    let mut liqee = ledger_with(2, &[100, -10]);
    let mut liqor = ledger_with(3, &[0, 50]);
    let (mut asset_bank, mut liab_bank) = (pool(100, 0), pool(50, 10));
    let r = liquidate_token_and_token(
        &g, &c, &mut liqee, &mut liqor, &root(), &mut asset_bank, &root(), &mut liab_bank, 0, 1, whole(4), 100,
    );
    assert_eq!(r, Ok(whole(4)));
    // 4 tokens at 10 with a quarter on top are 50 of the asset.
    assert_eq!(liqee.slots[0].balance, whole(50));
    assert_eq!(liqor.slots[0].balance, whole(50));
    assert_eq!(liqee.slots[1].balance, whole(-6));
}

#[test]
fn token_liquidation_of_a_healthy_account_is_refused() {
    let (g, c, _, mut liqor, mut asset_bank, mut liab_bank) = token_case(100);
    let mut liqee = ledger_with(2, &[200, -10]);
    assert_eq!(health(&g, &c, &liqee, HealthType::Maint, 100), Ok(whole(0)));
    let before = (liqee.clone(), liqor.clone(), asset_bank, liab_bank);
    let r = liquidate_token_and_token(
        &g, &c, &mut liqee, &mut liqor, &root(), &mut asset_bank, &root(), &mut liab_bank, 0, 1, whole(4), 100,
    );
    assert_eq!(r, Err(MangoError::NotLiquidatable));
    assert_eq!((liqee, liqor, asset_bank, liab_bank), before);
}

#[test]
fn token_liquidation_refuses_bad_arguments() {
    let (g, c, mut liqee, mut liqor, mut asset_bank, mut liab_bank) = token_case(100);
    let before = (liqee.clone(), liqor.clone(), asset_bank, liab_bank);
    for (asset, liab, max, now) in [
        (0usize, 0usize, whole(4), 100u64),
        (2, 1, whole(4), 100),
        (0, 2, whole(4), 100),
        (1, 0, whole(4), 100),
        (0, 1, whole(-1), 100),
        (0, 1, whole(4), 111),
    ] {
        let r = liquidate_token_and_token(
            &g, &c, &mut liqee, &mut liqor, &root(), &mut asset_bank, &root(), &mut liab_bank, asset, liab, max, now,
        );
        assert_eq!(r, Err(MangoError::InvalidState));
        assert_eq!((liqee.clone(), liqor.clone(), asset_bank, liab_bank), before);
    }
}

#[test]
fn token_liquidation_with_a_price_of_zero_is_fatal() {
    let (g, _, mut liqee, mut liqor, mut asset_bank, mut liab_bank) = token_case(100);
    let c = cache_at(&[0.0, 10.0], 100);
    let before = (liqee.clone(), liqor.clone(), asset_bank, liab_bank);
    let r = liquidate_token_and_token(
        &g, &c, &mut liqee, &mut liqor, &root(), &mut asset_bank, &root(), &mut liab_bank, 0, 1, whole(4), 100,
    );
    assert_eq!(r, Err(MangoError::Fatal));
    assert_eq!((liqee, liqor, asset_bank, liab_bank), before);
}

#[test]
fn plan_token_liquidation_says_what_would_move() {
    let p = plan_token_liquidation(
        None,
        &risk(2.0, 3.0, 0.25),
        whole(1),
        whole(10),
        &root(),
        &root(),
        &pool(100, 0),
        &pool(50, 10),
        whole(100),
        whole(-10),
        whole(0),
        whole(50),
        whole(1000),
    )
    .unwrap();
    // The asset covers 100 / 12.5 = 8 tokens, the least of the bounds.
    assert_eq!(p.liab_transfer, whole(8));
    assert_eq!(p.asset_transfer, whole(100));
    assert_eq!((p.liqee_liab, p.liqee_asset), (whole(-2), whole(0)));
    assert_eq!((p.liqor_liab, p.liqor_asset), (whole(42), whole(100)));
    // A bound of 2 tokens is the least.
    let p = plan_token_liquidation(
        Some(whole(2)),
        &risk(2.0, 3.0, 0.25),
        whole(1),
        whole(10),
        &root(),
        &root(),
        &pool(100, 0),
        &pool(50, 10),
        whole(100),
        whole(-10),
        whole(0),
        whole(50),
        whole(1000),
    )
    .unwrap();
    assert_eq!((p.liab_transfer, p.asset_transfer), (whole(2), whole(25)));
}

#[test]
fn factor_below_leaves_one_unit_in_the_last_place() {
    // One unit less than 10, halved and rounded down.
    assert_eq!(factor_below(Some(whole(10)), whole(2)), Some(I80F48 { bits: 5 * ONE - 1 }));
    assert_eq!(factor_below(Some(I80F48 { bits: 1 }), whole(2)), Some(whole(0)));
    assert_eq!(factor_below(Some(I80F48 { bits: 3 }), whole(1)), Some(I80F48 { bits: 2 }));
    assert_eq!(factor_below(Some(whole(0)), whole(2)), Some(whole(0)));
    assert_eq!(factor_below(Some(whole(-3)), whole(2)), Some(whole(0)));
    assert_eq!(factor_below(Some(whole(-3)), whole(0)), Some(whole(0)));
    assert_eq!(factor_below(Some(whole(3)), whole(0)), None);
    assert_eq!(factor_below(None, whole(2)), None);
}

#[test]
fn deficit_cap_counts_every_rounding_against_the_liquidation() {
    // A shortfall of 100 at a factor of 2, a price of 10 and indices of 1:
    // 5 tokens would close it, and the bound stays just below.
    let cap = deficit_cap(whole(-100), whole(2), whole(10), whole(1), whole(1)).unwrap();
    let value = ((100 * ONE - 1) * ONE) / (2 * ONE);
    let native = ((value - 1) * ONE) / (10 * ONE);
    let scaled = ((native - 1) * ONE) / ONE;
    assert_eq!(cap.bits, scaled);
    assert!(cap.bits < 5 * ONE && cap.bits > 5 * ONE - 8);
    // The bound is in native tokens at the index of the bank.
    let cap = deficit_cap(whole(-100), whole(2), whole(10), whole(2), whole(3)).unwrap();
    let scaled = ((native - 1) * ONE) / (2 * ONE);
    assert_eq!(cap.bits, scaled * 3);
    // Health that is not short of zero allows nothing.
    assert_eq!(deficit_cap(whole(0), whole(2), whole(10), whole(1), whole(1)), Some(whole(0)));
    assert_eq!(deficit_cap(whole(7), whole(2), whole(10), whole(1), whole(1)), Some(whole(0)));
    assert_eq!(
        deficit_cap(I80F48 { bits: -1 }, whole(2), whole(10), whole(1), whole(1)),
        Some(whole(0))
    );
    // A price of zero allows no division.
    assert_eq!(deficit_cap(whole(-100), whole(2), whole(0), whole(1), whole(1)), None);
}

#[test]
fn net_cap_is_the_shortfall_over_the_gain_of_a_unit() {
    // Each token repaid at 10 gains 10 * (2 - 1 - 0.25).
    assert_eq!(net_cap(whole(-75), whole(10), &risk(2.0, 3.0, 0.25)), Some(Some(whole(10))));
    // A fee that eats the whole factor leaves no bound.
    assert_eq!(net_cap(whole(-75), whole(10), &risk(1.25, 3.0, 0.25)), Some(None));
    assert_eq!(net_cap(whole(-75), whole(10), &risk(1.0, 3.0, 0.25)), Some(None));
    // So does a price at which the gain of a unit rounds to nothing.
    assert_eq!(net_cap(whole(-75), whole(0), &risk(2.0, 3.0, 0.25)), Some(None));
    assert_eq!(net_cap(whole(-75), I80F48 { bits: 1 }, &risk(1.5, 3.0, 0.0)), Some(None));
    assert_eq!(
        net_cap(I80F48 { bits: i128::MIN }, whole(10), &risk(2.0, 3.0, 0.25)),
        None
    );
}

/// An account whose numbers are so small that rounding decides: a deposit
/// of 4000 units in the last place at a price of 1, and 1000 tokens
/// borrowed at a price of 3 units in the last place, which count one and a
/// half times.
fn tiny_case() -> (Group, Cache, Ledger, Ledger, NodeBank, NodeBank) {
    let g = group(risk(1.5, 2.0, 0.0), risk(1.5, 2.0, 0.0));
    let mut c = cache_at(&[1.0, 1.0], 100);
    c.cache_price(1, I80F48 { bits: 3 }, 100).unwrap();
    let mut liqee = ledger_with(2, &[0, -1000]);
    liqee.slots[0].balance = I80F48 { bits: 4000 };
    liqee.slots[0].in_basket = true;
    let liqor = ledger_with(3, &[0, 5000]);
    (g, c, liqee, liqor, pool(1, 0), pool(5000, 1000))
}

#[test]
fn token_liquidation_never_leaves_the_account_above_zero_health() {
    let (g, c, mut liqee, mut liqor, mut asset_node, mut liab_node) = tiny_case();
    assert_eq!(health(&g, &c, &liqee, HealthType::Maint, 100), Ok(I80F48 { bits: -500 }));
    // Half a unit in the last place would be gained for each token repaid,
    // so that 500 tokens seem to close the gap; they would leave health at
    // 250. The bound that counts the roundings allows less.
    assert_eq!(
        net_cap(I80F48 { bits: -500 }, I80F48 { bits: 3 }, &risk(1.5, 2.0, 0.0)),
        Some(Some(whole(500)))
    );
    let cap = deficit_cap(I80F48 { bits: -500 }, fx(1.5), I80F48 { bits: 3 }, whole(1), whole(1))
        .unwrap();
    let value = (499 * ONE) / (3 * ONE / 2);
    assert_eq!(value, 332);
    assert_eq!(cap.bits, ((value - 1) * ONE) / 3 - 1);
    let r = liquidate_token_and_token(
        &g, &c, &mut liqee, &mut liqor, &root(), &mut asset_node, &root(), &mut liab_node, 0, 1,
        whole(2000), 100,
    );
    assert_eq!(r, Ok(cap));
    assert_eq!(liqee.slots[1].balance.bits, whole(-1000).bits + cap.bits);
    assert_eq!(liqor.slots[1].balance.bits, whole(5000).bits - cap.bits);
    let after = health(&g, &c, &liqee, HealthType::Maint, 100).unwrap();
    assert!(after.bits <= 0);
    assert!(after.bits > -500);
}

#[test]
fn token_liquidations_never_overshoot_on_small_numbers() {
    for deposit in [1i128, 7, 500, 3999, 4000, 4400, 4490, 4499] {
        for price in [1i128, 2, 3, 5, 7, 1000] {
            for leverage in [1.0, 1.125, 1.5, 2.0, 3.25] {
                let g = group(risk(leverage, 4.0, 0.0), risk(leverage, 4.0, 0.0));
                let mut c = cache_at(&[1.0, 1.0], 100);
                c.cache_price(1, I80F48 { bits: price }, 100).unwrap();
                let mut liqee = ledger_with(2, &[0, -1000]);
                liqee.slots[0].balance = I80F48 { bits: deposit };
                liqee.slots[0].in_basket = true;
                let mut liqor = ledger_with(3, &[0, 5000]);
                let (mut asset_node, mut liab_node) = (pool(1, 0), pool(5000, 1000));
                let before = health(&g, &c, &liqee, HealthType::Maint, 100).unwrap();
                let r = liquidate_token_and_token(
                    &g, &c, &mut liqee, &mut liqor, &root(), &mut asset_node, &root(),
                    &mut liab_node, 0, 1, whole(2000), 100,
                );
                if before.bits >= 0 {
                    assert_eq!(r, Err(MangoError::NotLiquidatable));
                } else {
                    assert!(r.is_ok());
                    let after = health(&g, &c, &liqee, HealthType::Maint, 100).unwrap();
                    assert!(after.bits <= 0, "{deposit} {price} {leverage}: {}", after.bits);
                }
            }
        }
    }
}

#[test]
fn a_healthy_account_is_not_liquidatable_whatever_else_is_asked() {
    let (g, c, _, mut liqor, mut asset_node, mut liab_node) = token_case(100);
    let mut liqee = ledger_with(2, &[200, -10]);
    let before = (liqee.clone(), liqor.clone(), asset_node, liab_node);
    for (asset, liab, max, now) in [
        (0usize, 0usize, whole(4), 100u64),
        (2, 1, whole(4), 100),
        (0, 2, whole(4), 100),
        (1, 0, whole(4), 100),
        (0, 1, whole(-1), 100),
    ] {
        assert_eq!(
            liquidate_token_and_token(
                &g, &c, &mut liqee, &mut liqor, &root(), &mut asset_node, &root(),
                &mut liab_node, asset, liab, max, now,
            ),
            Err(MangoError::NotLiquidatable)
        );
        assert_eq!(
            liquidate_token_and_perp(
                &g, &c, &mut liqee, &mut liqor, &root(), &mut liab_node, AssetType::Token, asset,
                AssetType::Token, liab, max, now,
            ),
            Err(MangoError::NotLiquidatable)
        );
        assert_eq!(
            liquidate_perp_market(&g, &c, &mut liqee, &mut liqor, asset, 1, now),
            Err(MangoError::NotLiquidatable)
        );
        assert_eq!(
            force_cancel_spot_orders(&g, &c, &mut liqee, asset, 1, 1, now),
            Err(MangoError::NotLiquidatable)
        );
        let mut bank = root();
        let mut nodes = vec![pool(1000, 0)];
        let mut insurance = 5;
        assert_eq!(
            resolve_token_bankruptcy(
                &g, &c, &mut liqee, &mut bank, &mut nodes, asset, &mut insurance, liab, max, now,
            ),
            Err(MangoError::NotLiquidatable)
        );
        assert_eq!(
            resolve_perp_bankruptcy(
                &g, &c, &mut liqee, &mut bank, &mut nodes, asset, &mut insurance, liab, max, now,
            ),
            Err(MangoError::NotLiquidatable)
        );
        assert_eq!((bank, nodes, insurance), (root(), vec![pool(1000, 0)], 5));
        assert_eq!((liqee.clone(), liqor.clone(), asset_node, liab_node), before);
    }
    // A cache that is stale lets nobody tell: the call fails on that.
    assert_eq!(
        liquidate_token_and_token(
            &g, &c, &mut liqee, &mut liqor, &root(), &mut asset_node, &root(), &mut liab_node, 0,
            0, whole(4), 111,
        ),
        Err(MangoError::InvalidState)
    );
}

#[test]
fn a_token_perp_liquidation_that_would_overshoot_moves_nothing() {
    // The cache values the deposit at an index of 1 and the bank books it
    // at an index of 2, so that tokens taken from the deposit lower health
    // by half of what the estimate counts on.
    let g = group(risk(1.5, 2.0, 0.0), risk(1.5, 2.0, 0.0));
    let c = cache_at(&[1.0, 1.0], 100);
    let mut liqee = ledger_with(2, &[1000, 0]);
    liqee.slots[1].perp.quote_position = whole(-800);
    liqee.slots[1].in_basket = true;
    let mut liqor = ledger_with(3, &[0, 0]);
    let mut node = pool(2000, 0);
    let bank = RootBank { deposit_index: whole(2), ..root() };
    assert_eq!(health(&g, &c, &liqee, HealthType::Maint, 100), Ok(whole(-200)));
    // The estimate allows 400, which would leave 800 against 600 owed.
    assert_eq!(net_cap(whole(-200), whole(1), &risk(1.5, 2.0, 0.0)), Some(Some(whole(400))));
    let before = (liqee.clone(), node);
    let r = liquidate_token_and_perp(
        &g, &c, &mut liqee, &mut liqor, &bank, &mut node, AssetType::Token, 0, AssetType::Perp, 1,
        whole(1000), 100,
    );
    assert_eq!(r, Ok(whole(0)));
    assert_eq!((liqee.clone(), node), before);
    assert_eq!(liqor.slots[1].perp.quote_position, whole(0));
    assert_eq!(liqor.slots[0].balance, whole(0));
    assert_eq!(health(&g, &c, &liqee, HealthType::Maint, 100), Ok(whole(-200)));
    // With less allowed the call moves what is allowed.
    let r = liquidate_token_and_perp(
        &g, &c, &mut liqee, &mut liqor, &bank, &mut node, AssetType::Token, 0, AssetType::Perp, 1,
        whole(100), 100,
    );
    assert_eq!(r, Ok(whole(100)));
    assert_eq!(liqee.slots[1].perp.quote_position, whole(-700));
    assert_eq!(liqee.slots[0].balance, whole(950));
    assert_eq!(health(&g, &c, &liqee, HealthType::Maint, 100), Ok(whole(-100)));
}

#[test]
fn a_token_liquidation_that_would_overshoot_moves_what_the_bound_allows() {
    // As above: the bank books the deposit at twice the index at which the
    // cache values it.
    let (g, c, mut liqee, mut liqor, mut asset_node, mut liab_node) = token_case(150);
    let asset_bank = RootBank { deposit_index: whole(2), ..root() };
    assert_eq!(health(&g, &c, &liqee, HealthType::Maint, 100), Ok(whole(-50)));
    // The estimate allows 5 tokens, which would leave 125 against 100.
    assert_eq!(net_cap(whole(-50), whole(10), &risk(2.0, 3.0, 0.0)), Some(Some(whole(5))));
    let cap = deficit_cap(whole(-50), whole(2), whole(10), whole(1), whole(1)).unwrap();
    assert!(cap.bits < 5 * ONE / 2 && cap.bits > 5 * ONE / 2 - 8);
    let r = liquidate_token_and_token(
        &g, &c, &mut liqee, &mut liqor, &asset_bank, &mut asset_node, &root(), &mut liab_node, 0,
        1, whole(1000), 100,
    );
    assert_eq!(r, Ok(cap));
    assert_eq!(liqee.slots[1].balance.bits, whole(-10).bits + cap.bits);
    let after = health(&g, &c, &liqee, HealthType::Maint, 100).unwrap();
    assert!(after.bits <= 0 && after.bits > whole(-50).bits);
}

#[test]
fn a_liquidation_that_would_lower_health_moves_nothing() {
    // A borrow that counts at par and a fee of a quarter: each token repaid
    // adds 10 to health and takes 12.5 from it.
    let g = group(risk(1.0, 3.0, 0.25), risk(1.0, 3.0, 0.25));
    let c = cache_at(&[1.0, 10.0], 100);
    let mut liqee = ledger_with(2, &[50, -10]);
    let mut liqor = ledger_with(3, &[0, 50]);
    let (mut asset_node, mut liab_node) = (pool(50, 0), pool(50, 10));
    assert_eq!(health(&g, &c, &liqee, HealthType::Maint, 100), Ok(whole(-50)));
    let before = (liqee.clone(), liqor.clone(), asset_node, liab_node);
    let r = liquidate_token_and_token(
        &g, &c, &mut liqee, &mut liqor, &root(), &mut asset_node, &root(), &mut liab_node, 0, 1,
        whole(1000), 100,
    );
    assert_eq!(r, Ok(whole(0)));
    assert_eq!((liqee.clone(), liqor.clone(), asset_node, liab_node), before);

    // The same against a perp balance that owes.
    let mut liqee = ledger_with(2, &[50, 0]);
    liqee.slots[1].perp.quote_position = whole(-100);
    liqee.slots[1].in_basket = true;
    let mut liqor = ledger_with(3, &[0, 0]);
    let mut node = pool(50, 0);
    assert_eq!(health(&g, &c, &liqee, HealthType::Maint, 100), Ok(whole(-50)));
    let before = (liqee.clone(), node);
    let r = liquidate_token_and_perp(
        &g, &c, &mut liqee, &mut liqor, &root(), &mut node, AssetType::Token, 0, AssetType::Perp, 1,
        whole(1000), 100,
    );
    assert_eq!(r, Ok(whole(0)));
    assert_eq!((liqee, node), before);
}

#[test]
fn token_liquidations_leave_health_between_what_it_was_and_zero() {
    for (maint, fee) in [(1.0, 0.0), (1.0, 0.25), (1.125, 0.125), (1.5, 0.25), (2.0, 0.0), (3.0, 1.0)] {
        for deposit in [1i64, 50, 99, 150, 199] {
            for max in [1i64, 3, 1000] {
                for index in [1i64, 2, 3] {
                    let g = group(risk(maint, 4.0, fee), risk(maint, 4.0, fee));
                    let c = cache_at(&[1.0, 10.0], 100);
                    let mut liqee = ledger_with(2, &[deposit, -10]);
                    let mut liqor = ledger_with(3, &[0, 50]);
                    let (mut asset_node, mut liab_node) = (pool(deposit, 0), pool(50, 10));
                    let bank = RootBank { deposit_index: whole(index), ..root() };
                    let before = health(&g, &c, &liqee, HealthType::Maint, 100).unwrap();
                    let r = liquidate_token_and_token(
                        &g, &c, &mut liqee, &mut liqor, &bank, &mut asset_node, &root(),
                        &mut liab_node, 0, 1, whole(max), 100,
                    );
                    if before.bits >= 0 {
                        assert_eq!(r, Err(MangoError::NotLiquidatable));
                        continue;
                    }
                    let moved = r.unwrap();
                    assert!(moved.bits >= 0 && moved.bits <= whole(max).bits);
                    let after = health(&g, &c, &liqee, HealthType::Maint, 100).unwrap();
                    assert!(before.bits <= after.bits && after.bits <= 0);
                }
            }
        }
    }
}

#[test]
fn the_liquidator_does_not_lose_by_rounding() {
    // One token at a price of 1 is worth a third of a token at a price of
    // 3, which no number holds: the liquidator receives the next above.
    let p = plan_token_liquidation(
        None,
        &risk(2.0, 3.0, 0.0),
        whole(3),
        whole(1),
        &root(),
        &root(),
        &pool(100, 0),
        &pool(50, 10),
        whole(100),
        whole(-10),
        whole(0),
        whole(50),
        whole(1),
    )
    .unwrap();
    assert_eq!(p.liab_transfer, whole(1));
    assert_eq!(p.asset_transfer.bits, (ONE + 2) / 3);
    assert!(p.asset_transfer.bits * 3 >= ONE);
    assert!((p.asset_transfer.bits - 1) * 3 < ONE);
    assert_eq!(p.liqor_asset.bits, (ONE + 2) / 3);
    assert_eq!(p.liqee_asset.bits, whole(100).bits - (ONE + 2) / 3);
}

#[test]
fn the_fee_of_a_perp_liquidation_is_rounded_down_for_both_sides() {
    // One lot at a price of 3 units in the last place, and a fee of a
    // quarter: three quarters of a unit, which rounds to nothing.
    for (base, request) in [(1i64, 1i64), (-1, -1)] {
        let g = group(risk(1.0, 1.0, 0.0), risk(3.25, 4.0, 0.25));
        let mut c = cache_at(&[1.0, 1.0], 100);
        c.cache_price(1, I80F48 { bits: 3 }, 100).unwrap();
        let mut liqee = ledger_with(2, &[0, 0]);
        liqee.slots[1].in_basket = true;
        liqee.slots[1].perp.base_position = base;
        liqee.slots[1].perp.quote_position = whole(-1000);
        let mut liqor = ledger_with(3, &[5000, 0]);
        assert_eq!(
            liquidate_perp_market(&g, &c, &mut liqee, &mut liqor, 1, request, 100),
            Ok(request)
        );
        let received = liqee.slots[1].perp.quote_position.bits - whole(-1000).bits;
        assert_eq!(received, (base as i128) * 3);
        assert_eq!(liqor.slots[1].perp.quote_position.bits, -received);
        assert_eq!(liqor.slots[1].perp.base_position, base);
    }
    // With a whole unit of fee the account receives less and pays more.
    for (base, expect) in [(4i64, 9i128), (-4, -15)] {
        let g = group(risk(1.0, 1.0, 0.0), risk(3.25, 4.0, 0.25));
        let mut c = cache_at(&[1.0, 1.0], 100);
        c.cache_price(1, I80F48 { bits: 3 }, 100).unwrap();
        let mut liqee = ledger_with(2, &[0, 0]);
        liqee.slots[1].in_basket = true;
        liqee.slots[1].perp.base_position = base;
        liqee.slots[1].perp.quote_position = whole(-1000);
        let mut liqor = ledger_with(3, &[5000, 0]);
        assert_eq!(liquidate_perp_market(&g, &c, &mut liqee, &mut liqor, 1, base, 100), Ok(base));
        let received = liqee.slots[1].perp.quote_position.bits - whole(-1000).bits;
        assert_eq!(received, expect);
    }
}

/// An account that is long 50 lots bought at 10, with the price now at 2.
fn perp_case(fee: f64) -> (Group, Cache, Ledger, Ledger) {
    let g = group(risk(1.0, 1.0, 0.0), risk(3.25, 4.0, fee));
    let c = cache_at(&[1.0, 2.0], 100);
    let mut liqee = ledger_with(2, &[1000, 0]);
    liqee.slots[1].in_basket = true;
    liqee.slots[1].perp.base_position = 50;
    liqee.slots[1].perp.quote_position = whole(-500);
    let liqor = ledger_with(3, &[5000, 0]);
    (g, c, liqee, liqor)
}

#[test]
fn perp_liquidation_moves_lots_at_the_oracle_price_less_the_fee() {
    let (g, c, mut liqee, mut liqor) = perp_case(0.25);
    assert_eq!(health(&g, &c, &liqee, HealthType::Maint, 100), Ok(whole(-300)));
    assert_eq!(liquidate_perp_market(&g, &c, &mut liqee, &mut liqor, 1, 20, 100), Ok(20));
    assert_eq!(liqee.slots[1].perp.base_position, 30);
    assert_eq!(liqee.slots[1].perp.quote_position, whole(-470));
    assert_eq!(liqor.slots[1].perp.base_position, 20);
    assert_eq!(liqor.slots[1].perp.quote_position, whole(-30));
    assert!(liqor.slots[1].in_basket);
}

#[test]
fn perp_liquidation_takes_no_more_than_the_position() {
    let (g, c, mut liqee, mut liqor) = perp_case(0.0);
    assert_eq!(liquidate_perp_market(&g, &c, &mut liqee, &mut liqor, 1, 1000, 100), Ok(50));
    assert_eq!(liqee.slots[1].perp.base_position, 0);
    assert_eq!(liqee.slots[1].perp.quote_position, whole(-400));
    assert_eq!(liqor.slots[1].perp.base_position, 50);
    assert_eq!(liqor.slots[1].perp.quote_position, whole(-100));
}

#[test]
fn perp_liquidation_of_a_short_position() {
    let g = group(risk(1.0, 1.0, 0.0), risk(3.25, 4.0, 0.25));
    let c = cache_at(&[1.0, 20.0], 100);
    let mut liqee = ledger_with(2, &[100, 0]);
    liqee.slots[1].in_basket = true;
    liqee.slots[1].perp.base_position = -50;
    liqee.slots[1].perp.quote_position = whole(500);
    let mut liqor = ledger_with(3, &[5000, 0]);
    assert_eq!(liquidate_perp_market(&g, &c, &mut liqee, &mut liqor, 1, -10, 100), Ok(-10));
    // The account buys 10 lots back at 20 and pays a quarter on top.
    assert_eq!(liqee.slots[1].perp.base_position, -40);
    assert_eq!(liqee.slots[1].perp.quote_position, whole(250));
    assert_eq!(liqor.slots[1].perp.base_position, -10);
    assert_eq!(liqor.slots[1].perp.quote_position, whole(250));
}

#[test]
fn perp_liquidation_settles_funding_first() {
    let (g, mut c, mut liqee, mut liqor) = perp_case(0.0);
    c.cache_perp_market(1, whole(2), whole(2), 100).unwrap();
    assert_eq!(liquidate_perp_market(&g, &c, &mut liqee, &mut liqor, 1, 10, 100), Ok(10));
    // 50 lots pay 2 each before 10 lots are sold for 20.
    assert_eq!(liqee.slots[1].perp.quote_position, whole(-580));
    assert_eq!(liqee.slots[1].perp.long_settled_funding, whole(2));
    assert_eq!(liqor.slots[1].perp.long_settled_funding, whole(2));
    assert_eq!(liqor.slots[1].perp.quote_position, whole(-20));
}

#[test]
fn perp_liquidation_of_an_account_that_funding_makes_healthy_is_refused() {
    let (g, mut c, mut liqee, mut liqor) = perp_case(0.0);
    assert!(health(&g, &c, &liqee, HealthType::Maint, 100).unwrap().bits < 0);
    // The 50 lots are owed 20 each in funding, which the account has not
    // settled yet: once it has, it is healthy.
    c.cache_perp_market(1, whole(-20), whole(-20), 100).unwrap();
    assert!(health(&g, &c, &liqee, HealthType::Maint, 100).unwrap().bits < 0);
    let before = (liqee.clone(), liqor.clone());
    assert_eq!(
        liquidate_perp_market(&g, &c, &mut liqee, &mut liqor, 1, 10, 100),
        Err(MangoError::NotLiquidatable)
    );
    assert_eq!((liqee, liqor), before);
}

#[test]
fn perp_liquidation_never_raises_health() {
    for fee in [0.0, 0.125, 0.25] {
        for request in [1i64, 10, 49, 50, 1000] {
            let (g, c, mut liqee, mut liqor) = perp_case(fee);
            let before = health(&g, &c, &liqee, HealthType::Maint, 100).unwrap();
            assert!(liquidate_perp_market(&g, &c, &mut liqee, &mut liqor, 1, request, 100).is_ok());
            let after = health(&g, &c, &liqee, HealthType::Maint, 100).unwrap();
            assert!(after.bits <= before.bits && after.bits <= 0);
        }
    }
}

#[test]
fn perp_liquidation_refuses_a_request_against_the_position() {
    let (g, c, mut liqee, mut liqor) = perp_case(0.0);
    let before = (liqee.clone(), liqor.clone());
    for (slot, request, now) in [(1usize, -5i64, 100u64), (1, 0, 100), (0, 5, 100), (2, 5, 100), (1, 5, 200)] {
        assert_eq!(
            liquidate_perp_market(&g, &c, &mut liqee, &mut liqor, slot, request, now),
            Err(MangoError::InvalidState)
        );
        assert_eq!((liqee.clone(), liqor.clone()), before);
    }
}

#[test]
fn perp_liquidation_of_a_healthy_account_is_refused() {
    let (g, _, mut liqee, mut liqor) = perp_case(0.0);
    let c = cache_at(&[1.0, 10.0], 100);
    assert_eq!(health(&g, &c, &liqee, HealthType::Maint, 100), Ok(whole(1000)));
    assert_eq!(
        liquidate_perp_market(&g, &c, &mut liqee, &mut liqor, 1, 5, 100),
        Err(MangoError::NotLiquidatable)
    );
}

#[test]
fn token_against_perp_balance_that_owes() {
    let (g, c, mut liqee, mut liqor) = perp_case(0.25);
    liqee.slots[1].perp.base_position = 0;
    liqee.slots[1].perp.quote_position = whole(-425);
    let mut b = pool(6000, 0);
    // 1000 - 425 * 3.25 = -381.25, and each unit moved gains 3.25 - 1.25.
    assert_eq!(health(&g, &c, &liqee, HealthType::Maint, 100), Ok(fx(-381.25)));
    let r = liquidate_token_and_perp(
        &g, &c, &mut liqee, &mut liqor, &root(), &mut b, AssetType::Token, 0, AssetType::Perp, 1,
        whole(1000), 100,
    );
    assert_eq!(r, Ok(fx(190.625)));
    assert_eq!(liqee.slots[1].perp.quote_position, fx(-234.375));
    assert_eq!(liqee.slots[0].balance, fx(761.71875));
    assert_eq!(liqor.slots[1].perp.quote_position, fx(-190.625));
    assert_eq!(liqor.slots[0].balance, fx(5238.28125));
    assert_eq!(b.deposits, whole(6000));
    assert_eq!(health(&g, &c, &liqee, HealthType::Maint, 100), Ok(whole(0)));
}

#[test]
fn borrow_against_perp_balance_in_favour() {
    let g = group(risk(2.0, 3.0, 0.25), risk(2.0, 3.0, 0.0));
    let c = cache_at(&[1.0, 10.0], 100);
    let mut liqee = ledger_with(2, &[0, -10]);
    liqee.slots[1].perp.quote_position = whole(100);
    let mut liqor = ledger_with(3, &[0, 50]);
    let mut b = pool(50, 10);
    assert_eq!(health(&g, &c, &liqee, HealthType::Maint, 100), Ok(whole(-100)));
    let r = liquidate_token_and_perp(
        &g, &c, &mut liqee, &mut liqor, &root(), &mut b, AssetType::Perp, 1, AssetType::Token, 1,
        whole(4), 100,
    );
    assert_eq!(r, Ok(whole(4)));
    assert_eq!(liqee.slots[1].balance, whole(-6));
    assert_eq!(liqee.slots[1].perp.quote_position, whole(50));
    assert_eq!(liqor.slots[1].balance, whole(46));
    assert_eq!(liqor.slots[1].perp.quote_position, whole(50));
    assert_eq!((b.deposits, b.borrows), (whole(46), whole(6)));
}

#[test]
fn token_against_perp_needs_a_flat_base_position() {
    let (g, c, mut liqee, mut liqor) = perp_case(0.25);
    let mut b = pool(6000, 0);
    let before = (liqee.clone(), liqor.clone(), b);
    let r = liquidate_token_and_perp(
        &g, &c, &mut liqee, &mut liqor, &root(), &mut b, AssetType::Token, 0, AssetType::Perp, 1,
        whole(1000), 100,
    );
    assert_eq!(r, Err(MangoError::InvalidState));
    assert_eq!((liqee.clone(), liqor.clone(), b), before);
    for (at, lt) in [(AssetType::Token, AssetType::Token), (AssetType::Perp, AssetType::Perp)] {
        let r = liquidate_token_and_perp(
            &g, &c, &mut liqee, &mut liqor, &root(), &mut b, at, 0, lt, 1, whole(1000), 100,
        );
        assert_eq!(r, Err(MangoError::InvalidState));
    }
    assert_eq!((liqee, liqor, b), before);
}

#[test]
fn cover_pays_whole_tokens_up_to_the_limits() {
    let c = cover(fx(10.5), 4, whole(100));
    assert_eq!((c.covered, c.rest), (4, fx(6.5)));
    let c = cover(fx(10.5), 40, whole(100));
    assert_eq!((c.covered, c.rest), (10, fx(0.5)));
    let c = cover(fx(10.5), 40, fx(3.9));
    assert_eq!((c.covered, c.rest), (3, fx(7.5)));
    let c = cover(whole(0), 40, whole(5));
    assert_eq!((c.covered, c.rest), (0, whole(0)));
    let c = cover(whole(7), 0, whole(5));
    assert_eq!((c.covered, c.rest), (0, whole(7)));
}

fn bankrupt_case() -> (Group, Cache, Ledger, RootBank, Vec<NodeBank>) {
    let g = group(risk(2.0, 3.0, 0.0), risk(2.0, 3.0, 0.0));
    let c = cache_at(&[1.0, 10.0], 100);
    let liqee = ledger_with(2, &[0, -10]);
    (g, c, liqee, root(), vec![pool(1000, 0), pool(24, 10)])
}

#[test]
fn an_account_with_assets_is_not_bankrupt() {
    let (g, c, mut liqee, mut b, mut nodes) = bankrupt_case();
    assert!(has_no_assets(&liqee));
    liqee.slots[0].balance = I80F48 { bits: 1 };
    liqee.slots[0].in_basket = true;
    assert!(!has_no_assets(&liqee));
    let mut insurance = 4;
    let before = (liqee.clone(), b, nodes.clone());
    assert_eq!(
        resolve_token_bankruptcy(
            &g, &c, &mut liqee, &mut b, &mut nodes, 1, &mut insurance, 1, whole(100), 100,
        ),
        Err(MangoError::InvalidState)
    );
    assert_eq!((liqee.clone(), b, nodes, insurance), (before.0, before.1, before.2, 4));
    liqee.slots[0].balance = whole(0);
    liqee.slots[0].open_orders = Some(OpenOrders { base_locked: 0, quote_locked: 0 });
    assert!(!has_no_assets(&liqee));
    liqee.slots[0].open_orders = None;
    liqee.slots[0].perp.base_position = -1;
    assert!(!has_no_assets(&liqee));
    liqee.slots[0].perp.base_position = 0;
    liqee.slots[0].perp.quote_position = I80F48 { bits: 1 };
    assert!(!has_no_assets(&liqee));
}

#[test]
fn token_bankruptcy_drains_the_fund_and_spreads_the_rest() {
    let (g, c, mut liqee, mut b, mut nodes) = bankrupt_case();
    let mut insurance = 4;
    let value_before = whole(1024).bits * b.deposit_index.bits;
    let r = resolve_token_bankruptcy(
        &g, &c, &mut liqee, &mut b, &mut nodes, 1, &mut insurance, 1, whole(100), 100,
    );
    assert_eq!(r, Ok((4, whole(6))));
    assert_eq!(insurance, 0);
    assert_eq!(liqee.slots[1].balance, whole(0));
    assert_eq!(nodes, vec![pool(1000, 0), NodeBank { vault: 4, ..pool(24, 0) }]);
    assert_eq!(b.deposit_index.bits, ONE - 6 * ONE / 1024);
    // The depositors of both pools lose what was spread over them, no more
    // and no less.
    assert_eq!(value_before - whole(1024).bits * b.deposit_index.bits, 6 * ONE * ONE);
    assert_eq!(b.native_deposit(whole(1024)), Some(whole(1018)));
}

#[test]
fn token_bankruptcy_covered_by_the_fund_spreads_nothing() {
    let (g, c, mut liqee, mut b, mut nodes) = bankrupt_case();
    let mut insurance = 25;
    let r = resolve_token_bankruptcy(
        &g, &c, &mut liqee, &mut b, &mut nodes, 0, &mut insurance, 1, whole(100), 100,
    );
    assert_eq!(r, Err(MangoError::Fatal));
    // The borrow is held through the second pool, where it is repaid.
    let r = resolve_token_bankruptcy(
        &g, &c, &mut liqee, &mut b, &mut nodes, 1, &mut insurance, 1, whole(100), 100,
    );
    assert_eq!(r, Ok((10, whole(0))));
    assert_eq!(insurance, 15);
    assert_eq!(liqee.slots[1].balance, whole(0));
    assert_eq!(b, root());
    assert_eq!(nodes, vec![pool(1000, 0), NodeBank { vault: 10, ..pool(24, 0) }]);
}

#[test]
fn token_bankruptcy_limited_by_the_caller_spreads_all_that_is_left() {
    let (g, c, mut liqee, mut b, mut nodes) = bankrupt_case();
    let mut insurance = 25;
    let value_before = whole(1024).bits * b.deposit_index.bits;
    let r = resolve_token_bankruptcy(
        &g, &c, &mut liqee, &mut b, &mut nodes, 1, &mut insurance, 1, whole(3), 100,
    );
    // The fund pays the 3 that the caller allows, and the 7 that are left
    // fall to the depositors: nothing stays owed.
    assert_eq!(r, Ok((3, whole(7))));
    assert_eq!(insurance, 22);
    assert_eq!(liqee.slots[1].balance, whole(0));
    assert_eq!(nodes, vec![pool(1000, 0), NodeBank { vault: 3, ..pool(24, 0) }]);
    assert_eq!(b.deposit_index.bits, ONE - 7 * ONE / 1024);
    assert_eq!(value_before - whole(1024).bits * b.deposit_index.bits, 7 * ONE * ONE);
    assert_eq!(RootBank { deposit_index: whole(1), ..b }, root());
    // The account is bankrupt no longer.
    assert_eq!(
        resolve_token_bankruptcy(
            &g, &c, &mut liqee, &mut b, &mut nodes, 1, &mut insurance, 1, whole(3), 100,
        ),
        Err(MangoError::NotLiquidatable)
    );
}

#[test]
fn token_bankruptcy_with_nothing_allowed_spreads_the_whole_borrow() {
    let (g, c, mut liqee, mut b, mut nodes) = bankrupt_case();
    let mut insurance = 25;
    let r = resolve_token_bankruptcy(
        &g, &c, &mut liqee, &mut b, &mut nodes, 1, &mut insurance, 1, whole(0), 100,
    );
    assert_eq!(r, Ok((0, whole(10))));
    assert_eq!(insurance, 25);
    assert_eq!(liqee.slots[1].balance, whole(0));
    assert_eq!(nodes, vec![pool(1000, 0), pool(24, 0)]);
    assert_eq!(b.deposit_index.bits, ONE - 10 * ONE / 1024);
}

#[test]
fn token_bankruptcy_without_depositors_is_refused() {
    let (g, c, mut liqee, mut b, _) = bankrupt_case();
    let mut nodes = vec![pool(0, 10)];
    let mut insurance = 4;
    let before = (liqee.clone(), b, nodes.clone());
    assert_eq!(
        resolve_token_bankruptcy(
            &g, &c, &mut liqee, &mut b, &mut nodes, 0, &mut insurance, 1, whole(100), 100,
        ),
        Err(MangoError::InsufficientFunds)
    );
    assert_eq!((liqee, b, nodes, insurance), (before.0, before.1, before.2, 4));
}

#[test]
fn token_bankruptcy_refuses_bad_arguments() {
    let (g, c, mut liqee, mut b, mut nodes) = bankrupt_case();
    let mut insurance = 4;
    let before = (liqee.clone(), b, nodes.clone());
    for (slot, node, max, now) in [
        (0usize, 1usize, whole(1), 100u64),
        (2, 1, whole(1), 100),
        (1, 2, whole(1), 100),
        (1, 1, whole(-1), 100),
        (1, 1, whole(1), 200),
    ] {
        assert_eq!(
            resolve_token_bankruptcy(
                &g, &c, &mut liqee, &mut b, &mut nodes, node, &mut insurance, slot, max, now,
            ),
            Err(MangoError::InvalidState)
        );
        assert_eq!((liqee.clone(), b, nodes.clone(), insurance), (before.0.clone(), before.1, before.2.clone(), 4));
    }
}

#[test]
fn perp_bankruptcy_clears_what_the_position_owes() {
    let g = group(risk(2.0, 3.0, 0.0), risk(2.0, 3.0, 0.0));
    let c = cache_at(&[1.0, 10.0], 100);
    let mut liqee = ledger_with(2, &[0, 0]);
    liqee.slots[1].in_basket = true;
    liqee.slots[1].perp.quote_position = fx(-10.5);
    let mut quote_bank = root();
    let mut quote_nodes = vec![pool(1024, 0)];
    let mut insurance = 4;
    let r = resolve_perp_bankruptcy(
        &g, &c, &mut liqee, &mut quote_bank, &mut quote_nodes, 0, &mut insurance, 1, whole(100),
        100,
    );
    assert_eq!(r, Ok((4, fx(6.5))));
    assert_eq!(insurance, 0);
    assert_eq!(liqee.slots[1].perp.quote_position, whole(0));
    assert_eq!(quote_nodes, vec![NodeBank { vault: 4, ..pool(1024, 0) }]);
    assert_eq!(quote_bank.deposit_index.bits, ONE - 13 * ONE / 2048);

    let mut liqee = ledger_with(2, &[0, 0]);
    liqee.slots[1].in_basket = true;
    liqee.slots[1].perp.quote_position = fx(-10.5);
    let mut quote_bank = root();
    let mut quote_nodes = vec![pool(1024, 0)];
    let mut insurance = 40;
    let r = resolve_perp_bankruptcy(
        &g, &c, &mut liqee, &mut quote_bank, &mut quote_nodes, 0, &mut insurance, 1, whole(2),
        100,
    );
    // The caller allows 2: the fund pays them, and the 8.5 that are left
    // fall to the depositors, so that the position owes nothing.
    assert_eq!(r, Ok((2, fx(8.5))));
    assert_eq!(liqee.slots[1].perp.quote_position, whole(0));
    assert_eq!(quote_bank.deposit_index.bits, ONE - 17 * ONE / 2048);
    assert_eq!(quote_nodes, vec![NodeBank { vault: 2, ..pool(1024, 0) }]);
    assert_eq!(insurance, 38);
}

#[test]
fn perp_bankruptcy_needs_a_flat_position_that_owes() {
    let g = group(risk(2.0, 3.0, 0.0), risk(2.0, 3.0, 0.0));
    let c = cache_at(&[1.0, 10.0], 100);
    let mut liqee = ledger_with(2, &[0, -1]);
    let mut quote_bank = root();
    let mut quote_nodes = vec![pool(1024, 0)];
    let mut insurance = 4;
    let before = (liqee.clone(), quote_bank, quote_nodes.clone());
    assert_eq!(
        resolve_perp_bankruptcy(
            &g, &c, &mut liqee, &mut quote_bank, &mut quote_nodes, 0, &mut insurance, 1,
            whole(100), 100,
        ),
        Err(MangoError::InvalidState)
    );
    assert_eq!(
        resolve_perp_bankruptcy(
            &g, &c, &mut liqee, &mut quote_bank, &mut quote_nodes, 1, &mut insurance, 1,
            whole(100), 100,
        ),
        Err(MangoError::InvalidState)
    );
    assert_eq!((liqee, quote_bank, quote_nodes, insurance), (before.0, before.1, before.2, 4));
}

/// One quote token and one perp market. An account deposits 1000, buys 50
/// lots at 10, and the price falls to 2.
#[test]
fn a_long_position_is_liquidated_after_the_price_falls() {
    let g = group(risk(1.0, 1.0, 0.0), risk(3.25, 4.0, 0.25));
    let mut c = cache_at(&[1.0, 10.0], 100);
    let quote_bank = root();
    let mut quote_node = pool(5000, 0);
    let mut a = Ledger::new(key(0xA), 2);
    let mut b = ledger_with(0xB, &[5000, 0]);
    assert_eq!(deposit(&mut a, &quote_bank, &mut quote_node, 0, 1000), Ok(()));
    assert_eq!(quote_node.vault, 1000);

    // The book matches the order of the account with a resting order.
    let mut market = PerpMarket {
        base_lot_size: 1,
        quote_lot_size: 1,
        maker_fee: whole(0),
        taker_fee: whole(0),
        max_depth_bps: whole(500),
        rate: whole(0),
        open_interest: 0,
        long_funding: whole(0),
        short_funding: whole(0),
        last_updated: 100,
        seq_num: 0,
        fees_accrued: whole(0),
    };
    let mut positions = vec![a.slots[1].perp, Ledger::new(key(0xC), 2).slots[1].perp];
    let fill = Event::Fill(FillEvent {
        seq_num: 0,
        taker_side: Side::Bid,
        maker: 1,
        taker: 0,
        price: 10,
        quantity: 50,
        resting_seconds: 0,
    });
    assert_eq!(apply_event(&mut market, &mut positions, &fill), Ok(()));
    a.slots[1].perp = positions[0];
    a.slots[1].in_basket = true;
    assert_eq!(a.slots[1].perp.base_position, 50);
    assert_eq!(a.slots[1].perp.quote_position, whole(-500));
    assert_eq!(market.open_interest, 50);

    // At a price of 10 the position is worth what it cost.
    assert_eq!(health(&g, &c, &a, HealthType::Maint, 100), Ok(whole(1000)));
    assert_eq!(health(&g, &c, &a, HealthType::Init, 100), Ok(whole(1000)));
    assert_eq!(
        liquidate_perp_market(&g, &c, &mut a, &mut b, 1, 50, 100),
        Err(MangoError::NotLiquidatable)
    );

    // At a price of 2 it owes 400, which counts 3.25 times.
    c.cache_price(1, whole(2), 100).unwrap();
    assert_eq!(health(&g, &c, &a, HealthType::Maint, 100), Ok(whole(-300)));

    // The liquidator takes the 50 lots over. They are worth 100 at the
    // oracle price, and the account receives a quarter less.
    assert_eq!(liquidate_perp_market(&g, &c, &mut a, &mut b, 1, 50, 100), Ok(50));
    let received = a.slots[1].perp.quote_position.bits - whole(-500).bits;
    let value = whole(50 * 2).bits;
    assert_eq!(received, whole(75).bits);
    assert!(value - received >= 0 && value - received <= value / 4);
    assert_eq!(b.slots[1].perp.base_position, 50);
    assert_eq!(b.slots[1].perp.quote_position, whole(-75));

    // Taking over the position at a discount does not restore health; the
    // liquidator then pays into the perp balance against the deposit.
    assert_eq!(health(&g, &c, &a, HealthType::Maint, 100), Ok(fx(-381.25)));
    let r = liquidate_token_and_perp(
        &g, &c, &mut a, &mut b, &quote_bank, &mut quote_node, AssetType::Token, 0, AssetType::Perp, 1,
        whole(10_000), 100,
    );
    assert_eq!(r, Ok(fx(190.625)));
    let final_health = health(&g, &c, &a, HealthType::Maint, 100).unwrap();
    assert!(final_health.bits >= 0);
    assert_eq!(final_health, whole(0));
    assert_eq!(
        liquidate_perp_market(&g, &c, &mut a, &mut b, 1, 50, 100),
        Err(MangoError::NotLiquidatable)
    );
}

#[test]
fn liquidation_state_follows_health_and_assets() {
    let (g, c, liqee, _, _, _) = token_case(100);
    assert_eq!(liquidation_state(&g, &c, &liqee, 100), Ok(LiquidationState::Liquidatable));
    assert_eq!(liquidation_state(&g, &c, &liqee, 111), Err(MangoError::InvalidState));
    let healthy = ledger_with(2, &[200, -10]);
    assert_eq!(liquidation_state(&g, &c, &healthy, 100), Ok(LiquidationState::Healthy));
    let (g, c, bankrupt, _, _) = bankrupt_case();
    assert_eq!(liquidation_state(&g, &c, &bankrupt, 100), Ok(LiquidationState::Bankrupt));
    let empty = Ledger::new(key(9), 2);
    assert_eq!(liquidation_state(&g, &c, &empty, 100), Ok(LiquidationState::Healthy));
}

#[test]
fn force_cancel_releases_reservations_and_moves_no_value() {
    let (g, c, mut liqee, _, _, _) = token_case(100);
    liqee.slots[1].open_orders = Some(OpenOrders { base_locked: 2, quote_locked: 30 });
    // 100 - 200 + 2 * 10 + 30
    assert_eq!(health(&g, &c, &liqee, HealthType::Maint, 100), Ok(whole(-50)));
    let before = liqee.clone();
    assert_eq!(force_cancel_spot_orders(&g, &c, &mut liqee, 1, 3, 0, 100), Err(MangoError::InvalidState));
    assert_eq!(force_cancel_spot_orders(&g, &c, &mut liqee, 1, 0, 31, 100), Err(MangoError::InvalidState));
    assert_eq!(force_cancel_spot_orders(&g, &c, &mut liqee, 0, 0, 0, 100), Err(MangoError::InvalidState));
    assert_eq!(force_cancel_spot_orders(&g, &c, &mut liqee, 2, 0, 0, 100), Err(MangoError::InvalidState));
    assert_eq!(force_cancel_spot_orders(&g, &c, &mut liqee, 1, 1, 1, 111), Err(MangoError::InvalidState));
    assert_eq!(liqee, before);
    assert_eq!(force_cancel_spot_orders(&g, &c, &mut liqee, 1, 2, 10, 100), Ok(()));
    assert_eq!(liqee.slots[1].open_orders, Some(OpenOrders { base_locked: 0, quote_locked: 20 }));
    assert_eq!(liqee.slots[0].balance, before.slots[0].balance);
    assert_eq!(liqee.slots[1].balance, before.slots[1].balance);
}

#[test]
fn force_cancel_on_a_healthy_account_is_refused() {
    let (g, c, _, _, _, _) = token_case(100);
    let mut healthy = ledger_with(2, &[200, -10]);
    healthy.slots[1].open_orders = Some(OpenOrders { base_locked: 2, quote_locked: 30 });
    assert_eq!(
        force_cancel_spot_orders(&g, &c, &mut healthy, 1, 1, 1, 100),
        Err(MangoError::NotLiquidatable)
    );
}

#[test]
fn an_account_with_initial_health_of_zero_cannot_be_liquidated() {
    let g = group(risk(2.0, 3.0, 0.0), risk(2.0, 3.0, 0.0));
    let c = cache_at(&[1.0, 10.0], 100);
    // 300 deposited against a borrow of 10 at a price of 10, which counts
    // three times in initial health.
    let mut liqee = ledger_with(2, &[300, -10]);
    liqee.slots[1].perp.base_position = 1;
    liqee.slots[1].perp.quote_position = whole(-10);
    let mut liqor = ledger_with(3, &[0, 50]);
    let (mut asset_bank, mut liab_bank) = (pool(300, 0), pool(50, 10));
    assert_eq!(health(&g, &c, &liqee, HealthType::Init, 100), Ok(whole(0)));
    assert_eq!(liquidation_state(&g, &c, &liqee, 100), Ok(LiquidationState::Healthy));
    let before = (liqee.clone(), liqor.clone(), asset_bank, liab_bank);
    let r = liquidate_token_and_token(
        &g, &c, &mut liqee, &mut liqor, &root(), &mut asset_bank, &root(), &mut liab_bank, 0, 1, whole(4), 100,
    );
    assert_eq!(r, Err(MangoError::NotLiquidatable));
    assert_eq!(
        liquidate_perp_market(&g, &c, &mut liqee, &mut liqor, 1, 1, 100),
        Err(MangoError::NotLiquidatable)
    );
    let r = liquidate_token_and_perp(
        &g, &c, &mut liqee, &mut liqor, &root(), &mut asset_bank, AssetType::Token, 0, AssetType::Perp, 1,
        whole(4), 100,
    );
    assert_eq!(r, Err(MangoError::NotLiquidatable));
    assert_eq!((liqee, liqor, asset_bank, liab_bank), before);
}

#[test]
fn a_liquidation_keeps_owner_label_and_fee_discount_tokens() {
    let (g, c, mut liqee, mut liqor, mut asset_bank, mut liab_bank) = token_case(100);
    liqee.add_info([7; 32]);
    liqee.deposit_msrm(9).unwrap();
    liqor.add_info([8; 32]);
    liqor.deposit_msrm(3).unwrap();
    let r = liquidate_token_and_token(
        &g, &c, &mut liqee, &mut liqor, &root(), &mut asset_bank, &root(), &mut liab_bank, 0, 1, whole(4), 100,
    );
    assert_eq!(r, Ok(whole(4)));
    assert_eq!((liqee.owner, liqee.info, liqee.msrm_amount), (key(2), [7; 32], 9));
    assert_eq!((liqor.owner, liqor.info, liqor.msrm_amount), (key(3), [8; 32], 3));
}

#[test]
fn a_perp_liquidation_makes_and_destroys_nothing() {
    let (g, c, mut liqee, mut liqor) = perp_case(0.25);
    let before = (liqee.clone(), liqor.clone());
    assert_eq!(liquidate_perp_market(&g, &c, &mut liqee, &mut liqor, 1, 20, 100), Ok(20));
    assert_eq!(
        liqee.slots[1].perp.base_position + liqor.slots[1].perp.base_position,
        before.0.slots[1].perp.base_position + before.1.slots[1].perp.base_position
    );
    assert_eq!(
        liqee.slots[1].perp.quote_position.bits + liqor.slots[1].perp.quote_position.bits,
        before.0.slots[1].perp.quote_position.bits + before.1.slots[1].perp.quote_position.bits
    );
    // 20 lots at a price of 2 are worth 40, and the account receives a
    // quarter less.
    let received = liqee.slots[1].perp.quote_position.bits - before.0.slots[1].perp.quote_position.bits;
    assert_eq!(received, whole(30).bits);
    assert!(received <= whole(40).bits && whole(40).bits - received <= whole(40).bits / 4);
    assert_eq!(liqee.slots[0], before.0.slots[0]);
    assert_eq!(liqor.slots[0], before.1.slots[0]);
}
