use mango::dex;
use mango::fixed_point::I80F48;
use mango::instruction;
use mango::instruction::MangoInstruction;
use mango::matching::{OrderType, Side};
use mango::order::{pubkey_lt, sort_pubkeys};
use mango::solana::{AccountMeta, Instruction, Pubkey};

fn key(b: u8) -> Pubkey {
    Pubkey([b; 32])
}

fn r(pubkey: Pubkey) -> AccountMeta {
    AccountMeta { pubkey, is_signer: false, is_writable: false }
}

fn w(pubkey: Pubkey) -> AccountMeta {
    AccountMeta { pubkey, is_signer: false, is_writable: true }
}

fn signer(pubkey: Pubkey) -> AccountMeta {
    AccountMeta { pubkey, is_signer: true, is_writable: false }
}

fn token_program() -> Pubkey {
    Pubkey(spl_token::ID.to_bytes())
}

fn rent_sysvar() -> Pubkey {
    Pubkey(solana_program::sysvar::rent::ID.to_bytes())
}

fn fixed(bits: i128) -> I80F48 {
    I80F48 { bits }
}

fn theirs(m: &AccountMeta) -> solana_program::instruction::AccountMeta {
    solana_program::instruction::AccountMeta {
        pubkey: solana_program::pubkey::Pubkey::new_from_array(m.pubkey.0),
        is_signer: m.is_signer,
        is_writable: m.is_writable,
    }
}

#[test]
fn the_known_addresses_are_those_of_the_platform() {
    assert_eq!(
        token_program().0,
        [
            6, 221, 246, 225, 215, 101, 161, 147, 217, 203, 225, 70, 206, 235, 121, 172, 28, 180,
            133, 237, 95, 91, 55, 145, 58, 140, 245, 133, 126, 255, 0, 169
        ]
    );
    assert_eq!(
        rent_sysvar().0,
        [
            6, 167, 213, 23, 25, 44, 92, 81, 33, 140, 201, 76, 61, 74, 241, 127, 88, 218, 238, 8,
            155, 161, 253, 68, 227, 219, 217, 138, 0, 0, 0, 0
        ]
    );
}

#[test]
fn deposit_request() {
    let i = instruction::deposit(
        &key(0), &key(1), &key(2), &key(3), &key(4), &key(5), &key(6), &key(7), &key(8), 77,
    )
    .unwrap();
    assert_eq!(
        i,
        Instruction {
            program_id: key(0),
            accounts: vec![
                r(key(1)),
                w(key(2)),
                signer(key(3)),
                r(key(4)),
                r(key(5)),
                w(key(6)),
                w(key(7)),
                r(token_program()),
                w(key(8)),
            ],
            data: vec![2, 0, 0, 0, 77, 0, 0, 0, 0, 0, 0, 0],
        }
    );
}

#[test]
fn account_entries_are_those_that_the_platform_makes() {
    let i = instruction::deposit(
        &key(0), &key(1), &key(2), &key(3), &key(4), &key(5), &key(6), &key(7), &key(8), 77,
    )
    .unwrap();
    let pk = |b: u8| solana_program::pubkey::Pubkey::new_from_array([b; 32]);
    let expected = vec![
        solana_program::instruction::AccountMeta::new_readonly(pk(1), false),
        solana_program::instruction::AccountMeta::new(pk(2), false),
        solana_program::instruction::AccountMeta::new_readonly(pk(3), true),
        solana_program::instruction::AccountMeta::new_readonly(pk(4), false),
        solana_program::instruction::AccountMeta::new_readonly(pk(5), false),
        solana_program::instruction::AccountMeta::new(pk(6), false),
        solana_program::instruction::AccountMeta::new(pk(7), false),
        solana_program::instruction::AccountMeta::new_readonly(spl_token::ID, false),
        solana_program::instruction::AccountMeta::new(pk(8), false),
    ];
    let got: Vec<_> = i.accounts.iter().map(theirs).collect();
    assert_eq!(got, expected);
}

#[test]
fn init_mango_group_request() {
    let i = instruction::init_mango_group(
        &key(0), &key(1), &key(2), &key(3), &key(4), &key(5), &key(6), &key(7), &key(8), &key(9),
        &key(10), &key(11), &key(12), 254, 5, fixed(1), fixed(2), fixed(3),
    )
    .unwrap();
    assert_eq!(i.program_id, key(0));
    assert_eq!(
        i.accounts,
        vec![
            w(key(1)),
            r(key(2)),
            signer(key(3)),
            r(key(4)),
            r(key(5)),
            w(key(6)),
            w(key(7)),
            r(key(8)),
            r(key(9)),
            r(key(10)),
            w(key(11)),
            r(key(12)),
        ]
    );
    assert_eq!(
        i.data,
        MangoInstruction::InitMangoGroup {
            signer_nonce: 254,
            valid_interval: 5,
            quote_optimal_util: fixed(1),
            quote_optimal_rate: fixed(2),
            quote_max_rate: fixed(3),
        }
        .pack()
    );
    assert_eq!(i.data.len(), 68);
}

#[test]
fn init_mango_account_request() {
    let i = instruction::init_mango_account(&key(0), &key(1), &key(2), &key(3)).unwrap();
    assert_eq!(i.accounts, vec![r(key(1)), w(key(2)), signer(key(3)), r(rent_sysvar())]);
    assert_eq!(i.data, vec![1, 0, 0, 0]);
}

#[test]
fn add_spot_market_request() {
    let i = instruction::add_spot_market(
        &key(0), &key(1), &key(2), &key(3), &key(4), &key(5), &key(6), &key(7), &key(8), &key(9),
        fixed(1), fixed(2), fixed(3), fixed(4), fixed(5), fixed(6),
    )
    .unwrap();
    assert_eq!(
        i.accounts,
        vec![
            w(key(1)),
            r(key(2)),
            r(key(3)),
            r(key(4)),
            r(key(5)),
            w(key(6)),
            r(key(7)),
            w(key(8)),
            signer(key(9)),
        ]
    );
    assert_eq!(
        MangoInstruction::unpack(&i.data),
        Some(MangoInstruction::AddSpotMarket {
            maint_leverage: fixed(1),
            init_leverage: fixed(2),
            liquidation_fee: fixed(3),
            optimal_util: fixed(4),
            optimal_rate: fixed(5),
            max_rate: fixed(6),
        })
    );
}

#[test]
fn add_perp_market_request() {
    let i = instruction::add_perp_market(
        &key(0), &key(1), &key(2), &key(3), &key(4), &key(5), &key(6), &key(7), &key(8),
        fixed(1), fixed(2), fixed(3), fixed(4), fixed(5), 6, 7, fixed(8), fixed(9), 10, 11,
    )
    .unwrap();
    assert_eq!(
        i.accounts,
        vec![
            w(key(1)),
            w(key(2)),
            w(key(3)),
            w(key(4)),
            w(key(5)),
            w(key(6)),
            r(key(7)),
            signer(key(8)),
        ]
    );
    assert_eq!(
        MangoInstruction::unpack(&i.data),
        Some(MangoInstruction::AddPerpMarket {
            maint_leverage: fixed(1),
            init_leverage: fixed(2),
            liquidation_fee: fixed(3),
            maker_fee: fixed(4),
            taker_fee: fixed(5),
            base_lot_size: 6,
            quote_lot_size: 7,
            rate: fixed(8),
            max_depth_bps: fixed(9),
            target_period_length: 10,
            mngo_per_period: 11,
        })
    );
}

#[test]
fn place_perp_order_request() {
    let mut open_orders = [key(0); 15];
    for (i, pk) in open_orders.iter_mut().enumerate() {
        *pk = key(100 + i as u8);
    }
    let i = instruction::place_perp_order(
        &key(0), &key(1), &key(2), &key(3), &key(4), &key(5), &key(6), &key(7), &key(8),
        &open_orders, Side::Ask, -5, 6, 7, OrderType::ImmediateOrCancel,
    )
    .unwrap();
    let mut expected = vec![
        r(key(1)),
        w(key(2)),
        signer(key(3)),
        r(key(4)),
        w(key(5)),
        w(key(6)),
        w(key(7)),
        w(key(8)),
    ];
    expected.extend(open_orders.iter().map(|pk| r(*pk)));
    assert_eq!(i.accounts, expected);
    assert_eq!(i.accounts.len(), 23);
    assert_eq!(
        MangoInstruction::unpack(&i.data),
        Some(MangoInstruction::PlacePerpOrder {
            price: -5,
            quantity: 6,
            client_order_id: 7,
            side: Side::Ask,
            order_type: OrderType::ImmediateOrCancel,
        })
    );
}

fn perp_accounts() -> Vec<AccountMeta> {
    vec![r(key(1)), w(key(2)), signer(key(3)), w(key(4)), w(key(5)), w(key(6))]
}

#[test]
fn cancel_perp_order_by_client_id_request() {
    let i = instruction::cancel_perp_order_by_client_id(
        &key(0), &key(1), &key(2), &key(3), &key(4), &key(5), &key(6), 99, true,
    )
    .unwrap();
    assert_eq!(i.accounts, perp_accounts());
    assert_eq!(i.data, vec![13, 0, 0, 0, 99, 0, 0, 0, 0, 0, 0, 0, 1]);
}

#[test]
fn cancel_perp_order_request() {
    let i = instruction::cancel_perp_order(
        &key(0), &key(1), &key(2), &key(3), &key(4), &key(5), &key(6), -2, false,
    )
    .unwrap();
    assert_eq!(i.accounts, perp_accounts());
    let mut data = vec![14, 0, 0, 0];
    data.extend_from_slice(&[0xFE]);
    data.extend_from_slice(&[0xFF; 15]);
    data.push(0);
    assert_eq!(i.data, data);
}

#[test]
fn cancel_all_perp_orders_request() {
    let i = instruction::cancel_all_perp_orders(
        &key(0), &key(1), &key(2), &key(3), &key(4), &key(5), &key(6), 9,
    )
    .unwrap();
    assert_eq!(i.accounts, perp_accounts());
    assert_eq!(i.data, vec![39, 0, 0, 0, 9]);
}

#[test]
fn force_cancel_perp_orders_request() {
    let oo = [key(20), key(21)];
    let i = instruction::force_cancel_perp_orders(
        &key(0), &key(1), &key(2), &key(3), &key(4), &key(5), &key(6), &oo, 3,
    )
    .unwrap();
    assert_eq!(
        i.accounts,
        vec![r(key(1)), r(key(2)), r(key(3)), w(key(4)), w(key(5)), w(key(6)), r(key(20)), r(key(21))]
    );
    assert_eq!(i.data, vec![25, 0, 0, 0, 3]);
}

#[test]
fn consume_events_request_sorts_the_accounts() {
    let mut accounts = [key(9), key(3), key(200), key(3), key(0)];
    let i = instruction::consume_events(
        &key(0), &key(1), &key(2), &key(3), &key(4), &mut accounts, 8,
    )
    .unwrap();
    assert_eq!(accounts, [key(0), key(3), key(3), key(9), key(200)]);
    assert_eq!(
        i.accounts,
        vec![
            r(key(1)),
            r(key(2)),
            w(key(3)),
            w(key(4)),
            w(key(0)),
            w(key(3)),
            w(key(3)),
            w(key(9)),
            w(key(200)),
        ]
    );
    assert_eq!(i.data, vec![15, 0, 0, 0, 8, 0, 0, 0, 0, 0, 0, 0]);
}

#[test]
fn addresses_are_ordered_as_the_platform_orders_them() {
    let mut seed: u64 = 0x9E3779B97F4A7C15;
    let mut next = move || {
        seed ^= seed << 13;
        seed ^= seed >> 7;
        seed ^= seed << 17;
        seed
    };
    let mut ours = Vec::new();
    for _ in 0..60 {
        let mut bytes = [0u8; 32];
        for b in bytes.iter_mut() {
            // Few distinct bytes, so that many addresses share a prefix.
            *b = (next() % 3) as u8 * 100;
        }
        if next() % 4 == 0 {
            bytes = [(next() % 2) as u8; 32];
        }
        ours.push(Pubkey(bytes));
    }
    let mut theirs: Vec<_> =
        ours.iter().map(|pk| solana_program::pubkey::Pubkey::new_from_array(pk.0)).collect();
    for a in &ours {
        for b in &ours {
            let ta = solana_program::pubkey::Pubkey::new_from_array(a.0);
            let tb = solana_program::pubkey::Pubkey::new_from_array(b.0);
            assert_eq!(pubkey_lt(a, b), ta < tb);
        }
    }
    theirs.sort();
    sort_pubkeys(&mut ours);
    let sorted: Vec<_> = theirs.iter().map(|pk| Pubkey(pk.to_bytes())).collect();
    assert_eq!(ours, sorted);
}

#[test]
fn sorting_nothing_or_one_address() {
    let mut none: [Pubkey; 0] = [];
    sort_pubkeys(&mut none);
    let mut one = [key(5)];
    sort_pubkeys(&mut one);
    assert_eq!(one, [key(5)]);
    let i = instruction::consume_events(&key(0), &key(1), &key(2), &key(3), &key(4), &mut none, 1)
        .unwrap();
    assert_eq!(i.accounts.len(), 4);
}

#[test]
fn settle_pnl_request() {
    let i = instruction::settle_pnl(&key(0), &key(1), &key(2), &key(3), &key(4), &key(5), &key(6), 3)
        .unwrap();
    assert_eq!(i.accounts, vec![r(key(1)), w(key(2)), w(key(3)), r(key(4)), r(key(5)), w(key(6))]);
    assert_eq!(i.data, vec![22, 0, 0, 0, 3, 0, 0, 0, 0, 0, 0, 0]);
}

#[test]
fn update_funding_request() {
    let i = instruction::update_funding(&key(0), &key(1), &key(2), &key(3), &key(4), &key(5))
        .unwrap();
    assert_eq!(i.accounts, vec![r(key(1)), r(key(2)), w(key(3)), r(key(4)), r(key(5))]);
    assert_eq!(i.data, vec![17, 0, 0, 0]);
}

#[test]
fn withdraw_request() {
    let oo = [key(20), key(21), key(22)];
    let i = instruction::withdraw(
        &key(0), &key(1), &key(2), &key(3), &key(4), &key(5), &key(6), &key(7), &key(8), &key(9),
        &oo, 500, true,
    )
    .unwrap();
    assert_eq!(
        i.accounts,
        vec![
            w(key(1)),
            w(key(2)),
            signer(key(3)),
            r(key(4)),
            r(key(5)),
            w(key(6)),
            w(key(7)),
            w(key(8)),
            r(key(9)),
            r(token_program()),
            r(key(20)),
            r(key(21)),
            r(key(22)),
        ]
    );
    assert_eq!(i.data, vec![3, 0, 0, 0, 0xF4, 1, 0, 0, 0, 0, 0, 0, 1]);
}

#[test]
fn borrow_request_passes_the_open_orders_writable() {
    let oo = [key(20), key(21)];
    let i = instruction::borrow(
        &key(0), &key(1), &key(2), &key(3), &key(4), &key(5), &key(6), &oo, 9,
    )
    .unwrap();
    assert_eq!(
        i.accounts,
        vec![
            w(key(1)),
            w(key(2)),
            signer(key(4)),
            r(key(3)),
            r(key(5)),
            w(key(6)),
            w(key(20)),
            w(key(21)),
        ]
    );
    assert_eq!(i.data, vec![6, 0, 0, 0, 9, 0, 0, 0, 0, 0, 0, 0]);
}

#[test]
fn cache_requests() {
    let others = [key(20), key(21)];
    let expected = vec![r(key(1)), w(key(2)), r(key(20)), r(key(21))];
    let i = instruction::cache_prices(&key(0), &key(1), &key(2), &others).unwrap();
    assert_eq!((i.accounts, i.data), (expected.clone(), vec![7, 0, 0, 0]));
    let i = instruction::cache_root_banks(&key(0), &key(1), &key(2), &others).unwrap();
    assert_eq!((i.accounts, i.data), (expected.clone(), vec![8, 0, 0, 0]));
    let i = instruction::cache_perp_markets(&key(0), &key(1), &key(2), &others).unwrap();
    assert_eq!((i.accounts, i.data), (expected, vec![16, 0, 0, 0]));
    let i = instruction::cache_prices(&key(0), &key(1), &key(2), &[]).unwrap();
    assert_eq!(i.accounts, vec![r(key(1)), w(key(2))]);
}

#[test]
fn init_spot_open_orders_request() {
    let i = instruction::init_spot_open_orders(
        &key(0), &key(1), &key(2), &key(3), &key(4), &key(5), &key(6), &key(7),
    )
    .unwrap();
    assert_eq!(
        i.accounts,
        vec![
            r(key(1)),
            w(key(2)),
            signer(key(3)),
            r(key(4)),
            w(key(5)),
            r(key(6)),
            r(key(7)),
            r(rent_sysvar()),
        ]
    );
    assert_eq!(i.data, vec![32, 0, 0, 0]);
}

fn spot_order() -> dex::NewOrderInstructionV3 {
    dex::NewOrderInstructionV3 {
        side: dex::Side::Bid,
        limit_price: 1,
        max_coin_qty: 2,
        max_native_pc_qty_including_fees: 3,
        self_trade_behavior: dex::SelfTradeBehavior::DecrementTake,
        order_type: dex::OrderType::Limit,
        client_order_id: 4,
        limit: 5,
    }
}

#[test]
fn place_spot_order_request() {
    let oo = [key(30), key(31), key(32)];
    let i = instruction::place_spot_order(
        &key(0), &key(1), &key(2), &key(3), &key(4), &key(5), &key(6), &key(7), &key(8), &key(9),
        &key(10), &key(11), &key(12), &key(13), &key(14), &key(15), &key(16), &key(17), &key(18),
        &key(19), &key(20), &key(21), &oo, 1, spot_order(),
    )
    .unwrap();
    assert_eq!(
        i.accounts,
        vec![
            r(key(1)),
            w(key(2)),
            signer(key(3)),
            r(key(4)),
            r(key(5)),
            w(key(6)),
            w(key(7)),
            w(key(8)),
            w(key(9)),
            w(key(10)),
            w(key(11)),
            w(key(12)),
            r(key(13)),
            w(key(14)),
            w(key(15)),
            r(key(16)),
            w(key(17)),
            w(key(18)),
            r(token_program()),
            r(key(19)),
            r(rent_sysvar()),
            r(key(20)),
            r(key(21)),
            r(key(30)),
            w(key(31)),
            r(key(32)),
        ]
    );
    assert_eq!(
        MangoInstruction::unpack(&i.data),
        Some(MangoInstruction::PlaceSpotOrder { order: spot_order() })
    );
}

#[test]
fn place_spot_order_request_with_an_index_beyond_the_accounts() {
    let oo = [key(30), key(31)];
    let i = instruction::place_spot_order(
        &key(0), &key(1), &key(2), &key(3), &key(4), &key(5), &key(6), &key(7), &key(8), &key(9),
        &key(10), &key(11), &key(12), &key(13), &key(14), &key(15), &key(16), &key(17), &key(18),
        &key(19), &key(20), &key(21), &oo, 2, spot_order(),
    )
    .unwrap();
    assert_eq!(&i.accounts[23..], &[r(key(30)), r(key(31))]);
}

#[test]
fn settle_funds_request() {
    let i = instruction::settle_funds(
        &key(0), &key(1), &key(2), &key(3), &key(4), &key(5), &key(6), &key(7), &key(8), &key(9),
        &key(10), &key(11), &key(12), &key(13), &key(14), &key(15), &key(16), &key(17),
    )
    .unwrap();
    assert_eq!(
        i.accounts,
        vec![
            r(key(1)),
            r(key(2)),
            signer(key(3)),
            w(key(4)),
            r(key(5)),
            w(key(6)),
            w(key(7)),
            r(key(8)),
            w(key(9)),
            w(key(10)),
            r(key(11)),
            w(key(12)),
            r(key(13)),
            w(key(14)),
            w(key(15)),
            w(key(16)),
            r(key(17)),
            r(token_program()),
        ]
    );
    assert_eq!(i.data, vec![19, 0, 0, 0]);
}

#[test]
fn oracle_requests() {
    let i = instruction::add_oracle(&key(0), &key(1), &key(2), &key(3)).unwrap();
    assert_eq!(i.accounts, vec![w(key(1)), w(key(2)), signer(key(3))]);
    assert_eq!(i.data, vec![10, 0, 0, 0]);
    let i = instruction::set_oracle(&key(0), &key(1), &key(2), &key(3), fixed(256)).unwrap();
    assert_eq!(i.accounts, vec![r(key(1)), w(key(2)), signer(key(3))]);
    let mut data = vec![18, 0, 0, 0, 0, 1];
    data.extend_from_slice(&[0; 14]);
    assert_eq!(i.data, data);
}

#[test]
fn update_root_bank_request() {
    let nodes = [key(20)];
    let i = instruction::update_root_bank(&key(0), &key(1), &key(2), &key(3), &nodes).unwrap();
    assert_eq!(i.accounts, vec![r(key(1)), w(key(2)), w(key(3)), r(key(20))]);
    assert_eq!(i.data, vec![21, 0, 0, 0]);
}

#[test]
fn liquidate_token_and_token_request() {
    let liqee = [key(20), key(21)];
    let liqor = [key(30)];
    let i = instruction::liquidate_token_and_token(
        &key(0), &key(1), &key(2), &key(3), &key(4), &key(5), &key(6), &key(7), &key(8), &key(9),
        &liqee, &liqor, fixed(-1),
    )
    .unwrap();
    assert_eq!(
        i.accounts,
        vec![
            r(key(1)),
            r(key(2)),
            w(key(3)),
            w(key(4)),
            signer(key(5)),
            r(key(6)),
            w(key(7)),
            r(key(8)),
            w(key(9)),
            r(key(20)),
            r(key(21)),
            r(key(30)),
        ]
    );
    let mut data = vec![26, 0, 0, 0];
    data.extend_from_slice(&[0xFF; 16]);
    assert_eq!(i.data, data);
}
