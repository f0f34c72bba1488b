use mango::dex;
use mango::fixed_point::I80F48;
use mango::instruction::MangoInstruction;
use mango::matching::{OrderType, Side};
use mango::state::AssetType;

fn fixed(bits: i128) -> I80F48 {
    I80F48 { bits }
}

const ONE: i128 = 1 << 48;

#[test]
fn unpack_rejects_short_input() {
    assert_eq!(MangoInstruction::unpack(&[]), None);
    assert_eq!(MangoInstruction::unpack(&[2, 0, 0]), None);
}

#[test]
fn unpack_rejects_unknown_kind() {
    assert_eq!(MangoInstruction::unpack(&[41, 0, 0, 0]), None);
    assert_eq!(MangoInstruction::unpack(&[1, 1, 0, 0]), None);
    assert_eq!(MangoInstruction::unpack(&[255, 255, 255, 255, 0, 0, 0, 0, 0, 0, 0, 0]), None);
}

#[test]
fn unpack_rejects_truncated_payload() {
    assert_eq!(MangoInstruction::unpack(&[2, 0, 0, 0, 1, 2, 3, 4, 5, 6, 7]), None);
    let mut full = vec![0u8; 68];
    full[0] = 0;
    assert!(MangoInstruction::unpack(&full).is_some());
    assert_eq!(MangoInstruction::unpack(&full[..67]), None);
}

#[test]
fn unpack_deposit() {
    let input = [2, 0, 0, 0, 0x10, 0x27, 0, 0, 0, 0, 0, 0];
    assert_eq!(
        MangoInstruction::unpack(&input),
        Some(MangoInstruction::Deposit { quantity: 10_000 })
    );
}

#[test]
fn unpack_ignores_trailing_bytes() {
    let input = [2, 0, 0, 0, 1, 0, 0, 0, 0, 0, 0, 0, 9, 9, 9];
    assert_eq!(MangoInstruction::unpack(&input), Some(MangoInstruction::Deposit { quantity: 1 }));
    assert_eq!(
        MangoInstruction::unpack(&[1, 0, 0, 0, 7]),
        Some(MangoInstruction::InitMangoAccount)
    );
}

#[test]
fn unpack_withdraw_wants_a_strict_boolean() {
    let mut input = vec![3, 0, 0, 0, 5, 0, 0, 0, 0, 0, 0, 0, 1];
    assert_eq!(
        MangoInstruction::unpack(&input),
        Some(MangoInstruction::Withdraw { quantity: 5, allow_borrow: true })
    );
    input[12] = 0;
    assert_eq!(
        MangoInstruction::unpack(&input),
        Some(MangoInstruction::Withdraw { quantity: 5, allow_borrow: false })
    );
    input[12] = 2;
    assert_eq!(MangoInstruction::unpack(&input), None);
}

#[test]
fn unpack_cancel_wants_a_strict_boolean() {
    let mut input = vec![13, 0, 0, 0, 9, 0, 0, 0, 0, 0, 0, 0, 1];
    assert_eq!(
        MangoInstruction::unpack(&input),
        Some(MangoInstruction::CancelPerpOrderByClientId { client_order_id: 9, invalid_id_ok: true })
    );
    input[12] = 0;
    assert_eq!(
        MangoInstruction::unpack(&input),
        Some(MangoInstruction::CancelPerpOrderByClientId {
            client_order_id: 9,
            invalid_id_ok: false
        })
    );
    for byte in [2u8, 3, 128, 255] {
        input[12] = byte;
        assert_eq!(MangoInstruction::unpack(&input), None);
    }
    let mut input = vec![14, 0, 0, 0];
    input.extend_from_slice(&5i128.to_le_bytes());
    input.push(1);
    assert_eq!(
        MangoInstruction::unpack(&input),
        Some(MangoInstruction::CancelPerpOrder { order_id: 5, invalid_id_ok: true })
    );
    for byte in [2u8, 255] {
        input[20] = byte;
        assert_eq!(MangoInstruction::unpack(&input), None);
    }
}

#[test]
fn unpack_signed_fields() {
    let mut input = vec![28, 0, 0, 0];
    input.extend_from_slice(&(-3i64).to_le_bytes());
    assert_eq!(
        MangoInstruction::unpack(&input),
        Some(MangoInstruction::LiquidatePerpMarket { base_transfer_request: -3 })
    );
    let mut input = vec![14, 0, 0, 0];
    input.extend_from_slice(&i128::MIN.to_le_bytes());
    input.push(1);
    assert_eq!(
        MangoInstruction::unpack(&input),
        Some(MangoInstruction::CancelPerpOrder { order_id: i128::MIN, invalid_id_ok: true })
    );
    let mut input = vec![14, 0, 0, 0];
    input.extend_from_slice(&(-1i128).to_le_bytes());
    input.push(0);
    assert_eq!(
        MangoInstruction::unpack(&input),
        Some(MangoInstruction::CancelPerpOrder { order_id: -1, invalid_id_ok: false })
    );
}

#[test]
fn unpack_set_oracle_reads_the_bits_of_the_price() {
    let price = fixed::types::I80F48::from_num(12.5);
    let mut input = vec![18, 0, 0, 0];
    input.extend_from_slice(&price.to_le_bytes());
    assert_eq!(
        MangoInstruction::unpack(&input),
        Some(MangoInstruction::SetOracle { price: fixed(25 * ONE / 2) })
    );
    let negative = fixed::types::I80F48::from_num(-0.25);
    let mut input = vec![18, 0, 0, 0];
    input.extend_from_slice(&negative.to_le_bytes());
    assert_eq!(
        MangoInstruction::unpack(&input),
        Some(MangoInstruction::SetOracle { price: fixed(-ONE / 4) })
    );
}

#[test]
fn unpack_place_perp_order() {
    let mut input = vec![12, 0, 0, 0];
    input.extend_from_slice(&100i64.to_le_bytes());
    input.extend_from_slice(&(-2i64).to_le_bytes());
    input.extend_from_slice(&77u64.to_le_bytes());
    input.push(1);
    input.push(2);
    assert_eq!(
        MangoInstruction::unpack(&input),
        Some(MangoInstruction::PlacePerpOrder {
            price: 100,
            quantity: -2,
            client_order_id: 77,
            side: Side::Ask,
            order_type: OrderType::PostOnly,
        })
    );
    input[28] = 2;
    assert_eq!(MangoInstruction::unpack(&input), None);
    input[28] = 0;
    input[29] = 3;
    assert_eq!(MangoInstruction::unpack(&input), None);
}

fn spot_order_bytes(side: u32, price: u64, coin: u64, pc: u64, stb: u32, ot: u32) -> Vec<u8> {
    let mut input = vec![9, 0, 0, 0];
    input.extend_from_slice(&side.to_le_bytes());
    input.extend_from_slice(&price.to_le_bytes());
    input.extend_from_slice(&coin.to_le_bytes());
    input.extend_from_slice(&pc.to_le_bytes());
    input.extend_from_slice(&stb.to_le_bytes());
    input.extend_from_slice(&ot.to_le_bytes());
    input.extend_from_slice(&42u64.to_le_bytes());
    input.extend_from_slice(&65535u16.to_le_bytes());
    input
}

#[test]
fn unpack_place_spot_order() {
    let input = spot_order_bytes(1, 10, 20, 30, 2, 1);
    assert_eq!(
        MangoInstruction::unpack(&input),
        Some(MangoInstruction::PlaceSpotOrder {
            order: dex::NewOrderInstructionV3 {
                side: dex::Side::Ask,
                limit_price: 10,
                max_coin_qty: 20,
                max_native_pc_qty_including_fees: 30,
                self_trade_behavior: dex::SelfTradeBehavior::AbortTransaction,
                order_type: dex::OrderType::ImmediateOrCancel,
                client_order_id: 42,
                limit: 65535,
            }
        })
    );
    let input = spot_order_bytes(0, 10, 20, 30, 0, 0);
    assert_eq!(
        MangoInstruction::unpack(&input),
        Some(MangoInstruction::PlaceSpotOrder {
            order: dex::NewOrderInstructionV3 {
                side: dex::Side::Bid,
                limit_price: 10,
                max_coin_qty: 20,
                max_native_pc_qty_including_fees: 30,
                self_trade_behavior: dex::SelfTradeBehavior::DecrementTake,
                order_type: dex::OrderType::Limit,
                client_order_id: 42,
                limit: 65535,
            }
        })
    );
}

#[test]
fn unpack_place_spot_order_rejects_bad_fields() {
    assert_eq!(MangoInstruction::unpack(&spot_order_bytes(2, 10, 20, 30, 0, 0)), None);
    assert_eq!(MangoInstruction::unpack(&spot_order_bytes(256, 10, 20, 30, 0, 0)), None);
    assert_eq!(MangoInstruction::unpack(&spot_order_bytes(0, 0, 20, 30, 0, 0)), None);
    assert_eq!(MangoInstruction::unpack(&spot_order_bytes(0, 10, 0, 30, 0, 0)), None);
    assert_eq!(MangoInstruction::unpack(&spot_order_bytes(0, 10, 20, 0, 0, 0)), None);
    assert_eq!(MangoInstruction::unpack(&spot_order_bytes(0, 10, 20, 30, 3, 0)), None);
    assert_eq!(MangoInstruction::unpack(&spot_order_bytes(0, 10, 20, 30, 0, 3)), None);
    assert_eq!(MangoInstruction::unpack(&spot_order_bytes(0, 10, 20, 30, 0x100, 0)), None);
    assert_eq!(MangoInstruction::unpack(&spot_order_bytes(0, 10, 20, 30, 0, 0x1_0000)), None);
    assert_eq!(MangoInstruction::unpack(&spot_order_bytes(0, 10, 20, 30, 0, 0)[..49]), None);
}

#[test]
fn unpack_cancel_spot_order() {
    let mut input = vec![20, 0, 0, 0, 1, 0, 0, 0];
    input.extend_from_slice(&u128::MAX.to_le_bytes());
    assert_eq!(
        MangoInstruction::unpack(&input),
        Some(MangoInstruction::CancelSpotOrder {
            order: dex::CancelOrderInstructionV2 { side: dex::Side::Ask, order_id: u128::MAX }
        })
    );
    input[4] = 2;
    assert_eq!(MangoInstruction::unpack(&input), None);
}

#[test]
fn unpack_liquidate_token_and_perp() {
    let mut input = vec![27, 0, 0, 0];
    input.push(0);
    input.extend_from_slice(&3u64.to_le_bytes());
    input.push(1);
    input.extend_from_slice(&15u64.to_le_bytes());
    input.extend_from_slice(&(5 * ONE).to_le_bytes());
    assert_eq!(
        MangoInstruction::unpack(&input),
        Some(MangoInstruction::LiquidateTokenAndPerp {
            asset_type: AssetType::Token,
            asset_index: 3,
            liab_type: AssetType::Perp,
            liab_index: 15,
            max_liab_transfer: fixed(5 * ONE),
        })
    );
    input[4] = 2;
    assert_eq!(MangoInstruction::unpack(&input), None);
    input[4] = 1;
    input[13] = 9;
    assert_eq!(MangoInstruction::unpack(&input), None);
}

#[test]
fn unpack_change_perp_market_params() {
    let mut input = vec![37, 0, 0, 0];
    for k in 0..7i128 {
        if k % 2 == 0 {
            input.push(1);
            input.extend_from_slice(&(k * ONE).to_le_bytes());
        } else {
            input.push(0);
            input.extend_from_slice(&[0xAB; 16]);
        }
    }
    input.push(7);
    input.extend_from_slice(&3600u64.to_le_bytes());
    input.push(0);
    input.extend_from_slice(&[0xCD; 8]);
    assert_eq!(input.len(), 4 + 137);
    assert_eq!(
        MangoInstruction::unpack(&input),
        Some(MangoInstruction::ChangePerpMarketParams {
            maint_leverage: Some(fixed(0)),
            init_leverage: None,
            liquidation_fee: Some(fixed(2 * ONE)),
            maker_fee: None,
            taker_fee: Some(fixed(4 * ONE)),
            rate: None,
            max_depth_bps: Some(fixed(6 * ONE)),
            target_period_length: Some(3600),
            mngo_per_period: None,
        })
    );
    assert_eq!(MangoInstruction::unpack(&input[..140]), None);
}

#[test]
fn unpack_account_info() {
    let mut input = vec![34, 0, 0, 0];
    let mut info = [0u8; 32];
    for (i, b) in info.iter_mut().enumerate() {
        *b = i as u8 + 1;
    }
    input.extend_from_slice(&info);
    assert_eq!(
        MangoInstruction::unpack(&input),
        Some(MangoInstruction::AddMangoAccountInfo { info })
    );
}

#[test]
fn pack_deposit_is_discriminant_then_quantity() {
    assert_eq!(
        MangoInstruction::Deposit { quantity: 0x0102030405060708 }.pack(),
        vec![2, 0, 0, 0, 8, 7, 6, 5, 4, 3, 2, 1]
    );
    assert_eq!(MangoInstruction::ForceSettleQuotePositions.pack(), vec![40, 0, 0, 0]);
    assert_eq!(MangoInstruction::InitMangoAccount.pack(), vec![1, 0, 0, 0]);
}

#[test]
fn pack_optional_fields_keep_their_width() {
    let packed = MangoInstruction::ChangePerpMarketParams {
        maint_leverage: None,
        init_leverage: Some(fixed(-1)),
        liquidation_fee: None,
        maker_fee: None,
        taker_fee: None,
        rate: None,
        max_depth_bps: None,
        target_period_length: None,
        mngo_per_period: Some(258),
    }
    .pack();
    assert_eq!(packed.len(), 4 + 137);
    assert_eq!(&packed[..4], &[37, 0, 0, 0]);
    assert_eq!(&packed[4..21], &[0u8; 17]);
    assert_eq!(packed[21], 1);
    assert_eq!(&packed[22..38], &[0xFF; 16]);
    assert_eq!(&packed[132..141], &[1, 2, 1, 0, 0, 0, 0, 0, 0]);
}

#[test]
fn pack_spot_order_matches_the_venue_encoding() {
    let order = dex::NewOrderInstructionV3 {
        side: dex::Side::Ask,
        limit_price: 1_000,
        max_coin_qty: 5,
        max_native_pc_qty_including_fees: 5_100,
        self_trade_behavior: dex::SelfTradeBehavior::CancelProvide,
        order_type: dex::OrderType::PostOnly,
        client_order_id: 99,
        limit: 10,
    };
    let theirs = serum_dex::instruction::NewOrderInstructionV3 {
        side: serum_dex::matching::Side::Ask,
        limit_price: std::num::NonZeroU64::new(1_000).unwrap(),
        max_coin_qty: std::num::NonZeroU64::new(5).unwrap(),
        max_native_pc_qty_including_fees: std::num::NonZeroU64::new(5_100).unwrap(),
        self_trade_behavior: serum_dex::instruction::SelfTradeBehavior::CancelProvide,
        order_type: serum_dex::matching::OrderType::PostOnly,
        client_order_id: 99,
        limit: 10,
    };
    let packed = MangoInstruction::PlaceSpotOrder { order }.pack();
    assert_eq!(&packed[..4], &[9, 0, 0, 0]);
    assert_eq!(&packed[4..], &bincode::serialize(&theirs).unwrap()[..]);
}

#[test]
fn pack_fixed_point_matches_the_number_crate() {
    let price = fixed::types::I80F48::from_num(-1234.5678);
    let packed = MangoInstruction::SetOracle { price: fixed(price.to_bits()) }.pack();
    assert_eq!(&packed[..4], &[18, 0, 0, 0]);
    assert_eq!(&packed[4..], &bincode::serialize(&price).unwrap()[..]);
    assert_eq!(&packed[4..], &price.to_le_bytes()[..]);
}

fn samples() -> Vec<MangoInstruction> {
    let f = |n: i128| fixed(n * ONE / 8);
    vec![
        MangoInstruction::InitMangoGroup {
            signer_nonce: 254,
            valid_interval: 5,
            quote_optimal_util: f(7),
            quote_optimal_rate: f(1),
            quote_max_rate: f(12),
        },
        MangoInstruction::InitMangoAccount,
        MangoInstruction::Deposit { quantity: u64::MAX },
        MangoInstruction::Withdraw { quantity: 1, allow_borrow: true },
        MangoInstruction::Withdraw { quantity: 0, allow_borrow: false },
        MangoInstruction::AddSpotMarket {
            maint_leverage: f(80),
            init_leverage: f(40),
            liquidation_fee: f(1),
            optimal_util: f(6),
            optimal_rate: f(2),
            max_rate: f(16),
        },
        MangoInstruction::AddToBasket { market_index: 14 },
        MangoInstruction::Borrow { quantity: 1 << 40 },
        MangoInstruction::CachePrices,
        MangoInstruction::CacheRootBanks,
        MangoInstruction::PlaceSpotOrder {
            order: dex::NewOrderInstructionV3 {
                side: dex::Side::Bid,
                limit_price: 1,
                max_coin_qty: u64::MAX,
                max_native_pc_qty_including_fees: 3,
                self_trade_behavior: dex::SelfTradeBehavior::DecrementTake,
                order_type: dex::OrderType::Limit,
                client_order_id: 0,
                limit: 0,
            },
        },
        MangoInstruction::AddOracle,
        MangoInstruction::AddPerpMarket {
            maint_leverage: f(160),
            init_leverage: f(80),
            liquidation_fee: f(1),
            maker_fee: fixed(-5),
            taker_fee: fixed(5),
            base_lot_size: 100,
            quote_lot_size: i64::MIN,
            rate: f(3),
            max_depth_bps: f(200),
            target_period_length: 3600,
            mngo_per_period: 1_000_000,
        },
        MangoInstruction::PlacePerpOrder {
            price: i64::MAX,
            quantity: -1,
            client_order_id: 5,
            side: Side::Bid,
            order_type: OrderType::ImmediateOrCancel,
        },
        MangoInstruction::CancelPerpOrderByClientId { client_order_id: 9, invalid_id_ok: false },
        MangoInstruction::CancelPerpOrder { order_id: i128::MAX, invalid_id_ok: true },
        MangoInstruction::CancelPerpOrder { order_id: i128::MIN, invalid_id_ok: true },
        MangoInstruction::ConsumeEvents { limit: 8 },
        MangoInstruction::CachePerpMarkets,
        MangoInstruction::UpdateFunding,
        MangoInstruction::SetOracle { price: fixed(i128::MIN) },
        MangoInstruction::SettleFunds,
        MangoInstruction::CancelSpotOrder {
            order: dex::CancelOrderInstructionV2 { side: dex::Side::Bid, order_id: 1 << 100 },
        },
        MangoInstruction::UpdateRootBank,
        MangoInstruction::SettlePnl { market_index: 0 },
        MangoInstruction::SettleBorrow { token_index: 15, quantity: 3 },
        MangoInstruction::ForceCancelSpotOrders { limit: 255 },
        MangoInstruction::ForceCancelPerpOrders { limit: 0 },
        MangoInstruction::LiquidateTokenAndToken { max_liab_transfer: fixed(i128::MAX) },
        MangoInstruction::LiquidateTokenAndPerp {
            asset_type: AssetType::Perp,
            asset_index: 2,
            liab_type: AssetType::Token,
            liab_index: 15,
            max_liab_transfer: f(-3),
        },
        MangoInstruction::LiquidatePerpMarket { base_transfer_request: i64::MIN },
        MangoInstruction::SettleFees,
        MangoInstruction::ResolvePerpBankruptcy { liab_index: 1, max_liab_transfer: f(1000) },
        MangoInstruction::ResolveTokenBankruptcy { max_liab_transfer: fixed(1) },
        MangoInstruction::InitSpotOpenOrders,
        MangoInstruction::RedeemMngo,
        MangoInstruction::AddMangoAccountInfo { info: [0x41; 32] },
        MangoInstruction::DepositMsrm { quantity: 1 },
        MangoInstruction::WithdrawMsrm { quantity: 2 },
        MangoInstruction::ChangePerpMarketParams {
            maint_leverage: Some(f(1)),
            init_leverage: None,
            liquidation_fee: Some(fixed(-1)),
            maker_fee: None,
            taker_fee: None,
            rate: Some(fixed(0)),
            max_depth_bps: None,
            target_period_length: Some(0),
            mngo_per_period: None,
        },
        MangoInstruction::SetGroupAdmin,
        MangoInstruction::CancelAllPerpOrders { limit: 20 },
        MangoInstruction::ForceSettleQuotePositions,
    ]
}

#[test]
fn unpack_undoes_pack() {
    for instr in samples() {
        let packed = instr.pack();
        assert_eq!(MangoInstruction::unpack(&packed), Some(instr.clone()), "{:?}", instr);
    }
}

#[test]
fn every_kind_has_its_own_discriminant() {
    let mut seen = vec![false; 41];
    for instr in samples() {
        let packed = instr.pack();
        assert_eq!(&packed[1..4], &[0, 0, 0]);
        seen[packed[0] as usize] = true;
    }
    assert!(seen.iter().all(|s| *s));
}

#[test]
fn unpack_of_a_shortened_request_fails() {
    for instr in samples() {
        let packed = instr.pack();
        if packed.len() > 4 {
            assert_eq!(MangoInstruction::unpack(&packed[..packed.len() - 1]), None, "{:?}", instr);
        }
    }
}

#[test]
fn unpack_dex_new_order_v3_reads_46_bytes() {
    let input = spot_order_bytes(1, 10, 20, 30, 1, 2);
    let order = mango::instruction::unpack_dex_new_order_v3(&input[4..]).unwrap();
    assert_eq!(order.side, dex::Side::Ask);
    assert_eq!(order.self_trade_behavior, dex::SelfTradeBehavior::CancelProvide);
    assert_eq!(order.order_type, dex::OrderType::PostOnly);
    assert_eq!(order.limit, 65535);
}

#[test]
fn decode_reports_malformed_input() {
    use_decode(&[], None);
    use_decode(&[99, 0, 0, 0], None);
    use_decode(&[3, 0, 0, 0, 5, 0, 0, 0, 0, 0, 0, 0, 7], None);
    use_decode(&[7, 0, 0, 0], Some(MangoInstruction::CachePrices));
}

fn use_decode(input: &[u8], expected: Option<MangoInstruction>) {
    match expected {
        Some(i) => assert_eq!(MangoInstruction::decode(input), Ok(i)),
        None => {
            assert_eq!(MangoInstruction::decode(input), Err(mango::error::MangoError::MalformedInput))
        }
    }
}

#[test]
fn unpack_dex_new_order_v3_wants_46_bytes() {
    let input = spot_order_bytes(1, 10, 20, 30, 1, 2);
    assert!(mango::instruction::unpack_dex_new_order_v3(&input[4..50]).is_some());
    assert_eq!(mango::instruction::unpack_dex_new_order_v3(&input[4..49]), None);
    assert_eq!(mango::instruction::unpack_dex_new_order_v3(&[]), None);
}
