//! The requests that the program accepts, and their wire format.
//!
//! A request is a 4-byte little-endian discriminant that selects the kind of
//! call, followed by the fields of that kind, packed without padding in the
//! order in which the variant lists them. Fixed-point numbers take 16 bytes,
//! booleans one byte that is 0 or 1, slot indices 8 bytes, and an optional
//! field takes a flag byte followed by the full width of the value whether it
//! is present or not. Bytes after the last field are ignored.
use crate::error::MangoError;
use crate::fixed_point::I80F48;
use crate::matching::{OrderType, Side};
use crate::order::{sort_pubkeys, sorted};
use crate::solana::{
    account_meta_new, account_meta_new_readonly, extend_readonly, extend_writable,
    extend_writable_at, metas_writable_at, readonly, readonly_metas, rent_sysvar_id, spl_token_id,
    sysvar_rent_id, token_program_id, writable, writable_metas, AccountMeta, Instruction,
    InstructionView, Pubkey,
};
use crate::state::{AssetType, INFO_LEN, MAX_PAIRS};
use crate::wire::{
    field, le_bytes, le_signed, le_signed_bytes, le_value, lemma_le_bytes_len,
    lemma_le_signed_of_bytes, lemma_le_value_of_bytes, lemma_pow256_values, read_i128, read_i64,
    read_u128, read_u32, read_u64, write_i128, write_i64, write_u128, write_u16, write_u32,
    write_u64,
};
use crate::{dex, fixed_point};
use solana_program::program_error::ProgramError;
use vstd::prelude::*;
use vstd::slice::slice_subrange;

verus! {

/// A request to the program.
#[derive(Clone, Debug, PartialEq)]
pub enum MangoInstruction {
    /// Creates a group of lending pools that can be cross-margined, with its
    /// quote token.
    InitMangoGroup {
        signer_nonce: u64,
        valid_interval: u64,
        quote_optimal_util: I80F48,
        quote_optimal_rate: I80F48,
        quote_max_rate: I80F48,
    },
    /// Creates a margin account for a user.
    InitMangoAccount,
    /// Moves tokens of the owner into the account.
    Deposit { quantity: u64 },
    /// Moves tokens out of the account, borrowing what the deposit does not
    /// cover if `allow_borrow` is set.
    Withdraw { quantity: u64, allow_borrow: bool },
    /// Lists a token and its spot market in the group.
    AddSpotMarket {
        maint_leverage: I80F48,
        init_leverage: I80F48,
        liquidation_fee: I80F48,
        optimal_util: I80F48,
        optimal_rate: I80F48,
        max_rate: I80F48,
    },
    /// No longer in use.
    AddToBasket { market_index: usize },
    /// No longer in use: a withdrawal with `allow_borrow` borrows.
    Borrow { quantity: u64 },
    /// Refreshes the cached oracle prices.
    CachePrices,
    /// Refreshes the cached deposit and borrow indices.
    CacheRootBanks,
    /// Places an order on the spot venue on behalf of the account.
    PlaceSpotOrder { order: dex::NewOrderInstructionV3 },
    /// Registers an oracle with the group.
    AddOracle,
    /// Lists a perp market in the group.
    AddPerpMarket {
        maint_leverage: I80F48,
        init_leverage: I80F48,
        liquidation_fee: I80F48,
        maker_fee: I80F48,
        taker_fee: I80F48,
        base_lot_size: i64,
        quote_lot_size: i64,
        /// Starting rate of the liquidity incentives.
        rate: I80F48,
        /// The depth that the market follows, in hundredths of a percent of the
        /// oracle price.
        max_depth_bps: I80F48,
        /// Intended length of one incentive period, in seconds.
        target_period_length: u64,
        /// Incentive tokens handed out per period.
        mngo_per_period: u64,
    },
    /// Places an order on a perp market.
    PlacePerpOrder {
        price: i64,
        quantity: i64,
        client_order_id: u64,
        side: Side,
        order_type: OrderType,
    },
    /// Cancels the perp order that carries the client's id.
    CancelPerpOrderByClientId { client_order_id: u64, invalid_id_ok: bool },
    /// Cancels a perp order by the id that the book gave it.
    CancelPerpOrder { order_id: i128, invalid_id_ok: bool },
    /// Applies up to `limit` events of a perp market to the accounts they name.
    ConsumeEvents { limit: usize },
    /// Refreshes the cached funding of the perp markets.
    CachePerpMarkets,
    /// Brings the funding of a perp market up to date.
    UpdateFunding,
    /// Sets the price of a stub oracle.
    SetOracle { price: I80F48 },
    /// Collects what the spot venue owes the account.
    SettleFunds,
    /// Cancels an order on the spot venue.
    CancelSpotOrder { order: dex::CancelOrderInstructionV2 },
    /// Brings the indices of a token up to date.
    UpdateRootBank,
    /// Settles profit and loss of a perp market between two accounts.
    SettlePnl { market_index: usize },
    /// No longer in use.
    SettleBorrow { token_index: usize, quantity: u64 },
    /// Cancels up to `limit` spot orders of an account that is being
    /// liquidated.
    ForceCancelSpotOrders { limit: u8 },
    /// Cancels up to `limit` perp orders of an account that is being
    /// liquidated.
    ForceCancelPerpOrders { limit: u8 },
    /// The liquidator repays a borrow of the account and receives one of its
    /// deposits.
    LiquidateTokenAndToken { max_liab_transfer: I80F48 },
    /// The liquidator swaps a token against the quote balance of a perp
    /// position whose base position is zero.
    LiquidateTokenAndPerp {
        asset_type: AssetType,
        asset_index: usize,
        liab_type: AssetType,
        liab_index: usize,
        max_liab_transfer: I80F48,
    },
    /// The liquidator takes over base lots of a perp position.
    LiquidatePerpMarket { base_transfer_request: i64 },
    /// Moves the fees that a perp market has accrued to the fee vault.
    SettleFees,
    /// Covers the loss of a bankrupt perp position from the insurance fund and
    /// spreads what is left over the market.
    ResolvePerpBankruptcy { liab_index: usize, max_liab_transfer: I80F48 },
    /// Covers a bankrupt borrow from the insurance fund and spreads what is
    /// left over the depositors of the token.
    ResolveTokenBankruptcy { max_liab_transfer: I80F48 },
    /// Creates the account's open-orders account on a spot market.
    InitSpotOpenOrders,
    /// Turns the incentives that a perp position has earned into a deposit.
    RedeemMngo,
    /// Labels the account.
    AddMangoAccountInfo { info: [u8; INFO_LEN] },
    /// Deposits fee-discount tokens, which take no part in health.
    DepositMsrm { quantity: u64 },
    /// Withdraws fee-discount tokens.
    WithdrawMsrm { quantity: u64 },
    /// Changes the parameters of a perp market that are given.
    ChangePerpMarketParams {
        maint_leverage: Option<I80F48>,
        init_leverage: Option<I80F48>,
        liquidation_fee: Option<I80F48>,
        maker_fee: Option<I80F48>,
        taker_fee: Option<I80F48>,
        rate: Option<I80F48>,
        max_depth_bps: Option<I80F48>,
        target_period_length: Option<u64>,
        mngo_per_period: Option<u64>,
    },
    /// Hands the administration of the group to another account.
    SetGroupAdmin,
    /// Cancels up to `limit` perp orders of the account.
    CancelAllPerpOrders { limit: u8 },
    /// No longer in use.
    ForceSettleQuotePositions,
}

/// The `u64` at `off`.
pub open spec fn u64_at(d: Seq<u8>, off: int) -> u64 {
    le_value(field(d, off, 8)) as u64
}

/// The `i64` at `off`.
pub open spec fn i64_at(d: Seq<u8>, off: int) -> i64 {
    le_signed(field(d, off, 8)) as i64
}

/// The `u128` at `off`.
pub open spec fn u128_at(d: Seq<u8>, off: int) -> u128 {
    le_value(field(d, off, 16)) as u128
}

/// The `i128` at `off`.
pub open spec fn i128_at(d: Seq<u8>, off: int) -> i128 {
    le_signed(field(d, off, 16)) as i128
}

/// The fixed-point number at `off`.
pub open spec fn fixed_at(d: Seq<u8>, off: int) -> I80F48 {
    I80F48 { bits: i128_at(d, off) }
}

/// The slot index at `off`, if this machine can hold it.
pub open spec fn usize_at(d: Seq<u8>, off: int) -> Option<usize> {
    if le_value(field(d, off, 8)) <= usize::MAX {
        Some(le_value(field(d, off, 8)) as usize)
    } else {
        None
    }
}

/// The byte at `off`, which is 0 or 1, as a boolean.
pub open spec fn strict_bool_at(d: Seq<u8>, off: int) -> Option<bool> {
    if d[off] == 0 {
        Some(false)
    } else if d[off] == 1 {
        Some(true)
    } else {
        None
    }
}

/// The optional fixed-point number at `off`: a flag byte, then 16 bytes that
/// count only if the flag is not 0.
pub open spec fn fixed_opt_at(d: Seq<u8>, off: int) -> Option<I80F48> {
    if d[off] == 0 {
        None
    } else {
        Some(fixed_at(d, off + 1))
    }
}

/// The optional `u64` at `off`: a flag byte, then 8 bytes that count only if
/// the flag is not 0.
pub open spec fn u64_opt_at(d: Seq<u8>, off: int) -> Option<u64> {
    if d[off] == 0 {
        None
    } else {
        Some(u64_at(d, off + 1))
    }
}

/// The array whose bytes are `s`.
pub open spec fn info_of(s: Seq<u8>) -> [u8; INFO_LEN] {
    choose|a: [u8; INFO_LEN]| a@ == s
}

/// The byte that a 4-byte field holds, if it holds one.
pub open spec fn small_u32_at(d: Seq<u8>, off: int) -> Option<u8> {
    if le_value(field(d, off, 4)) <= 255 {
        Some(le_value(field(d, off, 4)) as u8)
    } else {
        None
    }
}

/// The side of the spot book that the 4-byte field at `off` names.
pub open spec fn dex_side_at(d: Seq<u8>, off: int) -> Option<dex::Side> {
    match small_u32_at(d, off) {
        Some(n) => dex::Side::spec_from_primitive(n),
        None => None,
    }
}

/// The self-trade behaviour that the 4-byte field at `off` names.
pub open spec fn dex_self_trade_at(d: Seq<u8>, off: int) -> Option<dex::SelfTradeBehavior> {
    match small_u32_at(d, off) {
        Some(n) => dex::SelfTradeBehavior::spec_from_primitive(n),
        None => None,
    }
}

/// The spot order type that the 4-byte field at `off` names.
pub open spec fn dex_order_type_at(d: Seq<u8>, off: int) -> Option<dex::OrderType> {
    match small_u32_at(d, off) {
        Some(n) => dex::OrderType::spec_from_primitive(n),
        None => None,
    }
}

/// The spot order that the first 46 bytes of `d` hold: side, price, the two
/// quantities, self-trade behaviour, order type, client id and limit. There is
/// none if `d` is shorter, if an enum field names no variant or if the price
/// or a quantity is 0.
pub open spec fn spec_unpack_dex_new_order_v3(d: Seq<u8>) -> Option<dex::NewOrderInstructionV3> {
    if d.len() >= 46 && dex_side_at(d, 0) is Some && dex_self_trade_at(d, 28) is Some
        && dex_order_type_at(d, 32) is Some && u64_at(d, 4) != 0 && u64_at(d, 12) != 0 && u64_at(
        d,
        20,
    ) != 0 {
        Some(
            dex::NewOrderInstructionV3 {
                side: dex_side_at(d, 0).unwrap(),
                limit_price: u64_at(d, 4),
                max_coin_qty: u64_at(d, 12),
                max_native_pc_qty_including_fees: u64_at(d, 20),
                self_trade_behavior: dex_self_trade_at(d, 28).unwrap(),
                order_type: dex_order_type_at(d, 32).unwrap(),
                client_order_id: u64_at(d, 36),
                limit: le_value(field(d, 44, 2)) as u16,
            },
        )
    } else {
        None
    }
}

/// The 8 bytes of a `u64`.
pub open spec fn u64_bytes(x: u64) -> Seq<u8> {
    le_bytes(x as nat, 8)
}

/// The 8 bytes of an `i64`.
pub open spec fn i64_bytes(x: i64) -> Seq<u8> {
    le_signed_bytes(x as int, 8)
}

/// The 8 bytes of a slot index.
pub open spec fn usize_bytes(x: usize) -> Seq<u8> {
    le_bytes(x as nat, 8)
}

/// The 16 bytes of a fixed-point number.
pub open spec fn fixed_bytes(x: I80F48) -> Seq<u8> {
    le_signed_bytes(x.bits as int, 16)
}

/// The byte of a boolean: 1 for true, 0 for false.
pub open spec fn bool_bytes(b: bool) -> Seq<u8> {
    seq![if b { 1u8 } else { 0u8 }]
}

/// The 17 bytes of an optional fixed-point number: the flag, then the number,
/// or zeros where there is none.
pub open spec fn fixed_opt_bytes(x: Option<I80F48>) -> Seq<u8> {
    match x {
        Some(v) => seq![1u8] + fixed_bytes(v),
        None => seq![0u8] + le_bytes(0, 16),
    }
}

/// The 9 bytes of an optional `u64`: the flag, then the number, or zeros where
/// there is none.
pub open spec fn u64_opt_bytes(x: Option<u64>) -> Seq<u8> {
    match x {
        Some(v) => seq![1u8] + u64_bytes(v),
        None => seq![0u8] + le_bytes(0, 8),
    }
}

/// The 4 bytes that open a request of kind `k`, or that hold the number of an
/// enum variant of the spot venue.
pub open spec fn u32_bytes(k: u32) -> Seq<u8> {
    le_bytes(k as nat, 4)
}

/// The 46 bytes of a spot order.
pub open spec fn dex_new_order_bytes(o: dex::NewOrderInstructionV3) -> Seq<u8> {
    u32_bytes(o.side.spec_to_primitive() as u32) + u64_bytes(o.limit_price) + u64_bytes(
        o.max_coin_qty,
    ) + u64_bytes(o.max_native_pc_qty_including_fees) + u32_bytes(
        o.self_trade_behavior.spec_to_primitive() as u32,
    ) + u32_bytes(o.order_type.spec_to_primitive() as u32) + u64_bytes(o.client_order_id)
        + le_bytes(o.limit as nat, 2)
}

/// The number of payload bytes that a request of kind `discrim` needs.
pub open spec fn payload_len(discrim: u32) -> nat {
    match discrim {
        0 => 64,
        2 => 8,
        3 => 9,
        4 => 96,
        5 => 8,
        6 => 8,
        9 => 46,
        11 => 144,
        12 => 26,
        13 => 9,
        14 => 17,
        15 => 8,
        18 => 16,
        20 => 20,
        22 => 8,
        23 => 16,
        24 => 1,
        25 => 1,
        26 => 16,
        27 => 34,
        28 => 8,
        30 => 24,
        31 => 16,
        34 => 32,
        35 => 8,
        36 => 8,
        37 => 137,
        39 => 1,
        _ => 0,
    }
}

/// The request of kind `discrim` whose fields the payload `d` holds, for a
/// payload of at least `payload_len(discrim)` bytes.
pub open spec fn spec_unpack_payload(discrim: u32, d: Seq<u8>) -> Option<MangoInstruction> {
    match discrim {
        0 => Some(
            MangoInstruction::InitMangoGroup {
                signer_nonce: u64_at(d, 0),
                valid_interval: u64_at(d, 8),
                quote_optimal_util: fixed_at(d, 16),
                quote_optimal_rate: fixed_at(d, 32),
                quote_max_rate: fixed_at(d, 48),
            },
        ),
        1 => Some(MangoInstruction::InitMangoAccount),
        2 => Some(MangoInstruction::Deposit { quantity: u64_at(d, 0) }),
        3 => match strict_bool_at(d, 8) {
            Some(allow_borrow) => Some(
                MangoInstruction::Withdraw { quantity: u64_at(d, 0), allow_borrow },
            ),
            None => None,
        },
        4 => Some(
            MangoInstruction::AddSpotMarket {
                maint_leverage: fixed_at(d, 0),
                init_leverage: fixed_at(d, 16),
                liquidation_fee: fixed_at(d, 32),
                optimal_util: fixed_at(d, 48),
                optimal_rate: fixed_at(d, 64),
                max_rate: fixed_at(d, 80),
            },
        ),
        5 => match usize_at(d, 0) {
            Some(market_index) => Some(MangoInstruction::AddToBasket { market_index }),
            None => None,
        },
        6 => Some(MangoInstruction::Borrow { quantity: u64_at(d, 0) }),
        7 => Some(MangoInstruction::CachePrices),
        8 => Some(MangoInstruction::CacheRootBanks),
        9 => match spec_unpack_dex_new_order_v3(d) {
            Some(order) => Some(MangoInstruction::PlaceSpotOrder { order }),
            None => None,
        },
        10 => Some(MangoInstruction::AddOracle),
        11 => Some(
            MangoInstruction::AddPerpMarket {
                maint_leverage: fixed_at(d, 0),
                init_leverage: fixed_at(d, 16),
                liquidation_fee: fixed_at(d, 32),
                maker_fee: fixed_at(d, 48),
                taker_fee: fixed_at(d, 64),
                base_lot_size: i64_at(d, 80),
                quote_lot_size: i64_at(d, 88),
                rate: fixed_at(d, 96),
                max_depth_bps: fixed_at(d, 112),
                target_period_length: u64_at(d, 128),
                mngo_per_period: u64_at(d, 136),
            },
        ),
        12 => match (Side::spec_from_primitive(d[24]), OrderType::spec_from_primitive(d[25])) {
            (Some(side), Some(order_type)) => Some(
                MangoInstruction::PlacePerpOrder {
                    price: i64_at(d, 0),
                    quantity: i64_at(d, 8),
                    client_order_id: u64_at(d, 16),
                    side,
                    order_type,
                },
            ),
            _ => None,
        },
        13 => match strict_bool_at(d, 8) {
            Some(invalid_id_ok) => Some(
                MangoInstruction::CancelPerpOrderByClientId {
                    client_order_id: u64_at(d, 0),
                    invalid_id_ok,
                },
            ),
            None => None,
        },
        14 => match strict_bool_at(d, 16) {
            Some(invalid_id_ok) => Some(
                MangoInstruction::CancelPerpOrder { order_id: i128_at(d, 0), invalid_id_ok },
            ),
            None => None,
        },
        15 => match usize_at(d, 0) {
            Some(limit) => Some(MangoInstruction::ConsumeEvents { limit }),
            None => None,
        },
        16 => Some(MangoInstruction::CachePerpMarkets),
        17 => Some(MangoInstruction::UpdateFunding),
        18 => Some(MangoInstruction::SetOracle { price: fixed_at(d, 0) }),
        19 => Some(MangoInstruction::SettleFunds),
        20 => match dex_side_at(d, 0) {
            Some(side) => Some(
                MangoInstruction::CancelSpotOrder {
                    order: dex::CancelOrderInstructionV2 { side, order_id: u128_at(d, 4) },
                },
            ),
            None => None,
        },
        21 => Some(MangoInstruction::UpdateRootBank),
        22 => match usize_at(d, 0) {
            Some(market_index) => Some(MangoInstruction::SettlePnl { market_index }),
            None => None,
        },
        23 => match usize_at(d, 0) {
            Some(token_index) => Some(
                MangoInstruction::SettleBorrow { token_index, quantity: u64_at(d, 8) },
            ),
            None => None,
        },
        24 => Some(MangoInstruction::ForceCancelSpotOrders { limit: d[0] }),
        25 => Some(MangoInstruction::ForceCancelPerpOrders { limit: d[0] }),
        26 => Some(MangoInstruction::LiquidateTokenAndToken { max_liab_transfer: fixed_at(d, 0) }),
        27 => match (
            AssetType::spec_from_primitive(d[0]),
            usize_at(d, 1),
            AssetType::spec_from_primitive(d[9]),
            usize_at(d, 10),
        ) {
            (Some(asset_type), Some(asset_index), Some(liab_type), Some(liab_index)) => Some(
                MangoInstruction::LiquidateTokenAndPerp {
                    asset_type,
                    asset_index,
                    liab_type,
                    liab_index,
                    max_liab_transfer: fixed_at(d, 18),
                },
            ),
            _ => None,
        },
        28 => Some(MangoInstruction::LiquidatePerpMarket { base_transfer_request: i64_at(d, 0) }),
        29 => Some(MangoInstruction::SettleFees),
        30 => match usize_at(d, 0) {
            Some(liab_index) => Some(
                MangoInstruction::ResolvePerpBankruptcy {
                    liab_index,
                    max_liab_transfer: fixed_at(d, 8),
                },
            ),
            None => None,
        },
        31 => Some(MangoInstruction::ResolveTokenBankruptcy { max_liab_transfer: fixed_at(d, 0) }),
        32 => Some(MangoInstruction::InitSpotOpenOrders),
        33 => Some(MangoInstruction::RedeemMngo),
        34 => Some(MangoInstruction::AddMangoAccountInfo { info: info_of(field(d, 0, 32)) }),
        35 => Some(MangoInstruction::DepositMsrm { quantity: u64_at(d, 0) }),
        36 => Some(MangoInstruction::WithdrawMsrm { quantity: u64_at(d, 0) }),
        37 => Some(
            MangoInstruction::ChangePerpMarketParams {
                maint_leverage: fixed_opt_at(d, 0),
                init_leverage: fixed_opt_at(d, 17),
                liquidation_fee: fixed_opt_at(d, 34),
                maker_fee: fixed_opt_at(d, 51),
                taker_fee: fixed_opt_at(d, 68),
                rate: fixed_opt_at(d, 85),
                max_depth_bps: fixed_opt_at(d, 102),
                target_period_length: u64_opt_at(d, 119),
                mngo_per_period: u64_opt_at(d, 128),
            },
        ),
        38 => Some(MangoInstruction::SetGroupAdmin),
        39 => Some(MangoInstruction::CancelAllPerpOrders { limit: d[0] }),
        40 => Some(MangoInstruction::ForceSettleQuotePositions),
        _ => None,
    }
}

/// The request that `input` encodes. There is none if `input` has fewer than 4
/// bytes, if its discriminant names no kind of request, if the payload is
/// shorter than that kind needs, or if a field holds a value that its type
/// does not have.
pub open spec fn spec_unpack(input: Seq<u8>) -> Option<MangoInstruction> {
    if input.len() < 4 {
        None
    } else {
        let discrim = le_value(field(input, 0, 4)) as u32;
        let d = input.subrange(4, input.len() as int);
        if d.len() < payload_len(discrim) {
            None
        } else {
            spec_unpack_payload(discrim, d)
        }
    }
}

/// Copies the `N` bytes at `off`.
fn read_array<const N: usize>(data: &[u8], off: usize) -> (a: [u8; N])
    requires
        off + N <= data@.len(),
    ensures
        a@ == field(data@, off as int, N as int),
{
    let len: usize = data.len();
    let mut a = [0u8; N];
    let mut i: usize = 0;
    while i < N
        invariant
            i <= N,
            off + N <= len,
            len == data@.len(),
            forall|j: int| 0 <= j < i ==> a@[j] == data@[off + j],
        decreases N - i,
    {
        a[i] = data[off + i];
        i = i + 1;
    }
    assert(a@ =~= field(data@, off as int, N as int));
    a
}

/// Reads the fixed-point number at `off`.
fn read_fixed(data: &[u8], off: usize) -> (r: I80F48)
    requires
        off + 16 <= data@.len(),
    ensures
        r == fixed_at(data@, off as int),
{
    let bytes: [u8; 16] = read_array::<16>(data, off);
    fixed_point::from_le_bytes(bytes)
}

/// Reads the boolean at `off`: the byte 0 is false, the byte 1 is true, and
/// no other byte is a boolean.
fn read_strict_bool(data: &[u8], off: usize) -> (r: Option<bool>)
    requires
        off < data@.len(),
    ensures
        r == strict_bool_at(data@, off as int),
{
    if data[off] == 0 {
        Some(false)
    } else if data[off] == 1 {
        Some(true)
    } else {
        None
    }
}

/// Reads the slot index at `off`.
fn read_usize(data: &[u8], off: usize) -> (r: Option<usize>)
    requires
        off + 8 <= data@.len(),
    ensures
        r == usize_at(data@, off as int),
{
    let v: u64 = read_u64(data, off);
    if v <= usize::MAX as u64 {
        Some(v as usize)
    } else {
        None
    }
}

/// Reads one byte of a 4-byte field, if the field holds no more.
fn read_small_u32(data: &[u8], off: usize) -> (r: Option<u8>)
    requires
        off + 4 <= data@.len(),
    ensures
        r == small_u32_at(data@, off as int),
{
    let v: u32 = read_u32(data, off);
    if v <= 255 {
        Some(v as u8)
    } else {
        None
    }
}

/// Reads the side of the spot book at `off`.
fn read_dex_side(data: &[u8], off: usize) -> (r: Option<dex::Side>)
    requires
        off + 4 <= data@.len(),
    ensures
        r == dex_side_at(data@, off as int),
{
    match read_small_u32(data, off) {
        Some(n) => dex::side_from_primitive(n),
        None => None,
    }
}

/// Reads the optional fixed-point number at `off`.
fn unpack_i80f48_opt(data: &[u8], off: usize) -> (r: Option<I80F48>)
    requires
        off + 17 <= data@.len(),
    ensures
        r == fixed_opt_at(data@, off as int),
{
    if data[off] == 0 {
        None
    } else {
        Some(read_fixed(data, off + 1))
    }
}

/// Reads the optional `u64` at `off`.
fn unpack_u64_opt(data: &[u8], off: usize) -> (r: Option<u64>)
    requires
        off + 9 <= data@.len(),
    ensures
        r == u64_opt_at(data@, off as int),
{
    if data[off] == 0 {
        None
    } else {
        Some(read_u64(data, off + 1))
    }
}

/// Decodes the spot order that the first 46 bytes of `data` hold.
pub fn unpack_dex_new_order_v3(data: &[u8]) -> (r: Option<dex::NewOrderInstructionV3>)
    ensures
        r == spec_unpack_dex_new_order_v3(data@),
        r matches Some(order) ==> order.wf(),
{
    if data.len() < 46 {
        return None;
    }
    let side = match read_dex_side(data, 0) {
        Some(side) => side,
        None => { return None; },
    };
    let limit_price: u64 = read_u64(data, 4);
    if limit_price == 0 {
        return None;
    }
    let max_coin_qty: u64 = read_u64(data, 12);
    if max_coin_qty == 0 {
        return None;
    }
    let max_native_pc_qty_including_fees: u64 = read_u64(data, 20);
    if max_native_pc_qty_including_fees == 0 {
        return None;
    }
    let self_trade_behavior = match read_small_u32(data, 28) {
        Some(n) => match dex::self_trade_behavior_from_primitive(n) {
            Some(b) => b,
            None => { return None; },
        },
        None => { return None; },
    };
    let order_type = match read_small_u32(data, 32) {
        Some(n) => match dex::order_type_from_primitive(n) {
            Some(t) => t,
            None => { return None; },
        },
        None => { return None; },
    };
    let client_order_id: u64 = read_u64(data, 36);
    let limit: u16 = crate::wire::read_u16(data, 44);
    Some(
        dex::NewOrderInstructionV3 {
            side,
            limit_price,
            max_coin_qty,
            max_native_pc_qty_including_fees,
            self_trade_behavior,
            order_type,
            client_order_id,
            limit,
        },
    )
}

impl MangoInstruction {
    /// Decodes a request, or says that the input is malformed.
    pub fn decode(input: &[u8]) -> (r: Result<Self, MangoError>)
        ensures
            match spec_unpack(input@) {
                Some(i) => r == Ok::<Self, MangoError>(i) && i.wf(),
                None => r == Err::<Self, MangoError>(MangoError::MalformedInput),
            },
    {
        match Self::unpack(input) {
            Some(i) => Ok(i),
            None => Err(MangoError::MalformedInput),
        }
    }

    /// Decodes a request.
    pub fn unpack(input: &[u8]) -> (r: Option<Self>)
        ensures
            r == spec_unpack(input@),
            r matches Some(i) ==> i.wf(),
    {
        if input.len() < 4 {
            return None;
        }
        let discrim: u32 = read_u32(input, 0);
        let data = slice_subrange(input, 4, input.len());
        match discrim {
            0 => {
                if data.len() < 64 {
                    return None;
                }
                Some(
                    MangoInstruction::InitMangoGroup {
                        signer_nonce: read_u64(data, 0),
                        valid_interval: read_u64(data, 8),
                        quote_optimal_util: read_fixed(data, 16),
                        quote_optimal_rate: read_fixed(data, 32),
                        quote_max_rate: read_fixed(data, 48),
                    },
                )
            },
            1 => Some(MangoInstruction::InitMangoAccount),
            2 => {
                if data.len() < 8 {
                    return None;
                }
                Some(MangoInstruction::Deposit { quantity: read_u64(data, 0) })
            },
            3 => {
                if data.len() < 9 {
                    return None;
                }
                match read_strict_bool(data, 8) {
                    Some(allow_borrow) => Some(
                        MangoInstruction::Withdraw { quantity: read_u64(data, 0), allow_borrow },
                    ),
                    None => None,
                }
            },
            4 => {
                if data.len() < 96 {
                    return None;
                }
                Some(
                    MangoInstruction::AddSpotMarket {
                        maint_leverage: read_fixed(data, 0),
                        init_leverage: read_fixed(data, 16),
                        liquidation_fee: read_fixed(data, 32),
                        optimal_util: read_fixed(data, 48),
                        optimal_rate: read_fixed(data, 64),
                        max_rate: read_fixed(data, 80),
                    },
                )
            },
            5 => {
                if data.len() < 8 {
                    return None;
                }
                match read_usize(data, 0) {
                    Some(market_index) => Some(MangoInstruction::AddToBasket { market_index }),
                    None => None,
                }
            },
            6 => {
                if data.len() < 8 {
                    return None;
                }
                Some(MangoInstruction::Borrow { quantity: read_u64(data, 0) })
            },
            7 => Some(MangoInstruction::CachePrices),
            8 => Some(MangoInstruction::CacheRootBanks),
            9 => {
                match unpack_dex_new_order_v3(data) {
                    Some(order) => Some(MangoInstruction::PlaceSpotOrder { order }),
                    None => None,
                }
            },
            10 => Some(MangoInstruction::AddOracle),
            11 => {
                if data.len() < 144 {
                    return None;
                }
                Some(
                    MangoInstruction::AddPerpMarket {
                        maint_leverage: read_fixed(data, 0),
                        init_leverage: read_fixed(data, 16),
                        liquidation_fee: read_fixed(data, 32),
                        maker_fee: read_fixed(data, 48),
                        taker_fee: read_fixed(data, 64),
                        base_lot_size: read_i64(data, 80),
                        quote_lot_size: read_i64(data, 88),
                        rate: read_fixed(data, 96),
                        max_depth_bps: read_fixed(data, 112),
                        target_period_length: read_u64(data, 128),
                        mngo_per_period: read_u64(data, 136),
                    },
                )
            },
            12 => {
                if data.len() < 26 {
                    return None;
                }
                let side = match Side::try_from_primitive(data[24]) {
                    Some(side) => side,
                    None => { return None; },
                };
                let order_type = match OrderType::try_from_primitive(data[25]) {
                    Some(order_type) => order_type,
                    None => { return None; },
                };
                Some(
                    MangoInstruction::PlacePerpOrder {
                        price: read_i64(data, 0),
                        quantity: read_i64(data, 8),
                        client_order_id: read_u64(data, 16),
                        side,
                        order_type,
                    },
                )
            },
            13 => {
                if data.len() < 9 {
                    return None;
                }
                match read_strict_bool(data, 8) {
                    Some(invalid_id_ok) => Some(
                        MangoInstruction::CancelPerpOrderByClientId {
                            client_order_id: read_u64(data, 0),
                            invalid_id_ok,
                        },
                    ),
                    None => None,
                }
            },
            14 => {
                if data.len() < 17 {
                    return None;
                }
                match read_strict_bool(data, 16) {
                    Some(invalid_id_ok) => Some(
                        MangoInstruction::CancelPerpOrder {
                            order_id: read_i128(data, 0),
                            invalid_id_ok,
                        },
                    ),
                    None => None,
                }
            },
            15 => {
                if data.len() < 8 {
                    return None;
                }
                match read_usize(data, 0) {
                    Some(limit) => Some(MangoInstruction::ConsumeEvents { limit }),
                    None => None,
                }
            },
            16 => Some(MangoInstruction::CachePerpMarkets),
            17 => Some(MangoInstruction::UpdateFunding),
            18 => {
                if data.len() < 16 {
                    return None;
                }
                Some(MangoInstruction::SetOracle { price: read_fixed(data, 0) })
            },
            19 => Some(MangoInstruction::SettleFunds),
            20 => {
                if data.len() < 20 {
                    return None;
                }
                match read_dex_side(data, 0) {
                    Some(side) => Some(
                        MangoInstruction::CancelSpotOrder {
                            order: dex::CancelOrderInstructionV2 {
                                side,
                                order_id: read_u128(data, 4),
                            },
                        },
                    ),
                    None => None,
                }
            },
            21 => Some(MangoInstruction::UpdateRootBank),
            22 => {
                if data.len() < 8 {
                    return None;
                }
                match read_usize(data, 0) {
                    Some(market_index) => Some(MangoInstruction::SettlePnl { market_index }),
                    None => None,
                }
            },
            23 => {
                if data.len() < 16 {
                    return None;
                }
                match read_usize(data, 0) {
                    Some(token_index) => Some(
                        MangoInstruction::SettleBorrow { token_index, quantity: read_u64(data, 8) },
                    ),
                    None => None,
                }
            },
            24 => {
                if data.len() < 1 {
                    return None;
                }
                Some(MangoInstruction::ForceCancelSpotOrders { limit: data[0] })
            },
            25 => {
                if data.len() < 1 {
                    return None;
                }
                Some(MangoInstruction::ForceCancelPerpOrders { limit: data[0] })
            },
            26 => {
                if data.len() < 16 {
                    return None;
                }
                Some(
                    MangoInstruction::LiquidateTokenAndToken {
                        max_liab_transfer: read_fixed(data, 0),
                    },
                )
            },
            27 => {
                if data.len() < 34 {
                    return None;
                }
                let asset_type = match AssetType::try_from_primitive(data[0]) {
                    Some(t) => t,
                    None => { return None; },
                };
                let asset_index = match read_usize(data, 1) {
                    Some(i) => i,
                    None => { return None; },
                };
                let liab_type = match AssetType::try_from_primitive(data[9]) {
                    Some(t) => t,
                    None => { return None; },
                };
                let liab_index = match read_usize(data, 10) {
                    Some(i) => i,
                    None => { return None; },
                };
                Some(
                    MangoInstruction::LiquidateTokenAndPerp {
                        asset_type,
                        asset_index,
                        liab_type,
                        liab_index,
                        max_liab_transfer: read_fixed(data, 18),
                    },
                )
            },
            28 => {
                if data.len() < 8 {
                    return None;
                }
                Some(
                    MangoInstruction::LiquidatePerpMarket {
                        base_transfer_request: read_i64(data, 0),
                    },
                )
            },
            29 => Some(MangoInstruction::SettleFees),
            30 => {
                if data.len() < 24 {
                    return None;
                }
                match read_usize(data, 0) {
                    Some(liab_index) => Some(
                        MangoInstruction::ResolvePerpBankruptcy {
                            liab_index,
                            max_liab_transfer: read_fixed(data, 8),
                        },
                    ),
                    None => None,
                }
            },
            31 => {
                if data.len() < 16 {
                    return None;
                }
                Some(
                    MangoInstruction::ResolveTokenBankruptcy {
                        max_liab_transfer: read_fixed(data, 0),
                    },
                )
            },
            32 => Some(MangoInstruction::InitSpotOpenOrders),
            33 => Some(MangoInstruction::RedeemMngo),
            34 => {
                if data.len() < 32 {
                    return None;
                }
                let info: [u8; INFO_LEN] = read_array::<INFO_LEN>(data, 0);
                assert(info =~= info_of(field(data@, 0, 32)));
                Some(MangoInstruction::AddMangoAccountInfo { info })
            },
            35 => {
                if data.len() < 8 {
                    return None;
                }
                Some(MangoInstruction::DepositMsrm { quantity: read_u64(data, 0) })
            },
            36 => {
                if data.len() < 8 {
                    return None;
                }
                Some(MangoInstruction::WithdrawMsrm { quantity: read_u64(data, 0) })
            },
            37 => {
                if data.len() < 137 {
                    return None;
                }
                Some(
                    MangoInstruction::ChangePerpMarketParams {
                        maint_leverage: unpack_i80f48_opt(data, 0),
                        init_leverage: unpack_i80f48_opt(data, 17),
                        liquidation_fee: unpack_i80f48_opt(data, 34),
                        maker_fee: unpack_i80f48_opt(data, 51),
                        taker_fee: unpack_i80f48_opt(data, 68),
                        rate: unpack_i80f48_opt(data, 85),
                        max_depth_bps: unpack_i80f48_opt(data, 102),
                        target_period_length: unpack_u64_opt(data, 119),
                        mngo_per_period: unpack_u64_opt(data, 128),
                    },
                )
            },
            38 => Some(MangoInstruction::SetGroupAdmin),
            39 => {
                if data.len() < 1 {
                    return None;
                }
                Some(MangoInstruction::CancelAllPerpOrders { limit: data[0] })
            },
            40 => Some(MangoInstruction::ForceSettleQuotePositions),
            _ => None,
        }
    }
}

impl MangoInstruction {
    /// The number of the kind of this request.
    pub open spec fn discriminant(self) -> u32 {
        match self {
            MangoInstruction::InitMangoGroup { .. } => 0,
            MangoInstruction::InitMangoAccount => 1,
            MangoInstruction::Deposit { .. } => 2,
            MangoInstruction::Withdraw { .. } => 3,
            MangoInstruction::AddSpotMarket { .. } => 4,
            MangoInstruction::AddToBasket { .. } => 5,
            MangoInstruction::Borrow { .. } => 6,
            MangoInstruction::CachePrices => 7,
            MangoInstruction::CacheRootBanks => 8,
            MangoInstruction::PlaceSpotOrder { .. } => 9,
            MangoInstruction::AddOracle => 10,
            MangoInstruction::AddPerpMarket { .. } => 11,
            MangoInstruction::PlacePerpOrder { .. } => 12,
            MangoInstruction::CancelPerpOrderByClientId { .. } => 13,
            MangoInstruction::CancelPerpOrder { .. } => 14,
            MangoInstruction::ConsumeEvents { .. } => 15,
            MangoInstruction::CachePerpMarkets => 16,
            MangoInstruction::UpdateFunding => 17,
            MangoInstruction::SetOracle { .. } => 18,
            MangoInstruction::SettleFunds => 19,
            MangoInstruction::CancelSpotOrder { .. } => 20,
            MangoInstruction::UpdateRootBank => 21,
            MangoInstruction::SettlePnl { .. } => 22,
            MangoInstruction::SettleBorrow { .. } => 23,
            MangoInstruction::ForceCancelSpotOrders { .. } => 24,
            MangoInstruction::ForceCancelPerpOrders { .. } => 25,
            MangoInstruction::LiquidateTokenAndToken { .. } => 26,
            MangoInstruction::LiquidateTokenAndPerp { .. } => 27,
            MangoInstruction::LiquidatePerpMarket { .. } => 28,
            MangoInstruction::SettleFees => 29,
            MangoInstruction::ResolvePerpBankruptcy { .. } => 30,
            MangoInstruction::ResolveTokenBankruptcy { .. } => 31,
            MangoInstruction::InitSpotOpenOrders => 32,
            MangoInstruction::RedeemMngo => 33,
            MangoInstruction::AddMangoAccountInfo { .. } => 34,
            MangoInstruction::DepositMsrm { .. } => 35,
            MangoInstruction::WithdrawMsrm { .. } => 36,
            MangoInstruction::ChangePerpMarketParams { .. } => 37,
            MangoInstruction::SetGroupAdmin => 38,
            MangoInstruction::CancelAllPerpOrders { .. } => 39,
            MangoInstruction::ForceSettleQuotePositions => 40,
        }
    }

    /// The bytes `head` followed by the fields of this request, in the order
    /// in which the variant lists them.
    pub open spec fn with_fields(self, head: Seq<u8>) -> Seq<u8> {
        match self {
            MangoInstruction::InitMangoGroup {
                signer_nonce,
                valid_interval,
                quote_optimal_util,
                quote_optimal_rate,
                quote_max_rate,
            } => head + u64_bytes(signer_nonce) + u64_bytes(valid_interval) + fixed_bytes(
                quote_optimal_util,
            ) + fixed_bytes(quote_optimal_rate) + fixed_bytes(quote_max_rate),
            MangoInstruction::Deposit { quantity } => head + u64_bytes(quantity),
            MangoInstruction::Withdraw { quantity, allow_borrow } => head + u64_bytes(quantity)
                + bool_bytes(allow_borrow),
            MangoInstruction::AddSpotMarket {
                maint_leverage,
                init_leverage,
                liquidation_fee,
                optimal_util,
                optimal_rate,
                max_rate,
            } => head + fixed_bytes(maint_leverage) + fixed_bytes(init_leverage) + fixed_bytes(
                liquidation_fee,
            ) + fixed_bytes(optimal_util) + fixed_bytes(optimal_rate) + fixed_bytes(max_rate),
            MangoInstruction::AddToBasket { market_index } => head + usize_bytes(market_index),
            MangoInstruction::Borrow { quantity } => head + u64_bytes(quantity),
            MangoInstruction::PlaceSpotOrder { order } => head + dex_new_order_bytes(order),
            MangoInstruction::AddPerpMarket {
                maint_leverage,
                init_leverage,
                liquidation_fee,
                maker_fee,
                taker_fee,
                base_lot_size,
                quote_lot_size,
                rate,
                max_depth_bps,
                target_period_length,
                mngo_per_period,
            } => head + fixed_bytes(maint_leverage) + fixed_bytes(init_leverage) + fixed_bytes(
                liquidation_fee,
            ) + fixed_bytes(maker_fee) + fixed_bytes(taker_fee) + i64_bytes(base_lot_size)
                + i64_bytes(quote_lot_size) + fixed_bytes(rate) + fixed_bytes(max_depth_bps)
                + u64_bytes(target_period_length) + u64_bytes(mngo_per_period),
            MangoInstruction::PlacePerpOrder {
                price,
                quantity,
                client_order_id,
                side,
                order_type,
            } => head + i64_bytes(price) + i64_bytes(quantity) + u64_bytes(client_order_id)
                + seq![side.spec_to_primitive()] + seq![order_type.spec_to_primitive()],
            MangoInstruction::CancelPerpOrderByClientId { client_order_id, invalid_id_ok } => head + u64_bytes(client_order_id) + bool_bytes(invalid_id_ok),
            MangoInstruction::CancelPerpOrder { order_id, invalid_id_ok } => head + le_signed_bytes(
                order_id as int,
                16,
            ) + bool_bytes(invalid_id_ok),
            MangoInstruction::ConsumeEvents { limit } => head + usize_bytes(limit),
            MangoInstruction::SetOracle { price } => head + fixed_bytes(price),
            MangoInstruction::CancelSpotOrder { order } => head + u32_bytes(
                order.side.spec_to_primitive() as u32,
            ) + le_bytes(order.order_id as nat, 16),
            MangoInstruction::SettlePnl { market_index } => head + usize_bytes(market_index),
            MangoInstruction::SettleBorrow { token_index, quantity } => head + usize_bytes(token_index)
                + u64_bytes(quantity),
            MangoInstruction::ForceCancelSpotOrders { limit } => head + seq![limit],
            MangoInstruction::ForceCancelPerpOrders { limit } => head + seq![limit],
            MangoInstruction::LiquidateTokenAndToken { max_liab_transfer } => head + fixed_bytes(
                max_liab_transfer,
            ),
            MangoInstruction::LiquidateTokenAndPerp {
                asset_type,
                asset_index,
                liab_type,
                liab_index,
                max_liab_transfer,
            } => head + seq![asset_type.spec_to_primitive()] + usize_bytes(asset_index)
                + seq![liab_type.spec_to_primitive()] + usize_bytes(liab_index) + fixed_bytes(
                max_liab_transfer,
            ),
            MangoInstruction::LiquidatePerpMarket { base_transfer_request } => head + i64_bytes(
                base_transfer_request,
            ),
            MangoInstruction::ResolvePerpBankruptcy { liab_index, max_liab_transfer } => head + usize_bytes(liab_index) + fixed_bytes(max_liab_transfer),
            MangoInstruction::ResolveTokenBankruptcy { max_liab_transfer } => head + fixed_bytes(
                max_liab_transfer,
            ),
            MangoInstruction::AddMangoAccountInfo { info } => head + info@,
            MangoInstruction::DepositMsrm { quantity } => head + u64_bytes(quantity),
            MangoInstruction::WithdrawMsrm { quantity } => head + u64_bytes(quantity),
            MangoInstruction::ChangePerpMarketParams {
                maint_leverage,
                init_leverage,
                liquidation_fee,
                maker_fee,
                taker_fee,
                rate,
                max_depth_bps,
                target_period_length,
                mngo_per_period,
            } => head + fixed_opt_bytes(maint_leverage) + fixed_opt_bytes(init_leverage)
                + fixed_opt_bytes(liquidation_fee) + fixed_opt_bytes(maker_fee) + fixed_opt_bytes(
                taker_fee,
            ) + fixed_opt_bytes(rate) + fixed_opt_bytes(max_depth_bps) + u64_opt_bytes(
                target_period_length,
            ) + u64_opt_bytes(mngo_per_period),
            MangoInstruction::CancelAllPerpOrders { limit } => head + seq![limit],
            _ => head,
        }
    }

    /// This request on the wire: its discriminant, then its fields.
    pub open spec fn packed(self) -> Seq<u8> {
        self.with_fields(u32_bytes(self.discriminant()))
    }

    /// A request that holds a spot order is well formed if the order is.
    pub open spec fn wf(self) -> bool {
        match self {
            MangoInstruction::PlaceSpotOrder { order } => order.wf(),
            _ => true,
        }
    }
}

/// Appends one byte.
fn write_u8(out: &mut Vec<u8>, x: u8)
    ensures
        final(out)@ == old(out)@ + seq![x],
{
    out.push(x);
    assert(out@ =~= old(out)@ + seq![x]);
}

fn write_bool(out: &mut Vec<u8>, b: bool)
    ensures
        final(out)@ == old(out)@ + bool_bytes(b),
{
    write_u8(
        out,
        if b {
            1
        } else {
            0
        },
    )
}

fn write_usize(out: &mut Vec<u8>, x: usize)
    ensures
        final(out)@ == old(out)@ + usize_bytes(x),
{
    write_u64(out, x as u64)
}

fn write_fixed(out: &mut Vec<u8>, x: I80F48)
    ensures
        final(out)@ == old(out)@ + fixed_bytes(x),
{
    write_i128(out, x.bits)
}

fn write_fixed_opt(out: &mut Vec<u8>, x: Option<I80F48>)
    ensures
        final(out)@ == old(out)@ + fixed_opt_bytes(x),
{
    match x {
        Some(v) => {
            write_u8(out, 1);
            write_fixed(out, v);
            assert(out@ =~= old(out)@ + (seq![1u8] + fixed_bytes(v)));
        },
        None => {
            write_u8(out, 0);
            write_u128(out, 0);
            assert(out@ =~= old(out)@ + (seq![0u8] + le_bytes(0, 16)));
        },
    }
}

fn write_u64_opt(out: &mut Vec<u8>, x: Option<u64>)
    ensures
        final(out)@ == old(out)@ + u64_opt_bytes(x),
{
    match x {
        Some(v) => {
            write_u8(out, 1);
            write_u64(out, v);
            assert(out@ =~= old(out)@ + (seq![1u8] + u64_bytes(v)));
        },
        None => {
            write_u8(out, 0);
            write_u64(out, 0);
            assert(out@ =~= old(out)@ + (seq![0u8] + le_bytes(0, 8)));
        },
    }
}

/// Appends the bytes of `bytes`.
fn write_all(out: &mut Vec<u8>, bytes: &[u8])
    ensures
        final(out)@ == old(out)@ + bytes@,
{
    let n: usize = bytes.len();
    let mut i: usize = 0;
    while i < n
        invariant
            i <= n,
            n == bytes@.len(),
            out@ == old(out)@ + bytes@.subrange(0, i as int),
        decreases n - i,
    {
        out.push(bytes[i]);
        assert(out@ =~= old(out)@ + bytes@.subrange(0, i + 1));
        i = i + 1;
    }
    assert(bytes@.subrange(0, n as int) =~= bytes@);
}

/// Appends the 46 bytes of a spot order.
fn pack_dex_new_order_v3(out: &mut Vec<u8>, o: &dex::NewOrderInstructionV3)
    ensures
        final(out)@ == old(out)@ + dex_new_order_bytes(*o),
{
    write_u32(out, o.side.to_primitive() as u32);
    write_u64(out, o.limit_price);
    write_u64(out, o.max_coin_qty);
    write_u64(out, o.max_native_pc_qty_including_fees);
    write_u32(out, o.self_trade_behavior.to_primitive() as u32);
    write_u32(out, o.order_type.to_primitive() as u32);
    write_u64(out, o.client_order_id);
    write_u16(out, o.limit);
    assert(out@ =~= old(out)@ + dex_new_order_bytes(*o));
}

impl MangoInstruction {
    /// Appends the fields of this request.
    fn pack_payload(&self, out: &mut Vec<u8>)
        ensures
            final(out)@ == self.with_fields(old(out)@),
    {
        match self {
            MangoInstruction::InitMangoGroup {
                signer_nonce,
                valid_interval,
                quote_optimal_util,
                quote_optimal_rate,
                quote_max_rate,
            } => {
                write_u64(out, *signer_nonce);
                write_u64(out, *valid_interval);
                write_fixed(out, *quote_optimal_util);
                write_fixed(out, *quote_optimal_rate);
                write_fixed(out, *quote_max_rate);
            },
            MangoInstruction::Deposit { quantity } => {
                write_u64(out, *quantity);
            },
            MangoInstruction::Withdraw { quantity, allow_borrow } => {
                write_u64(out, *quantity);
                write_bool(out, *allow_borrow);
            },
            MangoInstruction::AddSpotMarket {
                maint_leverage,
                init_leverage,
                liquidation_fee,
                optimal_util,
                optimal_rate,
                max_rate,
            } => {
                write_fixed(out, *maint_leverage);
                write_fixed(out, *init_leverage);
                write_fixed(out, *liquidation_fee);
                write_fixed(out, *optimal_util);
                write_fixed(out, *optimal_rate);
                write_fixed(out, *max_rate);
            },
            MangoInstruction::AddToBasket { market_index } => {
                write_usize(out, *market_index);
            },
            MangoInstruction::Borrow { quantity } => {
                write_u64(out, *quantity);
            },
            MangoInstruction::PlaceSpotOrder { order } => {
                pack_dex_new_order_v3(out, order);
            },
            MangoInstruction::AddPerpMarket {
                maint_leverage,
                init_leverage,
                liquidation_fee,
                maker_fee,
                taker_fee,
                base_lot_size,
                quote_lot_size,
                rate,
                max_depth_bps,
                target_period_length,
                mngo_per_period,
            } => {
                write_fixed(out, *maint_leverage);
                write_fixed(out, *init_leverage);
                write_fixed(out, *liquidation_fee);
                write_fixed(out, *maker_fee);
                write_fixed(out, *taker_fee);
                write_i64(out, *base_lot_size);
                write_i64(out, *quote_lot_size);
                write_fixed(out, *rate);
                write_fixed(out, *max_depth_bps);
                write_u64(out, *target_period_length);
                write_u64(out, *mngo_per_period);
            },
            MangoInstruction::PlacePerpOrder {
                price,
                quantity,
                client_order_id,
                side,
                order_type,
            } => {
                write_i64(out, *price);
                write_i64(out, *quantity);
                write_u64(out, *client_order_id);
                write_u8(out, side.to_primitive());
                write_u8(out, order_type.to_primitive());
            },
            MangoInstruction::CancelPerpOrderByClientId { client_order_id, invalid_id_ok } => {
                write_u64(out, *client_order_id);
                write_bool(out, *invalid_id_ok);
            },
            MangoInstruction::CancelPerpOrder { order_id, invalid_id_ok } => {
                write_i128(out, *order_id);
                write_bool(out, *invalid_id_ok);
            },
            MangoInstruction::ConsumeEvents { limit } => {
                write_usize(out, *limit);
            },
            MangoInstruction::SetOracle { price } => {
                write_fixed(out, *price);
            },
            MangoInstruction::CancelSpotOrder { order } => {
                write_u32(out, order.side.to_primitive() as u32);
                write_u128(out, order.order_id);
            },
            MangoInstruction::SettlePnl { market_index } => {
                write_usize(out, *market_index);
            },
            MangoInstruction::SettleBorrow { token_index, quantity } => {
                write_usize(out, *token_index);
                write_u64(out, *quantity);
            },
            MangoInstruction::ForceCancelSpotOrders { limit } => {
                write_u8(out, *limit);
            },
            MangoInstruction::ForceCancelPerpOrders { limit } => {
                write_u8(out, *limit);
            },
            MangoInstruction::LiquidateTokenAndToken { max_liab_transfer } => {
                write_fixed(out, *max_liab_transfer);
            },
            MangoInstruction::LiquidateTokenAndPerp {
                asset_type,
                asset_index,
                liab_type,
                liab_index,
                max_liab_transfer,
            } => {
                write_u8(out, asset_type.to_primitive());
                write_usize(out, *asset_index);
                write_u8(out, liab_type.to_primitive());
                write_usize(out, *liab_index);
                write_fixed(out, *max_liab_transfer);
            },
            MangoInstruction::LiquidatePerpMarket { base_transfer_request } => {
                write_i64(out, *base_transfer_request);
            },
            MangoInstruction::ResolvePerpBankruptcy { liab_index, max_liab_transfer } => {
                write_usize(out, *liab_index);
                write_fixed(out, *max_liab_transfer);
            },
            MangoInstruction::ResolveTokenBankruptcy { max_liab_transfer } => {
                write_fixed(out, *max_liab_transfer);
            },
            MangoInstruction::AddMangoAccountInfo { info } => {
                write_all(out, info.as_slice());
            },
            MangoInstruction::DepositMsrm { quantity } => {
                write_u64(out, *quantity);
            },
            MangoInstruction::WithdrawMsrm { quantity } => {
                write_u64(out, *quantity);
            },
            MangoInstruction::ChangePerpMarketParams {
                maint_leverage,
                init_leverage,
                liquidation_fee,
                maker_fee,
                taker_fee,
                rate,
                max_depth_bps,
                target_period_length,
                mngo_per_period,
            } => {
                write_fixed_opt(out, *maint_leverage);
                write_fixed_opt(out, *init_leverage);
                write_fixed_opt(out, *liquidation_fee);
                write_fixed_opt(out, *maker_fee);
                write_fixed_opt(out, *taker_fee);
                write_fixed_opt(out, *rate);
                write_fixed_opt(out, *max_depth_bps);
                write_u64_opt(out, *target_period_length);
                write_u64_opt(out, *mngo_per_period);
            },
            MangoInstruction::CancelAllPerpOrders { limit } => {
                write_u8(out, *limit);
            },
            _ => {},
        }
    }

    /// The number of the kind of this request.
    fn discriminant_of(&self) -> (k: u32)
        ensures
            k == self.discriminant(),
    {
        match self {
            MangoInstruction::InitMangoGroup { .. } => 0,
            MangoInstruction::InitMangoAccount => 1,
            MangoInstruction::Deposit { .. } => 2,
            MangoInstruction::Withdraw { .. } => 3,
            MangoInstruction::AddSpotMarket { .. } => 4,
            MangoInstruction::AddToBasket { .. } => 5,
            MangoInstruction::Borrow { .. } => 6,
            MangoInstruction::CachePrices => 7,
            MangoInstruction::CacheRootBanks => 8,
            MangoInstruction::PlaceSpotOrder { .. } => 9,
            MangoInstruction::AddOracle => 10,
            MangoInstruction::AddPerpMarket { .. } => 11,
            MangoInstruction::PlacePerpOrder { .. } => 12,
            MangoInstruction::CancelPerpOrderByClientId { .. } => 13,
            MangoInstruction::CancelPerpOrder { .. } => 14,
            MangoInstruction::ConsumeEvents { .. } => 15,
            MangoInstruction::CachePerpMarkets => 16,
            MangoInstruction::UpdateFunding => 17,
            MangoInstruction::SetOracle { .. } => 18,
            MangoInstruction::SettleFunds => 19,
            MangoInstruction::CancelSpotOrder { .. } => 20,
            MangoInstruction::UpdateRootBank => 21,
            MangoInstruction::SettlePnl { .. } => 22,
            MangoInstruction::SettleBorrow { .. } => 23,
            MangoInstruction::ForceCancelSpotOrders { .. } => 24,
            MangoInstruction::ForceCancelPerpOrders { .. } => 25,
            MangoInstruction::LiquidateTokenAndToken { .. } => 26,
            MangoInstruction::LiquidateTokenAndPerp { .. } => 27,
            MangoInstruction::LiquidatePerpMarket { .. } => 28,
            MangoInstruction::SettleFees => 29,
            MangoInstruction::ResolvePerpBankruptcy { .. } => 30,
            MangoInstruction::ResolveTokenBankruptcy { .. } => 31,
            MangoInstruction::InitSpotOpenOrders => 32,
            MangoInstruction::RedeemMngo => 33,
            MangoInstruction::AddMangoAccountInfo { .. } => 34,
            MangoInstruction::DepositMsrm { .. } => 35,
            MangoInstruction::WithdrawMsrm { .. } => 36,
            MangoInstruction::ChangePerpMarketParams { .. } => 37,
            MangoInstruction::SetGroupAdmin => 38,
            MangoInstruction::CancelAllPerpOrders { .. } => 39,
            MangoInstruction::ForceSettleQuotePositions => 40,
        }
    }

    /// Encodes this request.
    pub fn pack(&self) -> (r: Vec<u8>)
        ensures
            r@ == self.packed(),
    {
        let mut out: Vec<u8> = Vec::new();
        write_u32(&mut out, self.discriminant_of());
        assert(out@ =~= u32_bytes(self.discriminant()));
        self.pack_payload(&mut out);
        out
    }
}

/// The bytes at `off` are those of `x`: then `x` is read there.
proof fn lemma_u64_at(d: Seq<u8>, off: int, x: u64)
    requires
        field(d, off, 8) == u64_bytes(x),
    ensures
        u64_at(d, off) == x,
{
    lemma_pow256_values();
    lemma_le_value_of_bytes(x as nat, 8);
}

proof fn lemma_usize_at(d: Seq<u8>, off: int, x: usize)
    requires
        field(d, off, 8) == usize_bytes(x),
    ensures
        usize_at(d, off) == Some(x),
{
    lemma_pow256_values();
    lemma_le_value_of_bytes(x as nat, 8);
}

proof fn lemma_i64_at(d: Seq<u8>, off: int, x: i64)
    requires
        field(d, off, 8) == i64_bytes(x),
    ensures
        i64_at(d, off) == x,
{
    lemma_pow256_values();
    lemma_le_signed_of_bytes(x as int, 8);
}

proof fn lemma_i128_at(d: Seq<u8>, off: int, x: i128)
    requires
        field(d, off, 16) == le_signed_bytes(x as int, 16),
    ensures
        i128_at(d, off) == x,
{
    lemma_pow256_values();
    lemma_le_signed_of_bytes(x as int, 16);
}

proof fn lemma_fixed_at(d: Seq<u8>, off: int, x: I80F48)
    requires
        field(d, off, 16) == fixed_bytes(x),
    ensures
        fixed_at(d, off) == x,
{
    lemma_i128_at(d, off, x.bits);
}

proof fn lemma_small_u32_at(d: Seq<u8>, off: int, x: u8)
    requires
        field(d, off, 4) == u32_bytes(x as u32),
    ensures
        small_u32_at(d, off) == Some(x),
{
    lemma_pow256_values();
    lemma_le_value_of_bytes(x as nat, 4);
}

proof fn lemma_fixed_opt_at(d: Seq<u8>, off: int, x: Option<I80F48>)
    requires
        0 <= off,
        off + 17 <= d.len(),
        field(d, off, 17) == fixed_opt_bytes(x),
    ensures
        fixed_opt_at(d, off) == x,
{
    broadcast use lemma_le_bytes_len;

    let f = field(d, off, 17);
    assert(f[0] == d[off]);
    match x {
        Some(v) => {
            assert(field(d, off + 1, 16) =~= fixed_bytes(v)) by {
                assert forall|j: int| 0 <= j < 16 implies d[off + 1 + j] == fixed_bytes(v)[j] by {
                    assert(f[j + 1] == d[off + 1 + j]);
                }
            }
            lemma_fixed_at(d, off + 1, v);
        },
        None => {},
    }
}

proof fn lemma_u64_opt_at(d: Seq<u8>, off: int, x: Option<u64>)
    requires
        0 <= off,
        off + 9 <= d.len(),
        field(d, off, 9) == u64_opt_bytes(x),
    ensures
        u64_opt_at(d, off) == x,
{
    broadcast use lemma_le_bytes_len;

    let f = field(d, off, 9);
    assert(f[0] == d[off]);
    match x {
        Some(v) => {
            assert(field(d, off + 1, 8) =~= u64_bytes(v)) by {
                assert forall|j: int| 0 <= j < 8 implies d[off + 1 + j] == u64_bytes(v)[j] by {
                    assert(f[j + 1] == d[off + 1 + j]);
                }
            }
            lemma_u64_at(d, off + 1, v);
        },
        None => {},
    }
}

proof fn lemma_unpack_pack_a(i: MangoInstruction)
    requires
        i.discriminant() <= 8,
    ensures
        spec_unpack(i.packed()) == Some(i),
{
    broadcast use lemma_le_bytes_len;

    lemma_pow256_values();
    let k = i.discriminant();
    let p = i.packed();
    let d = p.subrange(4, p.len() as int);
    assert(field(p, 0, 4) =~= u32_bytes(k));
    lemma_le_value_of_bytes(k as nat, 4);
    match i {
        MangoInstruction::InitMangoGroup {
            signer_nonce,
            valid_interval,
            quote_optimal_util,
            quote_optimal_rate,
            quote_max_rate,
        } => {
            assert(field(d, 0, 8) =~= u64_bytes(signer_nonce));
            assert(field(d, 8, 8) =~= u64_bytes(valid_interval));
            assert(field(d, 16, 16) =~= fixed_bytes(quote_optimal_util));
            assert(field(d, 32, 16) =~= fixed_bytes(quote_optimal_rate));
            assert(field(d, 48, 16) =~= fixed_bytes(quote_max_rate));
            lemma_u64_at(d, 0, signer_nonce);
            lemma_u64_at(d, 8, valid_interval);
            lemma_fixed_at(d, 16, quote_optimal_util);
            lemma_fixed_at(d, 32, quote_optimal_rate);
            lemma_fixed_at(d, 48, quote_max_rate);
        },
        MangoInstruction::Deposit { quantity } => {
            assert(field(d, 0, 8) =~= u64_bytes(quantity));
            lemma_u64_at(d, 0, quantity);
        },
        MangoInstruction::Withdraw { quantity, allow_borrow } => {
            assert(field(d, 0, 8) =~= u64_bytes(quantity));
            lemma_u64_at(d, 0, quantity);
            assert(d[8] == bool_bytes(allow_borrow)[0]);
        },
        MangoInstruction::AddSpotMarket {
            maint_leverage,
            init_leverage,
            liquidation_fee,
            optimal_util,
            optimal_rate,
            max_rate,
        } => {
            assert(field(d, 0, 16) =~= fixed_bytes(maint_leverage));
            assert(field(d, 16, 16) =~= fixed_bytes(init_leverage));
            assert(field(d, 32, 16) =~= fixed_bytes(liquidation_fee));
            assert(field(d, 48, 16) =~= fixed_bytes(optimal_util));
            assert(field(d, 64, 16) =~= fixed_bytes(optimal_rate));
            assert(field(d, 80, 16) =~= fixed_bytes(max_rate));
            lemma_fixed_at(d, 0, maint_leverage);
            lemma_fixed_at(d, 16, init_leverage);
            lemma_fixed_at(d, 32, liquidation_fee);
            lemma_fixed_at(d, 48, optimal_util);
            lemma_fixed_at(d, 64, optimal_rate);
            lemma_fixed_at(d, 80, max_rate);
        },
        MangoInstruction::AddToBasket { market_index } => {
            assert(field(d, 0, 8) =~= usize_bytes(market_index));
            lemma_usize_at(d, 0, market_index);
        },
        MangoInstruction::Borrow { quantity } => {
            assert(field(d, 0, 8) =~= u64_bytes(quantity));
            lemma_u64_at(d, 0, quantity);
        },
        _ => {},
    }
}

proof fn lemma_unpack_pack_dex_order(o: dex::NewOrderInstructionV3)
    requires
        o.wf(),
    ensures
        dex_new_order_bytes(o).len() == 46,
        spec_unpack_dex_new_order_v3(dex_new_order_bytes(o)) == Some(o),
{
    broadcast use lemma_le_bytes_len;

    lemma_pow256_values();
    let d = dex_new_order_bytes(o);
    assert(field(d, 0, 4) =~= u32_bytes(o.side.spec_to_primitive() as u32));
    assert(field(d, 4, 8) =~= u64_bytes(o.limit_price));
    assert(field(d, 12, 8) =~= u64_bytes(o.max_coin_qty));
    assert(field(d, 20, 8) =~= u64_bytes(o.max_native_pc_qty_including_fees));
    assert(field(d, 28, 4) =~= u32_bytes(o.self_trade_behavior.spec_to_primitive() as u32));
    assert(field(d, 32, 4) =~= u32_bytes(o.order_type.spec_to_primitive() as u32));
    assert(field(d, 36, 8) =~= u64_bytes(o.client_order_id));
    assert(field(d, 44, 2) =~= le_bytes(o.limit as nat, 2));
    lemma_small_u32_at(d, 0, o.side.spec_to_primitive());
    lemma_u64_at(d, 4, o.limit_price);
    lemma_u64_at(d, 12, o.max_coin_qty);
    lemma_u64_at(d, 20, o.max_native_pc_qty_including_fees);
    lemma_small_u32_at(d, 28, o.self_trade_behavior.spec_to_primitive());
    lemma_small_u32_at(d, 32, o.order_type.spec_to_primitive());
    lemma_u64_at(d, 36, o.client_order_id);
    lemma_le_value_of_bytes(o.limit as nat, 2);
}

proof fn lemma_unpack_pack_b(i: MangoInstruction)
    requires
        9 <= i.discriminant() <= 15,
        i.wf(),
    ensures
        spec_unpack(i.packed()) == Some(i),
{
    broadcast use lemma_le_bytes_len;

    lemma_pow256_values();
    let k = i.discriminant();
    let p = i.packed();
    let d = p.subrange(4, p.len() as int);
    assert(field(p, 0, 4) =~= u32_bytes(k));
    lemma_le_value_of_bytes(k as nat, 4);
    match i {
        MangoInstruction::PlaceSpotOrder { order } => {
            lemma_unpack_pack_dex_order(order);
            assert(d =~= dex_new_order_bytes(order));
        },
        MangoInstruction::AddPerpMarket {
            maint_leverage,
            init_leverage,
            liquidation_fee,
            maker_fee,
            taker_fee,
            base_lot_size,
            quote_lot_size,
            rate,
            max_depth_bps,
            target_period_length,
            mngo_per_period,
        } => {
            assert(field(d, 0, 16) =~= fixed_bytes(maint_leverage));
            assert(field(d, 16, 16) =~= fixed_bytes(init_leverage));
            assert(field(d, 32, 16) =~= fixed_bytes(liquidation_fee));
            assert(field(d, 48, 16) =~= fixed_bytes(maker_fee));
            assert(field(d, 64, 16) =~= fixed_bytes(taker_fee));
            assert(field(d, 80, 8) =~= i64_bytes(base_lot_size));
            assert(field(d, 88, 8) =~= i64_bytes(quote_lot_size));
            assert(field(d, 96, 16) =~= fixed_bytes(rate));
            assert(field(d, 112, 16) =~= fixed_bytes(max_depth_bps));
            assert(field(d, 128, 8) =~= u64_bytes(target_period_length));
            assert(field(d, 136, 8) =~= u64_bytes(mngo_per_period));
            lemma_fixed_at(d, 0, maint_leverage);
            lemma_fixed_at(d, 16, init_leverage);
            lemma_fixed_at(d, 32, liquidation_fee);
            lemma_fixed_at(d, 48, maker_fee);
            lemma_fixed_at(d, 64, taker_fee);
            lemma_i64_at(d, 80, base_lot_size);
            lemma_i64_at(d, 88, quote_lot_size);
            lemma_fixed_at(d, 96, rate);
            lemma_fixed_at(d, 112, max_depth_bps);
            lemma_u64_at(d, 128, target_period_length);
            lemma_u64_at(d, 136, mngo_per_period);
        },
        MangoInstruction::PlacePerpOrder { price, quantity, client_order_id, side, order_type } => {
            assert(field(d, 0, 8) =~= i64_bytes(price));
            assert(field(d, 8, 8) =~= i64_bytes(quantity));
            assert(field(d, 16, 8) =~= u64_bytes(client_order_id));
            lemma_i64_at(d, 0, price);
            lemma_i64_at(d, 8, quantity);
            lemma_u64_at(d, 16, client_order_id);
            assert(d[24] == side.spec_to_primitive());
            assert(d[25] == order_type.spec_to_primitive());
        },
        MangoInstruction::CancelPerpOrderByClientId { client_order_id, invalid_id_ok } => {
            assert(field(d, 0, 8) =~= u64_bytes(client_order_id));
            lemma_u64_at(d, 0, client_order_id);
            assert(d[8] == bool_bytes(invalid_id_ok)[0]);
        },
        MangoInstruction::CancelPerpOrder { order_id, invalid_id_ok } => {
            assert(field(d, 0, 16) =~= le_signed_bytes(order_id as int, 16));
            lemma_i128_at(d, 0, order_id);
            assert(d[16] == bool_bytes(invalid_id_ok)[0]);
        },
        MangoInstruction::ConsumeEvents { limit } => {
            assert(field(d, 0, 8) =~= usize_bytes(limit));
            lemma_usize_at(d, 0, limit);
        },
        _ => {},
    }
}

proof fn lemma_unpack_pack_c(i: MangoInstruction)
    requires
        16 <= i.discriminant() <= 27,
    ensures
        spec_unpack(i.packed()) == Some(i),
{
    broadcast use lemma_le_bytes_len;

    lemma_pow256_values();
    let k = i.discriminant();
    let p = i.packed();
    let d = p.subrange(4, p.len() as int);
    assert(field(p, 0, 4) =~= u32_bytes(k));
    lemma_le_value_of_bytes(k as nat, 4);
    match i {
        MangoInstruction::SetOracle { price } => {
            assert(field(d, 0, 16) =~= fixed_bytes(price));
            lemma_fixed_at(d, 0, price);
        },
        MangoInstruction::CancelSpotOrder { order } => {
            assert(field(d, 0, 4) =~= u32_bytes(order.side.spec_to_primitive() as u32));
            assert(field(d, 4, 16) =~= le_bytes(order.order_id as nat, 16));
            lemma_small_u32_at(d, 0, order.side.spec_to_primitive());
            lemma_le_value_of_bytes(order.order_id as nat, 16);
        },
        MangoInstruction::SettlePnl { market_index } => {
            assert(field(d, 0, 8) =~= usize_bytes(market_index));
            lemma_usize_at(d, 0, market_index);
        },
        MangoInstruction::SettleBorrow { token_index, quantity } => {
            assert(field(d, 0, 8) =~= usize_bytes(token_index));
            assert(field(d, 8, 8) =~= u64_bytes(quantity));
            lemma_usize_at(d, 0, token_index);
            lemma_u64_at(d, 8, quantity);
        },
        MangoInstruction::ForceCancelSpotOrders { limit } => {
            assert(d[0] == limit);
        },
        MangoInstruction::ForceCancelPerpOrders { limit } => {
            assert(d[0] == limit);
        },
        MangoInstruction::LiquidateTokenAndToken { max_liab_transfer } => {
            assert(field(d, 0, 16) =~= fixed_bytes(max_liab_transfer));
            lemma_fixed_at(d, 0, max_liab_transfer);
        },
        MangoInstruction::LiquidateTokenAndPerp {
            asset_type,
            asset_index,
            liab_type,
            liab_index,
            max_liab_transfer,
        } => {
            assert(d[0] == asset_type.spec_to_primitive());
            assert(field(d, 1, 8) =~= usize_bytes(asset_index));
            assert(d[9] == liab_type.spec_to_primitive());
            assert(field(d, 10, 8) =~= usize_bytes(liab_index));
            assert(field(d, 18, 16) =~= fixed_bytes(max_liab_transfer));
            lemma_usize_at(d, 1, asset_index);
            lemma_usize_at(d, 10, liab_index);
            lemma_fixed_at(d, 18, max_liab_transfer);
        },
        _ => {},
    }
}

proof fn lemma_unpack_pack_d(i: MangoInstruction)
    requires
        28 <= i.discriminant(),
    ensures
        spec_unpack(i.packed()) == Some(i),
{
    broadcast use lemma_le_bytes_len;

    lemma_pow256_values();
    let k = i.discriminant();
    let p = i.packed();
    let d = p.subrange(4, p.len() as int);
    assert(field(p, 0, 4) =~= u32_bytes(k));
    lemma_le_value_of_bytes(k as nat, 4);
    match i {
        MangoInstruction::LiquidatePerpMarket { base_transfer_request } => {
            assert(field(d, 0, 8) =~= i64_bytes(base_transfer_request));
            lemma_i64_at(d, 0, base_transfer_request);
        },
        MangoInstruction::ResolvePerpBankruptcy { liab_index, max_liab_transfer } => {
            assert(field(d, 0, 8) =~= usize_bytes(liab_index));
            assert(field(d, 8, 16) =~= fixed_bytes(max_liab_transfer));
            lemma_usize_at(d, 0, liab_index);
            lemma_fixed_at(d, 8, max_liab_transfer);
        },
        MangoInstruction::ResolveTokenBankruptcy { max_liab_transfer } => {
            assert(field(d, 0, 16) =~= fixed_bytes(max_liab_transfer));
            lemma_fixed_at(d, 0, max_liab_transfer);
        },
        MangoInstruction::AddMangoAccountInfo { info } => {
            assert(field(d, 0, 32) =~= info@);
            assert(info_of(info@) =~= info);
        },
        MangoInstruction::DepositMsrm { quantity } => {
            assert(field(d, 0, 8) =~= u64_bytes(quantity));
            lemma_u64_at(d, 0, quantity);
        },
        MangoInstruction::WithdrawMsrm { quantity } => {
            assert(field(d, 0, 8) =~= u64_bytes(quantity));
            lemma_u64_at(d, 0, quantity);
        },
        MangoInstruction::ChangePerpMarketParams {
            maint_leverage,
            init_leverage,
            liquidation_fee,
            maker_fee,
            taker_fee,
            rate,
            max_depth_bps,
            target_period_length,
            mngo_per_period,
        } => {
            lemma_opt_lens(maint_leverage, target_period_length);
            lemma_opt_lens(init_leverage, mngo_per_period);
            lemma_opt_lens(liquidation_fee, mngo_per_period);
            lemma_opt_lens(maker_fee, mngo_per_period);
            lemma_opt_lens(taker_fee, mngo_per_period);
            lemma_opt_lens(rate, mngo_per_period);
            lemma_opt_lens(max_depth_bps, mngo_per_period);
            assert(field(d, 0, 17) =~= fixed_opt_bytes(maint_leverage));
            assert(field(d, 17, 17) =~= fixed_opt_bytes(init_leverage));
            assert(field(d, 34, 17) =~= fixed_opt_bytes(liquidation_fee));
            assert(field(d, 51, 17) =~= fixed_opt_bytes(maker_fee));
            assert(field(d, 68, 17) =~= fixed_opt_bytes(taker_fee));
            assert(field(d, 85, 17) =~= fixed_opt_bytes(rate));
            assert(field(d, 102, 17) =~= fixed_opt_bytes(max_depth_bps));
            assert(field(d, 119, 9) =~= u64_opt_bytes(target_period_length));
            assert(field(d, 128, 9) =~= u64_opt_bytes(mngo_per_period));
            lemma_fixed_opt_at(d, 0, maint_leverage);
            lemma_fixed_opt_at(d, 17, init_leverage);
            lemma_fixed_opt_at(d, 34, liquidation_fee);
            lemma_fixed_opt_at(d, 51, maker_fee);
            lemma_fixed_opt_at(d, 68, taker_fee);
            lemma_fixed_opt_at(d, 85, rate);
            lemma_fixed_opt_at(d, 102, max_depth_bps);
            lemma_u64_opt_at(d, 119, target_period_length);
            lemma_u64_opt_at(d, 128, mngo_per_period);
        },
        MangoInstruction::CancelAllPerpOrders { limit } => {
            assert(d[0] == limit);
        },
        _ => {},
    }
}

/// An optional field has the same width whether it is present or not.
proof fn lemma_opt_lens(x: Option<I80F48>, y: Option<u64>)
    ensures
        fixed_opt_bytes(x).len() == 17,
        u64_opt_bytes(y).len() == 9,
{
    broadcast use lemma_le_bytes_len;

}

/// Decoding undoes encoding: a request that was packed is unpacked to itself.
/// A spot order in it must have a price and quantities other than zero, as
/// every decoded order has.
pub proof fn lemma_unpack_pack(i: MangoInstruction)
    requires
        i.wf(),
    ensures
        spec_unpack(i.packed()) == Some(i),
{
    let k = i.discriminant();
    if k <= 8 {
        lemma_unpack_pack_a(i);
    } else if k <= 15 {
        lemma_unpack_pack_b(i);
    } else if k <= 27 {
        lemma_unpack_pack_c(i);
    } else {
        lemma_unpack_pack_d(i);
    }
}

/// A request that creates a group with its quote token.
pub fn init_mango_group(
    program_id: &Pubkey,
    mango_group_pk: &Pubkey,
    signer_pk: &Pubkey,
    admin_pk: &Pubkey,
    quote_mint_pk: &Pubkey,
    quote_vault_pk: &Pubkey,
    quote_node_bank_pk: &Pubkey,
    quote_root_bank_pk: &Pubkey,
    insurance_vault_pk: &Pubkey,
    msrm_vault_pk: &Pubkey,
    fees_vault_pk: &Pubkey,
    mango_cache_ai: &Pubkey,
    dex_program_pk: &Pubkey,
    signer_nonce: u64,
    valid_interval: u64,
    quote_optimal_util: I80F48,
    quote_optimal_rate: I80F48,
    quote_max_rate: I80F48,
) -> (r: Result<Instruction, ProgramError>)
    ensures
        r is Ok,
        r.unwrap()@ == (InstructionView {
            program_id: *program_id,
            accounts: seq![
                writable(*mango_group_pk, false),
                readonly(*signer_pk, false),
                readonly(*admin_pk, true),
                readonly(*quote_mint_pk, false),
                readonly(*quote_vault_pk, false),
                writable(*quote_node_bank_pk, false),
                writable(*quote_root_bank_pk, false),
                readonly(*insurance_vault_pk, false),
                readonly(*msrm_vault_pk, false),
                readonly(*fees_vault_pk, false),
                writable(*mango_cache_ai, false),
                readonly(*dex_program_pk, false),
            ],
            data: (MangoInstruction::InitMangoGroup {
                signer_nonce,
                valid_interval,
                quote_optimal_util,
                quote_optimal_rate,
                quote_max_rate,
            }).packed(),
        }),
{
    let accounts: Vec<AccountMeta> = vec![
        account_meta_new(*mango_group_pk, false),
        account_meta_new_readonly(*signer_pk, false),
        account_meta_new_readonly(*admin_pk, true),
        account_meta_new_readonly(*quote_mint_pk, false),
        account_meta_new_readonly(*quote_vault_pk, false),
        account_meta_new(*quote_node_bank_pk, false),
        account_meta_new(*quote_root_bank_pk, false),
        account_meta_new_readonly(*insurance_vault_pk, false),
        account_meta_new_readonly(*msrm_vault_pk, false),
        account_meta_new_readonly(*fees_vault_pk, false),
        account_meta_new(*mango_cache_ai, false),
        account_meta_new_readonly(*dex_program_pk, false),
    ];
    let instr = MangoInstruction::InitMangoGroup {
        signer_nonce,
        valid_interval,
        quote_optimal_util,
        quote_optimal_rate,
        quote_max_rate,
    };
    let data: Vec<u8> = instr.pack();
    Ok(Instruction { program_id: *program_id, accounts, data })
}

/// A request that creates a margin account, signed by its owner.
pub fn init_mango_account(
    program_id: &Pubkey,
    mango_group_pk: &Pubkey,
    mango_account_pk: &Pubkey,
    owner_pk: &Pubkey,
) -> (r: Result<Instruction, ProgramError>)
    ensures
        r is Ok,
        r.unwrap()@ == (InstructionView {
            program_id: *program_id,
            accounts: seq![
                readonly(*mango_group_pk, false),
                writable(*mango_account_pk, false),
                readonly(*owner_pk, true),
                readonly(rent_sysvar_id(), false),
            ],
            data: (MangoInstruction::InitMangoAccount).packed(),
        }),
{
    let accounts: Vec<AccountMeta> = vec![
        account_meta_new_readonly(*mango_group_pk, false),
        account_meta_new(*mango_account_pk, false),
        account_meta_new_readonly(*owner_pk, true),
        account_meta_new_readonly(sysvar_rent_id(), false),
    ];
    let instr = MangoInstruction::InitMangoAccount;
    let data: Vec<u8> = instr.pack();
    Ok(Instruction { program_id: *program_id, accounts, data })
}

/// A request that deposits `quantity` tokens of the owner into the account.
pub fn deposit(
    program_id: &Pubkey,
    mango_group_pk: &Pubkey,
    mango_account_pk: &Pubkey,
    owner_pk: &Pubkey,
    mango_cache_pk: &Pubkey,
    root_bank_pk: &Pubkey,
    node_bank_pk: &Pubkey,
    vault_pk: &Pubkey,
    owner_token_account_pk: &Pubkey,
    quantity: u64,
) -> (r: Result<Instruction, ProgramError>)
    ensures
        r is Ok,
        r.unwrap()@ == (InstructionView {
            program_id: *program_id,
            accounts: seq![
                readonly(*mango_group_pk, false),
                writable(*mango_account_pk, false),
                readonly(*owner_pk, true),
                readonly(*mango_cache_pk, false),
                readonly(*root_bank_pk, false),
                writable(*node_bank_pk, false),
                writable(*vault_pk, false),
                readonly(token_program_id(), false),
                writable(*owner_token_account_pk, false),
            ],
            data: (MangoInstruction::Deposit { quantity }).packed(),
        }),
{
    let accounts: Vec<AccountMeta> = vec![
        account_meta_new_readonly(*mango_group_pk, false),
        account_meta_new(*mango_account_pk, false),
        account_meta_new_readonly(*owner_pk, true),
        account_meta_new_readonly(*mango_cache_pk, false),
        account_meta_new_readonly(*root_bank_pk, false),
        account_meta_new(*node_bank_pk, false),
        account_meta_new(*vault_pk, false),
        account_meta_new_readonly(spl_token_id(), false),
        account_meta_new(*owner_token_account_pk, false),
    ];
    let instr = MangoInstruction::Deposit { quantity };
    let data: Vec<u8> = instr.pack();
    Ok(Instruction { program_id: *program_id, accounts, data })
}

/// A request of the administrator that lists a token and its spot market.
pub fn add_spot_market(
    program_id: &Pubkey,
    mango_group_pk: &Pubkey,
    oracle_pk: &Pubkey,
    spot_market_pk: &Pubkey,
    dex_program_pk: &Pubkey,
    token_mint_pk: &Pubkey,
    node_bank_pk: &Pubkey,
    vault_pk: &Pubkey,
    root_bank_pk: &Pubkey,
    admin_pk: &Pubkey,
    maint_leverage: I80F48,
    init_leverage: I80F48,
    liquidation_fee: I80F48,
    optimal_util: I80F48,
    optimal_rate: I80F48,
    max_rate: I80F48,
) -> (r: Result<Instruction, ProgramError>)
    ensures
        r is Ok,
        r.unwrap()@ == (InstructionView {
            program_id: *program_id,
            accounts: seq![
                writable(*mango_group_pk, false),
                readonly(*oracle_pk, false),
                readonly(*spot_market_pk, false),
                readonly(*dex_program_pk, false),
                readonly(*token_mint_pk, false),
                writable(*node_bank_pk, false),
                readonly(*vault_pk, false),
                writable(*root_bank_pk, false),
                readonly(*admin_pk, true),
            ],
            data: (MangoInstruction::AddSpotMarket {
                maint_leverage,
                init_leverage,
                liquidation_fee,
                optimal_util,
                optimal_rate,
                max_rate,
            }).packed(),
        }),
{
    let accounts: Vec<AccountMeta> = vec![
        account_meta_new(*mango_group_pk, false),
        account_meta_new_readonly(*oracle_pk, false),
        account_meta_new_readonly(*spot_market_pk, false),
        account_meta_new_readonly(*dex_program_pk, false),
        account_meta_new_readonly(*token_mint_pk, false),
        account_meta_new(*node_bank_pk, false),
        account_meta_new_readonly(*vault_pk, false),
        account_meta_new(*root_bank_pk, false),
        account_meta_new_readonly(*admin_pk, true),
    ];
    let instr = MangoInstruction::AddSpotMarket {
        maint_leverage,
        init_leverage,
        liquidation_fee,
        optimal_util,
        optimal_rate,
        max_rate,
    };
    let data: Vec<u8> = instr.pack();
    Ok(Instruction { program_id: *program_id, accounts, data })
}

/// A request of the administrator that lists a perp market.
pub fn add_perp_market(
    program_id: &Pubkey,
    mango_group_pk: &Pubkey,
    oracle_pk: &Pubkey,
    perp_market_pk: &Pubkey,
    event_queue_pk: &Pubkey,
    bids_pk: &Pubkey,
    asks_pk: &Pubkey,
    mngo_vault_pk: &Pubkey,
    admin_pk: &Pubkey,
    maint_leverage: I80F48,
    init_leverage: I80F48,
    liquidation_fee: I80F48,
    maker_fee: I80F48,
    taker_fee: I80F48,
    base_lot_size: i64,
    quote_lot_size: i64,
    rate: I80F48,
    max_depth_bps: I80F48,
    target_period_length: u64,
    mngo_per_period: u64,
) -> (r: Result<Instruction, ProgramError>)
    ensures
        r is Ok,
        r.unwrap()@ == (InstructionView {
            program_id: *program_id,
            accounts: seq![
                writable(*mango_group_pk, false),
                writable(*oracle_pk, false),
                writable(*perp_market_pk, false),
                writable(*event_queue_pk, false),
                writable(*bids_pk, false),
                writable(*asks_pk, false),
                readonly(*mngo_vault_pk, false),
                readonly(*admin_pk, true),
            ],
            data: (MangoInstruction::AddPerpMarket {
                maint_leverage,
                init_leverage,
                liquidation_fee,
                maker_fee,
                taker_fee,
                base_lot_size,
                quote_lot_size,
                rate,
                max_depth_bps,
                target_period_length,
                mngo_per_period,
            }).packed(),
        }),
{
    let accounts: Vec<AccountMeta> = vec![
        account_meta_new(*mango_group_pk, false),
        account_meta_new(*oracle_pk, false),
        account_meta_new(*perp_market_pk, false),
        account_meta_new(*event_queue_pk, false),
        account_meta_new(*bids_pk, false),
        account_meta_new(*asks_pk, false),
        account_meta_new_readonly(*mngo_vault_pk, false),
        account_meta_new_readonly(*admin_pk, true),
    ];
    let instr = MangoInstruction::AddPerpMarket {
        maint_leverage,
        init_leverage,
        liquidation_fee,
        maker_fee,
        taker_fee,
        base_lot_size,
        quote_lot_size,
        rate,
        max_depth_bps,
        target_period_length,
        mngo_per_period,
    };
    let data: Vec<u8> = instr.pack();
    Ok(Instruction { program_id: *program_id, accounts, data })
}

/// A request of the owner that places an order on a perp market. The open-
/// orders accounts of the spot markets follow the fixed accounts, read-only.
pub fn place_perp_order(
    program_id: &Pubkey,
    mango_group_pk: &Pubkey,
    mango_account_pk: &Pubkey,
    owner_pk: &Pubkey,
    mango_cache_pk: &Pubkey,
    perp_market_pk: &Pubkey,
    bids_pk: &Pubkey,
    asks_pk: &Pubkey,
    event_queue_pk: &Pubkey,
    open_orders_pks: &[Pubkey; MAX_PAIRS],
    side: Side,
    price: i64,
    quantity: i64,
    client_order_id: u64,
    order_type: OrderType,
) -> (r: Result<Instruction, ProgramError>)
    ensures
        r is Ok,
        r.unwrap()@ == (InstructionView {
            program_id: *program_id,
            accounts: seq![
                readonly(*mango_group_pk, false),
                writable(*mango_account_pk, false),
                readonly(*owner_pk, true),
                readonly(*mango_cache_pk, false),
                writable(*perp_market_pk, false),
                writable(*bids_pk, false),
                writable(*asks_pk, false),
                writable(*event_queue_pk, false),
            ] + readonly_metas(open_orders_pks@),
            data: (MangoInstruction::PlacePerpOrder { side, price, quantity, client_order_id, order_type }).packed(),
        }),
{
    let mut accounts: Vec<AccountMeta> = vec![
        account_meta_new_readonly(*mango_group_pk, false),
        account_meta_new(*mango_account_pk, false),
        account_meta_new_readonly(*owner_pk, true),
        account_meta_new_readonly(*mango_cache_pk, false),
        account_meta_new(*perp_market_pk, false),
        account_meta_new(*bids_pk, false),
        account_meta_new(*asks_pk, false),
        account_meta_new(*event_queue_pk, false),
    ];
    extend_readonly(&mut accounts, open_orders_pks.as_slice());
    let instr = MangoInstruction::PlacePerpOrder { side, price, quantity, client_order_id, order_type };
    let data: Vec<u8> = instr.pack();
    Ok(Instruction { program_id: *program_id, accounts, data })
}

/// A request of the owner that cancels the perp order with the given client id.
pub fn cancel_perp_order_by_client_id(
    program_id: &Pubkey,
    mango_group_pk: &Pubkey,
    mango_account_pk: &Pubkey,
    owner_pk: &Pubkey,
    perp_market_pk: &Pubkey,
    bids_pk: &Pubkey,
    asks_pk: &Pubkey,
    client_order_id: u64,
    invalid_id_ok: bool,
) -> (r: Result<Instruction, ProgramError>)
    ensures
        r is Ok,
        r.unwrap()@ == (InstructionView {
            program_id: *program_id,
            accounts: seq![
                readonly(*mango_group_pk, false),
                writable(*mango_account_pk, false),
                readonly(*owner_pk, true),
                writable(*perp_market_pk, false),
                writable(*bids_pk, false),
                writable(*asks_pk, false),
            ],
            data: (MangoInstruction::CancelPerpOrderByClientId { client_order_id, invalid_id_ok }).packed(),
        }),
{
    let accounts: Vec<AccountMeta> = vec![
        account_meta_new_readonly(*mango_group_pk, false),
        account_meta_new(*mango_account_pk, false),
        account_meta_new_readonly(*owner_pk, true),
        account_meta_new(*perp_market_pk, false),
        account_meta_new(*bids_pk, false),
        account_meta_new(*asks_pk, false),
    ];
    let instr = MangoInstruction::CancelPerpOrderByClientId { client_order_id, invalid_id_ok };
    let data: Vec<u8> = instr.pack();
    Ok(Instruction { program_id: *program_id, accounts, data })
}

/// A request of the owner that cancels the perp order with the given id.
pub fn cancel_perp_order(
    program_id: &Pubkey,
    mango_group_pk: &Pubkey,
    mango_account_pk: &Pubkey,
    owner_pk: &Pubkey,
    perp_market_pk: &Pubkey,
    bids_pk: &Pubkey,
    asks_pk: &Pubkey,
    order_id: i128,
    invalid_id_ok: bool,
) -> (r: Result<Instruction, ProgramError>)
    ensures
        r is Ok,
        r.unwrap()@ == (InstructionView {
            program_id: *program_id,
            accounts: seq![
                readonly(*mango_group_pk, false),
                writable(*mango_account_pk, false),
                readonly(*owner_pk, true),
                writable(*perp_market_pk, false),
                writable(*bids_pk, false),
                writable(*asks_pk, false),
            ],
            data: (MangoInstruction::CancelPerpOrder { order_id, invalid_id_ok }).packed(),
        }),
{
    let accounts: Vec<AccountMeta> = vec![
        account_meta_new_readonly(*mango_group_pk, false),
        account_meta_new(*mango_account_pk, false),
        account_meta_new_readonly(*owner_pk, true),
        account_meta_new(*perp_market_pk, false),
        account_meta_new(*bids_pk, false),
        account_meta_new(*asks_pk, false),
    ];
    let instr = MangoInstruction::CancelPerpOrder { order_id, invalid_id_ok };
    let data: Vec<u8> = instr.pack();
    Ok(Instruction { program_id: *program_id, accounts, data })
}

/// A request of the owner that cancels up to `limit` of the account's perp
/// orders.
pub fn cancel_all_perp_orders(
    program_id: &Pubkey,
    mango_group_pk: &Pubkey,
    mango_account_pk: &Pubkey,
    owner_pk: &Pubkey,
    perp_market_pk: &Pubkey,
    bids_pk: &Pubkey,
    asks_pk: &Pubkey,
    limit: u8,
) -> (r: Result<Instruction, ProgramError>)
    ensures
        r is Ok,
        r.unwrap()@ == (InstructionView {
            program_id: *program_id,
            accounts: seq![
                readonly(*mango_group_pk, false),
                writable(*mango_account_pk, false),
                readonly(*owner_pk, true),
                writable(*perp_market_pk, false),
                writable(*bids_pk, false),
                writable(*asks_pk, false),
            ],
            data: (MangoInstruction::CancelAllPerpOrders { limit }).packed(),
        }),
{
    let accounts: Vec<AccountMeta> = vec![
        account_meta_new_readonly(*mango_group_pk, false),
        account_meta_new(*mango_account_pk, false),
        account_meta_new_readonly(*owner_pk, true),
        account_meta_new(*perp_market_pk, false),
        account_meta_new(*bids_pk, false),
        account_meta_new(*asks_pk, false),
    ];
    let instr = MangoInstruction::CancelAllPerpOrders { limit };
    let data: Vec<u8> = instr.pack();
    Ok(Instruction { program_id: *program_id, accounts, data })
}

/// A request that cancels up to `limit` perp orders of an account that is being
/// liquidated. Its open-orders accounts follow the fixed accounts, read-only.
pub fn force_cancel_perp_orders(
    program_id: &Pubkey,
    mango_group_pk: &Pubkey,
    mango_cache_pk: &Pubkey,
    perp_market_pk: &Pubkey,
    bids_pk: &Pubkey,
    asks_pk: &Pubkey,
    liqee_mango_account_pk: &Pubkey,
    open_orders_pks: &[Pubkey],
    limit: u8,
) -> (r: Result<Instruction, ProgramError>)
    ensures
        r is Ok,
        r.unwrap()@ == (InstructionView {
            program_id: *program_id,
            accounts: seq![
                readonly(*mango_group_pk, false),
                readonly(*mango_cache_pk, false),
                readonly(*perp_market_pk, false),
                writable(*bids_pk, false),
                writable(*asks_pk, false),
                writable(*liqee_mango_account_pk, false),
            ] + readonly_metas(open_orders_pks@),
            data: (MangoInstruction::ForceCancelPerpOrders { limit }).packed(),
        }),
{
    let mut accounts: Vec<AccountMeta> = vec![
        account_meta_new_readonly(*mango_group_pk, false),
        account_meta_new_readonly(*mango_cache_pk, false),
        account_meta_new_readonly(*perp_market_pk, false),
        account_meta_new(*bids_pk, false),
        account_meta_new(*asks_pk, false),
        account_meta_new(*liqee_mango_account_pk, false),
    ];
    extend_readonly(&mut accounts, open_orders_pks);
    let instr = MangoInstruction::ForceCancelPerpOrders { limit };
    let data: Vec<u8> = instr.pack();
    Ok(Instruction { program_id: *program_id, accounts, data })
}

/// A request that settles profit and loss of the perp market at `market_index`
/// between two accounts.
pub fn settle_pnl(
    program_id: &Pubkey,
    mango_group_pk: &Pubkey,
    mango_account_a_pk: &Pubkey,
    mango_account_b_pk: &Pubkey,
    mango_cache_pk: &Pubkey,
    root_bank_pk: &Pubkey,
    node_bank_pk: &Pubkey,
    market_index: usize,
) -> (r: Result<Instruction, ProgramError>)
    ensures
        r is Ok,
        r.unwrap()@ == (InstructionView {
            program_id: *program_id,
            accounts: seq![
                readonly(*mango_group_pk, false),
                writable(*mango_account_a_pk, false),
                writable(*mango_account_b_pk, false),
                readonly(*mango_cache_pk, false),
                readonly(*root_bank_pk, false),
                writable(*node_bank_pk, false),
            ],
            data: (MangoInstruction::SettlePnl { market_index }).packed(),
        }),
{
    let accounts: Vec<AccountMeta> = vec![
        account_meta_new_readonly(*mango_group_pk, false),
        account_meta_new(*mango_account_a_pk, false),
        account_meta_new(*mango_account_b_pk, false),
        account_meta_new_readonly(*mango_cache_pk, false),
        account_meta_new_readonly(*root_bank_pk, false),
        account_meta_new(*node_bank_pk, false),
    ];
    let instr = MangoInstruction::SettlePnl { market_index };
    let data: Vec<u8> = instr.pack();
    Ok(Instruction { program_id: *program_id, accounts, data })
}

/// A request that brings the funding of a perp market up to date.
pub fn update_funding(
    program_id: &Pubkey,
    mango_group_pk: &Pubkey,
    mango_cache_pk: &Pubkey,
    perp_market_pk: &Pubkey,
    bids_pk: &Pubkey,
    asks_pk: &Pubkey,
) -> (r: Result<Instruction, ProgramError>)
    ensures
        r is Ok,
        r.unwrap()@ == (InstructionView {
            program_id: *program_id,
            accounts: seq![
                readonly(*mango_group_pk, false),
                readonly(*mango_cache_pk, false),
                writable(*perp_market_pk, false),
                readonly(*bids_pk, false),
                readonly(*asks_pk, false),
            ],
            data: (MangoInstruction::UpdateFunding).packed(),
        }),
{
    let accounts: Vec<AccountMeta> = vec![
        account_meta_new_readonly(*mango_group_pk, false),
        account_meta_new_readonly(*mango_cache_pk, false),
        account_meta_new(*perp_market_pk, false),
        account_meta_new_readonly(*bids_pk, false),
        account_meta_new_readonly(*asks_pk, false),
    ];
    let instr = MangoInstruction::UpdateFunding;
    let data: Vec<u8> = instr.pack();
    Ok(Instruction { program_id: *program_id, accounts, data })
}

/// A request of the owner that withdraws `quantity` tokens, borrowing if
/// `allow_borrow` is set. The open-orders accounts follow the fixed accounts,
/// read-only.
pub fn withdraw(
    program_id: &Pubkey,
    mango_group_pk: &Pubkey,
    mango_account_pk: &Pubkey,
    owner_pk: &Pubkey,
    mango_cache_pk: &Pubkey,
    root_bank_pk: &Pubkey,
    node_bank_pk: &Pubkey,
    vault_pk: &Pubkey,
    token_account_pk: &Pubkey,
    signer_pk: &Pubkey,
    open_orders_pks: &[Pubkey],
    quantity: u64,
    allow_borrow: bool,
) -> (r: Result<Instruction, ProgramError>)
    ensures
        r is Ok,
        r.unwrap()@ == (InstructionView {
            program_id: *program_id,
            accounts: seq![
                writable(*mango_group_pk, false),
                writable(*mango_account_pk, false),
                readonly(*owner_pk, true),
                readonly(*mango_cache_pk, false),
                readonly(*root_bank_pk, false),
                writable(*node_bank_pk, false),
                writable(*vault_pk, false),
                writable(*token_account_pk, false),
                readonly(*signer_pk, false),
                readonly(token_program_id(), false),
            ] + readonly_metas(open_orders_pks@),
            data: (MangoInstruction::Withdraw { quantity, allow_borrow }).packed(),
        }),
{
    let mut accounts: Vec<AccountMeta> = vec![
        account_meta_new(*mango_group_pk, false),
        account_meta_new(*mango_account_pk, false),
        account_meta_new_readonly(*owner_pk, true),
        account_meta_new_readonly(*mango_cache_pk, false),
        account_meta_new_readonly(*root_bank_pk, false),
        account_meta_new(*node_bank_pk, false),
        account_meta_new(*vault_pk, false),
        account_meta_new(*token_account_pk, false),
        account_meta_new_readonly(*signer_pk, false),
        account_meta_new_readonly(spl_token_id(), false),
    ];
    extend_readonly(&mut accounts, open_orders_pks);
    let instr = MangoInstruction::Withdraw { quantity, allow_borrow };
    let data: Vec<u8> = instr.pack();
    Ok(Instruction { program_id: *program_id, accounts, data })
}

/// A request of the owner that borrows `quantity` tokens. The open-orders
/// accounts follow the fixed accounts, writable.
pub fn borrow(
    program_id: &Pubkey,
    mango_group_pk: &Pubkey,
    mango_account_pk: &Pubkey,
    mango_cache_pk: &Pubkey,
    owner_pk: &Pubkey,
    root_bank_pk: &Pubkey,
    node_bank_pk: &Pubkey,
    open_orders_pks: &[Pubkey],
    quantity: u64,
) -> (r: Result<Instruction, ProgramError>)
    ensures
        r is Ok,
        r.unwrap()@ == (InstructionView {
            program_id: *program_id,
            accounts: seq![
                writable(*mango_group_pk, false),
                writable(*mango_account_pk, false),
                readonly(*owner_pk, true),
                readonly(*mango_cache_pk, false),
                readonly(*root_bank_pk, false),
                writable(*node_bank_pk, false),
            ] + writable_metas(open_orders_pks@),
            data: (MangoInstruction::Borrow { quantity }).packed(),
        }),
{
    let mut accounts: Vec<AccountMeta> = vec![
        account_meta_new(*mango_group_pk, false),
        account_meta_new(*mango_account_pk, false),
        account_meta_new_readonly(*owner_pk, true),
        account_meta_new_readonly(*mango_cache_pk, false),
        account_meta_new_readonly(*root_bank_pk, false),
        account_meta_new(*node_bank_pk, false),
    ];
    extend_writable(&mut accounts, open_orders_pks);
    let instr = MangoInstruction::Borrow { quantity };
    let data: Vec<u8> = instr.pack();
    Ok(Instruction { program_id: *program_id, accounts, data })
}

/// A request that refreshes the cached prices from the given oracles.
pub fn cache_prices(
    program_id: &Pubkey,
    mango_group_pk: &Pubkey,
    mango_cache_pk: &Pubkey,
    oracle_pks: &[Pubkey],
) -> (r: Result<Instruction, ProgramError>)
    ensures
        r is Ok,
        r.unwrap()@ == (InstructionView {
            program_id: *program_id,
            accounts: seq![
                readonly(*mango_group_pk, false),
                writable(*mango_cache_pk, false),
            ] + readonly_metas(oracle_pks@),
            data: (MangoInstruction::CachePrices).packed(),
        }),
{
    let mut accounts: Vec<AccountMeta> = vec![
        account_meta_new_readonly(*mango_group_pk, false),
        account_meta_new(*mango_cache_pk, false),
    ];
    extend_readonly(&mut accounts, oracle_pks);
    let instr = MangoInstruction::CachePrices;
    let data: Vec<u8> = instr.pack();
    Ok(Instruction { program_id: *program_id, accounts, data })
}

/// A request that refreshes the cached indices of the given tokens.
pub fn cache_root_banks(
    program_id: &Pubkey,
    mango_group_pk: &Pubkey,
    mango_cache_pk: &Pubkey,
    root_bank_pks: &[Pubkey],
) -> (r: Result<Instruction, ProgramError>)
    ensures
        r is Ok,
        r.unwrap()@ == (InstructionView {
            program_id: *program_id,
            accounts: seq![
                readonly(*mango_group_pk, false),
                writable(*mango_cache_pk, false),
            ] + readonly_metas(root_bank_pks@),
            data: (MangoInstruction::CacheRootBanks).packed(),
        }),
{
    let mut accounts: Vec<AccountMeta> = vec![
        account_meta_new_readonly(*mango_group_pk, false),
        account_meta_new(*mango_cache_pk, false),
    ];
    extend_readonly(&mut accounts, root_bank_pks);
    let instr = MangoInstruction::CacheRootBanks;
    let data: Vec<u8> = instr.pack();
    Ok(Instruction { program_id: *program_id, accounts, data })
}

/// A request that refreshes the cached funding of the given perp markets.
pub fn cache_perp_markets(
    program_id: &Pubkey,
    mango_group_pk: &Pubkey,
    mango_cache_pk: &Pubkey,
    perp_market_pks: &[Pubkey],
) -> (r: Result<Instruction, ProgramError>)
    ensures
        r is Ok,
        r.unwrap()@ == (InstructionView {
            program_id: *program_id,
            accounts: seq![
                readonly(*mango_group_pk, false),
                writable(*mango_cache_pk, false),
            ] + readonly_metas(perp_market_pks@),
            data: (MangoInstruction::CachePerpMarkets).packed(),
        }),
{
    let mut accounts: Vec<AccountMeta> = vec![
        account_meta_new_readonly(*mango_group_pk, false),
        account_meta_new(*mango_cache_pk, false),
    ];
    extend_readonly(&mut accounts, perp_market_pks);
    let instr = MangoInstruction::CachePerpMarkets;
    let data: Vec<u8> = instr.pack();
    Ok(Instruction { program_id: *program_id, accounts, data })
}

/// A request of the owner that creates the account's open-orders account on a
/// spot market.
pub fn init_spot_open_orders(
    program_id: &Pubkey,
    mango_group_pk: &Pubkey,
    mango_account_pk: &Pubkey,
    owner_pk: &Pubkey,
    dex_prog_pk: &Pubkey,
    open_orders_pk: &Pubkey,
    spot_market_pk: &Pubkey,
    signer_pk: &Pubkey,
) -> (r: Result<Instruction, ProgramError>)
    ensures
        r is Ok,
        r.unwrap()@ == (InstructionView {
            program_id: *program_id,
            accounts: seq![
                readonly(*mango_group_pk, false),
                writable(*mango_account_pk, false),
                readonly(*owner_pk, true),
                readonly(*dex_prog_pk, false),
                writable(*open_orders_pk, false),
                readonly(*spot_market_pk, false),
                readonly(*signer_pk, false),
                readonly(rent_sysvar_id(), false),
            ],
            data: (MangoInstruction::InitSpotOpenOrders).packed(),
        }),
{
    let accounts: Vec<AccountMeta> = vec![
        account_meta_new_readonly(*mango_group_pk, false),
        account_meta_new(*mango_account_pk, false),
        account_meta_new_readonly(*owner_pk, true),
        account_meta_new_readonly(*dex_prog_pk, false),
        account_meta_new(*open_orders_pk, false),
        account_meta_new_readonly(*spot_market_pk, false),
        account_meta_new_readonly(*signer_pk, false),
        account_meta_new_readonly(sysvar_rent_id(), false),
    ];
    let instr = MangoInstruction::InitSpotOpenOrders;
    let data: Vec<u8> = instr.pack();
    Ok(Instruction { program_id: *program_id, accounts, data })
}

/// A request of the owner that places an order on a spot market. The open-
/// orders accounts follow the fixed accounts; only the one at `market_index`,
/// the market of the order, is writable.
pub fn place_spot_order(
    program_id: &Pubkey,
    mango_group_pk: &Pubkey,
    mango_account_pk: &Pubkey,
    owner_pk: &Pubkey,
    mango_cache_pk: &Pubkey,
    dex_prog_pk: &Pubkey,
    spot_market_pk: &Pubkey,
    bids_pk: &Pubkey,
    asks_pk: &Pubkey,
    dex_request_queue_pk: &Pubkey,
    dex_event_queue_pk: &Pubkey,
    dex_base_pk: &Pubkey,
    dex_quote_pk: &Pubkey,
    base_root_bank_pk: &Pubkey,
    base_node_bank_pk: &Pubkey,
    base_vault_pk: &Pubkey,
    quote_root_bank_pk: &Pubkey,
    quote_node_bank_pk: &Pubkey,
    quote_vault_pk: &Pubkey,
    signer_pk: &Pubkey,
    dex_signer_pk: &Pubkey,
    msrm_or_srm_vault_pk: &Pubkey,
    open_orders_pks: &[Pubkey],
    market_index: usize,
    order: dex::NewOrderInstructionV3,
) -> (r: Result<Instruction, ProgramError>)
    ensures
        r is Ok,
        r.unwrap()@ == (InstructionView {
            program_id: *program_id,
            accounts: seq![
                readonly(*mango_group_pk, false),
                writable(*mango_account_pk, false),
                readonly(*owner_pk, true),
                readonly(*mango_cache_pk, false),
                readonly(*dex_prog_pk, false),
                writable(*spot_market_pk, false),
                writable(*bids_pk, false),
                writable(*asks_pk, false),
                writable(*dex_request_queue_pk, false),
                writable(*dex_event_queue_pk, false),
                writable(*dex_base_pk, false),
                writable(*dex_quote_pk, false),
                readonly(*base_root_bank_pk, false),
                writable(*base_node_bank_pk, false),
                writable(*base_vault_pk, false),
                readonly(*quote_root_bank_pk, false),
                writable(*quote_node_bank_pk, false),
                writable(*quote_vault_pk, false),
                readonly(token_program_id(), false),
                readonly(*signer_pk, false),
                readonly(rent_sysvar_id(), false),
                readonly(*dex_signer_pk, false),
                readonly(*msrm_or_srm_vault_pk, false),
            ] + metas_writable_at(open_orders_pks@, market_index as int),
            data: (MangoInstruction::PlaceSpotOrder { order }).packed(),
        }),
{
    let mut accounts: Vec<AccountMeta> = vec![
        account_meta_new_readonly(*mango_group_pk, false),
        account_meta_new(*mango_account_pk, false),
        account_meta_new_readonly(*owner_pk, true),
        account_meta_new_readonly(*mango_cache_pk, false),
        account_meta_new_readonly(*dex_prog_pk, false),
        account_meta_new(*spot_market_pk, false),
        account_meta_new(*bids_pk, false),
        account_meta_new(*asks_pk, false),
        account_meta_new(*dex_request_queue_pk, false),
        account_meta_new(*dex_event_queue_pk, false),
        account_meta_new(*dex_base_pk, false),
        account_meta_new(*dex_quote_pk, false),
        account_meta_new_readonly(*base_root_bank_pk, false),
        account_meta_new(*base_node_bank_pk, false),
        account_meta_new(*base_vault_pk, false),
        account_meta_new_readonly(*quote_root_bank_pk, false),
        account_meta_new(*quote_node_bank_pk, false),
        account_meta_new(*quote_vault_pk, false),
        account_meta_new_readonly(spl_token_id(), false),
        account_meta_new_readonly(*signer_pk, false),
        account_meta_new_readonly(sysvar_rent_id(), false),
        account_meta_new_readonly(*dex_signer_pk, false),
        account_meta_new_readonly(*msrm_or_srm_vault_pk, false),
    ];
    extend_writable_at(&mut accounts, open_orders_pks, market_index);
    let instr = MangoInstruction::PlaceSpotOrder { order };
    let data: Vec<u8> = instr.pack();
    Ok(Instruction { program_id: *program_id, accounts, data })
}

/// A request of the owner that collects what a spot market owes the account.
pub fn settle_funds(
    program_id: &Pubkey,
    mango_group_pk: &Pubkey,
    mango_cache_pk: &Pubkey,
    owner_pk: &Pubkey,
    mango_account_pk: &Pubkey,
    dex_prog_pk: &Pubkey,
    spot_market_pk: &Pubkey,
    open_orders_pk: &Pubkey,
    signer_pk: &Pubkey,
    dex_base_pk: &Pubkey,
    dex_quote_pk: &Pubkey,
    base_root_bank_pk: &Pubkey,
    base_node_bank_pk: &Pubkey,
    quote_root_bank_pk: &Pubkey,
    quote_node_bank_pk: &Pubkey,
    base_vault_pk: &Pubkey,
    quote_vault_pk: &Pubkey,
    dex_signer_pk: &Pubkey,
) -> (r: Result<Instruction, ProgramError>)
    ensures
        r is Ok,
        r.unwrap()@ == (InstructionView {
            program_id: *program_id,
            accounts: seq![
                readonly(*mango_group_pk, false),
                readonly(*mango_cache_pk, false),
                readonly(*owner_pk, true),
                writable(*mango_account_pk, false),
                readonly(*dex_prog_pk, false),
                writable(*spot_market_pk, false),
                writable(*open_orders_pk, false),
                readonly(*signer_pk, false),
                writable(*dex_base_pk, false),
                writable(*dex_quote_pk, false),
                readonly(*base_root_bank_pk, false),
                writable(*base_node_bank_pk, false),
                readonly(*quote_root_bank_pk, false),
                writable(*quote_node_bank_pk, false),
                writable(*base_vault_pk, false),
                writable(*quote_vault_pk, false),
                readonly(*dex_signer_pk, false),
                readonly(token_program_id(), false),
            ],
            data: (MangoInstruction::SettleFunds).packed(),
        }),
{
    let accounts: Vec<AccountMeta> = vec![
        account_meta_new_readonly(*mango_group_pk, false),
        account_meta_new_readonly(*mango_cache_pk, false),
        account_meta_new_readonly(*owner_pk, true),
        account_meta_new(*mango_account_pk, false),
        account_meta_new_readonly(*dex_prog_pk, false),
        account_meta_new(*spot_market_pk, false),
        account_meta_new(*open_orders_pk, false),
        account_meta_new_readonly(*signer_pk, false),
        account_meta_new(*dex_base_pk, false),
        account_meta_new(*dex_quote_pk, false),
        account_meta_new_readonly(*base_root_bank_pk, false),
        account_meta_new(*base_node_bank_pk, false),
        account_meta_new_readonly(*quote_root_bank_pk, false),
        account_meta_new(*quote_node_bank_pk, false),
        account_meta_new(*base_vault_pk, false),
        account_meta_new(*quote_vault_pk, false),
        account_meta_new_readonly(*dex_signer_pk, false),
        account_meta_new_readonly(spl_token_id(), false),
    ];
    let instr = MangoInstruction::SettleFunds;
    let data: Vec<u8> = instr.pack();
    Ok(Instruction { program_id: *program_id, accounts, data })
}

/// A request of the administrator that registers an oracle.
pub fn add_oracle(
    program_id: &Pubkey,
    mango_group_pk: &Pubkey,
    oracle_pk: &Pubkey,
    admin_pk: &Pubkey,
) -> (r: Result<Instruction, ProgramError>)
    ensures
        r is Ok,
        r.unwrap()@ == (InstructionView {
            program_id: *program_id,
            accounts: seq![
                writable(*mango_group_pk, false),
                writable(*oracle_pk, false),
                readonly(*admin_pk, true),
            ],
            data: (MangoInstruction::AddOracle).packed(),
        }),
{
    let accounts: Vec<AccountMeta> = vec![
        account_meta_new(*mango_group_pk, false),
        account_meta_new(*oracle_pk, false),
        account_meta_new_readonly(*admin_pk, true),
    ];
    let instr = MangoInstruction::AddOracle;
    let data: Vec<u8> = instr.pack();
    Ok(Instruction { program_id: *program_id, accounts, data })
}

/// A request that brings the indices of a token up to date from its node banks,
/// which follow the fixed accounts, read-only.
pub fn update_root_bank(
    program_id: &Pubkey,
    mango_group_pk: &Pubkey,
    mango_cache_pk: &Pubkey,
    root_bank_pk: &Pubkey,
    node_bank_pks: &[Pubkey],
) -> (r: Result<Instruction, ProgramError>)
    ensures
        r is Ok,
        r.unwrap()@ == (InstructionView {
            program_id: *program_id,
            accounts: seq![
                readonly(*mango_group_pk, false),
                writable(*mango_cache_pk, false),
                writable(*root_bank_pk, false),
            ] + readonly_metas(node_bank_pks@),
            data: (MangoInstruction::UpdateRootBank).packed(),
        }),
{
    let mut accounts: Vec<AccountMeta> = vec![
        account_meta_new_readonly(*mango_group_pk, false),
        account_meta_new(*mango_cache_pk, false),
        account_meta_new(*root_bank_pk, false),
    ];
    extend_readonly(&mut accounts, node_bank_pks);
    let instr = MangoInstruction::UpdateRootBank;
    let data: Vec<u8> = instr.pack();
    Ok(Instruction { program_id: *program_id, accounts, data })
}

/// A request of the administrator that sets the price of a stub oracle.
pub fn set_oracle(
    program_id: &Pubkey,
    mango_group_pk: &Pubkey,
    oracle_pk: &Pubkey,
    admin_pk: &Pubkey,
    price: I80F48,
) -> (r: Result<Instruction, ProgramError>)
    ensures
        r is Ok,
        r.unwrap()@ == (InstructionView {
            program_id: *program_id,
            accounts: seq![
                readonly(*mango_group_pk, false),
                writable(*oracle_pk, false),
                readonly(*admin_pk, true),
            ],
            data: (MangoInstruction::SetOracle { price }).packed(),
        }),
{
    let accounts: Vec<AccountMeta> = vec![
        account_meta_new_readonly(*mango_group_pk, false),
        account_meta_new(*oracle_pk, false),
        account_meta_new_readonly(*admin_pk, true),
    ];
    let instr = MangoInstruction::SetOracle { price };
    let data: Vec<u8> = instr.pack();
    Ok(Instruction { program_id: *program_id, accounts, data })
}

/// A request of a liquidator that repays a borrow of an account and takes one
/// of its deposits. The open-orders accounts of the account and then those of
/// the liquidator follow the fixed accounts, read-only.
pub fn liquidate_token_and_token(
    program_id: &Pubkey,
    mango_group_pk: &Pubkey,
    mango_cache_pk: &Pubkey,
    liqee_mango_account_pk: &Pubkey,
    liqor_mango_account_pk: &Pubkey,
    liqor_pk: &Pubkey,
    asset_root_bank_pk: &Pubkey,
    asset_node_bank_pk: &Pubkey,
    liab_root_bank_pk: &Pubkey,
    liab_node_bank_pk: &Pubkey,
    liqee_open_orders_pks: &[Pubkey],
    liqor_open_orders_pks: &[Pubkey],
    max_liab_transfer: I80F48,
) -> (r: Result<Instruction, ProgramError>)
    ensures
        r is Ok,
        r.unwrap()@ == (InstructionView {
            program_id: *program_id,
            accounts: seq![
                readonly(*mango_group_pk, false),
                readonly(*mango_cache_pk, false),
                writable(*liqee_mango_account_pk, false),
                writable(*liqor_mango_account_pk, false),
                readonly(*liqor_pk, true),
                readonly(*asset_root_bank_pk, false),
                writable(*asset_node_bank_pk, false),
                readonly(*liab_root_bank_pk, false),
                writable(*liab_node_bank_pk, false),
            ] + readonly_metas(liqee_open_orders_pks@) + readonly_metas(liqor_open_orders_pks@),
            data: (MangoInstruction::LiquidateTokenAndToken { max_liab_transfer }).packed(),
        }),
{
    let mut accounts: Vec<AccountMeta> = vec![
        account_meta_new_readonly(*mango_group_pk, false),
        account_meta_new_readonly(*mango_cache_pk, false),
        account_meta_new(*liqee_mango_account_pk, false),
        account_meta_new(*liqor_mango_account_pk, false),
        account_meta_new_readonly(*liqor_pk, true),
        account_meta_new_readonly(*asset_root_bank_pk, false),
        account_meta_new(*asset_node_bank_pk, false),
        account_meta_new_readonly(*liab_root_bank_pk, false),
        account_meta_new(*liab_node_bank_pk, false),
    ];
    extend_readonly(&mut accounts, liqee_open_orders_pks);
    extend_readonly(&mut accounts, liqor_open_orders_pks);
    assert(accounts@ =~= seq![
        readonly(*mango_group_pk, false),
        readonly(*mango_cache_pk, false),
        writable(*liqee_mango_account_pk, false),
        writable(*liqor_mango_account_pk, false),
        readonly(*liqor_pk, true),
        readonly(*asset_root_bank_pk, false),
        writable(*asset_node_bank_pk, false),
        readonly(*liab_root_bank_pk, false),
        writable(*liab_node_bank_pk, false),
    ] + readonly_metas(liqee_open_orders_pks@) + readonly_metas(liqor_open_orders_pks@));
    let instr = MangoInstruction::LiquidateTokenAndToken { max_liab_transfer };
    let data: Vec<u8> = instr.pack();
    Ok(Instruction { program_id: *program_id, accounts, data })
}

/// A request that applies up to `limit` events of a perp market to the
/// accounts they name. The addresses are sorted in place, and the accounts
/// follow the fixed accounts in that order, writable.
pub fn consume_events(
    program_id: &Pubkey,
    mango_group_pk: &Pubkey,
    mango_cache_pk: &Pubkey,
    perp_market_pk: &Pubkey,
    event_queue_pk: &Pubkey,
    mango_acc_pks: &mut [Pubkey],
    limit: usize,
) -> (r: Result<Instruction, ProgramError>)
    ensures
        sorted(final(mango_acc_pks)@),
        final(mango_acc_pks)@.to_multiset() == old(mango_acc_pks)@.to_multiset(),
        r is Ok,
        r.unwrap()@ == (InstructionView {
            program_id: *program_id,
            accounts: seq![
                readonly(*mango_group_pk, false),
                readonly(*mango_cache_pk, false),
                writable(*perp_market_pk, false),
                writable(*event_queue_pk, false),
            ] + writable_metas(final(mango_acc_pks)@),
            data: (MangoInstruction::ConsumeEvents { limit }).packed(),
        }),
{
    let mut accounts: Vec<AccountMeta> = vec![
        account_meta_new_readonly(*mango_group_pk, false),
        account_meta_new_readonly(*mango_cache_pk, false),
        account_meta_new(*perp_market_pk, false),
        account_meta_new(*event_queue_pk, false),
    ];
    sort_pubkeys(mango_acc_pks);
    extend_writable(&mut accounts, mango_acc_pks);
    let instr = MangoInstruction::ConsumeEvents { limit };
    let data: Vec<u8> = instr.pack();
    Ok(Instruction { program_id: *program_id, accounts, data })
}

} // verus!
