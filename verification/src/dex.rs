//! The order instructions of the spot venue, as plain values.
//!
//! Spot orders are matched by an outside venue. A request that places or
//! cancels a spot order carries the venue's own instruction, and this module
//! holds what such an instruction says. Which byte stands for which variant
//! is the venue's decision, so the three enums are decoded by the venue's
//! crate.
use num_enum::TryFromPrimitive;
use vstd::prelude::*;

verus! {

/// The side of the spot book.
#[derive(Clone, Copy, Debug, PartialEq, Eq, Structural)]
pub enum Side {
    Bid,
    Ask,
}

/// What the venue does when an order would match one of the same owner.
#[derive(Clone, Copy, Debug, PartialEq, Eq, Structural)]
pub enum SelfTradeBehavior {
    DecrementTake,
    CancelProvide,
    AbortTransaction,
}

/// How a spot order behaves when it meets the book.
#[derive(Clone, Copy, Debug, PartialEq, Eq, Structural)]
pub enum OrderType {
    Limit,
    ImmediateOrCancel,
    PostOnly,
}

/// A new spot order. The price and the two quantities are never zero.
#[derive(Clone, Copy, Debug, PartialEq, Eq, Structural)]
pub struct NewOrderInstructionV3 {
    pub side: Side,
    pub limit_price: u64,
    pub max_coin_qty: u64,
    pub max_native_pc_qty_including_fees: u64,
    pub self_trade_behavior: SelfTradeBehavior,
    pub order_type: OrderType,
    pub client_order_id: u64,
    pub limit: u16,
}

/// The cancellation of a spot order by its id.
#[derive(Clone, Copy, Debug, PartialEq, Eq, Structural)]
pub struct CancelOrderInstructionV2 {
    pub side: Side,
    pub order_id: u128,
}

impl Side {
    /// The side that the number `n` stands for.
    pub open spec fn spec_from_primitive(n: u8) -> Option<Side> {
        if n == 0 {
            Some(Side::Bid)
        } else if n == 1 {
            Some(Side::Ask)
        } else {
            None
        }
    }

    /// The number that stands for this side.
    pub open spec fn spec_to_primitive(self) -> u8 {
        match self {
            Side::Bid => 0,
            Side::Ask => 1,
        }
    }

    /// The number that stands for this side.
    pub fn to_primitive(self) -> (n: u8)
        ensures
            n == self.spec_to_primitive(),
            Self::spec_from_primitive(n) == Some(self),
    {
        match self {
            Side::Bid => 0,
            Side::Ask => 1,
        }
    }
}

impl SelfTradeBehavior {
    /// The behaviour that the number `n` stands for.
    pub open spec fn spec_from_primitive(n: u8) -> Option<SelfTradeBehavior> {
        if n == 0 {
            Some(SelfTradeBehavior::DecrementTake)
        } else if n == 1 {
            Some(SelfTradeBehavior::CancelProvide)
        } else if n == 2 {
            Some(SelfTradeBehavior::AbortTransaction)
        } else {
            None
        }
    }

    /// The number that stands for this behaviour.
    pub open spec fn spec_to_primitive(self) -> u8 {
        match self {
            SelfTradeBehavior::DecrementTake => 0,
            SelfTradeBehavior::CancelProvide => 1,
            SelfTradeBehavior::AbortTransaction => 2,
        }
    }

    /// The number that stands for this behaviour.
    pub fn to_primitive(self) -> (n: u8)
        ensures
            n == self.spec_to_primitive(),
            Self::spec_from_primitive(n) == Some(self),
    {
        match self {
            SelfTradeBehavior::DecrementTake => 0,
            SelfTradeBehavior::CancelProvide => 1,
            SelfTradeBehavior::AbortTransaction => 2,
        }
    }
}

impl OrderType {
    /// The order type that the number `n` stands for.
    pub open spec fn spec_from_primitive(n: u8) -> Option<OrderType> {
        if n == 0 {
            Some(OrderType::Limit)
        } else if n == 1 {
            Some(OrderType::ImmediateOrCancel)
        } else if n == 2 {
            Some(OrderType::PostOnly)
        } else {
            None
        }
    }

    /// The number that stands for this order type.
    pub open spec fn spec_to_primitive(self) -> u8 {
        match self {
            OrderType::Limit => 0,
            OrderType::ImmediateOrCancel => 1,
            OrderType::PostOnly => 2,
        }
    }

    /// The number that stands for this order type.
    pub fn to_primitive(self) -> (n: u8)
        ensures
            n == self.spec_to_primitive(),
            Self::spec_from_primitive(n) == Some(self),
    {
        match self {
            OrderType::Limit => 0,
            OrderType::ImmediateOrCancel => 1,
            OrderType::PostOnly => 2,
        }
    }
}

impl NewOrderInstructionV3 {
    /// The price and both quantities are positive.
    pub open spec fn wf(self) -> bool {
        &&& self.limit_price != 0
        &&& self.max_coin_qty != 0
        &&& self.max_native_pc_qty_including_fees != 0
    }
}

/// Calls `serum_dex::matching::Side::try_from_primitive`, which the venue's
/// crate derives for its enum `Side { Bid = 0, Ask = 1 }`: 0 is a bid, 1 an
/// ask, and every other byte is refused.
#[verifier::external_body]
pub(crate) fn side_from_primitive(n: u8) -> (r: Option<Side>)
    ensures
        r == Side::spec_from_primitive(n),
{
    match serum_dex::matching::Side::try_from_primitive(n) {
        Ok(serum_dex::matching::Side::Bid) => Some(Side::Bid),
        Ok(serum_dex::matching::Side::Ask) => Some(Side::Ask),
        Err(_) => None,
    }
}

/// Calls `serum_dex::instruction::SelfTradeBehavior::try_from_primitive`,
/// derived for `SelfTradeBehavior { DecrementTake = 0, CancelProvide = 1,
/// AbortTransaction = 2 }`: every byte above 2 is refused.
#[verifier::external_body]
pub(crate) fn self_trade_behavior_from_primitive(n: u8) -> (r: Option<SelfTradeBehavior>)
    ensures
        r == SelfTradeBehavior::spec_from_primitive(n),
{
    match serum_dex::instruction::SelfTradeBehavior::try_from_primitive(n) {
        Ok(serum_dex::instruction::SelfTradeBehavior::DecrementTake) => Some(
            SelfTradeBehavior::DecrementTake,
        ),
        Ok(serum_dex::instruction::SelfTradeBehavior::CancelProvide) => Some(
            SelfTradeBehavior::CancelProvide,
        ),
        Ok(serum_dex::instruction::SelfTradeBehavior::AbortTransaction) => Some(
            SelfTradeBehavior::AbortTransaction,
        ),
        Err(_) => None,
    }
}

/// Calls `serum_dex::matching::OrderType::try_from_primitive`, derived for
/// `OrderType { Limit = 0, ImmediateOrCancel = 1, PostOnly = 2 }`: every byte
/// above 2 is refused.
#[verifier::external_body]
pub(crate) fn order_type_from_primitive(n: u8) -> (r: Option<OrderType>)
    ensures
        r == OrderType::spec_from_primitive(n),
{
    match serum_dex::matching::OrderType::try_from_primitive(n) {
        Ok(serum_dex::matching::OrderType::Limit) => Some(OrderType::Limit),
        Ok(serum_dex::matching::OrderType::ImmediateOrCancel) => Some(OrderType::ImmediateOrCancel),
        Ok(serum_dex::matching::OrderType::PostOnly) => Some(OrderType::PostOnly),
        Err(_) => None,
    }
}

} // verus!
