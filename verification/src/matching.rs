//! Sides and order types of the perp order book.
use vstd::prelude::*;

verus! {

/// The side of the book that an order rests on.
#[derive(Clone, Copy, Debug, PartialEq, Eq, Structural)]
pub enum Side {
    Bid,
    Ask,
}

impl Side {
    /// The side that the byte `n` stands for on the wire.
    pub open spec fn spec_from_primitive(n: u8) -> Option<Side> {
        if n == 0 {
            Some(Side::Bid)
        } else if n == 1 {
            Some(Side::Ask)
        } else {
            None
        }
    }

    /// The byte that stands for this side on the wire.
    pub open spec fn spec_to_primitive(self) -> u8 {
        match self {
            Side::Bid => 0,
            Side::Ask => 1,
        }
    }

    /// The side that the byte `n` stands for, if any.
    pub fn try_from_primitive(n: u8) -> (r: Option<Side>)
        ensures
            r == Self::spec_from_primitive(n),
    {
        if n == 0 {
            Some(Side::Bid)
        } else if n == 1 {
            Some(Side::Ask)
        } else {
            None
        }
    }

    /// The byte that stands for this side.
    pub fn to_primitive(self) -> (n: u8)
        ensures
            n == self.spec_to_primitive(),
            Self::spec_from_primitive(n) == Some(self),
    {
        match self {
            Side::Bid => 0,
            Side::Ask => 1,
        }
    }
}

/// How an order behaves when it meets the book.
#[derive(Clone, Copy, Debug, PartialEq, Eq, Structural)]
pub enum OrderType {
    /// Rests on the book with what was not matched.
    Limit,
    /// Takes what matches at once and cancels the rest.
    ImmediateOrCancel,
    /// Is placed only if it would not match at once.
    PostOnly,
}

impl OrderType {
    /// The order type that the byte `n` stands for on the wire.
    pub open spec fn spec_from_primitive(n: u8) -> Option<OrderType> {
        if n == 0 {
            Some(OrderType::Limit)
        } else if n == 1 {
            Some(OrderType::ImmediateOrCancel)
        } else if n == 2 {
            Some(OrderType::PostOnly)
        } else {
            None
        }
    }

    /// The byte that stands for this order type on the wire.
    pub open spec fn spec_to_primitive(self) -> u8 {
        match self {
            OrderType::Limit => 0,
            OrderType::ImmediateOrCancel => 1,
            OrderType::PostOnly => 2,
        }
    }

    /// The order type that the byte `n` stands for, if any.
    pub fn try_from_primitive(n: u8) -> (r: Option<OrderType>)
        ensures
            r == Self::spec_from_primitive(n),
    {
        if n == 0 {
            Some(OrderType::Limit)
        } else if n == 1 {
            Some(OrderType::ImmediateOrCancel)
        } else if n == 2 {
            Some(OrderType::PostOnly)
        } else {
            None
        }
    }

    /// The byte that stands for this order type.
    pub fn to_primitive(self) -> (n: u8)
        ensures
            n == self.spec_to_primitive(),
            Self::spec_from_primitive(n) == Some(self),
    {
        match self {
            OrderType::Limit => 0,
            OrderType::ImmediateOrCancel => 1,
            OrderType::PostOnly => 2,
        }
    }
}

} // verus!
