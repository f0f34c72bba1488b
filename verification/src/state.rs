//! Sizes of a group and the kinds of position an account can hold.
use vstd::prelude::*;

verus! {

/// Number of token slots of a group, the quote token included.
pub const MAX_TOKENS: usize = 16;

/// Number of spot markets, and of perp markets, that a group can list.
pub const MAX_PAIRS: usize = 15;

/// Length in bytes of the free-form label of an account.
pub const INFO_LEN: usize = 32;

/// Whether a slot index names a token balance or a perp position.
#[derive(Clone, Copy, Debug, PartialEq, Eq, Structural)]
pub enum AssetType {
    Token,
    Perp,
}

impl AssetType {
    /// The kind that the byte `n` stands for on the wire.
    pub open spec fn spec_from_primitive(n: u8) -> Option<AssetType> {
        if n == 0 {
            Some(AssetType::Token)
        } else if n == 1 {
            Some(AssetType::Perp)
        } else {
            None
        }
    }

    /// The byte that stands for this kind on the wire.
    pub open spec fn spec_to_primitive(self) -> u8 {
        match self {
            AssetType::Token => 0,
            AssetType::Perp => 1,
        }
    }

    /// The kind that the byte `n` stands for, if any.
    pub fn try_from_primitive(n: u8) -> (r: Option<AssetType>)
        ensures
            r == Self::spec_from_primitive(n),
    {
        if n == 0 {
            Some(AssetType::Token)
        } else if n == 1 {
            Some(AssetType::Perp)
        } else {
            None
        }
    }

    /// The byte that stands for this kind.
    pub fn to_primitive(self) -> (n: u8)
        ensures
            n == self.spec_to_primitive(),
            Self::spec_from_primitive(n) == Some(self),
    {
        match self {
            AssetType::Token => 0,
            AssetType::Perp => 1,
        }
    }
}

} // verus!
