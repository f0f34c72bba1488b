//! The accounting and risk core of a cross-margined trading venue.
//!
//! An account holds token balances and perp positions in the slots of a group
//! and is margined across all of them. The library holds
//!
//! - the requests that the program accepts, their wire format and the
//!   builders of requests ([`instruction`], over [`wire`], [`solana`],
//!   [`order`], [`dex`], [`matching`] and [`state`]);
//! - the data model: the group and its cache ([`group`]), the margin account
//!   ([`account`]), the interest bank of a token ([`bank`]) and a perp market
//!   ([`perp`]);
//! - health ([`health`]), deposits and withdrawals ([`settle`]), funding and
//!   the events of a perp book ([`perp`]), liquidation ([`liquidation`]) and
//!   bankruptcy ([`bankruptcy`]).
//!
//! All amounts are fixed-point numbers ([`fixed_point`]). Every call either
//! takes effect as a whole or fails with an [`error::MangoError`] and changes
//! nothing.
pub mod account;
pub mod bank;
pub mod bankruptcy;
pub mod dex;
pub mod error;
pub mod fixed_point;
pub mod group;
pub mod health;
pub mod instruction;
pub mod liquidation;
pub mod matching;
pub mod order;
pub mod perp;
pub mod settle;
pub mod solana;
pub mod state;
pub mod wire;
