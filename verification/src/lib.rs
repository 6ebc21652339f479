//! The verified core of a lending pool on the Soroban host: the Dutch
//! auctions by which the pool sells liquidations, bad debt and interest, the
//! conversions between a reserve's tokens and its underlying asset, and the
//! count of positions a user holds.
//!
//! Every amount is a 128-bit integer in fixed point. Assets and users are
//! named by numbers that stand for their addresses.

pub mod auctions;
pub mod constants;
pub mod errors;
pub mod fixed_point;
pub mod host;
pub mod positions;
pub mod reserve;
pub mod storage;
