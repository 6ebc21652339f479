use vstd::prelude::*;

verus! {

/// The fixed-point scale of ratios, factors and percentages: seven decimals.
pub const SCALAR_7: i128 = 10_000_000;

/// The fixed-point scale of the token rate indices: twelve decimals.
pub const SCALAR_12: i128 = 1_000_000_000_000;

/// The largest number of reserves a pool can list.
pub const MAX_RESERVES: u32 = 50;

} // verus!
