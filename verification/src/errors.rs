use vstd::prelude::*;

verus! {

/// The errors the pool reports to its callers.
#[derive(Clone, Copy, Debug, PartialEq, Eq, Structural)]
pub enum PoolError {
    BadRequest,
    InvalidPoolInitArgs,
    InvalidReserveMetadata,
    InitNotUnlocked,
    StatusNotAllowed,
    InvalidHf,
    InvalidPoolStatus,
    MaxPositionsExceeded,
    InternalReserveNotFound,
    InvalidLiquidation,
    StalePrice,
}

impl PoolError {
    /// The numeric code under which each error is surfaced.
    pub open spec fn spec_code(self) -> u32 {
        match self {
            PoolError::BadRequest => 1200,
            PoolError::InvalidPoolInitArgs => 1201,
            PoolError::InvalidReserveMetadata => 1202,
            PoolError::InitNotUnlocked => 1203,
            PoolError::StatusNotAllowed => 1205,
            PoolError::InvalidHf => 1206,
            PoolError::InvalidPoolStatus => 1207,
            PoolError::MaxPositionsExceeded => 1208,
            PoolError::InternalReserveNotFound => 1210,
            PoolError::InvalidLiquidation => 1211,
            PoolError::StalePrice => 1212,
        }
    }

    #[verifier::when_used_as_spec(spec_code)]
    pub fn code(self) -> (c: u32)
        ensures
            c == self.spec_code(),
    {
        match self {
            PoolError::BadRequest => 1200,
            PoolError::InvalidPoolInitArgs => 1201,
            PoolError::InvalidReserveMetadata => 1202,
            PoolError::InitNotUnlocked => 1203,
            PoolError::StatusNotAllowed => 1205,
            PoolError::InvalidHf => 1206,
            PoolError::InvalidPoolStatus => 1207,
            PoolError::MaxPositionsExceeded => 1208,
            PoolError::InternalReserveNotFound => 1210,
            PoolError::InvalidLiquidation => 1211,
            PoolError::StalePrice => 1212,
        }
    }
}

} // verus!
