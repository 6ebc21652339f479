use vstd::prelude::*;
use crate::constants::MAX_RESERVES;
use crate::errors::PoolError;

verus! {

/// The ledgers closed in one day, at five seconds a ledger.
pub const ONE_DAY_LEDGERS: u32 = 17280;

/// The contract instance is kept alive once it has less than about 30 days to live,
pub const LEDGER_THRESHOLD_INSTANCE: u32 = ONE_DAY_LEDGERS * 30;

/// and is then given about 31 days.
pub const LEDGER_BUMP_INSTANCE: u32 = LEDGER_THRESHOLD_INSTANCE + ONE_DAY_LEDGERS;

/// Data shared by all users is kept alive once it has less than about 45 days to live,
pub const LEDGER_THRESHOLD_SHARED: u32 = ONE_DAY_LEDGERS * 45;

/// and is then given about 46 days.
pub const LEDGER_BUMP_SHARED: u32 = LEDGER_THRESHOLD_SHARED + ONE_DAY_LEDGERS;

/// Data of one user is kept alive once it has less than about 100 days to live,
pub const LEDGER_THRESHOLD_USER: u32 = ONE_DAY_LEDGERS * 100;

/// and is then given about 120 days.
pub const LEDGER_BUMP_USER: u32 = LEDGER_THRESHOLD_USER + 20 * ONE_DAY_LEDGERS;

/// The pool's emission config
#[derive(Clone, Copy, Debug, PartialEq, Eq, Structural)]
pub struct PoolEmissionConfig {
    pub config: u128,
    pub last_time: u64,
}

/// The configuration information about a reserve asset
#[derive(Clone, Copy, Debug, PartialEq, Eq, Structural)]
pub struct ReserveConfig {
    /// the index of the reserve in the list
    pub index: u32,
    /// the decimals used in both the bToken and underlying contract
    pub decimals: u32,
    /// the collateral factor for the reserve, in 7 decimals
    pub c_factor: u32,
    /// the liability factor for the reserve, in 7 decimals
    pub l_factor: u32,
    /// the target utilization rate, in 7 decimals
    pub util: u32,
    /// the maximum allowed utilization rate, in 7 decimals
    pub max_util: u32,
    /// the base rate of the interest rate formula, in 7 decimals
    pub r_base: u32,
    /// the first slope of the interest rate formula, in 7 decimals
    pub r_one: u32,
    /// the second slope of the interest rate formula, in 7 decimals
    pub r_two: u32,
    /// the third slope of the interest rate formula, in 7 decimals
    pub r_three: u32,
    /// the reactivity constant for the reserve, in 7 decimals
    pub reactivity: u32,
    /// the total amount of underlying tokens that can be supplied to the reserve
    pub supply_cap: i128,
    /// the enabled flag of the reserve
    pub enabled: bool,
}

/// A reserve configuration waiting for its unlock time.
#[derive(Clone, Copy, Debug, PartialEq, Eq, Structural)]
pub struct QueuedReserveInit {
    pub new_config: ReserveConfig,
    pub unlock_time: u64,
}

/// The data for a reserve asset
#[derive(Clone, Copy, Debug, PartialEq, Eq, Structural)]
pub struct ReserveData {
    /// the conversion rate from dToken to underlying, in 12 decimals
    pub d_rate: i128,
    /// the conversion rate from bToken to underlying, in 12 decimals
    pub b_rate: i128,
    /// the interest rate curve modifier, in 7 decimals
    pub ir_mod: i128,
    /// the total supply of b tokens, in the underlying token's decimals
    pub b_supply: i128,
    /// the total supply of d tokens, in the underlying token's decimals
    pub d_supply: i128,
    /// the amount of underlying tokens currently owed to the backstop
    pub backstop_credit: i128,
    /// the last time the data was updated
    pub last_time: u64,
}

/// The emission data for the reserve b or d token
#[derive(Clone, Copy, Debug, PartialEq, Eq, Structural)]
pub struct ReserveEmissionData {
    pub expiration: u64,
    pub eps: u64,
    pub index: i128,
    pub last_time: u64,
}

/// The user emission data for the reserve b or d token
#[derive(Clone, Copy, Debug, PartialEq, Eq, Structural)]
pub struct UserEmissionData {
    pub index: i128,
    pub accrued: i128,
}

impl Default for UserEmissionData {
    /// The emission data of a user who has accrued nothing yet.
    fn default() -> (r: Self)
        ensures
            r.index == 0,
            r.accrued == 0,
    {
        UserEmissionData { index: 0, accrued: 0 }
    }
}

/// Adds a reserve to the back of a reserve list that holds `res_list_len`
/// reserves, and returns the index it gets: the place it takes in the list.
/// A list that already holds the most reserves a pool can list takes no more:
/// a bad request.
pub fn push_res_list(res_list_len: u32) -> (r: Result<u32, PoolError>)
    ensures
        match r {
            Ok(index) => res_list_len < MAX_RESERVES && index == res_list_len,
            Err(err) => res_list_len >= MAX_RESERVES && err == PoolError::BadRequest,
        },
{
    if res_list_len >= MAX_RESERVES {
        return Err(PoolError::BadRequest);
    }
    let new_len: u32 = res_list_len + 1;
    let new_index: u32 = new_len - 1;
    Ok(new_index)
}

} // verus!
