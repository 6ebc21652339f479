use pool::errors::PoolError;
use pool::positions::Positions;
use soroban_sdk::{Env, TryFromVal};

fn amounts(e: &Env, entries: &[(u32, i128)]) -> soroban_sdk::Map<u32, i128> {
    let mut m: soroban_sdk::Map<u32, i128> = soroban_sdk::Map::new(e);
    for (reserve, amount) in entries {
        m.set(*reserve, *amount);
    }
    m
}

#[test]
fn test_env_default_holds_nothing() {
    let e = Env::default();
    let positions = Positions::env_default(&e);
    assert_eq!(positions.liabilities.len(), 0);
    assert_eq!(positions.collateral.len(), 0);
    assert_eq!(positions.supply.len(), 0);
    assert_eq!(positions.effective_count(), Ok(0));
    assert_eq!(positions.require_under_max(0), Ok(()));
}

#[test]
fn test_effective_count_merges_collateral_and_supply() {
    let e = Env::default();
    let positions = Positions {
        liabilities: amounts(&e, &[(0, 10), (1, 20)]),
        collateral: amounts(&e, &[(0, 5), (2, 7)]),
        supply: amounts(&e, &[(2, 1), (3, 4)]),
    };
    // two liabilities, and bTokens of the reserves 0, 2 and 3
    assert_eq!(positions.effective_count(), Ok(5));
}

#[test]
fn test_effective_count_of_each_side_alone() {
    let e = Env::default();
    let mut positions = Positions::env_default(&e);
    positions.liabilities = amounts(&e, &[(4, 1), (9, 1), (2, 1)]);
    assert_eq!(positions.effective_count(), Ok(3));
    let mut positions = Positions::env_default(&e);
    positions.collateral = amounts(&e, &[(4, 1), (9, 1)]);
    assert_eq!(positions.effective_count(), Ok(2));
    let mut positions = Positions::env_default(&e);
    positions.supply = amounts(&e, &[(7, 1)]);
    assert_eq!(positions.effective_count(), Ok(1));
    // the same reserve owed and supplied is two positions
    positions.liabilities = amounts(&e, &[(7, 1)]);
    assert_eq!(positions.effective_count(), Ok(2));
}

#[test]
fn test_require_under_max() {
    let e = Env::default();
    let positions = Positions {
        liabilities: amounts(&e, &[(0, 10), (1, 20)]),
        collateral: amounts(&e, &[(0, 5), (2, 7)]),
        supply: amounts(&e, &[(2, 1), (3, 4)]),
    };
    assert_eq!(positions.require_under_max(6), Ok(()));
    assert_eq!(positions.require_under_max(5), Ok(()));
    assert_eq!(
        positions.require_under_max(4),
        Err(PoolError::MaxPositionsExceeded)
    );
    assert_eq!(
        positions.require_under_max(0),
        Err(PoolError::MaxPositionsExceeded)
    );
    assert_eq!(PoolError::MaxPositionsExceeded.code(), 1208);
}

#[test]
fn test_positions_clone_holds_the_same() {
    let e = Env::default();
    let positions = Positions {
        liabilities: amounts(&e, &[(0, 10)]),
        collateral: amounts(&e, &[(1, 5)]),
        supply: amounts(&e, &[(2, 1)]),
    };
    let copy = positions.clone();
    assert_eq!(copy.liabilities, positions.liabilities);
    assert_eq!(copy.collateral, positions.collateral);
    assert_eq!(copy.supply, positions.supply);
}

#[test]
fn test_positions_that_hold_no_amount_are_refused() {
    let e = Env::default();
    let mut raw: soroban_sdk::Map<u32, bool> = soroban_sdk::Map::new(&e);
    raw.set(3, true);
    let strange: soroban_sdk::Map<u32, i128> =
        soroban_sdk::Map::try_from_val(&e, &raw.to_val()).unwrap();
    for side in 0..3 {
        let mut positions = Positions {
            liabilities: amounts(&e, &[(0, 10)]),
            collateral: amounts(&e, &[(1, 5)]),
            supply: amounts(&e, &[(2, 1)]),
        };
        match side {
            0 => positions.liabilities = strange.clone(),
            1 => positions.collateral = strange.clone(),
            _ => positions.supply = strange.clone(),
        }
        assert_eq!(positions.effective_count(), Err(PoolError::BadRequest));
        assert_eq!(positions.require_under_max(10), Err(PoolError::BadRequest));
        assert_eq!(positions.require_under_max(0), Err(PoolError::BadRequest));
    }
}

#[test]
fn test_keys_that_are_no_reserve_index_are_refused() {
    let e = Env::default();
    let mut raw: soroban_sdk::Map<i128, i128> = soroban_sdk::Map::new(&e);
    raw.set(3, 4);
    let strange: soroban_sdk::Map<u32, i128> =
        soroban_sdk::Map::try_from_val(&e, &raw.to_val()).unwrap();
    let mut positions = Positions::env_default(&e);
    positions.supply = strange;
    assert_eq!(positions.effective_count(), Err(PoolError::BadRequest));
}
