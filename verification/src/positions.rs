use vstd::prelude::*;
use crate::errors::PoolError;
use crate::host::{
    amounts, ascending, keys_among, lemma_entries_count, lemma_keys_among, lemma_keys_among_step,
    map_clone, map_contains_key, map_entries, map_new, typed,
};

verus! {

/// A user's positions in the pool: token amounts by reserve index.
pub struct Positions {
    /// dTokens owed, by reserve.
    pub liabilities: soroban_sdk::Map<u32, i128>,
    /// bTokens pledged as collateral, by reserve.
    pub collateral: soroban_sdk::Map<u32, i128>,
    /// bTokens supplied and not pledged, by reserve.
    pub supply: soroban_sdk::Map<u32, i128>,
}

/// What a user's positions hold, as mathematical maps.
pub struct PositionsView {
    pub liabilities: Map<u32, i128>,
    pub collateral: Map<u32, i128>,
    pub supply: Map<u32, i128>,
}

impl View for Positions {
    type V = PositionsView;

    open spec fn view(&self) -> PositionsView {
        PositionsView {
            liabilities: amounts(self.liabilities),
            collateral: amounts(self.collateral),
            supply: amounts(self.supply),
        }
    }
}

impl Clone for Positions {
    fn clone(&self) -> (r: Self)
        ensures
            r@ == self@,
            r.well_formed() == self.well_formed(),
    {
        Positions {
            liabilities: map_clone(&self.liabilities),
            collateral: map_clone(&self.collateral),
            supply: map_clone(&self.supply),
        }
    }
}

/// The reserves in which a user holds bTokens, pledged or not.
pub open spec fn supplied_reserves(p: PositionsView) -> Set<u32> {
    p.collateral.dom().union(p.supply.dom())
}

/// The number of positions that count against the pool's limit: one for each
/// reserve the user owes, and one for each reserve the user holds bTokens of,
/// collateral and supply of one reserve counting once.
pub open spec fn effective_position_count(p: PositionsView) -> nat {
    p.liabilities.dom().len() + supplied_reserves(p).len()
}

impl Positions {
    /// Whether the three maps hold nothing but amounts under reserve indices.
    /// Positions built here are so; positions read from the ledger may not be.
    pub open spec fn well_formed(&self) -> bool {
        typed(self.liabilities) && typed(self.collateral) && typed(self.supply)
    }

    /// Positions that hold nothing.
    pub fn env_default(e: &soroban_sdk::Env) -> (r: Self)
        ensures
            r.well_formed(),
            r@.liabilities =~= Map::empty(),
            r@.collateral =~= Map::empty(),
            r@.supply =~= Map::empty(),
    {
        Positions { liabilities: map_new(e), collateral: map_new(e), supply: map_new(e) }
    }

    /// The number of effective positions the user holds; a bad request where
    /// the positions are not well formed.
    pub fn effective_count(&self) -> (r: Result<u64, PoolError>)
        ensures
            match r {
                Ok(count) => self.well_formed() && count == effective_position_count(self@),
                Err(err) => !self.well_formed() && err == PoolError::BadRequest,
            },
    {
        let owed = match map_entries(&self.liabilities) {
            Some(entries) => entries,
            None => {
                return Err(PoolError::BadRequest);
            },
        };
        let pledged = match map_entries(&self.collateral) {
            Some(entries) => entries,
            None => {
                return Err(PoolError::BadRequest);
            },
        };
        let supplied = match map_entries(&self.supply) {
            Some(entries) => entries,
            None => {
                return Err(PoolError::BadRequest);
            },
        };
        let ghost collateral = amounts(self.collateral).dom();
        proof {
            lemma_entries_count(amounts(self.liabilities), owed@);
            lemma_entries_count(amounts(self.collateral), pledged@);
            lemma_entries_count(amounts(self.supply), supplied@);
            lemma_keys_among(supplied@, 0);
            assert(collateral.union(keys_among(supplied@, 0)) =~= collateral);
        }
        let mut count: u64 = owed.len() as u64 + pledged.len() as u64;
        let mut i: usize = 0;
        while i < supplied.len()
            invariant
                0 <= i <= supplied@.len(),
                ascending(supplied@),
                supplied@.len() <= u32::MAX + 1,
                owed@.len() <= u32::MAX + 1,
                pledged@.len() <= u32::MAX + 1,
                collateral == amounts(self.collateral).dom(),
                collateral.finite(),
                collateral.union(keys_among(supplied@, i as int)).finite(),
                count == owed@.len() + collateral.union(keys_among(supplied@, i as int)).len(),
                count <= owed@.len() + pledged@.len() + i,
            decreases supplied@.len() - i,
        {
            let reserve: u32 = supplied[i].0;
            proof {
                lemma_keys_among_step(supplied@, i as int);
                assert(collateral.union(keys_among(supplied@, i as int + 1))
                    =~= collateral.union(keys_among(supplied@, i as int)).insert(reserve));
            }
            if !map_contains_key(&self.collateral, reserve) {
                count = count + 1;
            }
            i = i + 1;
        }
        proof {
            assert(supplied_reserves(self@) =~= collateral.union(
                keys_among(supplied@, supplied@.len() as int),
            ));
        }
        Ok(count)
    }

    /// Requires that the user holds no more effective positions than the pool
    /// allows; more is an error of its own. Positions that are not well
    /// formed are a bad request.
    pub fn require_under_max(&self, max_positions: u32) -> (r: Result<(), PoolError>)
        ensures
            match r {
                Ok(_) => self.well_formed() && effective_position_count(self@) <= max_positions,
                Err(err) => if self.well_formed() {
                    effective_position_count(self@) > max_positions && err
                        == PoolError::MaxPositionsExceeded
                } else {
                    err == PoolError::BadRequest
                },
            },
    {
        let count: u64 = match self.effective_count() {
            Ok(count) => count,
            Err(err) => {
                return Err(err);
            },
        };
        if count > max_positions as u64 {
            return Err(PoolError::MaxPositionsExceeded);
        }
        Ok(())
    }
}

} // verus!
