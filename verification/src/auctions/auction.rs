use vstd::prelude::*;
use crate::constants::SCALAR_7;
use crate::errors::PoolError;
use crate::fixed_point::{
    fixed_mul_ceil, fixed_mul_floor, floor_div, lemma_mul_round_whole, lemma_mul_round_within,
    mul_round,
};
use crate::host::{
    among, amounts, items, keys_among, ledger_sequence, lemma_entries_count,
    lemma_keys_among_step, list_items, lists, map_clone, map_contains_key, map_entries,
    map_is_empty, map_new, map_set, to_i128, typed, typed_list,
};

verus! {

/// The three kinds of auction a pool runs.
#[derive(Clone, Copy, Debug, PartialEq, Eq, Structural)]
pub enum AuctionType {
    UserLiquidation,
    BadDebtAuction,
    InterestAuction,
}

impl AuctionType {
    /// The kind that a type code names, if it names one.
    pub open spec fn spec_from_u32(value: u32) -> Option<AuctionType> {
        if value == 0 {
            Some(AuctionType::UserLiquidation)
        } else if value == 1 {
            Some(AuctionType::BadDebtAuction)
        } else if value == 2 {
            Some(AuctionType::InterestAuction)
        } else {
            None
        }
    }

    /// The type code of a kind.
    pub open spec fn spec_to_u32(self) -> u32 {
        match self {
            AuctionType::UserLiquidation => 0,
            AuctionType::BadDebtAuction => 1,
            AuctionType::InterestAuction => 2,
        }
    }

    /// Decodes a type code; any code above 2 is a bad request.
    pub fn from_u32(value: u32) -> (r: Result<AuctionType, PoolError>)
        ensures
            match Self::spec_from_u32(value) {
                Some(t) => r == Ok::<AuctionType, PoolError>(t),
                None => r == Err::<AuctionType, PoolError>(PoolError::BadRequest),
            },
    {
        match value {
            0 => Ok(AuctionType::UserLiquidation),
            1 => Ok(AuctionType::BadDebtAuction),
            2 => Ok(AuctionType::InterestAuction),
            _ => Err(PoolError::BadRequest),
        }
    }

    /// The code under which auctions of this kind are kept.
    #[verifier::when_used_as_spec(spec_to_u32)]
    pub fn to_u32(self) -> (r: u32)
        ensures
            r == self.spec_to_u32(),
            Self::spec_from_u32(r) == Some(self),
    {
        match self {
            AuctionType::UserLiquidation => 0,
            AuctionType::BadDebtAuction => 1,
            AuctionType::InterestAuction => 2,
        }
    }
}

/// An auction: what the filler pays, what the filler receives, and the block
/// the price curve is counted from. Assets are named by numbers that stand
/// for their addresses, equal numbers for equal addresses.
pub struct AuctionData {
    /// The amount bid of each asset: spent by the filler of the auction.
    pub bid: soroban_sdk::Map<u32, i128>,
    /// The amount auctioned off of each asset: received by the filler.
    pub lot: soroban_sdk::Map<u32, i128>,
    /// The block the auction begins on.
    pub block: u32,
}

/// What an auction holds, as mathematical maps.
pub struct AuctionDataView {
    pub bid: Map<u32, i128>,
    pub lot: Map<u32, i128>,
    pub block: u32,
}

impl View for AuctionData {
    type V = AuctionDataView;

    open spec fn view(&self) -> AuctionDataView {
        AuctionDataView { bid: amounts(self.bid), lot: amounts(self.lot), block: self.block }
    }
}

impl AuctionData {
    /// Whether both sides hold nothing but amounts under asset numbers. An
    /// auction built here is so; one read from the ledger may not be.
    pub open spec fn well_formed(&self) -> bool {
        typed(self.bid) && typed(self.lot)
    }
}

impl Clone for AuctionData {
    fn clone(&self) -> (r: Self)
        ensures
            r@ == self@,
            r.well_formed() == self.well_formed(),
    {
        AuctionData { bid: map_clone(&self.bid), lot: map_clone(&self.lot), block: self.block }
    }
}

/// The share of the price curve that one block moves: half a percent.
pub open spec fn per_block_scalar() -> int {
    50_000
}

/// The part of the lot on offer after `block_dif` blocks, in seven decimals:
/// it climbs from nothing to all of it over the first 200 blocks.
pub open spec fn lot_modifier(block_dif: int) -> int {
    if block_dif > 200 {
        SCALAR_7 as int
    } else {
        block_dif * per_block_scalar()
    }
}

/// The part of the bid owed after `block_dif` blocks, in seven decimals: all
/// of it for 200 blocks, then falling to nothing over the next 200.
pub open spec fn bid_modifier(block_dif: int) -> int {
    if block_dif > 200 {
        if block_dif < 400 {
            SCALAR_7 - (block_dif - 200) * per_block_scalar()
        } else {
            0
        }
    } else {
        SCALAR_7 as int
    }
}

/// A percentage as a ratio in seven decimals.
pub open spec fn percent_scalar(percent: int) -> int {
    percent * 100_000
}

/// The part of `amount` that a fill of the given share takes out of the
/// auction, before the price curve is applied.
pub open spec fn fill_base(amount: int, share: int, round_up: bool) -> int {
    mul_round(amount, share, SCALAR_7 as int, round_up)
}

/// What the filler pays or receives of `amount`: the part filled, scaled by
/// the price curve's modifier.
pub open spec fn fill_scaled(amount: int, share: int, modifier: int, round_up: bool) -> int {
    mul_round(fill_base(amount, share, round_up), modifier, SCALAR_7 as int, round_up)
}

/// What stays in the auction of `amount` after a fill of the given share.
pub open spec fn fill_remaining(amount: int, share: int, round_up: bool) -> int {
    amount - fill_base(amount, share, round_up)
}

/// One side of the scaled auction: each asset's scaled amount, where it is
/// above zero.
pub open spec fn scaled_side(
    side: Map<u32, i128>,
    share: int,
    modifier: int,
    round_up: bool,
) -> Map<u32, i128> {
    Map::new(
        |k: u32| side.contains_key(k) && fill_scaled(side[k] as int, share, modifier, round_up) > 0,
        |k: u32| fill_scaled(side[k] as int, share, modifier, round_up) as i128,
    )
}

/// One side of the auction that is left: each asset's remainder, where it is
/// above zero.
pub open spec fn remaining_side(side: Map<u32, i128>, share: int, round_up: bool) -> Map<
    u32,
    i128,
> {
    Map::new(
        |k: u32| side.contains_key(k) && fill_remaining(side[k] as int, share, round_up) > 0,
        |k: u32| fill_remaining(side[k] as int, share, round_up) as i128,
    )
}

/// What the filler of `percent` of the auction pays and receives `block_dif`
/// blocks after it began: bids round up, lots round down.
pub open spec fn scaled_auction(a: AuctionDataView, percent: int, block_dif: int) -> AuctionDataView {
    AuctionDataView {
        bid: scaled_side(a.bid, percent_scalar(percent), bid_modifier(block_dif), true),
        lot: scaled_side(a.lot, percent_scalar(percent), lot_modifier(block_dif), false),
        block: a.block,
    }
}

/// What is left of the auction once `percent` of it is filled. It keeps the
/// block it began on, so the price curve goes on.
pub open spec fn remaining_auction(a: AuctionDataView, percent: int) -> AuctionDataView {
    AuctionDataView {
        bid: remaining_side(a.bid, percent_scalar(percent), true),
        lot: remaining_side(a.lot, percent_scalar(percent), false),
        block: a.block,
    }
}

/// Whether nothing is left on either side.
pub open spec fn is_spent(a: AuctionDataView) -> bool {
    a.bid =~= Map::empty() && a.lot =~= Map::empty()
}

/// The largest number of blocks an auction may have run and still be kept.
pub open spec fn stale_after() -> int {
    500
}

/// Whether an auction that began on `block` is stale at ledger `sequence`:
/// more than 500 blocks have gone by.
pub open spec fn is_stale(block: u32, sequence: u32) -> bool {
    sequence - block > stale_after()
}

/// Whether a fill of `percent_filled` percent at ledger `sequence` is one the
/// auction takes: the percent lies between 1 and 100, the auction has begun,
/// and it is well formed.
pub open spec fn fill_allowed(a: AuctionData, percent_filled: u64, sequence: u32) -> bool {
    1 <= percent_filled <= 100 && a.block <= sequence && a.well_formed()
}

/// `x * y / SCALAR_7`, rounded as asked, for a ratio `y` between zero and one.
fn scale_amount(e: &soroban_sdk::Env, x: i128, y: i128, round_up: bool) -> (r: i128)
    requires
        0 <= y <= SCALAR_7,
    ensures
        r == mul_round(x as int, y as int, SCALAR_7 as int, round_up),
        x >= 0 ==> 0 <= r <= x,
        x <= 0 ==> x <= r <= 0,
{
    proof {
        lemma_mul_round_within(x as int, y as int, SCALAR_7 as int, round_up);
    }
    if round_up {
        fixed_mul_ceil(e, x, y, SCALAR_7)
    } else {
        fixed_mul_floor(e, x, y, SCALAR_7)
    }
}

/// Scales one side of an auction: returns the side of the scaled auction and
/// the side of the auction that is left, or nothing where the side holds an
/// entry that is no amount under an asset number.
fn scale_side(
    e: &soroban_sdk::Env,
    side: &soroban_sdk::Map<u32, i128>,
    share: i128,
    modifier: i128,
    round_up: bool,
) -> (r: Option<(soroban_sdk::Map<u32, i128>, soroban_sdk::Map<u32, i128>)>)
    requires
        0 <= share <= SCALAR_7,
        0 <= modifier <= SCALAR_7,
    ensures
        r.is_some() == typed(*side),
        r.is_some() ==> {
            &&& typed(r.unwrap().0)
            &&& typed(r.unwrap().1)
            &&& amounts(r.unwrap().0) =~= scaled_side(
                amounts(*side),
                share as int,
                modifier as int,
                round_up,
            )
            &&& amounts(r.unwrap().1) =~= remaining_side(amounts(*side), share as int, round_up)
        },
{
    let entries = match map_entries(side) {
        Some(entries) => entries,
        None => {
            return None;
        },
    };
    let mut to_fill = map_new(e);
    let mut remaining = map_new(e);
    let ghost base = amounts(*side);
    let mut i: usize = 0;
    while i < entries.len()
        invariant
            0 <= i <= entries@.len(),
            base == amounts(*side),
            0 <= share <= SCALAR_7,
            0 <= modifier <= SCALAR_7,
            lists(base, entries@),
            typed(to_fill),
            typed(remaining),
            forall|k: u32|
                amounts(to_fill).contains_key(k) <==> among(entries@, i as int, k) && fill_scaled(
                    base[k] as int,
                    share as int,
                    modifier as int,
                    round_up,
                ) > 0,
            forall|k: u32|
                amounts(to_fill).contains_key(k) ==> amounts(to_fill)[k] == fill_scaled(
                    base[k] as int,
                    share as int,
                    modifier as int,
                    round_up,
                ),
            forall|k: u32|
                amounts(remaining).contains_key(k) <==> among(entries@, i as int, k)
                    && fill_remaining(base[k] as int, share as int, round_up) > 0,
            forall|k: u32|
                amounts(remaining).contains_key(k) ==> amounts(remaining)[k] == fill_remaining(
                    base[k] as int,
                    share as int,
                    round_up,
                ),
        decreases entries@.len() - i,
    {
        let asset: u32 = entries[i].0;
        let amount: i128 = entries[i].1;
        assert(base.contains_pair(entries@[i as int].0, entries@[i as int].1));
        // apply the share filled and keep the remainder in the base auction
        let to_fill_base: i128 = scale_amount(e, amount, share, round_up);
        let remaining_base: i128 = amount - to_fill_base;
        if remaining_base > 0 {
            map_set(&mut remaining, asset, remaining_base);
        }
        // apply the block modifier and keep nothing that comes to zero
        let to_fill_scaled: i128 = scale_amount(e, to_fill_base, modifier, round_up);
        if to_fill_scaled > 0 {
            map_set(&mut to_fill, asset, to_fill_scaled);
        }
        proof {
            lemma_keys_among_step(entries@, i as int);
            assert forall|k: u32| among(entries@, i as int + 1, k) <==> (among(entries@, i as int, k)
                || k == asset) by {
                assert(keys_among(entries@, i as int + 1).contains(k) <==> keys_among(
                    entries@,
                    i as int,
                ).insert(asset).contains(k));
            }
            assert(!keys_among(entries@, i as int).contains(asset));
        }
        i = i + 1;
    }
    proof {
        lemma_entries_count(base, entries@);
        assert forall|k: u32| among(entries@, entries@.len() as int, k) <==> base.contains_key(
            k,
        ) by {
            assert(keys_among(entries@, entries@.len() as int).contains(k) <==> base.dom().contains(
                k,
            ));
        }
    }
    Some((to_fill, remaining))
}

/// What scaling an auction at a given ledger sequence gives: a bad request
/// unless the fill is allowed, else the scaled auction, and beside it what is
/// left of the auction, or nothing where both its sides are used up. What
/// comes out is well formed.
pub open spec fn is_scaling(
    a: AuctionData,
    percent_filled: u64,
    sequence: u32,
    r: Result<(AuctionData, Option<AuctionData>), PoolError>,
) -> bool {
    match r {
        Ok((to_fill, remaining)) => {
            &&& fill_allowed(a, percent_filled, sequence)
            &&& to_fill.well_formed()
            &&& to_fill@ == scaled_auction(a@, percent_filled as int, sequence - a.block)
            &&& match remaining {
                Some(rest) => {
                    &&& rest.well_formed()
                    &&& rest@ == remaining_auction(a@, percent_filled as int)
                    &&& !is_spent(rest@)
                },
                None => is_spent(remaining_auction(a@, percent_filled as int)),
            }
        },
        Err(err) => !fill_allowed(a, percent_filled, sequence) && err == PoolError::BadRequest,
    }
}

/// Scales the auction by the percent being filled and by the blocks that have
/// passed, at the given ledger sequence, since the auction began.
///
/// Returns the scaled auction, and the auction that is left to be stored, or
/// `None` where it is used up. A percent outside 1 to 100 is a bad request, and
/// so are a sequence that lies before the auction's block and an auction that
/// is not well formed.
pub fn scale_auction_at(
    e: &soroban_sdk::Env,
    auction_data: &AuctionData,
    percent_filled: u64,
    sequence: u32,
) -> (r: Result<(AuctionData, Option<AuctionData>), PoolError>)
    ensures
        is_scaling(*auction_data, percent_filled, sequence, r),
{
    if percent_filled > 100 || percent_filled == 0 {
        return Err(PoolError::BadRequest);
    }
    if sequence < auction_data.block {
        return Err(PoolError::BadRequest);
    }
    // determine block based auction modifiers
    let bid_modifier: i128;
    let lot_modifier: i128;
    let per_block_scalar: i128 = 50_000;  // modifier moves 0.5% every block
    let block_dif: i128 = to_i128((sequence - auction_data.block) as u64);
    if block_dif > 200 {
        // lot 100%, bid scaling down from 100% to 0%
        lot_modifier = SCALAR_7;
        if block_dif < 400 {
            bid_modifier = SCALAR_7 - (block_dif - 200) * per_block_scalar;
        } else {
            bid_modifier = 0;
        }
    } else {
        // lot scaling from 0% to 100%, bid 100%
        lot_modifier = block_dif * per_block_scalar;
        bid_modifier = SCALAR_7;
    }

    // scale to decimal form in 7 decimals from percentage
    let percent_filled_i128: i128 = to_i128(percent_filled) * 100_000;
    // bids round up and lots round down, to avoid rounding exploits
    let (bid_to_fill, bid_remaining) = match scale_side(
        e,
        &auction_data.bid,
        percent_filled_i128,
        bid_modifier,
        true,
    ) {
        Some(sides) => sides,
        None => {
            return Err(PoolError::BadRequest);
        },
    };
    let (lot_to_fill, lot_remaining) = match scale_side(
        e,
        &auction_data.lot,
        percent_filled_i128,
        lot_modifier,
        false,
    ) {
        Some(sides) => sides,
        None => {
            return Err(PoolError::BadRequest);
        },
    };
    let to_fill_auction = AuctionData {
        bid: bid_to_fill,
        lot: lot_to_fill,
        block: auction_data.block,
    };
    let remaining_auction = AuctionData {
        bid: bid_remaining,
        lot: lot_remaining,
        block: auction_data.block,
    };
    if map_is_empty(&remaining_auction.lot) && map_is_empty(&remaining_auction.bid) {
        Ok((to_fill_auction, None))
    } else {
        Ok((to_fill_auction, Some(remaining_auction)))
    }
}

/// Scales the auction by the percent being filled and by the blocks that have
/// passed since it began, at the sequence of the ledger being closed.
///
/// Returns what [`scale_auction_at`] returns at that sequence.
pub fn scale_auction(e: &soroban_sdk::Env, auction_data: &AuctionData, percent_filled: u64) -> (r:
    Result<(AuctionData, Option<AuctionData>), PoolError>)
    ensures
        exists|sequence: u32| is_scaling(*auction_data, percent_filled, sequence, r),
        !(1 <= percent_filled <= 100) ==> r.is_err(),
        !auction_data.well_formed() ==> r.is_err(),
{
    let sequence: u32 = ledger_sequence(e);
    let r = scale_auction_at(e, auction_data, percent_filled, sequence);
    assert(is_scaling(*auction_data, percent_filled, sequence, r));
    r
}

/// Whether a list names assets, each by its number, and none twice.
pub open spec fn is_unique_list(list: soroban_sdk::Vec<u32>) -> bool {
    typed_list(list) && items(list).no_duplicates()
}

/// The assets a list names, where it names each once; a bad request where
/// it does not.
fn unique_items(e: &soroban_sdk::Env, list: &soroban_sdk::Vec<u32>) -> (r: Result<
    Vec<u32>,
    PoolError,
>)
    ensures
        match r {
            Ok(named) => is_unique_list(*list) && named@ == items(*list),
            Err(err) => !is_unique_list(*list) && err == PoolError::BadRequest,
        },
{
    let named = match list_items(list) {
        Some(named) => named,
        None => {
            return Err(PoolError::BadRequest);
        },
    };
    let mut temp_map = map_new(e);
    let mut i: usize = 0;
    while i < named.len()
        invariant
            0 <= i <= named@.len(),
            named@ == items(*list),
            typed_list(*list),
            forall|k: u32|
                amounts(temp_map).contains_key(k) <==> exists|j: int|
                    0 <= j < i && #[trigger] named@[j] == k,
            forall|a: int, b: int| 0 <= a < b < i ==> named@[a] != named@[b],
        decreases named@.len() - i,
    {
        let address: u32 = named[i];
        if map_contains_key(&temp_map, address) {
            proof {
                let j = choose|j: int| 0 <= j < i && #[trigger] named@[j] == address;
                assert(named@[j] == named@[i as int]);
            }
            return Err(PoolError::BadRequest);
        }
        let ghost seen = amounts(temp_map);
        map_set(&mut temp_map, address, 1);
        proof {
            assert(named@[i as int] == address);
            assert forall|a: int, b: int| 0 <= a < b < i + 1 implies named@[a] != named@[b] by {
                if b == i && named@[a] == address {
                    assert(seen.contains_key(address));
                }
            }
        }
        i = i + 1;
    }
    Ok(named)
}

/// Requires that the list names assets, and none of them twice.
///
/// Returns a bad request where it does not.
pub fn require_unique_addresses(e: &soroban_sdk::Env, list: &soroban_sdk::Vec<u32>) -> (r:
    Result<(), PoolError>)
    ensures
        match r {
            Ok(_) => is_unique_list(*list),
            Err(err) => !is_unique_list(*list) && err == PoolError::BadRequest,
        },
{
    match unique_items(e, list) {
        Ok(_) => Ok(()),
        Err(err) => Err(err),
    }
}

/// Whether a request for a new auction is well formed: each list names
/// assets, none of them twice, and the type code names a kind of auction.
pub open spec fn creation_allowed(
    auction_type: u32,
    bid: soroban_sdk::Vec<u32>,
    lot: soroban_sdk::Vec<u32>,
) -> bool {
    is_unique_list(bid) && is_unique_list(lot) && AuctionType::spec_from_u32(auction_type) is Some
}

/// Whether neither side of a new auction names more assets than a user may
/// hold positions.
pub open spec fn within_max_positions(
    bid: soroban_sdk::Vec<u32>,
    lot: soroban_sdk::Vec<u32>,
    max_positions: u32,
) -> bool {
    items(bid).len() <= max_positions && items(lot).len() <= max_positions
}

/// Checks a request for a new auction before anything is computed for it.
///
/// Returns the kind of auction to create. A request that is not well formed
/// is a bad request; a well-formed one that names more assets on a side than
/// `max_positions` exceeds the maximum of positions.
pub fn create_auction(
    e: &soroban_sdk::Env,
    auction_type: u32,
    bid: &soroban_sdk::Vec<u32>,
    lot: &soroban_sdk::Vec<u32>,
    max_positions: u32,
) -> (r: Result<AuctionType, PoolError>)
    ensures
        match r {
            Ok(kind) => {
                &&& creation_allowed(auction_type, *bid, *lot)
                &&& within_max_positions(*bid, *lot, max_positions)
                &&& AuctionType::spec_from_u32(auction_type) == Some(kind)
            },
            Err(err) => if creation_allowed(auction_type, *bid, *lot) {
                !within_max_positions(*bid, *lot, max_positions) && err
                    == PoolError::MaxPositionsExceeded
            } else {
                err == PoolError::BadRequest
            },
        },
{
    let bid_assets = match unique_items(e, bid) {
        Ok(named) => named,
        Err(err) => {
            return Err(err);
        },
    };
    let lot_assets = match unique_items(e, lot) {
        Ok(named) => named,
        Err(err) => {
            return Err(err);
        },
    };
    let kind = match AuctionType::from_u32(auction_type) {
        Ok(kind) => kind,
        Err(err) => {
            return Err(err);
        },
    };
    if bid_assets.len() > max_positions as usize || lot_assets.len() > max_positions as usize {
        return Err(PoolError::MaxPositionsExceeded);
    }
    Ok(kind)
}

/// Decides whether an auction may be deleted as stale at the given ledger
/// sequence: it must exist, and more than 500 blocks must have gone by since
/// it began. Anything else is a bad request.
pub fn delete_stale_auction_at(auction: Option<&AuctionData>, sequence: u32) -> (r: Result<
    (),
    PoolError,
>)
    ensures
        match r {
            Ok(_) => auction is Some && is_stale(auction.unwrap().block, sequence),
            Err(err) => !(auction is Some && is_stale(auction.unwrap().block, sequence)) && err
                == PoolError::BadRequest,
        },
{
    match auction {
        None => Err(PoolError::BadRequest),
        Some(auction) => {
            // require auction is stale (older than 500 blocks)
            if sequence <= auction.block || sequence - auction.block <= 500 {
                Err(PoolError::BadRequest)
            } else {
                Ok(())
            }
        },
    }
}

/// Decides whether an auction may be deleted as stale at the sequence of the
/// ledger being closed.
///
/// Returns what [`delete_stale_auction_at`] returns at that sequence.
pub fn delete_stale_auction(e: &soroban_sdk::Env, auction: Option<&AuctionData>) -> (r: Result<
    (),
    PoolError,
>)
    ensures
        auction is None ==> r.is_err(),
        match r {
            Ok(_) => auction is Some && exists|sequence: u32|
                is_stale(auction.unwrap().block, sequence),
            Err(err) => err == PoolError::BadRequest,
        },
{
    let sequence: u32 = ledger_sequence(e);
    let r = delete_stale_auction_at(auction, sequence);
    proof {
        if r.is_ok() {
            assert(is_stale(auction.unwrap().block, sequence));
        }
    }
    r
}

/// Decides whether the liquidation auction of a user may be deleted: there
/// must be one. Whether the user's positions are healthy is not looked at
/// here; the caller settles that before the call completes.
pub fn delete_liquidation(has_auction: bool) -> (r: Result<(), PoolError>)
    ensures
        match r {
            Ok(_) => has_auction,
            Err(err) => !has_auction && err == PoolError::BadRequest,
        },
{
    if !has_auction {
        return Err(PoolError::BadRequest);
    }
    Ok(())
}

/// A fill as it is to be settled: the kind of auction, what the filler pays
/// and receives, and what is left of the auction to be stored, or `None`
/// where the auction is to be deleted.
pub struct AuctionFill {
    pub auction_type: AuctionType,
    pub to_fill: AuctionData,
    pub remaining: Option<AuctionData>,
}

/// What a fill at a given ledger sequence gives. A filler who is the user
/// under auction is an invalid liquidation; a fill that is not allowed, or a
/// type code that names no kind, is a bad request; else the fill is the
/// auction scaled.
pub open spec fn is_fill(
    a: AuctionData,
    auction_type: u32,
    user: u32,
    filler: u32,
    percent_filled: u64,
    sequence: u32,
    r: Result<AuctionFill, PoolError>,
) -> bool {
    match r {
        Ok(f) => {
            &&& user != filler
            &&& AuctionType::spec_from_u32(auction_type) == Some(f.auction_type)
            &&& is_scaling(
                a,
                percent_filled,
                sequence,
                Ok((f.to_fill, f.remaining)),
            )
        },
        Err(err) => if user == filler {
            err == PoolError::InvalidLiquidation
        } else {
            &&& err == PoolError::BadRequest
            &&& (!fill_allowed(a, percent_filled, sequence) || AuctionType::spec_from_u32(
                auction_type,
            ) is None)
        },
    }
}

/// Fills the auction of `user` for `filler` at the given ledger sequence.
/// Users are named by numbers that stand for their addresses, equal numbers
/// for equal addresses.
pub fn fill_at(
    e: &soroban_sdk::Env,
    auction_type: u32,
    user: u32,
    filler: u32,
    auction_data: &AuctionData,
    percent_filled: u64,
    sequence: u32,
) -> (r: Result<AuctionFill, PoolError>)
    ensures
        is_fill(*auction_data, auction_type, user, filler, percent_filled, sequence, r),
{
    if user == filler {
        return Err(PoolError::InvalidLiquidation);
    }
    let (to_fill_auction, remaining_auction) = match scale_auction_at(
        e,
        auction_data,
        percent_filled,
        sequence,
    ) {
        Ok(scaled) => scaled,
        Err(err) => {
            return Err(err);
        },
    };
    match AuctionType::from_u32(auction_type) {
        Ok(kind) => Ok(
            AuctionFill { auction_type: kind, to_fill: to_fill_auction, remaining: remaining_auction },
        ),
        Err(err) => Err(err),
    }
}

/// Fills the auction of `user` for `filler` at the sequence of the ledger
/// being closed.
///
/// Returns what [`fill_at`] returns at that sequence.
pub fn fill(
    e: &soroban_sdk::Env,
    auction_type: u32,
    user: u32,
    filler: u32,
    auction_data: &AuctionData,
    percent_filled: u64,
) -> (r: Result<AuctionFill, PoolError>)
    ensures
        exists|sequence: u32|
            is_fill(*auction_data, auction_type, user, filler, percent_filled, sequence, r),
        user == filler ==> r.is_err(),
        !(1 <= percent_filled <= 100) ==> r.is_err(),
        !auction_data.well_formed() ==> r.is_err(),
        AuctionType::spec_from_u32(auction_type) is None ==> r.is_err(),
{
    let sequence: u32 = ledger_sequence(e);
    let r = fill_at(e, auction_type, user, filler, auction_data, percent_filled, sequence);
    assert(is_fill(*auction_data, auction_type, user, filler, percent_filled, sequence, r));
    r
}

/// Both modifiers stay between nothing and the whole. As blocks go by the
/// lot's never falls and the bid's never rises.
pub proof fn lemma_modifiers(earlier: int, later: int)
    requires
        0 <= earlier <= later,
    ensures
        0 <= lot_modifier(earlier) <= lot_modifier(later) <= SCALAR_7,
        0 <= bid_modifier(later) <= bid_modifier(earlier) <= SCALAR_7,
{
}

/// While the lot is still climbing, that is for the first 200 blocks, a fill
/// of the whole auction hands out of each asset the lot's amount times the
/// blocks gone by times half a percent, rounded down. An asset for which that
/// comes to nothing is left out of what is handed over.
pub proof fn lemma_full_fill_lot(a: AuctionDataView, block_dif: int, asset: u32)
    requires
        0 <= block_dif < 200,
        a.lot.contains_key(asset),
    ensures
        ({
            let owed = floor_div(a.lot[asset] * block_dif * 50_000, 10_000_000);
            let lot = scaled_auction(a, 100, block_dif).lot;
            if owed > 0 {
                lot.contains_key(asset) && lot[asset] == owed
            } else {
                !lot.contains_key(asset)
            }
        }),
{
    let amount = a.lot[asset] as int;
    let modifier = lot_modifier(block_dif);
    lemma_mul_round_whole(amount, SCALAR_7 as int, false);
    lemma_mul_round_within(amount, modifier, SCALAR_7 as int, false);
    assert(amount * block_dif * 50_000 == amount * (block_dif * 50_000)) by (nonlinear_arith);
}

/// A fill of the whole auction leaves nothing of an amount, and a fill of
/// less leaves no more than was there.
pub proof fn lemma_fill_remaining_bounds(amount: int, percent: int, round_up: bool)
    requires
        1 <= percent <= 100,
    ensures
        percent == 100 ==> fill_remaining(amount, percent_scalar(percent), round_up) == 0,
        amount >= 0 ==> 0 <= fill_remaining(amount, percent_scalar(percent), round_up) <= amount,
        amount <= 0 ==> amount <= fill_remaining(amount, percent_scalar(percent), round_up) <= 0,
{
    lemma_mul_round_within(amount, percent_scalar(percent), SCALAR_7 as int, round_up);
    if percent == 100 {
        lemma_mul_round_whole(amount, SCALAR_7 as int, round_up);
    }
}

/// A fill of the whole auction uses it up: nothing is left to be stored.
pub proof fn lemma_full_fill_spends(a: AuctionDataView)
    ensures
        is_spent(remaining_auction(a, 100)),
{
    let rest = remaining_auction(a, 100);
    assert forall|k: u32| !rest.bid.contains_key(k) && !rest.lot.contains_key(k) by {
        if a.bid.contains_key(k) {
            lemma_fill_remaining_bounds(a.bid[k] as int, 100, true);
        }
        if a.lot.contains_key(k) {
            lemma_fill_remaining_bounds(a.lot[k] as int, 100, false);
        }
    }
    assert(rest.bid =~= Map::empty());
    assert(rest.lot =~= Map::empty());
}

/// From 200 blocks on, a fill of the whole auction hands over the whole lot:
/// each asset's amount as it stands, where it is above zero.
pub proof fn lemma_full_fill_whole_lot(a: AuctionDataView, block_dif: int, asset: u32)
    requires
        block_dif >= 200,
        a.lot.contains_key(asset),
    ensures
        ({
            let lot = scaled_auction(a, 100, block_dif).lot;
            if a.lot[asset] > 0 {
                lot.contains_key(asset) && lot[asset] == a.lot[asset]
            } else {
                !lot.contains_key(asset)
            }
        }),
{
    let amount = a.lot[asset] as int;
    assert(lot_modifier(block_dif) == SCALAR_7);
    lemma_mul_round_whole(amount, SCALAR_7 as int, false);
}

/// From 400 blocks on the filler pays nothing: the scaled bid is empty.
pub proof fn lemma_late_fill_pays_nothing(a: AuctionDataView, percent: int, block_dif: int)
    requires
        block_dif >= 400,
    ensures
        scaled_auction(a, percent, block_dif).bid =~= Map::empty(),
{
    let bid = scaled_auction(a, percent, block_dif).bid;
    assert forall|k: u32| !bid.contains_key(k) by {
        if a.bid.contains_key(k) {
            crate::fixed_point::lemma_mul_round_none(
                fill_base(a.bid[k] as int, percent_scalar(percent), true),
                SCALAR_7 as int,
                true,
            );
        }
    }
}

} // verus!
