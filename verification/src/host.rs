//! The host of `soroban_sdk` as the library sees it: the environment, the
//! host's map of amounts, its list of numbers, the ledger's sequence number.
//!
//! The host meters every call, and aborts one that exhausts the budget it was
//! given. What is stated here holds of the calls that the budget allows.

use vstd::prelude::*;

verus! {

/// The host environment of `soroban_sdk`. It is carried through to the host
/// calls and never looked into.
#[verifier::external_type_specification]
#[verifier::external_body]
pub struct ExEnv(soroban_sdk::Env);

/// The host's ordered map, `soroban_sdk::Map`. What one holds is known only
/// through [`amounts`] and [`typed`].
#[verifier::external_type_specification]
#[verifier::external_body]
#[verifier::reject_recursive_types(K)]
#[verifier::reject_recursive_types(V)]
pub struct ExMap<K, V>(soroban_sdk::Map<K, V>);

/// The host's list, `soroban_sdk::Vec`. What one holds is known only through
/// [`items`] and [`typed_list`].
#[verifier::external_type_specification]
#[verifier::external_body]
#[verifier::reject_recursive_types(T)]
pub struct ExVec<T>(soroban_sdk::Vec<T>);

/// The pairs that a host map of amounts holds under its `u32` keys, each
/// value read as an `i128`.
pub uninterp spec fn amounts(m: soroban_sdk::Map<u32, i128>) -> Map<u32, i128>;

/// Whether every entry of a host map of amounts is what the map's type says:
/// a `u32` key with an `i128` value. The host does not look into a map that
/// it is handed from outside, so one may hold entries of any kind.
pub uninterp spec fn typed(m: soroban_sdk::Map<u32, i128>) -> bool;

/// The items of a host list of numbers, in order, each read as a `u32`.
pub uninterp spec fn items(v: soroban_sdk::Vec<u32>) -> Seq<u32>;

/// Whether every item of a host list of numbers is a `u32`, as the list's
/// type says. A list handed in from outside may hold items of any kind.
pub uninterp spec fn typed_list(v: soroban_sdk::Vec<u32>) -> bool;

/// `soroban_sdk::Map::new`: a fresh map, which holds nothing.
#[verifier::external_body]
pub(crate) fn map_new(e: &soroban_sdk::Env) -> (r: soroban_sdk::Map<u32, i128>)
    ensures
        amounts(r) =~= Map::empty(),
        typed(r),
{
    soroban_sdk::Map::new(e)
}

/// `Clone::clone` of `soroban_sdk::Map`: a second handle on a map that holds
/// the same entries.
#[verifier::external_body]
pub(crate) fn map_clone(m: &soroban_sdk::Map<u32, i128>) -> (r: soroban_sdk::Map<u32, i128>)
    ensures
        amounts(r) == amounts(*m),
        typed(r) == typed(*m),
{
    m.clone()
}

/// `soroban_sdk::Map::set`: the key now leads to the value, whether or not it
/// led to one before; every other entry is untouched. A map whose entries
/// were all of the declared types still is such a map.
#[verifier::external_body]
pub(crate) fn map_set(m: &mut soroban_sdk::Map<u32, i128>, k: u32, v: i128)
    ensures
        amounts(*final(m)) == amounts(*old(m)).insert(k, v),
        typed(*old(m)) ==> typed(*final(m)),
{
    m.set(k, v)
}

/// `soroban_sdk::Map::contains_key`: whether the key leads to a value.
#[verifier::external_body]
pub(crate) fn map_contains_key(m: &soroban_sdk::Map<u32, i128>, k: u32) -> (r: bool)
    ensures
        r == amounts(*m).contains_key(k),
{
    m.contains_key(k)
}

/// `soroban_sdk::Map::is_empty`: whether the map holds no entry at all. Of a
/// map whose keys are all `u32` that is to hold no pair; of other maps
/// nothing is claimed, and none is admitted.
#[verifier::external_body]
pub(crate) fn map_is_empty(m: &soroban_sdk::Map<u32, i128>) -> (r: bool)
    requires
        typed(*m),
    ensures
        r == (amounts(*m) =~= Map::empty()),
{
    m.is_empty()
}

/// Whether the entries are the pairs of the map, each once, in ascending
/// order of their keys.
pub open spec fn lists(m: Map<u32, i128>, entries: Seq<(u32, i128)>) -> bool {
    &&& ascending(entries)
    &&& forall|i: int|
        0 <= i < entries.len() ==> #[trigger] m.contains_pair(entries[i].0, entries[i].1)
    &&& forall|k: u32| m.contains_key(k) ==> among(entries, entries.len() as int, k)
}

/// `soroban_sdk::Map::try_iter`, gathered into a vector. The iterator walks
/// the map in the host's order of keys, which for integers is ascending, and
/// converts each entry; it fails at the first entry that is not of the
/// declared types. So there is a result exactly where the map is typed, and
/// it is then every pair of the map once, in ascending order.
#[verifier::external_body]
pub(crate) fn map_entries(m: &soroban_sdk::Map<u32, i128>) -> (r: Option<Vec<(u32, i128)>>)
    ensures
        r.is_some() == typed(*m),
        r.is_some() ==> lists(amounts(*m), r.unwrap()@),
{
    m.try_iter().collect::<Result<Vec<(u32, i128)>, _>>().ok()
}

/// `soroban_sdk::Vec::try_iter`, gathered into a vector. The iterator converts
/// each item in turn and fails at the first that is not a `u32`. So there is
/// a result exactly where the list is typed, and it is then the list's items
/// in their order.
#[verifier::external_body]
pub(crate) fn list_items(v: &soroban_sdk::Vec<u32>) -> (r: Option<Vec<u32>>)
    ensures
        r.is_some() == typed_list(*v),
        r.is_some() ==> r.unwrap()@ == items(*v),
{
    v.try_iter().collect::<Result<Vec<u32>, _>>().ok()
}

/// Whether key `k` stands among the first `n` entries.
pub open spec fn among(entries: Seq<(u32, i128)>, n: int, k: u32) -> bool {
    exists|j: int| 0 <= j < n && #[trigger] entries[j].0 == k
}

/// Whether the entries come in strictly ascending order of their keys.
pub open spec fn ascending(entries: Seq<(u32, i128)>) -> bool {
    forall|i: int, j: int| 0 <= i < j < entries.len() ==> entries[i].0 < entries[j].0
}

/// The keys of the first `n` entries.
pub open spec fn keys_among(entries: Seq<(u32, i128)>, n: int) -> Set<u32> {
    Set::new(|k: u32| among(entries, n, k))
}

/// Among ascending entries, each one brings a key that none before it has.
pub proof fn lemma_keys_among_step(entries: Seq<(u32, i128)>, n: int)
    requires
        0 <= n < entries.len(),
        ascending(entries),
    ensures
        !keys_among(entries, n).contains(entries[n].0),
        keys_among(entries, n + 1) =~= keys_among(entries, n).insert(entries[n].0),
{
    let k = entries[n].0;
    let before = keys_among(entries, n);
    assert(!before.contains(k)) by {
        if among(entries, n, k) {
            let j = choose|j: int| 0 <= j < n && #[trigger] entries[j].0 == k;
            assert(entries[j].0 < entries[n].0);
        }
    }
    assert forall|x: u32| keys_among(entries, n + 1).contains(x) <==> before.insert(k).contains(
        x,
    ) by {
        if among(entries, n + 1, x) {
            let j = choose|j: int| 0 <= j < n + 1 && #[trigger] entries[j].0 == x;
            if j < n {
                assert(among(entries, n, x));
            }
        }
        if among(entries, n, x) {
            let j = choose|j: int| 0 <= j < n && #[trigger] entries[j].0 == x;
            assert(0 <= j < n + 1 && entries[j].0 == x);
        }
        if x == k {
            assert(entries[n].0 == x);
        }
    }
}

/// The first `n` of ascending entries have `n` keys between them, and the
/// last of those keys is no smaller than the number of keys before it.
pub proof fn lemma_keys_among(entries: Seq<(u32, i128)>, n: int)
    requires
        0 <= n <= entries.len(),
        ascending(entries),
    ensures
        keys_among(entries, n).finite(),
        keys_among(entries, n).len() == n,
        n > 0 ==> entries[n - 1].0 >= n - 1,
    decreases n,
{
    if n == 0 {
        assert(keys_among(entries, 0) =~= Set::<u32>::empty());
    } else {
        lemma_keys_among(entries, n - 1);
        lemma_keys_among_step(entries, n - 1);
        if n > 1 {
            assert(entries[n - 2].0 < entries[n - 1].0);
        }
    }
}

/// Entries that list a map show that the map has as many keys as there are
/// entries.
pub proof fn lemma_entries_count(m: Map<u32, i128>, entries: Seq<(u32, i128)>)
    requires
        lists(m, entries),
    ensures
        m.dom() =~= keys_among(entries, entries.len() as int),
        m.dom().finite(),
        m.dom().len() == entries.len(),
        entries.len() <= u32::MAX + 1,
{
    lemma_keys_among(entries, entries.len() as int);
    assert forall|k: u32| m.dom().contains(k) <==> keys_among(
        entries,
        entries.len() as int,
    ).contains(k) by {
        if among(entries, entries.len() as int, k) {
            let j = choose|j: int| 0 <= j < entries.len() && #[trigger] entries[j].0 == k;
            assert(m.contains_pair(entries[j].0, entries[j].1));
        }
    }
    assert(m.dom() =~= keys_among(entries, entries.len() as int));
}

/// `soroban_sdk::ledger::Ledger::sequence`: the number of the ledger that is
/// being closed, as the host was told it. Nothing is known of it beforehand.
#[verifier::external_body]
pub(crate) fn ledger_sequence(e: &soroban_sdk::Env) -> (r: u32) {
    e.ledger().sequence()
}

/// `cast::i128`: the same number, widened. No `u64` is out of range.
#[verifier::external_body]
pub(crate) fn to_i128(x: u64) -> (r: i128)
    ensures
        r == x,
{
    cast::i128(x)
}

} // verus!
