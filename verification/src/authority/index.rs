//! Stable B-trees from keys to row positions: one kind keyed by identity
//! bytes, one by numeric id.

use ic_stable_structures::{StableBTreeMap, VectorMemory};
use vstd::prelude::*;

verus! {

/// Finds the row that belongs to an identity. The tree is an
/// `ic_stable_structures::StableBTreeMap` over a vector memory of its own;
/// Verus sees it only through `index_entries` and the functions below.
#[verifier::external_body]
pub struct IdentityIndex {
    tree: StableBTreeMap<Vec<u8>, u64, VectorMemory>,
}

/// The entries that an index holds: each key with its row position.
pub uninterp spec fn index_entries(index: IdentityIndex) -> Map<Seq<u8>, u64>;

/// The index without entries.
pub open spec fn no_entries() -> Map<Seq<u8>, u64> {
    Map::empty()
}

/// The position recorded for a key, if there is one.
pub open spec fn position_of(entries: Map<Seq<u8>, u64>, key: Seq<u8>) -> Option<u64> {
    if entries.contains_key(key) {
        Some(entries[key])
    } else {
        None
    }
}

/// Calls `StableBTreeMap::new` on a fresh `VectorMemory`. Trusted: the new
/// tree holds no entry.
#[verifier::external_body]
pub(crate) fn index_new() -> (fresh: IdentityIndex)
    ensures
        index_entries(fresh) == no_entries(),
{
    IdentityIndex { tree: StableBTreeMap::new(VectorMemory::default()) }
}

/// Calls `StableBTreeMap::get`. Trusted: it returns the value stored under
/// the key, or `None` where the key is absent.
#[verifier::external_body]
pub(crate) fn index_get(index: &IdentityIndex, key: &Vec<u8>) -> (position: Option<u64>)
    ensures
        position == position_of(index_entries(*index), key@),
{
    index.tree.get(key)
}

/// Calls `StableBTreeMap::contains_key`. Trusted: it tells whether the key
/// has an entry.
#[verifier::external_body]
pub(crate) fn index_contains(index: &IdentityIndex, key: &Vec<u8>) -> (found: bool)
    ensures
        found == index_entries(*index).contains_key(key@),
{
    index.tree.contains_key(key)
}

/// Calls `StableBTreeMap::insert` and drops the previous value. Trusted:
/// afterwards the key maps to the position, and no other entry has changed.
/// The tree records the length of a key in 32 bits, so longer keys are left
/// out.
#[verifier::external_body]
pub(crate) fn index_insert(index: &mut IdentityIndex, key: Vec<u8>, position: u64)
    requires
        key@.len() <= u32::MAX,
    ensures
        index_entries(*final(index)) == index_entries(*old(index)).insert(key@, position),
{
    index.tree.insert(key, position);
}

/// Finds the row that has a numeric id, and walks the ids in order. The
/// tree is an `ic_stable_structures::StableBTreeMap` over a vector memory
/// of its own; Verus sees it only through `id_entries` and the functions
/// below.
#[verifier::external_body]
pub struct IdIndex {
    tree: StableBTreeMap<u64, u64, VectorMemory>,
}

/// The entries that an id index holds: each id with its row position.
pub uninterp spec fn id_entries(index: IdIndex) -> Map<u64, u64>;

/// The id index without entries.
pub open spec fn no_id_entries() -> Map<u64, u64> {
    Map::empty()
}

/// The position recorded for an id, if there is one.
pub open spec fn row_of(entries: Map<u64, u64>, id: u64) -> Option<u64> {
    if entries.contains_key(id) {
        Some(entries[id])
    } else {
        None
    }
}

/// The pairs are the entries, each once, by ascending id.
pub open spec fn walked_in_order(pairs: Seq<(u64, u64)>, entries: Map<u64, u64>) -> bool {
    &&& forall|i: int, j: int| 0 <= i < j < pairs.len() ==> pairs[i].0 < pairs[j].0
    &&& forall|i: int|
        0 <= i < pairs.len() ==> entries.contains_key(#[trigger] pairs[i].0) && entries[pairs[i].0]
            == pairs[i].1
    &&& forall|id: u64| #[trigger]
        entries.contains_key(id) ==> exists|i: int| 0 <= i < pairs.len() && pairs[i].0 == id
}

/// Calls `StableBTreeMap::new` on a fresh `VectorMemory`. Trusted: the new
/// tree holds no entry.
#[verifier::external_body]
pub(crate) fn id_index_new() -> (fresh: IdIndex)
    ensures
        id_entries(fresh) == no_id_entries(),
{
    IdIndex { tree: StableBTreeMap::new(VectorMemory::default()) }
}

/// Calls `StableBTreeMap::get`. Trusted: it returns the value stored under
/// the id, or `None` where the id is absent.
#[verifier::external_body]
pub(crate) fn id_index_get(index: &IdIndex, id: u64) -> (position: Option<u64>)
    ensures
        position == row_of(id_entries(*index), id),
{
    index.tree.get(&id)
}

/// Calls `StableBTreeMap::insert` and drops the previous value. Trusted:
/// afterwards the id maps to the position, and no other entry has changed.
#[verifier::external_body]
pub(crate) fn id_index_insert(index: &mut IdIndex, id: u64, position: u64)
    ensures
        id_entries(*final(index)) == id_entries(*old(index)).insert(id, position),
{
    index.tree.insert(id, position);
}

/// Calls `StableBTreeMap::iter` and collects what it yields. Trusted: the
/// iterator yields every entry once, sorted by key.
#[verifier::external_body]
pub(crate) fn id_index_walk(index: &IdIndex) -> (pairs: Vec<(u64, u64)>)
    ensures
        walked_in_order(pairs@, id_entries(*index)),
{
    index.tree.iter().collect()
}

/// The ids 1 to `rows` are indexed, each at the position before it, and
/// nothing else is.
pub open spec fn dense_index(entries: Map<u64, u64>, rows: nat) -> bool {
    &&& forall|id: u64| #[trigger] entries.contains_key(id) <==> 1 <= id <= rows
    &&& forall|id: u64| #[trigger] entries.contains_key(id) ==> entries[id] == id - 1
}

/// Walking a dense index yields, at place `i`, the id `i + 1` with the
/// position `i`.
pub proof fn lemma_walk_at(pairs: Seq<(u64, u64)>, entries: Map<u64, u64>, rows: nat, i: int)
    requires
        rows <= u64::MAX,
        dense_index(entries, rows),
        walked_in_order(pairs, entries),
        0 <= i < pairs.len(),
    ensures
        pairs[i].0 == i + 1,
        pairs[i].1 == i,
        i < rows,
    decreases i,
{
    if i > 0 {
        lemma_walk_at(pairs, entries, rows, i - 1);
        assert(pairs[i - 1].0 < pairs[i].0);
    }
    assert(entries.contains_key(pairs[i].0));
    let id = (i + 1) as u64;
    assert(entries.contains_key(id));
    let j = choose|j: int| 0 <= j < pairs.len() && pairs[j].0 == id;
    if j > i {
        assert(pairs[i].0 < pairs[j].0);
    }
    if j < i {
        lemma_walk_at(pairs, entries, rows, j);
    }
}

/// Walking a dense index yields as many pairs as there are rows.
pub proof fn lemma_walk_len(pairs: Seq<(u64, u64)>, entries: Map<u64, u64>, rows: nat)
    requires
        rows <= u64::MAX,
        dense_index(entries, rows),
        walked_in_order(pairs, entries),
    ensures
        pairs.len() == rows,
{
    if pairs.len() > 0 {
        lemma_walk_at(pairs, entries, rows, pairs.len() - 1);
    }
    if rows > 0 {
        let last = rows as u64;
        assert(entries.contains_key(last));
        let j = choose|j: int| 0 <= j < pairs.len() && pairs[j].0 == last;
        lemma_walk_at(pairs, entries, rows, j);
    }
}

/// The entries are finitely many, and `count` is their number.
pub open spec fn counted(entries: Map<u64, u64>, count: u64) -> bool {
    entries.dom().finite() && entries.dom().len() == count
}

/// Calls `StableBTreeMap::len`. Trusted: it returns the number of entries.
#[verifier::external_body]
pub(crate) fn id_index_len(index: &IdIndex) -> (count: u64)
    ensures
        counted(id_entries(*index), count),
{
    index.tree.len()
}

/// The ids from 1 to `n`.
pub open spec fn ids_up_to(n: nat) -> Set<u64> {
    Set::new(|id: u64| 1 <= id <= n)
}

/// There are `n` ids from 1 to `n`.
pub proof fn lemma_ids_up_to(n: nat)
    requires
        n <= u64::MAX,
    ensures
        ids_up_to(n).finite(),
        ids_up_to(n).len() == n,
    decreases n,
{
    if n == 0 {
        assert(ids_up_to(0) =~= Set::<u64>::empty());
    } else {
        lemma_ids_up_to((n - 1) as nat);
        assert(ids_up_to(n) =~= ids_up_to((n - 1) as nat).insert(n as u64));
    }
}

/// A dense index has as many entries as there are rows.
pub proof fn lemma_dense_count(entries: Map<u64, u64>, rows: nat)
    requires
        rows <= u64::MAX,
        dense_index(entries, rows),
    ensures
        entries.dom().finite(),
        entries.dom().len() == rows,
{
    lemma_ids_up_to(rows);
    assert(entries.dom() =~= ids_up_to(rows));
}

} // verus!
