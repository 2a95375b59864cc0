//! Trusted bindings to `indexmap`'s insertion-ordered hash map, which backs
//! the peer registry.
//!
//! The map is used at one instantiation, `IndexMap<u64, usize>`: node key to
//! arena slot. Its abstract contents are named by [`index_map_entries`]: the
//! key-value pairs in the map's order. Each wrapper states, over that name,
//! what `indexmap`'s documentation and source promise of the method it calls.
use vstd::prelude::*;

verus! {

#[verifier::external_type_specification]
#[verifier::external_body]
#[verifier::reject_recursive_types(K)]
#[verifier::reject_recursive_types(V)]
#[verifier::reject_recursive_types(S)]
pub struct ExIndexMap<K, V, S>(indexmap::IndexMap<K, V, S>);

/// The key-value pairs held by the map, in the map's order.
pub uninterp spec fn index_map_entries(m: indexmap::IndexMap<u64, usize>) -> Seq<(u64, usize)>;

/// Index of the first pair in `es` whose key is `k`, or `es.len()` if none.
pub open spec fn key_index(es: Seq<(u64, usize)>, k: u64) -> int
    decreases es.len(),
{
    if es.len() == 0 {
        0
    } else if es[0].0 == k {
        0
    } else {
        1 + key_index(es.skip(1), k)
    }
}

/// Whether some pair in `es` has key `k`.
pub open spec fn has_key(es: Seq<(u64, usize)>, k: u64) -> bool {
    exists|i: int| 0 <= i < es.len() && es[i].0 == k
}

/// `key_index` is within bounds exactly when the key occurs, and it points at
/// the first occurrence.
pub proof fn lemma_key_index(es: Seq<(u64, usize)>, k: u64)
    ensures
        has_key(es, k) <==> key_index(es, k) < es.len(),
        0 <= key_index(es, k) <= es.len(),
        key_index(es, k) < es.len() ==> es[key_index(es, k)].0 == k,
        forall|i: int| 0 <= i < key_index(es, k) ==> es[i].0 != k,
    decreases es.len(),
{
    if es.len() == 0 {
    } else if es[0].0 == k {
    } else {
        lemma_key_index(es.skip(1), k);
        assert forall|i: int| 0 <= i < es.len() && es[i].0 == k implies key_index(es, k)
            < es.len() by {
            assert(es.skip(1)[i - 1] == es[i]);
        }
        assert(forall|i: int| 1 <= i < es.len() ==> es[i] == es.skip(1)[i - 1]);
        if has_key(es.skip(1), k) {
            let j = key_index(es.skip(1), k);
            assert(es[j + 1] == es.skip(1)[j]);
        }
    }
}

/// Relies on `IndexMap::new`: creates an empty map.
#[verifier::external_body]
pub fn im_new() -> (m: indexmap::IndexMap<u64, usize>)
    ensures
        index_map_entries(m) == Seq::<(u64, usize)>::empty(),
{
    indexmap::IndexMap::new()
}

/// Relies on `IndexMap::len`: the number of key-value pairs in the map.
#[verifier::external_body]
pub fn im_len(m: &indexmap::IndexMap<u64, usize>) -> (n: usize)
    ensures
        n == index_map_entries(*m).len(),
{
    m.len()
}

/// Relies on `IndexMap::get`: the value of the pair whose key is equivalent
/// to the given key, or `None` if the key is not in the map.
#[verifier::external_body]
pub fn im_get(m: &indexmap::IndexMap<u64, usize>, k: u64) -> (r: Option<usize>)
    ensures
        match r {
            Some(v) => exists|i: int|
                0 <= i < index_map_entries(*m).len() && index_map_entries(*m)[i] == (k, v),
            None => !has_key(index_map_entries(*m), k),
        },
{
    m.get(&k).copied()
}

/// Relies on `IndexMap::get_index`: the key-value pair at the given position
/// in the map's order, or `None` when the position is out of range.
#[verifier::external_body]
pub fn im_get_index(m: &indexmap::IndexMap<u64, usize>, i: usize) -> (r: Option<(u64, usize)>)
    ensures
        i < index_map_entries(*m).len() ==> r == Some(index_map_entries(*m)[i as int]),
        i >= index_map_entries(*m).len() ==> r is None,
{
    m.get_index(i).map(|(k, v)| (*k, *v))
}

/// Relies on `IndexMap::insert_full`: if an equivalent key already exists,
/// the key keeps its place in the order, the value is updated, and the old
/// value comes back with the key's index; otherwise the pair is appended,
/// last in order, and its index comes back with `None`.
#[verifier::external_body]
pub fn im_insert_full(m: &mut indexmap::IndexMap<u64, usize>, k: u64, v: usize) -> (r: (
    usize,
    Option<usize>,
))
    ensures
        ({
            let es = index_map_entries(*old(m));
            let es2 = index_map_entries(*final(m));
            if has_key(es, k) {
                let i = key_index(es, k);
                es2 == es.update(i, (k, v)) && r.0 == i && r.1 == Some(es[i].1)
            } else {
                es.len() < usize::MAX && es2 == es.push((k, v)) && r.0 == es.len() && r.1
                    is None
            }
        }),
{
    m.insert_full(k, v)
}

/// Relies on `IndexMap::shift_remove_full`: removes the pair whose key is
/// equivalent to the given key by shifting all pairs that follow it down,
/// preserving their relative order, and returns the pair and the index it
/// had; `None` and no change when the key is not in the map. The number of
/// pairs held is a `usize` (`IndexMap::len`), hence the stated bound.
#[verifier::external_body]
pub fn im_shift_remove_full(m: &mut indexmap::IndexMap<u64, usize>, k: u64) -> (r: Option<
    (usize, u64, usize),
>)
    ensures
        index_map_entries(*old(m)).len() <= usize::MAX,
        ({
            let es = index_map_entries(*old(m));
            let es2 = index_map_entries(*final(m));
            if has_key(es, k) {
                let i = key_index(es, k);
                es2 == es.remove(i) && r == Some((i as usize, k, es[i].1))
            } else {
                es2 == es && r is None
            }
        }),
{
    m.shift_remove_full(&k).map(|(i, key, v)| (i, key, v))
}

} // verus!
