//! Order-preserving overwrite maps, held in `indexmap::IndexMap` values and
//! modeled as sequences of key/value pairs in insertion order.
//!
//! Re-inserting an existing key replaces its value in place — the key keeps
//! the position its first insertion gave it — while a new key is appended
//! last. The pure model of that step is [`ordered_insert`]; the trusted
//! wrappers below state that the maps behave exactly as the model says.

use vstd::prelude::*;
use indexmap::IndexMap;
use crate::proto::Color;
use crate::proto::semantic::{Selector, SelectorV, Style};

verus! {

#[verifier::external_type_specification]
#[verifier::external_body]
#[verifier::reject_recursive_types(K)]
#[verifier::reject_recursive_types(V)]
#[verifier::reject_recursive_types(S)]
pub struct ExIndexMap<K, V, S>(IndexMap<K, V, S>);

/// The keys of an entry sequence, in order.
pub open spec fn entry_keys<K, V>(es: Seq<(K, V)>) -> Seq<K> {
    es.map_values(|e: (K, V)| e.0)
}

/// Whether some entry holds the key.
pub open spec fn has_key<K, V>(es: Seq<(K, V)>, k: K) -> bool {
    exists|i: int| 0 <= i < es.len() && (#[trigger] es[i]).0 == k
}

/// One insertion into an order-preserving overwrite map, seen on its entry
/// sequence: an existing key keeps its position and takes the new value; a
/// new key is appended last.
pub open spec fn ordered_insert<K, V>(es: Seq<(K, V)>, k: K, v: V) -> Seq<(K, V)> {
    if has_key(es, k) {
        Seq::new(es.len(), |i: int| if es[i].0 == k { (k, v) } else { es[i] })
    } else {
        es.push((k, v))
    }
}

/// Sequential insertions of the same value under each key in turn.
pub open spec fn insert_each<K, V>(es: Seq<(K, V)>, ks: Seq<K>, v: V) -> Seq<(K, V)>
    decreases ks.len(),
{
    if ks.len() == 0 {
        es
    } else {
        ordered_insert(insert_each(es, ks.drop_last(), v), ks.last(), v)
    }
}

/// Overwrite, never merge: inserting twice under one key leaves exactly the
/// state that inserting only the second value would have left; nothing of the
/// first value survives.
pub proof fn lemma_insert_overwrites<K, V>(es: Seq<(K, V)>, k: K, v1: V, v2: V)
    ensures
        ordered_insert(ordered_insert(es, k, v1), k, v2) == ordered_insert(es, k, v2),
{
    let es1 = ordered_insert(es, k, v1);
    if has_key(es, k) {
        let w = choose|i: int| 0 <= i < es.len() && (#[trigger] es[i]).0 == k;
        assert(es1[w].0 == k);
        assert(has_key(es1, k));
        assert forall|i: int| 0 <= i < es.len() implies (es1[i].0 == k) == (es[i].0 == k) by {}
        assert(ordered_insert(es1, k, v2) =~= ordered_insert(es, k, v2));
    } else {
        assert(es1[es.len() as int].0 == k);
        assert(has_key(es1, k));
        assert forall|i: int| 0 <= i < es.len() implies es1[i].0 != k by {
            assert(es1[i] == es[i]);
        }
        assert(ordered_insert(es1, k, v2) =~= ordered_insert(es, k, v2));
    }
}

/// Adding two rules that target the identical key leaves exactly the state
/// that adding the second alone would have produced: a full overwrite, not a
/// field-by-field merge.
pub proof fn lemma_second_insertion_wins<K, V>(es: Seq<(K, V)>, k: K, v1: V, v2: V)
    ensures
        insert_each(insert_each(es, seq![k], v1), seq![k], v2) == insert_each(es, seq![k], v2),
{
    assert(seq![k].drop_last() =~= Seq::<K>::empty());
    assert(seq![k].last() == k);
    assert(insert_each(es, Seq::<K>::empty(), v1) == es);
    assert(insert_each(ordered_insert(es, k, v1), Seq::<K>::empty(), v2) == ordered_insert(
        es,
        k,
        v1,
    ));
    assert(insert_each(es, Seq::<K>::empty(), v2) == es);
    assert(insert_each(es, seq![k], v1) == ordered_insert(es, k, v1));
    assert(insert_each(insert_each(es, seq![k], v1), seq![k], v2) == ordered_insert(
        ordered_insert(es, k, v1),
        k,
        v2,
    ));
    lemma_insert_overwrites(es, k, v1, v2);
}

/// Re-inserting an existing key moves nothing: the key sequence is unchanged,
/// every entry under that key now holds the new value, and every other entry
/// is untouched.
pub proof fn lemma_reinsert_keeps_positions<K, V>(es: Seq<(K, V)>, k: K, v: V)
    requires
        has_key(es, k),
    ensures
        entry_keys(ordered_insert(es, k, v)) == entry_keys(es),
        forall|i: int|
            0 <= i < es.len() && (#[trigger] es[i]).0 == k ==> ordered_insert(es, k, v)[i] == (
            k,
            v,
            ),
        forall|i: int|
            0 <= i < es.len() && (#[trigger] es[i]).0 != k ==> ordered_insert(es, k, v)[i]
                == es[i],
{
    let es2 = ordered_insert(es, k, v);
    assert(entry_keys(es2) =~= entry_keys(es));
}

/// The entries of a semantic-rule map, in insertion order. The keys are the
/// mathematical shapes of the selectors; key equality in the map is
/// field-for-field text equality, which coincides with equality of those
/// shapes.
pub uninterp spec fn semantic_entries(m: IndexMap<Selector, Style>) -> Seq<(SelectorV, Style)>;

/// The entries of a UI-color map, in insertion order, keyed by the key text.
pub uninterp spec fn workbench_entries(m: IndexMap<String, Color>) -> Seq<(Seq<char>, Color)>;

/// Relies on `indexmap::IndexMap::new`: the new map holds nothing.
#[verifier::external_body]
pub fn semantic_map_new() -> (m: IndexMap<Selector, Style>)
    ensures
        semantic_entries(m) == Seq::<(SelectorV, Style)>::empty(),
{
    IndexMap::new()
}

/// Relies on `indexmap::IndexMap::insert`: an equivalent key keeps its place
/// in the order and only its value is replaced; a new key is appended last.
#[verifier::external_body]
pub fn semantic_map_insert(m: &mut IndexMap<Selector, Style>, k: Selector, v: Style)
    ensures
        semantic_entries(*final(m)) == ordered_insert(semantic_entries(*old(m)), k@, v),
{
    m.insert(k, v);
}

/// Relies on `indexmap::IndexMap::iter`: the pairs come in insertion order,
/// one per entry.
#[verifier::external_body]
pub fn semantic_map_pairs(m: &IndexMap<Selector, Style>) -> (pairs: Vec<(Selector, Style)>)
    ensures
        pairs@.len() == semantic_entries(*m).len(),
        forall|i: int|
            0 <= i < pairs@.len() ==> ((#[trigger] pairs@[i]).0@, pairs@[i].1) == semantic_entries(
                *m,
            )[i],
{
    m.iter().map(|(k, v)| (k.clone(), *v)).collect()
}

/// Relies on `indexmap::IndexMap::new`: the new map holds nothing.
#[verifier::external_body]
pub fn workbench_map_new() -> (m: IndexMap<String, Color>)
    ensures
        workbench_entries(m) == Seq::<(Seq<char>, Color)>::empty(),
{
    IndexMap::new()
}

/// Relies on `indexmap::IndexMap::insert`: an equivalent key keeps its place
/// in the order and only its value is replaced; a new key is appended last.
#[verifier::external_body]
pub fn workbench_map_insert(m: &mut IndexMap<String, Color>, k: String, v: Color)
    ensures
        workbench_entries(*final(m)) == ordered_insert(workbench_entries(*old(m)), k@, v),
{
    m.insert(k, v);
}

/// Relies on `indexmap::IndexMap::iter`: the pairs come in insertion order,
/// one per entry.
#[verifier::external_body]
pub fn workbench_map_pairs(m: &IndexMap<String, Color>) -> (pairs: Vec<(String, Color)>)
    ensures
        pairs@.len() == workbench_entries(*m).len(),
        forall|i: int|
            0 <= i < pairs@.len() ==> ((#[trigger] pairs@[i]).0@, pairs@[i].1) == workbench_entries(
                *m,
            )[i],
{
    m.iter().map(|(k, v)| (k.clone(), *v)).collect()
}

} // verus!
