//! The map that an increasing list of identifiers and a list of values of
//! the same length stand for. The registry, the cache and the gates are
//! each stored as such a pair.

use crate::ident::{increasing, lemma_increasing_distinct, Id};
use vstd::prelude::*;

verus! {

/// A position at which `ids` holds `id`.
pub open spec fn position(ids: Seq<Id>, id: Id) -> int {
    choose|i: int| 0 <= i < ids.len() && ids[i] == id
}

/// The map that sends each identifier of `ids` to the value at its position.
pub open spec fn table_map<V>(ids: Seq<Id>, vals: Seq<V>) -> Map<Id, V> {
    Map::new(|id: Id| ids.contains(id), |id: Id| vals[position(ids, id)])
}

/// The identifier at position `i` is sent to the value at position `i`.
pub proof fn lemma_table_entry<V>(ids: Seq<Id>, vals: Seq<V>, i: int)
    requires
        increasing(ids),
        0 <= i < ids.len(),
    ensures
        ids.contains(ids[i]),
        position(ids, ids[i]) == i,
        table_map(ids, vals).dom().contains(ids[i]),
        table_map(ids, vals)[ids[i]] == vals[i],
{
    assert(ids.contains(ids[i]));
    lemma_increasing_distinct(ids, position(ids, ids[i]), i);
}

/// Replacing the value at position `i` replaces what its identifier is sent
/// to, and nothing else.
pub proof fn lemma_table_update<V>(ids: Seq<Id>, vals: Seq<V>, i: int, v: V)
    requires
        increasing(ids),
        ids.len() == vals.len(),
        0 <= i < ids.len(),
    ensures
        table_map(ids, vals.update(i, v)) == table_map(ids, vals).insert(ids[i], v),
{
    let a = table_map(ids, vals.update(i, v));
    let b = table_map(ids, vals).insert(ids[i], v);
    lemma_table_entry(ids, vals, i);
    assert forall|id: Id| a.dom().contains(id) implies #[trigger] a[id] == b[id] by {
        let k = position(ids, id);
        if id != ids[i] {
            assert(k != i);
        }
    }
    assert(a =~= b);
}

/// Inserting an identifier that the list lacks, with its value at the same
/// position, adds that one pair to the map.
pub proof fn lemma_table_insert<V>(ids: Seq<Id>, vals: Seq<V>, at: int, id: Id, v: V)
    requires
        increasing(ids.insert(at, id)),
        ids.len() == vals.len(),
        0 <= at <= ids.len(),
        !ids.contains(id),
    ensures
        table_map(ids.insert(at, id), vals.insert(at, v)) == table_map(ids, vals).insert(id, v),
{
    let ids2 = ids.insert(at, id);
    let vals2 = vals.insert(at, v);
    let a = table_map(ids2, vals2);
    let b = table_map(ids, vals).insert(id, v);
    assert(ids2[at] == id);
    assert forall|x: Id| a.dom().contains(x) <==> b.dom().contains(x) by {
        if ids2.contains(x) {
            let k = choose|k: int| 0 <= k < ids2.len() && ids2[k] == x;
            if k < at {
                assert(ids[k] == x);
            } else if k > at {
                assert(ids[k - 1] == x);
            }
        }
        if ids.contains(x) {
            let k = choose|k: int| 0 <= k < ids.len() && ids[k] == x;
            if k < at {
                assert(ids2[k] == x);
            } else {
                assert(ids2[k + 1] == x);
            }
        }
    }
    assert forall|x: Id| a.dom().contains(x) implies #[trigger] a[x] == b[x] by {
        let k2 = position(ids2, x);
        if x == id {
            lemma_increasing_distinct(ids2, k2, at);
        } else {
            let k = position(ids, x);
            assert(ids.contains(x));
            if k < at {
                assert(ids2[k] == x);
                lemma_increasing_distinct(ids2, k2, k);
            } else {
                assert(ids2[k + 1] == x);
                lemma_increasing_distinct(ids2, k2, k + 1);
            }
        }
    }
    assert(a =~= b);
}

} // verus!
