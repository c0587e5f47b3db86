//! The cache: for each configured node its latest measurement, or nothing
//! where the last poll failed or none has finished yet.

use crate::data::{copy_value, value_view, DataPoint, Reading};
use crate::ident::{id_list, increasing, Id, IdIndex};
use crate::table::{lemma_table_entry, lemma_table_update, position, table_map};
use vstd::prelude::*;

verus! {

/// What a cache holds, as contracts see it: each known identifier with its
/// value.
pub type CacheModel = Map<Id, Option<Reading>>;

/// One node's identifier with its cached value.
#[derive(Debug)]
pub struct CacheEntry {
    pub node_id: String,
    pub value: Option<DataPoint>,
}

/// Why a lookup gave no entry.
#[derive(Clone, Copy, Debug, PartialEq, Eq, Structural)]
pub enum CacheLookupError {
    /// The identifier is not that of a configured node.
    NotFound,
}

/// The cache right after start: every identifier of `ids` with no value.
pub open spec fn initial_cache(ids: Seq<Id>) -> CacheModel {
    Map::new(|id: Id| ids.contains(id), |id: Id| None::<Reading>)
}

/// What a lookup of `id` gives.
pub open spec fn lookup(m: CacheModel, id: Id) -> Result<Option<Reading>, CacheLookupError> {
    if m.dom().contains(id) {
        Ok(m[id])
    } else {
        Err(CacheLookupError::NotFound)
    }
}

/// The cache after `v` was written for `id`: the value of a known node is
/// replaced, and for any other identifier nothing changes.
pub open spec fn stored(m: CacheModel, id: Id, v: Option<Reading>) -> CacheModel {
    if m.dom().contains(id) {
        m.insert(id, v)
    } else {
        m
    }
}

/// The cache itself. Its identifiers are fixed when it is made; afterwards
/// only values are replaced.
#[derive(Debug)]
pub struct Cache {
    index: IdIndex,
    values: Vec<Option<DataPoint>>,
}

impl Cache {
    /// The known identifiers, in increasing order.
    pub closed spec fn ids(&self) -> Seq<Id> {
        self.index@
    }

    /// The cached values as contracts see them, in the order of `ids`.
    pub closed spec fn readings(&self) -> Seq<Option<Reading>> {
        Seq::new(self.values.len() as nat, |i: int| value_view(self.values[i]))
    }

    /// Each known identifier with its value.
    pub closed spec fn view(&self) -> CacheModel {
        table_map(self.index@, self.readings())
    }

    /// The identifiers are in order and each has its value.
    pub closed spec fn wf(&self) -> bool {
        &&& self.index.wf()
        &&& self.index@.len() == self.values.len()
    }

    /// `ids` lists the known identifiers in increasing order, each with the
    /// value at its position.
    pub proof fn lemma_ids(&self)
        requires
            self.wf(),
        ensures
            increasing(self.ids()),
            self.ids().len() == self.readings().len(),
            forall|id: Id| self.ids().contains(id) <==> self@.dom().contains(id),
            forall|i: int|
                0 <= i < self.ids().len() ==> self@[#[trigger] self.ids()[i]] == self.readings()[i],
    {
        assert forall|i: int| 0 <= i < self.ids().len() implies self@[#[trigger] self.ids()[i]]
            == self.readings()[i] by {
            lemma_table_entry(self.index@, self.readings(), i);
        }
    }

    /// A cache that knows exactly the identifiers of `node_ids`, each with no
    /// value.
    pub fn initialize(node_ids: &Vec<String>) -> (c: Cache)
        ensures
            c.wf(),
            c@ == initial_cache(id_list(node_ids@)),
    {
        let index = IdIndex::from_list(node_ids);
        let mut values: Vec<Option<DataPoint>> = Vec::new();
        let ghost names = id_list(node_ids@);
        let mut i: usize = 0;
        while i < index.len()
            invariant
                0 <= i <= index@.len(),
                values.len() == i,
                forall|k: int| 0 <= k < values.len() ==> values[k] is None,
            decreases index@.len() - i,
        {
            values.push(None);
            i += 1;
        }
        let c = Cache { index, values };
        proof {
            assert forall|id: Id| c@.dom().contains(id) implies #[trigger] c@[id] == None::<
                Reading,
            > by {
                let k = position(c.index@, id);
                assert(c.readings()[k] == value_view(c.values[k]));
            }
            assert(c@ =~= initial_cache(names));
        }
        c
    }

    /// The number of known nodes.
    pub fn len(&self) -> (n: usize)
        requires
            self.wf(),
        ensures
            n == self.ids().len(),
    {
        self.index.len()
    }

    /// The identifier at position `i` of `ids`.
    pub fn id_at(&self, i: usize) -> (r: &String)
        requires
            self.wf(),
            i < self.ids().len(),
        ensures
            r@ == self.ids()[i as int],
    {
        self.index.id_at(i)
    }

    /// The value of the node at position `i` of `ids`.
    pub fn value_at(&self, i: usize) -> (r: &Option<DataPoint>)
        requires
            self.wf(),
            i < self.ids().len(),
        ensures
            value_view(*r) == self@[self.ids()[i as int]],
    {
        proof {
            lemma_table_entry(self.index@, self.readings(), i as int);
        }
        &self.values[i]
    }

    /// The entry of `node_id`, where it is a known node.
    pub fn get(&self, node_id: &str) -> (r: Result<CacheEntry, CacheLookupError>)
        requires
            self.wf(),
        ensures
            match r {
                Ok(e) => e.node_id@ == node_id@ && lookup(self@, node_id@) == Ok::<
                    Option<Reading>,
                    CacheLookupError,
                >(value_view(e.value)),
                Err(e) => lookup(self@, node_id@) == Err::<Option<Reading>, CacheLookupError>(e),
            },
    {
        match self.index.locate(node_id) {
            Ok(i) => {
                proof {
                    lemma_table_entry(self.index@, self.readings(), i as int);
                }
                Ok(
                    CacheEntry {
                        node_id: self.index.id_at(i).clone(),
                        value: copy_value(&self.values[i]),
                    },
                )
            },
            Err(_) => Err(CacheLookupError::NotFound),
        }
    }

    /// Every entry, in increasing order of identifier.
    pub fn get_all(&self) -> (r: Vec<CacheEntry>)
        requires
            self.wf(),
        ensures
            increasing(self.ids()),
            forall|id: Id| self.ids().contains(id) <==> self@.dom().contains(id),
            r@.len() == self.ids().len(),
            forall|i: int|
                0 <= i < r@.len() ==> {
                    &&& (#[trigger] r@[i]).node_id@ == self.ids()[i]
                    &&& value_view(r@[i].value) == self@[self.ids()[i]]
                },
    {
        let mut out: Vec<CacheEntry> = Vec::new();
        let mut i: usize = 0;
        proof {
            self.lemma_ids();
        }
        while i < self.index.len()
            invariant
                self.wf(),
                0 <= i <= self.index@.len(),
                out@.len() == i,
                forall|k: int|
                    0 <= k < i ==> {
                        &&& (#[trigger] out@[k]).node_id@ == self.ids()[k]
                        &&& value_view(out@[k].value) == self@[self.ids()[k]]
                    },
            decreases self.index@.len() - i,
        {
            proof {
                lemma_table_entry(self.index@, self.readings(), i as int);
            }
            out.push(
                CacheEntry {
                    node_id: self.index.id_at(i).clone(),
                    value: copy_value(&self.values[i]),
                },
            );
            i += 1;
        }
        out
    }

    /// Replaces the value of `node_id`. An identifier that the cache does not
    /// know is refused, and the cache stays as it was.
    pub fn set(&mut self, node_id: &str, value: Option<DataPoint>) -> (r: Result<
        (),
        CacheLookupError,
    >)
        requires
            old(self).wf(),
        ensures
            final(self).wf(),
            final(self).ids() == old(self).ids(),
            final(self)@ == stored(old(self)@, node_id@, value_view(value)),
            r is Ok <==> old(self)@.dom().contains(node_id@),
    {
        match self.index.locate(node_id) {
            Ok(i) => {
                let ghost before = self.readings();
                proof {
                    lemma_table_entry(self.index@, before, i as int);
                    lemma_table_update(self.index@, before, i as int, value_view(value));
                }
                self.values.set(i, value);
                assert(self.readings() =~= before.update(i as int, value_view(value)));
                Ok(())
            },
            Err(_) => Err(CacheLookupError::NotFound),
        }
    }
}

/// Right after start every configured node is known and has no value, and
/// no other identifier is known.
pub proof fn law_initial_cache_complete(ids: Seq<Id>, id: Id)
    ensures
        ids.contains(id) ==> lookup(initial_cache(ids), id) == Ok::<
            Option<Reading>,
            CacheLookupError,
        >(None),
        !ids.contains(id) ==> lookup(initial_cache(ids), id) == Err::<
            Option<Reading>,
            CacheLookupError,
        >(CacheLookupError::NotFound),
{
}

/// A write neither adds nor removes a node.
pub proof fn law_write_keeps_nodes(m: CacheModel, id: Id, v: Option<Reading>)
    ensures
        stored(m, id, v).dom() == m.dom(),
{
    assert(stored(m, id, v).dom() =~= m.dom());
}

/// A lookup after a write to a known node gives what was written: the last
/// writer wins.
pub proof fn law_last_write_wins(m: CacheModel, id: Id, v: Option<Reading>, w: Option<Reading>)
    requires
        m.dom().contains(id),
    ensures
        lookup(stored(m, id, v), id) == Ok::<Option<Reading>, CacheLookupError>(v),
        stored(stored(m, id, v), id, w) == stored(m, id, w),
{
    assert(stored(stored(m, id, v), id, w) =~= stored(m, id, w));
}

/// After a write every entry is either as it was before, whole, or the
/// written value, whole: no entry is ever made up of parts of both.
pub proof fn law_write_is_whole(m: CacheModel, id: Id, v: Option<Reading>, other: Id)
    requires
        m.dom().contains(other),
    ensures
        stored(m, id, v)[other] == m[other] || (other == id && stored(m, id, v)[other] == v),
{
}

/// Writes to different nodes do not touch each other: a write to one leaves
/// the other's entry as it was, whole, and two such writes give the same
/// cache in either order.
pub proof fn law_writes_isolated(
    m: CacheModel,
    a: Id,
    v: Option<Reading>,
    b: Id,
    w: Option<Reading>,
)
    requires
        a != b,
    ensures
        lookup(stored(m, a, v), b) == lookup(m, b),
        stored(stored(m, a, v), b, w) == stored(stored(m, b, w), a, v),
{
    assert(stored(stored(m, a, v), b, w) =~= stored(stored(m, b, w), a, v));
}

} // verus!
