//! The read interface: what is shown of one node, or of all, from the cache
//! and the registry alone. No node is contacted to answer a read.

use crate::cache::{lookup, Cache, CacheLookupError, CacheModel};
use crate::data::{copy_value, value_view, DataPoint, Reading};
use crate::ident::{canonical, increasing, normalize, Id};
use crate::registry::{NodeRegistry, RegistryModel};
use crate::table::position;
use vstd::prelude::*;

verus! {

/// The status with which a read is answered that has nothing to show.
pub const NO_DATA_STATUS: u16 = 418;

/// The state of a node as it is shown.
#[derive(Clone, Copy, Debug, PartialEq, Eq, Structural)]
pub enum NodeStatus {
    Online,
    Timeout,
    NoGpsFix,
    Offline,
}

impl NodeStatus {
    /// The name under which the status is shown.
    pub fn as_str(&self) -> (r: &'static str)
        ensures
            r@ == match *self {
                NodeStatus::Online => "online"@,
                NodeStatus::Timeout => "timeout"@,
                NodeStatus::NoGpsFix => "nogpsfix"@,
                NodeStatus::Offline => "offline"@,
            },
    {
        match self {
            NodeStatus::Online => "online",
            NodeStatus::Timeout => "timeout",
            NodeStatus::NoGpsFix => "nogpsfix",
            NodeStatus::Offline => "offline",
        }
    }
}

/// What is shown of one node.
#[derive(Debug)]
pub struct NodeEntry {
    pub node_id: String,
    pub status: NodeStatus,
    pub location: String,
    pub last_update: i64,
    pub data: Option<DataPoint>,
}

/// Why a read has nothing to show.
#[derive(Clone, Copy, Debug, PartialEq, Eq, Structural)]
pub enum ApiError {
    /// The node is unknown or has no value yet, or no node is known at all.
    NoData,
}

impl ApiError {
    /// The status with which the error is answered.
    pub fn status_code(&self) -> (r: u16)
        ensures
            r == NO_DATA_STATUS,
    {
        NO_DATA_STATUS
    }
}

/// The status shown for a cached value: online with a measurement, offline
/// without.
pub open spec fn status_of(v: Option<Reading>) -> NodeStatus {
    if v is Some {
        NodeStatus::Online
    } else {
        NodeStatus::Offline
    }
}

/// The time shown for a cached value: that of its measurement, and zero
/// where there is no measurement or it bears no time.
pub open spec fn last_update_of(v: Option<Reading>) -> i64 {
    match v {
        Some(reading) => match reading.timestamp {
            Some(t) => t,
            None => 0,
        },
        None => 0,
    }
}

/// Whether `e` shows the node `id`, standing at `location`, with the cached
/// value `v`.
pub open spec fn shows(e: NodeEntry, id: Id, location: String, v: Option<Reading>) -> bool {
    &&& e.node_id@ == id
    &&& e.location == location
    &&& e.status == status_of(v)
    &&& e.last_update == last_update_of(v)
    &&& value_view(e.data) == v
}

/// Whether every node of the cache is a node of the registry.
pub open spec fn covered(c: CacheModel, r: RegistryModel) -> bool {
    forall|id: Id| c.dom().contains(id) ==> r.dom().contains(id)
}

/// What is shown of a node with the given cached value.
pub fn entry_for(node_id: String, location: String, value: Option<DataPoint>) -> (e: NodeEntry)
    ensures
        shows(e, node_id@, location, value_view(value)),
{
    match value {
        Some(point) => {
            let last_update = match point.timestamp {
                Some(t) => t,
                None => 0,
            };
            NodeEntry {
                node_id,
                status: NodeStatus::Online,
                location,
                last_update,
                data: Some(point),
            }
        },
        None => NodeEntry {
            node_id,
            status: NodeStatus::Offline,
            location,
            last_update: 0,
            data: None,
        },
    }
}

/// Whether every node of the cache is a node of the registry, as the reads
/// below expect.
pub fn consistent(cache: &Cache, registry: &NodeRegistry) -> (r: bool)
    requires
        cache.wf(),
        registry.wf(),
    ensures
        r == covered(cache@, registry@),
{
    let n = cache.len();
    let mut i: usize = 0;
    proof {
        cache.lemma_ids();
    }
    while i < n
        invariant
            0 <= i <= n,
            n == cache.ids().len(),
            cache.wf(),
            registry.wf(),
            forall|id: Id| cache.ids().contains(id) <==> cache@.dom().contains(id),
            forall|k: int| 0 <= k < i ==> registry@.dom().contains(#[trigger] cache.ids()[k]),
        decreases n - i,
    {
        let id = cache.id_at(i);
        if registry.get(id.as_str()).is_none() {
            assert(cache.ids().contains(cache.ids()[i as int]));
            return false;
        }
        i += 1;
    }
    proof {
        assert forall|id: Id| cache@.dom().contains(id) implies registry@.dom().contains(id) by {
            assert(cache.ids().contains(id));
            let k = position(cache.ids(), id);
            assert(registry@.dom().contains(cache.ids()[k]));
        }
    }
    true
}

/// Every node, in increasing order of identifier: online with its
/// measurement and the measurement's time, or offline. Where no node is
/// known there is nothing to show.
pub fn get_all(cache: &Cache, registry: &NodeRegistry) -> (r: Result<Vec<NodeEntry>, ApiError>)
    requires
        cache.wf(),
        registry.wf(),
        covered(cache@, registry@),
    ensures
        increasing(cache.ids()),
        forall|id: Id| cache.ids().contains(id) <==> cache@.dom().contains(id),
        match r {
            Ok(entries) => {
                &&& cache.ids().len() > 0
                &&& entries@.len() == cache.ids().len()
                &&& forall|i: int|
                    0 <= i < entries@.len() ==> shows(
                        #[trigger] entries@[i],
                        cache.ids()[i],
                        registry@[cache.ids()[i]].location,
                        cache@[cache.ids()[i]],
                    )
            },
            Err(e) => cache.ids().len() == 0 && e == ApiError::NoData,
        },
{
    let n = cache.len();
    let mut entries: Vec<NodeEntry> = Vec::new();
    let mut i: usize = 0;
    proof {
        cache.lemma_ids();
    }
    while i < n
        invariant
            0 <= i <= n,
            n == cache.ids().len(),
            cache.wf(),
            registry.wf(),
            covered(cache@, registry@),
            forall|id: Id| cache.ids().contains(id) <==> cache@.dom().contains(id),
            entries@.len() == i,
            forall|k: int|
                0 <= k < i ==> shows(
                    #[trigger] entries@[k],
                    cache.ids()[k],
                    registry@[cache.ids()[k]].location,
                    cache@[cache.ids()[k]],
                ),
        decreases n - i,
    {
        let id = cache.id_at(i);
        assert(cache.ids().contains(cache.ids()[i as int]));
        match registry.get(id.as_str()) {
            Some(info) => {
                entries.push(
                    entry_for(id.clone(), info.location.clone(), copy_value(cache.value_at(i))),
                );
            },
            None => {
                assert(false);
            },
        }
        i += 1;
    }
    if entries.len() > 0 {
        Ok(entries)
    } else {
        Err(ApiError::NoData)
    }
}

/// One node, looked up by its identifier in whatever case it is written.
/// There is nothing to show of a node that is unknown or has no value.
pub fn get_one(cache: &Cache, registry: &NodeRegistry, node_id: &str) -> (r: Result<
    NodeEntry,
    ApiError,
>)
    requires
        cache.wf(),
        registry.wf(),
        lookup(cache@, canonical(node_id@)) matches Ok(Some(_)) ==> registry@.dom().contains(
            canonical(node_id@),
        ),
    ensures
        match r {
            Ok(e) => {
                &&& lookup(cache@, canonical(node_id@)) matches Ok(Some(_))
                &&& shows(
                    e,
                    canonical(node_id@),
                    registry@[canonical(node_id@)].location,
                    cache@[canonical(node_id@)],
                )
            },
            Err(e) => {
                &&& e == ApiError::NoData
                &&& !(lookup(cache@, canonical(node_id@)) matches Ok(Some(_)))
            },
        },
{
    let id = normalize(node_id);
    match cache.get(id.as_str()) {
        Ok(found) => {
            match found.value {
                Some(point) => {
                    match registry.get(id.as_str()) {
                        Some(info) => Ok(entry_for(id, info.location.clone(), Some(point))),
                        None => {
                            assert(false);
                            Err(ApiError::NoData)
                        },
                    }
                },
                None => Err(ApiError::NoData),
            }
        },
        Err(_) => Err(ApiError::NoData),
    }
}

} // verus!
