//! The collection scheduler's decisions: which nodes are polled at a tick,
//! and what a finished poll does to the cache and to the node's gate. The
//! timer, the requests and the tasks that carry them are run elsewhere.

use crate::cache::{lookup, stored, Cache, CacheLookupError, CacheModel};
use crate::data::{DataPoint, Reading};
use crate::gate::{
    admission, after_release, all_free, Admission, AdmissionGates, GateError, GateModel,
};
use crate::ident::{
    id_before, id_list, increasing, lemma_increasing_distinct, lemma_insert_members, Id,
};
use crate::poll::{poll_verdict, PollError, SendOutcome, STATUS_OK};
use crate::registry::{NodeRegistry, RegistryModel};
use crate::table::position;
use vstd::prelude::*;

verus! {

/// The times that govern collection and shutdown, in milliseconds.
#[derive(Clone, Copy, Debug, PartialEq, Eq, Structural)]
pub struct Settings {
    /// The time from one tick to the next.
    pub tick_interval_ms: u64,
    /// The time that one poll may take.
    pub poll_timeout_ms: u64,
    /// The time that collection is given to wind down at shutdown.
    pub shutdown_deadline_ms: u64,
}

impl Default for Settings {
    fn default() -> (r: Settings)
        ensures
            r.tick_interval_ms == 1000,
            r.poll_timeout_ms == 10000,
            r.shutdown_deadline_ms == 5000,
    {
        Settings { tick_interval_ms: 1000, poll_timeout_ms: 10000, shutdown_deadline_ms: 5000 }
    }
}

/// One poll to be started.
#[derive(Debug)]
pub struct PollRequest {
    pub node_id: String,
    pub endpoint: String,
    pub timeout_ms: u64,
}

/// What the scheduler asks for at a tick.
#[derive(Debug)]
pub enum TickAction {
    /// Collection has been cancelled: no poll is started, and no further
    /// tick is needed.
    Stop,
    /// These polls are to be started, each on its own.
    Launch(Vec<PollRequest>),
}

/// Whether a poll of the node `id` would be admitted.
pub open spec fn is_free(g: GateModel, id: Id) -> bool {
    admission(g, id) == Ok::<Admission, GateError>(Admission::Admitted)
}

/// The identifiers of `ids` whose gates are free, in the order of `ids`.
pub open spec fn admitted_ids(ids: Seq<Id>, g: GateModel) -> Seq<Id>
    decreases ids.len(),
{
    if ids.len() == 0 {
        Seq::empty()
    } else if is_free(g, ids.last()) {
        admitted_ids(ids.drop_last(), g).push(ids.last())
    } else {
        admitted_ids(ids.drop_last(), g)
    }
}

/// The gates with those of `ids` held, and every other gate as in `g`.
pub open spec fn holding(g: GateModel, ids: Seq<Id>) -> GateModel {
    Map::new(|id: Id| g.dom().contains(id), |id: Id| g[id] || ids.contains(id))
}

/// The nodes for which a tick starts a poll: none once collection is
/// cancelled, and before that those of `ids` whose gates are free.
pub open spec fn started_at_tick(cancelled: bool, ids: Seq<Id>, g: GateModel) -> Seq<Id> {
    if cancelled {
        Seq::empty()
    } else {
        admitted_ids(ids, g)
    }
}

/// The gates after a tick: unchanged once collection is cancelled, and
/// before that with the gates of `ids` held.
pub open spec fn gates_after_tick(cancelled: bool, ids: Seq<Id>, g: GateModel) -> GateModel {
    if cancelled {
        g
    } else {
        holding(g, ids)
    }
}

/// Whether `r` is the request to poll the node `id` of the registry `m`
/// within `timeout_ms`.
pub open spec fn request_for(r: PollRequest, id: Id, m: RegistryModel, timeout_ms: u64) -> bool {
    &&& r.node_id@ == id
    &&& r.endpoint == m[id].data_endpoint
    &&& r.timeout_ms == timeout_ms
}

/// What a finished poll leaves in the cache: its measurement, or nothing
/// where it failed.
pub open spec fn cache_value(outcome: Result<DataPoint, PollError>) -> Option<Reading> {
    match outcome {
        Ok(point) => Some(point@),
        Err(_) => None,
    }
}

/// The scheduler's state: the gates, the time allowed for a poll, and
/// whether collection has been cancelled.
#[derive(Debug)]
pub struct Scheduler {
    gates: AdmissionGates,
    poll_timeout_ms: u64,
    cancelled: bool,
}

impl Scheduler {
    /// For each node, whether a poll of it is in flight.
    pub closed spec fn gates(&self) -> GateModel {
        self.gates@
    }

    /// Whether collection has been cancelled.
    pub closed spec fn cancelled(&self) -> bool {
        self.cancelled
    }

    /// The time allowed for a poll, in milliseconds.
    pub closed spec fn poll_timeout_ms(&self) -> u64 {
        self.poll_timeout_ms
    }

    /// The gates are well formed.
    pub closed spec fn wf(&self) -> bool {
        self.gates.wf()
    }

    /// A scheduler for the nodes `node_ids`: no poll in flight, collection
    /// not cancelled.
    pub fn new(node_ids: &Vec<String>, settings: &Settings) -> (s: Scheduler)
        ensures
            s.wf(),
            s.gates() == all_free(id_list(node_ids@)),
            !s.cancelled(),
            s.poll_timeout_ms() == settings.poll_timeout_ms,
    {
        Scheduler {
            gates: AdmissionGates::new(node_ids),
            poll_timeout_ms: settings.poll_timeout_ms,
            cancelled: false,
        }
    }

    /// Cancels collection. Polls in flight are left to finish.
    pub fn cancel(&mut self)
        requires
            old(self).wf(),
        ensures
            final(self).wf(),
            final(self).cancelled(),
            final(self).gates() == old(self).gates(),
            final(self).poll_timeout_ms() == old(self).poll_timeout_ms(),
    {
        self.cancelled = true;
    }

    /// Whether collection has been cancelled.
    pub fn is_cancelled(&self) -> (r: bool)
        ensures
            r == self.cancelled(),
    {
        self.cancelled
    }

    /// Whether a poll of `node_id` is in flight; `None` for an identifier
    /// that is not a node's.
    pub fn in_flight(&self, node_id: &str) -> (r: Option<bool>)
        requires
            self.wf(),
        ensures
            r == (if self.gates().dom().contains(node_id@) {
                Some(self.gates()[node_id@])
            } else {
                None
            }),
    {
        self.gates.is_held(node_id)
    }

    /// One tick. After cancellation nothing is started. Otherwise every node
    /// of the registry is offered its gate once: a node whose gate is free
    /// is admitted and gets a request, in the registry's order, and a node
    /// with a poll still in flight is passed over.
    pub fn tick(&mut self, registry: &NodeRegistry) -> (r: TickAction)
        requires
            old(self).wf(),
            registry.wf(),
        ensures
            final(self).wf(),
            final(self).cancelled() == old(self).cancelled(),
            final(self).poll_timeout_ms() == old(self).poll_timeout_ms(),
            r is Stop <==> old(self).cancelled(),
            final(self).gates() == gates_after_tick(
                old(self).cancelled(),
                registry.ids(),
                old(self).gates(),
            ),
            r matches TickAction::Launch(requests) ==> {
                let started = started_at_tick(
                    old(self).cancelled(),
                    registry.ids(),
                    old(self).gates(),
                );
                &&& requests@.len() == started.len()
                &&& forall|k: int|
                    0 <= k < requests@.len() ==> request_for(
                        #[trigger] requests@[k],
                        started[k],
                        registry@,
                        old(self).poll_timeout_ms(),
                    )
            },
    {
        if self.cancelled {
            return TickAction::Stop;
        }
        let ghost g0 = self.gates@;
        let ghost ids = registry.ids();
        let mut requests: Vec<PollRequest> = Vec::new();
        let n = registry.len();
        let mut i: usize = 0;
        proof {
            registry.lemma_ids();
            assert(self.gates@ =~= holding(g0, ids.take(0)));
        }
        while i < n
            invariant
                0 <= i <= n,
                n == ids.len(),
                ids == registry.ids(),
                increasing(ids),
                registry.wf(),
                self.gates.wf(),
                !self.cancelled,
                self.poll_timeout_ms == old(self).poll_timeout_ms,
                self.gates@ == holding(g0, ids.take(i as int)),
                requests@.len() == admitted_ids(ids.take(i as int), g0).len(),
                forall|k: int|
                    0 <= k < requests@.len() ==> request_for(
                        #[trigger] requests@[k],
                        admitted_ids(ids.take(i as int), g0)[k],
                        registry@,
                        self.poll_timeout_ms,
                    ),
            decreases n - i,
        {
            let id = registry.id_at(i);
            let ghost before = self.gates@;
            proof {
                assert(ids.take(i + 1).drop_last() =~= ids.take(i as int));
                assert(ids.take(i + 1).last() == id@);
                if ids.take(i as int).contains(id@) {
                    let k = ids.take(i as int).index_of(id@);
                    lemma_increasing_distinct(ids, k, i as int);
                }
                assert(admission(before, id@) == admission(g0, id@));
            }
            let answer = self.gates.try_acquire(id.as_str());
            proof {
                assert(ids.take(i + 1) =~= ids.take(i as int).insert(i as int, id@));
                lemma_insert_members(ids.take(i as int), i as int, id@);
                assert(self.gates@ =~= holding(g0, ids.take(i + 1)));
            }
            match answer {
                Ok(Admission::Admitted) => {
                    let info = registry.info_at(i);
                    requests.push(
                        PollRequest {
                            node_id: id.clone(),
                            endpoint: info.data_endpoint.clone(),
                            timeout_ms: self.poll_timeout_ms,
                        },
                    );
                },
                _ => {},
            }
            i += 1;
        }
        assert(ids.take(i as int) =~= ids);
        TickAction::Launch(requests)
    }

    /// Takes in a finished poll of `node_id`: its measurement, or nothing
    /// where it failed, replaces the node's cached value, and the node's
    /// gate is freed whatever the outcome. The answer tells whether the
    /// cache knows the node.
    pub fn finish(
        &mut self,
        cache: &mut Cache,
        node_id: &str,
        outcome: Result<DataPoint, PollError>,
    ) -> (r: Result<(), CacheLookupError>)
        requires
            old(self).wf(),
            old(cache).wf(),
        ensures
            final(self).wf(),
            final(cache).wf(),
            final(cache).ids() == old(cache).ids(),
            final(cache)@ == stored(old(cache)@, node_id@, cache_value(outcome)),
            final(self).gates() == after_release(old(self).gates(), node_id@),
            final(self).cancelled() == old(self).cancelled(),
            final(self).poll_timeout_ms() == old(self).poll_timeout_ms(),
            r is Ok <==> old(cache)@.dom().contains(node_id@),
    {
        let value = match outcome {
            Ok(point) => Some(point),
            Err(_) => None,
        };
        let written = cache.set(node_id, value);
        let _ = self.gates.release(node_id);
        written
    }
}

/// At a tick a node is polled exactly if it is a node of the registry and
/// its own gate is free. A node that never answers therefore keeps its own
/// gate and no other: whatever its state, every other node with a free gate
/// is polled.
pub proof fn law_tick_admits_each_free_node(ids: Seq<Id>, g: GateModel, id: Id)
    ensures
        admitted_ids(ids, g).contains(id) <==> ids.contains(id) && is_free(g, id),
    decreases ids.len(),
{
    if ids.len() > 0 {
        let rest = ids.drop_last();
        law_tick_admits_each_free_node(rest, g, id);
        let sub = admitted_ids(rest, g);
        if ids.contains(id) {
            let k = choose|k: int| 0 <= k < ids.len() && ids[k] == id;
            if k < ids.len() - 1 {
                assert(rest[k] == id);
            }
        }
        if rest.contains(id) {
            let k = choose|k: int| 0 <= k < rest.len() && rest[k] == id;
            assert(ids[k] == id);
        }
        assert(ids[ids.len() - 1] == ids.last());
        if is_free(g, ids.last()) {
            let all = sub.push(ids.last());
            if all.contains(id) {
                let k = choose|k: int| 0 <= k < all.len() && all[k] == id;
                if k < sub.len() {
                    assert(sub[k] == id);
                }
            }
            if sub.contains(id) {
                let k = choose|k: int| 0 <= k < sub.len() && sub[k] == id;
                assert(all[k] == id);
            }
            assert(all[sub.len() as int] == ids.last());
        }
    }
}

/// The nodes polled at a tick come in the registry's order, and so none of
/// them twice: a tick makes a single attempt for each node.
pub proof fn law_tick_polls_each_node_once(ids: Seq<Id>, g: GateModel)
    requires
        increasing(ids),
    ensures
        increasing(admitted_ids(ids, g)),
    decreases ids.len(),
{
    if ids.len() > 0 {
        let rest = ids.drop_last();
        assert(increasing(rest)) by {
            assert forall|i: int, j: int| 0 <= i < j < rest.len() implies id_before(
                #[trigger] rest[i],
                #[trigger] rest[j],
            ) by {
                assert(id_before(ids[i], ids[j]));
            }
        }
        law_tick_polls_each_node_once(rest, g);
        let sub = admitted_ids(rest, g);
        if is_free(g, ids.last()) {
            let all = sub.push(ids.last());
            assert forall|i: int, j: int| 0 <= i < j < all.len() implies id_before(
                #[trigger] all[i],
                #[trigger] all[j],
            ) by {
                if j < sub.len() {
                    assert(id_before(sub[i], sub[j]));
                } else {
                    law_tick_admits_each_free_node(rest, g, sub[i]);
                    assert(sub.contains(sub[i]));
                    let k = position(rest, sub[i]);
                    assert(id_before(ids[k], ids[ids.len() - 1]));
                }
            }
        }
    }
}

/// A tick leaves every node of the registry with its gate held, so that the
/// next tick starts no second poll of a node whose poll has not finished.
pub proof fn law_tick_holds_every_node(ids: Seq<Id>, g: GateModel, id: Id)
    requires
        ids.contains(id),
    ensures
        !admitted_ids(ids, holding(g, ids)).contains(id),
{
    law_tick_admits_each_free_node(ids, holding(g, ids), id);
}

/// Once collection is cancelled a tick starts no poll and leaves every gate
/// as it is, so that polls in flight can still finish and free theirs.
pub proof fn law_cancelled_starts_nothing(ids: Seq<Id>, g: GateModel)
    ensures
        started_at_tick(true, ids, g).len() == 0,
        gates_after_tick(true, ids, g) == g,
{
}

/// A poll that failed leaves the node with no value in the cache, and a
/// lookup of the node still succeeds: whether no answer came in time, the
/// node could not be reached, it answered with another status than
/// `STATUS_OK`, or its body did not decode.
pub proof fn law_failed_poll_leaves_no_value(
    m: CacheModel,
    id: Id,
    sent: SendOutcome,
    decoded: Option<DataPoint>,
)
    requires
        m.dom().contains(id),
        sent != SendOutcome::Answered(STATUS_OK) || decoded is None,
    ensures
        poll_verdict(sent, decoded) is Err,
        lookup(stored(m, id, cache_value(poll_verdict(sent, decoded))), id) == Ok::<
            Option<Reading>,
            CacheLookupError,
        >(None),
{
}

/// Whatever the error of a poll, the node is left with no value.
pub proof fn law_error_leaves_no_value(m: CacheModel, id: Id, e: PollError)
    requires
        m.dom().contains(id),
    ensures
        lookup(stored(m, id, cache_value(Err(e))), id) == Ok::<
            Option<Reading>,
            CacheLookupError,
        >(None),
{
}

/// A poll that gave a measurement leaves that measurement in the cache.
pub proof fn law_good_poll_leaves_its_value(m: CacheModel, id: Id, point: DataPoint)
    requires
        m.dom().contains(id),
    ensures
        lookup(stored(m, id, cache_value(Ok(point))), id) == Ok::<
            Option<Reading>,
            CacheLookupError,
        >(Some(point@)),
{
}

} // verus!
