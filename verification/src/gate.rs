//! Per-node admission gates. Each configured node has one gate with room
//! for a single holder, so that no poll of a node is started while an
//! earlier poll of the same node is still outstanding.

use crate::ident::{id_list, Id, IdIndex};
use crate::table::{lemma_table_entry, lemma_table_update, position, table_map};
use vstd::prelude::*;

verus! {

/// The gates as contracts see them: for each node, whether its gate is held.
pub type GateModel = Map<Id, bool>;

/// The answer to one attempt to pass a gate.
#[derive(Clone, Copy, Debug, PartialEq, Eq, Structural)]
pub enum Admission {
    /// The node's gate was free and is now held by the caller.
    Admitted,
    /// An earlier poll of the node holds its gate and has not finished.
    Busy,
}

/// Why a gate could not be used.
#[derive(Clone, Copy, Debug, PartialEq, Eq, Structural)]
pub enum GateError {
    /// No gate exists for the identifier: it is not a configured node.
    UnknownNode,
}

/// One step in the life of the gates.
pub enum GateOp {
    Acquire(Id),
    Release(Id),
}

/// The gates right after start: one for each identifier of `ids`, all free.
pub open spec fn all_free(ids: Seq<Id>) -> GateModel {
    Map::new(|id: Id| ids.contains(id), |id: Id| false)
}

/// The answer to an attempt to pass the node `id`.
pub open spec fn admission(m: GateModel, id: Id) -> Result<Admission, GateError> {
    if !m.dom().contains(id) {
        Err(GateError::UnknownNode)
    } else if m[id] {
        Ok(Admission::Busy)
    } else {
        Ok(Admission::Admitted)
    }
}

/// The gates after an attempt to pass the node `id`: its gate is held, by
/// the caller or as before.
pub open spec fn after_acquire(m: GateModel, id: Id) -> GateModel {
    if m.dom().contains(id) {
        m.insert(id, true)
    } else {
        m
    }
}

/// The gates after the node `id` was released: its gate is free.
pub open spec fn after_release(m: GateModel, id: Id) -> GateModel {
    if m.dom().contains(id) {
        m.insert(id, false)
    } else {
        m
    }
}

/// The gates after one step.
pub open spec fn after_op(m: GateModel, op: GateOp) -> GateModel {
    match op {
        GateOp::Acquire(id) => after_acquire(m, id),
        GateOp::Release(id) => after_release(m, id),
    }
}

/// The gates after a run of steps, taken in order.
pub open spec fn after_ops(m: GateModel, ops: Seq<GateOp>) -> GateModel
    decreases ops.len(),
{
    if ops.len() == 0 {
        m
    } else {
        after_op(after_ops(m, ops.drop_last()), ops.last())
    }
}

/// The table of gates.
#[derive(Debug)]
pub struct AdmissionGates {
    index: IdIndex,
    held: Vec<bool>,
}

impl AdmissionGates {
    /// For each node, whether its gate is held.
    pub closed spec fn view(&self) -> GateModel {
        table_map(self.index@, self.held@)
    }

    /// The identifiers are in order and each has its gate.
    pub closed spec fn wf(&self) -> bool {
        &&& self.index.wf()
        &&& self.index@.len() == self.held.len()
    }

    /// One free gate for each identifier of `node_ids`.
    pub fn new(node_ids: &Vec<String>) -> (g: AdmissionGates)
        ensures
            g.wf(),
            g@ == all_free(id_list(node_ids@)),
    {
        let index = IdIndex::from_list(node_ids);
        let mut held: Vec<bool> = Vec::new();
        let mut i: usize = 0;
        while i < index.len()
            invariant
                0 <= i <= index@.len(),
                held.len() == i,
                forall|k: int| 0 <= k < held.len() ==> !held[k],
            decreases index@.len() - i,
        {
            held.push(false);
            i += 1;
        }
        let g = AdmissionGates { index, held };
        proof {
            assert forall|id: Id| g@.dom().contains(id) implies !(#[trigger] g@[id]) by {
                let k = position(g.index@, id);
                assert(!g.held[k]);
            }
            assert(g@ =~= all_free(id_list(node_ids@)));
        }
        g
    }

    /// Tries once to pass the node `node_id`, without waiting. A free
    /// gate admits the caller and is held from then on; a held gate answers
    /// `Busy` and stays held.
    pub fn try_acquire(&mut self, node_id: &str) -> (r: Result<Admission, GateError>)
        requires
            old(self).wf(),
        ensures
            final(self).wf(),
            r == admission(old(self)@, node_id@),
            final(self)@ == after_acquire(old(self)@, node_id@),
    {
        match self.index.locate(node_id) {
            Ok(i) => {
                proof {
                    lemma_table_entry(self.index@, self.held@, i as int);
                    lemma_table_update(self.index@, self.held@, i as int, true);
                }
                if self.held[i] {
                    assert(self.held@ =~= self.held@.update(i as int, true));
                    Ok(Admission::Busy)
                } else {
                    self.held.set(i, true);
                    Ok(Admission::Admitted)
                }
            },
            Err(_) => Err(GateError::UnknownNode),
        }
    }

    /// Frees the node `node_id`, whether or not its gate was held.
    pub fn release(&mut self, node_id: &str) -> (r: Result<(), GateError>)
        requires
            old(self).wf(),
        ensures
            final(self).wf(),
            r is Ok <==> old(self)@.dom().contains(node_id@),
            final(self)@ == after_release(old(self)@, node_id@),
    {
        match self.index.locate(node_id) {
            Ok(i) => {
                proof {
                    lemma_table_entry(self.index@, self.held@, i as int);
                    lemma_table_update(self.index@, self.held@, i as int, false);
                }
                self.held.set(i, false);
                Ok(())
            },
            Err(_) => Err(GateError::UnknownNode),
        }
    }

    /// Whether the node `node_id` has its gate held; `None` where the node
    /// has none.
    pub fn is_held(&self, node_id: &str) -> (r: Option<bool>)
        requires
            self.wf(),
        ensures
            r == (if self@.dom().contains(node_id@) {
                Some(self@[node_id@])
            } else {
                None
            }),
    {
        match self.index.locate(node_id) {
            Ok(i) => {
                proof {
                    lemma_table_entry(self.index@, self.held@, i as int);
                }
                Some(self.held[i])
            },
            Err(_) => None,
        }
    }
}

/// No step adds or removes a gate.
pub proof fn law_gates_fixed(m: GateModel, ops: Seq<GateOp>)
    ensures
        after_ops(m, ops).dom() == m.dom(),
    decreases ops.len(),
{
    if ops.len() > 0 {
        law_gates_fixed(m, ops.drop_last());
        let prev = after_ops(m, ops.drop_last());
        assert(after_op(prev, ops.last()).dom() =~= prev.dom());
    }
}

/// At most one poll of a node is in flight: once a caller was admitted for
/// a node, every further attempt for that node answers `Busy`, whatever
/// happens to this and the other nodes in between, for as long as the node
/// is not released.
pub proof fn law_at_most_one_in_flight(m: GateModel, id: Id, ops: Seq<GateOp>)
    requires
        m.dom().contains(id),
        forall|k: int| 0 <= k < ops.len() ==> ops[k] != GateOp::Release(id),
    ensures
        admission(after_ops(after_acquire(m, id), ops), id) == Ok::<Admission, GateError>(
            Admission::Busy,
        ),
    decreases ops.len(),
{
    if ops.len() > 0 {
        let rest = ops.drop_last();
        assert forall|k: int| 0 <= k < rest.len() implies rest[k] != GateOp::Release(id) by {
            assert(rest[k] == ops[k]);
        }
        law_at_most_one_in_flight(m, id, rest);
        assert(ops.last() == ops[ops.len() - 1]);
    }
}

/// After the holder released a node, the next attempt for it is admitted.
pub proof fn law_admitted_after_release(m: GateModel, id: Id)
    requires
        m.dom().contains(id),
    ensures
        admission(after_release(m, id), id) == Ok::<Admission, GateError>(Admission::Admitted),
{
}

/// What happens to one node's gate changes nothing for another node.
pub proof fn law_gates_independent(m: GateModel, op: GateOp, other: Id)
    requires
        op != GateOp::Acquire(other),
        op != GateOp::Release(other),
    ensures
        admission(after_op(m, op), other) == admission(m, other),
{
}

} // verus!
