//! The node registry: which nodes exist, where each is polled and where it
//! stands. It is built once from the configuration and never changes.

use crate::config::{ConfigFile, NodeConfigEntry};
use crate::ident::{canonical, id_list, increasing, normalize, Id, IdIndex};
use crate::table::{lemma_table_entry, lemma_table_insert, lemma_table_update, table_map};
use vstd::prelude::*;

verus! {

/// What the registry keeps of a node beside its identifier.
#[derive(Debug)]
pub struct NodeInfo {
    /// The address from which the node's latest measurement is fetched.
    pub data_endpoint: String,
    /// Where the node stands.
    pub location: String,
}

impl Clone for NodeInfo {
    fn clone(&self) -> (r: NodeInfo)
        ensures
            r == *self,
    {
        NodeInfo { data_endpoint: self.data_endpoint.clone(), location: self.location.clone() }
    }
}

/// Why no registry could be built.
#[derive(Clone, Copy, Debug, PartialEq, Eq, Structural)]
pub enum ConfigError {
    /// The configuration names no node.
    NoNodes,
}

/// The registry as contracts see it: each identifier, in canonical form,
/// with what is kept of its node.
pub type RegistryModel = Map<Id, NodeInfo>;

/// What the registry keeps of a configured node.
pub open spec fn info_of(e: NodeConfigEntry) -> NodeInfo {
    NodeInfo { data_endpoint: e.data_endpoint, location: e.location }
}

/// The registry that a list of configured nodes gives. Identifiers are
/// filed in canonical form; where two entries have the same one, the later
/// entry stands.
pub open spec fn registry_of(entries: Seq<NodeConfigEntry>) -> RegistryModel
    decreases entries.len(),
{
    if entries.len() == 0 {
        Map::empty()
    } else {
        registry_of(entries.drop_last()).insert(
            canonical(entries.last().node_id@),
            info_of(entries.last()),
        )
    }
}

/// What a lookup of `id` gives: the node filed under its canonical form.
pub open spec fn resolve(m: RegistryModel, id: Id) -> Option<(Id, NodeInfo)> {
    if m.dom().contains(canonical(id)) {
        Some((canonical(id), m[canonical(id)]))
    } else {
        None
    }
}

/// The registry.
#[derive(Debug)]
pub struct NodeRegistry {
    index: IdIndex,
    infos: Vec<NodeInfo>,
}

impl NodeRegistry {
    /// The identifiers of the nodes, in increasing order.
    pub closed spec fn ids(&self) -> Seq<Id> {
        self.index@
    }

    /// What is kept of each node, in the order of `ids`.
    pub closed spec fn infos(&self) -> Seq<NodeInfo> {
        self.infos@
    }

    /// Each identifier with what is kept of its node.
    pub closed spec fn view(&self) -> RegistryModel {
        table_map(self.index@, self.infos@)
    }

    /// The identifiers are in order and each has its node.
    pub closed spec fn wf(&self) -> bool {
        &&& self.index.wf()
        &&& self.index@.len() == self.infos.len()
    }

    /// `ids` lists the nodes in increasing order, each with what is kept of
    /// it at the same position of `infos`.
    pub proof fn lemma_ids(&self)
        requires
            self.wf(),
        ensures
            increasing(self.ids()),
            self.ids().len() == self.infos().len(),
            forall|id: Id| self.ids().contains(id) <==> self@.dom().contains(id),
            forall|i: int|
                0 <= i < self.ids().len() ==> self@[#[trigger] self.ids()[i]] == self.infos()[i],
    {
        assert forall|i: int| 0 <= i < self.ids().len() implies self@[#[trigger] self.ids()[i]]
            == self.infos()[i] by {
            lemma_table_entry(self.index@, self.infos@, i);
        }
    }

    /// Builds the registry from the configuration. A configuration without
    /// nodes is refused.
    pub fn build(config: &ConfigFile) -> (r: Result<NodeRegistry, ConfigError>)
        ensures
            match r {
                Ok(reg) => {
                    &&& config.nodes@.len() > 0
                    &&& reg.wf()
                    &&& reg@ == registry_of(config.nodes@)
                },
                Err(e) => config.nodes@.len() == 0 && e == ConfigError::NoNodes,
            },
    {
        if config.nodes.len() == 0 {
            return Err(ConfigError::NoNodes);
        }
        let mut reg = NodeRegistry { index: IdIndex::new(), infos: Vec::new() };
        let mut i: usize = 0;
        assert(reg@ =~= registry_of(config.nodes@.take(0)));
        while i < config.nodes.len()
            invariant
                0 <= i <= config.nodes.len(),
                reg.wf(),
                reg@ == registry_of(config.nodes@.take(i as int)),
            decreases config.nodes.len() - i,
        {
            let entry = &config.nodes[i];
            let id = normalize(entry.node_id.as_str());
            let info = NodeInfo {
                data_endpoint: entry.data_endpoint.clone(),
                location: entry.location.clone(),
            };
            proof {
                let upto = config.nodes@.take(i + 1);
                assert(upto.drop_last() =~= config.nodes@.take(i as int));
                assert(upto.last() == *entry);
                assert(info == info_of(*entry));
            }
            let ghost ids = reg.index@;
            let ghost infos = reg.infos@;
            match reg.index.locate(id.as_str()) {
                Ok(at) => {
                    proof {
                        lemma_table_update(ids, infos, at as int, info);
                    }
                    reg.infos.set(at, info);
                },
                Err(at) => {
                    reg.index.insert_at(at, id);
                    reg.infos.insert(at, info);
                    proof {
                        lemma_table_insert(ids, infos, at as int, id@, info);
                    }
                },
            }
            i += 1;
        }
        assert(config.nodes@.take(i as int) =~= config.nodes@);
        Ok(reg)
    }

    /// The number of nodes.
    pub fn len(&self) -> (n: usize)
        requires
            self.wf(),
        ensures
            n == self.ids().len(),
    {
        self.index.len()
    }

    /// The identifiers of the nodes, in increasing order.
    pub fn node_ids(&self) -> (r: Vec<String>)
        requires
            self.wf(),
        ensures
            id_list(r@) == self.ids(),
    {
        self.index.to_vec()
    }

    /// The identifier at position `i` of `ids`.
    pub fn id_at(&self, i: usize) -> (r: &String)
        requires
            self.wf(),
            i < self.ids().len(),
        ensures
            r@ == self.ids()[i as int],
    {
        self.index.id_at(i)
    }

    /// What is kept of the node at position `i` of `ids`.
    pub fn info_at(&self, i: usize) -> (r: &NodeInfo)
        requires
            self.wf(),
            i < self.ids().len(),
        ensures
            *r == self.infos()[i as int],
            *r == self@[self.ids()[i as int]],
    {
        proof {
            lemma_table_entry(self.index@, self.infos@, i as int);
        }
        &self.infos[i]
    }

    /// What is kept of the node filed under exactly `node_id`.
    pub fn get(&self, node_id: &str) -> (r: Option<&NodeInfo>)
        requires
            self.wf(),
        ensures
            match r {
                Some(info) => self@.dom().contains(node_id@) && *info == self@[node_id@],
                None => !self@.dom().contains(node_id@),
            },
    {
        match self.index.locate(node_id) {
            Ok(i) => {
                proof {
                    lemma_table_entry(self.index@, self.infos@, i as int);
                }
                Some(&self.infos[i])
            },
            Err(_) => None,
        }
    }

    /// Looks a node up by its identifier, in whatever case it is written:
    /// the identifier under which the node is filed, and what is kept of it.
    pub fn find(&self, node_id: &str) -> (r: Option<(String, &NodeInfo)>)
        requires
            self.wf(),
        ensures
            match r {
                Some((id, info)) => resolve(self@, node_id@) == Some((id@, *info)),
                None => resolve(self@, node_id@) is None,
            },
    {
        let id = normalize(node_id);
        match self.index.locate(id.as_str()) {
            Ok(i) => {
                proof {
                    lemma_table_entry(self.index@, self.infos@, i as int);
                }
                Some((id, &self.infos[i]))
            },
            Err(_) => None,
        }
    }
}

/// Every configured node is in the registry, under the canonical form of
/// its identifier, and the registry holds nothing else.
pub proof fn law_registry_nodes(entries: Seq<NodeConfigEntry>, id: Id)
    ensures
        registry_of(entries).dom().contains(id) <==> exists|k: int|
            0 <= k < entries.len() && canonical(#[trigger] entries[k].node_id@) == id,
    decreases entries.len(),
{
    if entries.len() > 0 {
        let rest = entries.drop_last();
        law_registry_nodes(rest, id);
        if registry_of(entries).dom().contains(id) {
            if canonical(entries.last().node_id@) == id {
                assert(canonical(entries[entries.len() - 1].node_id@) == id);
            } else {
                let k = choose|k: int|
                    0 <= k < rest.len() && canonical(#[trigger] rest[k].node_id@) == id;
                assert(canonical(entries[k].node_id@) == id);
            }
        }
        if exists|k: int| 0 <= k < entries.len() && canonical(#[trigger] entries[k].node_id@) == id {
            let k = choose|k: int|
                0 <= k < entries.len() && canonical(#[trigger] entries[k].node_id@) == id;
            if k < entries.len() - 1 {
                assert(canonical(rest[k].node_id@) == id);
            }
        }
    }
}

/// A lookup does not depend on the case in which an identifier is written.
pub proof fn law_lookup_ignores_case(m: RegistryModel, a: Id, b: Id)
    requires
        canonical(a) == canonical(b),
    ensures
        resolve(m, a) == resolve(m, b),
{
}

} // verus!
