//! The configuration as it is handed to the library: a list of nodes.

use vstd::prelude::*;

verus! {

/// The whole configuration.
#[derive(Debug)]
pub struct ConfigFile {
    pub nodes: Vec<NodeConfigEntry>,
}

/// One configured node.
#[derive(Debug)]
pub struct NodeConfigEntry {
    pub node_id: String,
    pub data_endpoint: String,
    pub location: String,
}

impl Clone for NodeConfigEntry {
    fn clone(&self) -> (r: NodeConfigEntry)
        ensures
            r == *self,
    {
        NodeConfigEntry {
            node_id: self.node_id.clone(),
            data_endpoint: self.data_endpoint.clone(),
            location: self.location.clone(),
        }
    }
}

impl Clone for ConfigFile {
    fn clone(&self) -> (r: ConfigFile)
        ensures
            r.nodes@ == self.nodes@,
    {
        let mut nodes: Vec<NodeConfigEntry> = Vec::new();
        let mut i: usize = 0;
        while i < self.nodes.len()
            invariant
                0 <= i <= self.nodes.len(),
                nodes@ == self.nodes@.take(i as int),
            decreases self.nodes.len() - i,
        {
            nodes.push(self.nodes[i].clone());
            assert(self.nodes@.take(i + 1) =~= self.nodes@.take(i as int).push(self.nodes@[i as int]));
            i += 1;
        }
        assert(self.nodes@.take(i as int) =~= self.nodes@);
        ConfigFile { nodes }
    }
}

} // verus!
