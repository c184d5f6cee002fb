//! The per-function dependency table: a map from variable slot to its current
//! node. Slots are small indices into the function's locals, so the table is a
//! dense vector; its view is the map of defined slots to denoted trees.

use vstd::prelude::*;
use crate::node::{clone_node, Node, TreeN};

verus! {

pub struct DataDepent {
    pub data: Vec<Option<Node>>,
}

impl View for DataDepent {
    type V = Map<int, TreeN>;

    open spec fn view(&self) -> Map<int, TreeN> {
        Map::new(
            |s: int| 0 <= s < self.data@.len() && self.data@[s] is Some,
            |s: int| self.data@[s].unwrap().tree(),
        )
    }
}

impl DataDepent {
    /// A table with no slot defined yet.
    pub fn new_table() -> (r: DataDepent)
        ensures
            r@ == Map::<int, TreeN>::empty(),
    {
        let r = DataDepent { data: Vec::new() };
        proof {
            assert(r@ =~= Map::<int, TreeN>::empty());
        }
        r
    }

    /// Inserts the node at slot `dst`, overwriting any earlier entry.
    pub fn insert_or_modify(&mut self, dst: usize, node: Node)
        ensures
            final(self)@ == old(self)@.insert(dst as int, node.tree()),
    {
        let ghost nt = node.tree();
        while self.data.len() <= dst
            invariant
                self@ == old(self)@,
            decreases dst + 1 - self.data.len(),
        {
            let ghost before = self@;
            self.data.push(None);
            proof {
                assert(self@ =~= before);
            }
        }
        self.data[dst] = Some(node);
        proof {
            assert(self@ =~= old(self)@.insert(dst as int, nt));
        }
    }

    /// The current node of slot `src`; reading a slot that was never defined is
    /// a contract violation on the caller's side. The returned copy denotes the
    /// same tree the table holds.
    pub fn get(&self, src: usize) -> (r: Node)
        requires
            self@.contains_key(src as int),
        ensures
            r.tree() == self@[src as int],
    {
        clone_node(self.data[src].as_ref().unwrap())
    }

    /// Whether slot `src` currently has a node.
    pub fn contains(&self, src: usize) -> (r: bool)
        ensures
            r == self@.contains_key(src as int),
    {
        src < self.data.len() && self.data[src].is_some()
    }
}

} // verus!
