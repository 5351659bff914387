//! A property graph: nodes and edges with string properties, an adjacency
//! matrix and a node table keyed by id.
use std::collections::BTreeMap;
use vstd::prelude::*;

verus! {

broadcast use vstd::std_specs::btree::group_btree_axioms;

/// Name/value pairs whose names are pairwise distinct.
pub open spec fn unique_names(props: Seq<(String, String)>) -> bool {
    forall|i: int, j: int|
        0 <= i < j < props.len() ==> (#[trigger] props[i]).0@ != (#[trigger] props[j]).0@
}

/// True when some pair of `props` is named `name`.
pub open spec fn has_name(props: Seq<(String, String)>, name: Seq<char>) -> bool {
    exists|i: int| 0 <= i < props.len() && (#[trigger] props[i]).0@ == name
}

#[derive(Debug)]
pub struct Node {
    pub node_id: usize,
    pub node_name: String,
    pub node_property: Vec<(String, String)>,
}

impl Node {
    /// Each property name occurs once.
    pub open spec fn wf(&self) -> bool {
        unique_names(self.node_property@)
    }

    /// A node with no properties.
    pub fn new(node_id: usize, node_name: String) -> (r: Node)
        ensures
            r.wf(),
            r.node_id == node_id,
            r.node_name == node_name,
            r.node_property@.len() == 0,
    {
        Node { node_id, node_name, node_property: Vec::new() }
    }

    /// Sets property `property_name` to `property_value`, replacing the value
    /// it had, if any.
    pub fn add_property(&mut self, property_name: String, property_value: String)
        requires
            old(self).wf(),
        ensures
            final(self).wf(),
            final(self).node_id == old(self).node_id,
            final(self).node_name == old(self).node_name,
            has_name(old(self).node_property@, property_name@) ==> exists|i: int|
                0 <= i < old(self).node_property@.len() && (#[trigger] old(self).node_property@[i]).0@
                    == property_name@ && final(self).node_property@ == old(self).node_property@.update(
                    i,
                    (property_name, property_value),
                ),
            !has_name(old(self).node_property@, property_name@) ==> final(self).node_property@
                == old(self).node_property@.push((property_name, property_value)),
    {
        let mut i: usize = 0;
        while i < self.node_property.len()
            invariant
                i <= self.node_property@.len(),
                *self == *old(self),
                self.wf(),
                forall|j: int|
                    0 <= j < i ==> (#[trigger] self.node_property@[j]).0@ != property_name@,
            decreases self.node_property@.len() - i,
        {
            if self.node_property[i].0 == property_name {
                let ghost before = self.node_property@;
                self.node_property.set(i, (property_name, property_value));
                assert(before[i as int].0@ == property_name@);
                assert(forall|j: int|
                    0 <= j < before.len() ==> (#[trigger] self.node_property@[j]).0@ == before[j].0@);
                return;
            }
            i = i + 1;
        }
        self.node_property.push((property_name, property_value));
    }

    /// The value of property `property_name`, if the node has it.
    pub fn get_property(&self, property_name: &str) -> (r: Option<&str>)
        requires
            self.wf(),
        ensures
            r is Some <==> has_name(self.node_property@, property_name@),
            r is Some ==> exists|i: int|
                0 <= i < self.node_property@.len() && (#[trigger] self.node_property@[i]).0@
                    == property_name@ && r->0@ == self.node_property@[i].1@,
    {
        let key = property_name.to_owned();
        let mut i: usize = 0;
        while i < self.node_property.len()
            invariant
                i <= self.node_property@.len(),
                key@ == property_name@,
                forall|j: int|
                    0 <= j < i ==> (#[trigger] self.node_property@[j]).0@ != property_name@,
            decreases self.node_property@.len() - i,
        {
            if self.node_property[i].0 == key {
                return Some(self.node_property[i].1.as_str());
            }
            i = i + 1;
        }
        None
    }
}

#[derive(Debug, Clone)]
pub struct Edge {
    pub edge_id: usize,
    pub edge_name: String,
    pub from_node_id: usize,
    pub to_node_id: usize,
    pub edge_property: Vec<(String, String)>,
}

impl Edge {
    /// An edge from `from_node_id` to `to_node_id` with no properties.
    pub fn new(edge_id: usize, edge_name: String, from_node_id: usize, to_node_id: usize) -> (r:
        Edge)
        ensures
            r.edge_id == edge_id,
            r.edge_name == edge_name,
            r.from_node_id == from_node_id,
            r.to_node_id == to_node_id,
            r.edge_property@.len() == 0,
    {
        Edge { edge_id, edge_name, from_node_id, to_node_id, edge_property: Vec::new() }
    }
}

#[derive(Debug)]
pub struct Graph<T> {
    pub matrix: Vec<Vec<Option<usize>>>,
    pub node: BTreeMap<usize, Option<T>>,
}

impl<T> Graph<T> {
    /// A graph with no nodes and an empty adjacency matrix.
    pub fn new() -> (r: Graph<T>)
        ensures
            r.matrix@.len() == 0,
            r.node@ == Map::<usize, Option<T>>::empty(),
    {
        Graph { matrix: Vec::new(), node: BTreeMap::new() }
    }

    /// The number of nodes in the node table.
    pub fn is_empty(&self) -> (r: usize)
        ensures
            r == self.node@.len(),
    {
        self.node.len()
    }
}

} // verus!
