//! Knowledge-graph rows of the store: node and edge upserts, lookup, and
//! weight accumulation.

use vstd::prelude::*;
use crate::store::{GraphEdge, GraphNode, MemoryStore, clone_edge, clone_node};
use crate::strutil;

verus! {

/// Index of the node with the given entity type and name, when one exists.
pub open spec fn spec_node_index(nodes: Seq<GraphNode>, et: Seq<char>, en: Seq<char>) -> Option<
    int,
> {
    if exists|i: int|
        0 <= i < nodes.len() && (#[trigger] nodes[i]).entity_type@ == et && nodes[i].entity_name@
            == en {
        Some(
            choose|i: int|
                0 <= i < nodes.len() && (#[trigger] nodes[i]).entity_type@ == et
                    && nodes[i].entity_name@ == en,
        )
    } else {
        None
    }
}

/// Index of the edge with the given endpoints and relation, when one exists.
pub open spec fn spec_edge_index(edges: Seq<GraphEdge>, from: i64, to: i64, rel: Seq<char>) -> Option<
    int,
> {
    if exists|i: int|
        0 <= i < edges.len() && (#[trigger] edges[i]).from_node == from && edges[i].to_node == to
            && edges[i].relation_type@ == rel {
        Some(
            choose|i: int|
                0 <= i < edges.len() && (#[trigger] edges[i]).from_node == from && edges[i].to_node
                    == to && edges[i].relation_type@ == rel,
        )
    } else {
        None
    }
}

/// The sum of two weights, saturated at the i64 range.
pub open spec fn spec_sat_add(a: i64, b: i64) -> i64 {
    if a + b > i64::MAX {
        i64::MAX
    } else if a + b < i64::MIN {
        i64::MIN
    } else {
        (a + b) as i64
    }
}

impl MemoryStore {
    /// Finds or creates the node for `(entity_type, entity_name)`; the store
    /// is untouched when the node exists. Returns the node's id.
    pub fn upsert_graph_node(&mut self, node: GraphNode) -> (r: i64)
        requires
            old(self).wf(),
            old(self).nodes@.len() + 1 <= i64::MAX,
        ensures
            final(self).wf(),
            match spec_node_index(
                old(self).nodes@,
                node.entity_type@,
                node.entity_name@,
            ) {
                Some(i) => *final(self) == *old(self) && r == i + 1,
                None => {
                    &&& r == old(self).nodes@.len() + 1
                    &&& final(self).nodes@.len() == old(self).nodes@.len() + 1
                    &&& forall|k: int|
                        0 <= k < old(self).nodes@.len() ==> final(self).nodes@[k] == #[trigger] old(
                            self,
                        ).nodes@[k]
                    &&& final(self).nodes@.last().id == Some(r)
                    &&& final(self).nodes@.last().entity_type@ == node.entity_type@
                    &&& final(self).nodes@.last().entity_name@ == node.entity_name@
                    &&& final(self).sessions == old(self).sessions
                    &&& final(self).events == old(self).events
                    &&& final(self).chunks == old(self).chunks
                    &&& final(self).mappings == old(self).mappings
                    &&& final(self).edges == old(self).edges
                    &&& final(self).profiles == old(self).profiles
                    &&& final(self).traits == old(self).traits
                },
            },
    {
        let n = self.nodes.len();
        let mut i: usize = 0;
        while i < n
            invariant
                n == self.nodes@.len(),
                i <= n,
                self.wf(),
                *self == *old(self),
                forall|k: int|
                    0 <= k < i ==> !((#[trigger] self.nodes@[k]).entity_type@ == node.entity_type@
                        && self.nodes@[k].entity_name@ == node.entity_name@),
            decreases n - i,
        {
            if strutil::str_eq(self.nodes[i].entity_type.as_str(), node.entity_type.as_str())
                && strutil::str_eq(self.nodes[i].entity_name.as_str(), node.entity_name.as_str()) {
                proof {
                    let s = self.nodes@;
                    let c = choose|k: int|
                        0 <= k < s.len() && (#[trigger] s[k]).entity_type@ == node.entity_type@
                            && s[k].entity_name@ == node.entity_name@;
                    if c != i {
                        assert(!(s[c].entity_type@ == s[i as int].entity_type@
                            && s[c].entity_name@ == s[i as int].entity_name@));
                    }
                }
                let id = self.nodes[i].id;
                proof {
                    assert(self.nodes@[i as int].id == Some((i + 1) as i64));
                }
                return match id {
                    Some(v) => v,
                    None => 0,
                };
            }
            i += 1;
        }
        let id = (n as i64) + 1;
        self.nodes.push(GraphNode { id: Some(id), ..node });
        proof {
            assert(forall|k: int|
                0 <= k < old(self).nodes@.len() ==> final(self).nodes@[k] == #[trigger] old(
                    self,
                ).nodes@[k]);
        }
        id
    }

    /// The node for `(entity_type, entity_name)`, when one exists.
    pub fn get_node_by_entity(&self, entity_type: &str, entity_name: &str) -> (r: Option<
        GraphNode,
    >)
        requires
            self.wf(),
        ensures
            match spec_node_index(self.nodes@, entity_type@, entity_name@) {
                Some(i) => r == Some(self.nodes@[i]),
                None => r is None,
            },
    {
        let n = self.nodes.len();
        let mut i: usize = 0;
        while i < n
            invariant
                n == self.nodes@.len(),
                i <= n,
                self.wf(),
                forall|k: int|
                    0 <= k < i ==> !((#[trigger] self.nodes@[k]).entity_type@ == entity_type@
                        && self.nodes@[k].entity_name@ == entity_name@),
            decreases n - i,
        {
            if strutil::str_eq(self.nodes[i].entity_type.as_str(), entity_type)
                && strutil::str_eq(self.nodes[i].entity_name.as_str(), entity_name) {
                proof {
                    let s = self.nodes@;
                    let c = choose|k: int|
                        0 <= k < s.len() && (#[trigger] s[k]).entity_type@ == entity_type@
                            && s[k].entity_name@ == entity_name@;
                    if c != i {
                        assert(!(s[c].entity_type@ == s[i as int].entity_type@
                            && s[c].entity_name@ == s[i as int].entity_name@));
                    }
                }
                return Some(clone_node(&self.nodes[i]));
            }
            i += 1;
        }
        None
    }

    /// Finds or creates the edge for `(from, to, relation)`; an existing edge
    /// keeps its weight. Returns the edge's id.
    pub fn upsert_graph_edge(&mut self, edge: GraphEdge) -> (r: i64)
        requires
            old(self).wf(),
            old(self).edges@.len() + 1 <= i64::MAX,
        ensures
            final(self).wf(),
            match spec_edge_index(
                old(self).edges@,
                edge.from_node,
                edge.to_node,
                edge.relation_type@,
            ) {
                Some(i) => *final(self) == *old(self) && r == i + 1,
                None => {
                    &&& r == old(self).edges@.len() + 1
                    &&& final(self).edges@.len() == old(self).edges@.len() + 1
                    &&& forall|k: int|
                        0 <= k < old(self).edges@.len() ==> final(self).edges@[k] == #[trigger] old(
                            self,
                        ).edges@[k]
                    &&& final(self).edges@.last().id == Some(r)
                    &&& final(self).edges@.last().from_node == edge.from_node
                    &&& final(self).edges@.last().to_node == edge.to_node
                    &&& final(self).edges@.last().relation_type@ == edge.relation_type@
                    &&& final(self).edges@.last().weight == edge.weight
                    &&& final(self).sessions == old(self).sessions
                    &&& final(self).events == old(self).events
                    &&& final(self).chunks == old(self).chunks
                    &&& final(self).mappings == old(self).mappings
                    &&& final(self).nodes == old(self).nodes
                    &&& final(self).profiles == old(self).profiles
                    &&& final(self).traits == old(self).traits
                },
            },
    {
        let n = self.edges.len();
        let mut i: usize = 0;
        while i < n
            invariant
                n == self.edges@.len(),
                i <= n,
                self.wf(),
                *self == *old(self),
                forall|k: int|
                    0 <= k < i ==> !((#[trigger] self.edges@[k]).from_node == edge.from_node
                        && self.edges@[k].to_node == edge.to_node
                        && self.edges@[k].relation_type@ == edge.relation_type@),
            decreases n - i,
        {
            if self.edges[i].from_node == edge.from_node && self.edges[i].to_node == edge.to_node
                && strutil::str_eq(self.edges[i].relation_type.as_str(),
                edge.relation_type.as_str()) {
                proof {
                    let s = self.edges@;
                    let c = choose|k: int|
                        0 <= k < s.len() && (#[trigger] s[k]).from_node == edge.from_node
                            && s[k].to_node == edge.to_node && s[k].relation_type@
                            == edge.relation_type@;
                    if c != i {
                        assert(!(s[c].from_node == s[i as int].from_node && s[c].to_node
                            == s[i as int].to_node && s[c].relation_type@
                            == s[i as int].relation_type@));
                    }
                }
                let id = self.edges[i].id;
                proof {
                    assert(self.edges@[i as int].id == Some((i + 1) as i64));
                }
                return match id {
                    Some(v) => v,
                    None => 0,
                };
            }
            i += 1;
        }
        let id = (n as i64) + 1;
        self.edges.push(GraphEdge { id: Some(id), ..edge });
        id
    }

    /// Finds or creates the edge for `(from, to, relation)`. An existing
    /// edge's weight grows by the incoming weight — plain accumulation, the
    /// sum only saturated at the integer range; bounds are applied when a
    /// weight is first computed by the graph builder, so repeated
    /// co-occurrence may carry an edge past the configured maximum. Returns
    /// the edge's id.
    pub fn upsert_graph_edge_with_accumulation(&mut self, edge: GraphEdge) -> (r: i64)
        requires
            old(self).wf(),
            old(self).edges@.len() + 1 <= i64::MAX,
        ensures
            final(self).wf(),
            match spec_edge_index(
                old(self).edges@,
                edge.from_node,
                edge.to_node,
                edge.relation_type@,
            ) {
                Some(i) => {
                    &&& r == i + 1
                    &&& final(self).edges@.len() == old(self).edges@.len()
                    &&& final(self).edges@[i] == (GraphEdge {
                        weight: spec_sat_add(old(self).edges@[i].weight, edge.weight),
                        ..old(self).edges@[i]
                    })
                    &&& forall|k: int|
                        0 <= k < old(self).edges@.len() && k != i ==> final(self).edges@[k]
                            == #[trigger] old(self).edges@[k]
                    &&& final(self).sessions == old(self).sessions
                    &&& final(self).events == old(self).events
                    &&& final(self).chunks == old(self).chunks
                    &&& final(self).mappings == old(self).mappings
                    &&& final(self).nodes == old(self).nodes
                    &&& final(self).profiles == old(self).profiles
                    &&& final(self).traits == old(self).traits
                },
                None => {
                    &&& r == old(self).edges@.len() + 1
                    &&& final(self).edges@.len() == old(self).edges@.len() + 1
                    &&& forall|k: int|
                        0 <= k < old(self).edges@.len() ==> final(self).edges@[k] == #[trigger] old(
                            self,
                        ).edges@[k]
                    &&& final(self).edges@.last().id == Some(r)
                    &&& final(self).edges@.last().from_node == edge.from_node
                    &&& final(self).edges@.last().to_node == edge.to_node
                    &&& final(self).edges@.last().relation_type@ == edge.relation_type@
                    &&& final(self).edges@.last().weight == edge.weight
                    &&& final(self).sessions == old(self).sessions
                    &&& final(self).events == old(self).events
                    &&& final(self).chunks == old(self).chunks
                    &&& final(self).mappings == old(self).mappings
                    &&& final(self).nodes == old(self).nodes
                    &&& final(self).profiles == old(self).profiles
                    &&& final(self).traits == old(self).traits
                },
            },
    {
        let n = self.edges.len();
        let mut i: usize = 0;
        while i < n
            invariant
                n == self.edges@.len(),
                i <= n,
                self.wf(),
                *self == *old(self),
                forall|k: int|
                    0 <= k < i ==> !((#[trigger] self.edges@[k]).from_node == edge.from_node
                        && self.edges@[k].to_node == edge.to_node
                        && self.edges@[k].relation_type@ == edge.relation_type@),
            decreases n - i,
        {
            if self.edges[i].from_node == edge.from_node && self.edges[i].to_node == edge.to_node
                && strutil::str_eq(self.edges[i].relation_type.as_str(),
                edge.relation_type.as_str()) {
                proof {
                    let s = self.edges@;
                    let c = choose|k: int|
                        0 <= k < s.len() && (#[trigger] s[k]).from_node == edge.from_node
                            && s[k].to_node == edge.to_node && s[k].relation_type@
                            == edge.relation_type@;
                    if c != i {
                        assert(!(s[c].from_node == s[i as int].from_node && s[c].to_node
                            == s[i as int].to_node && s[c].relation_type@
                            == s[i as int].relation_type@));
                    }
                }
                let wide: i128 = (self.edges[i].weight as i128) + (edge.weight as i128);
                let new_weight: i64 = if wide > (i64::MAX as i128) {
                    i64::MAX
                } else if wide < (i64::MIN as i128) {
                    i64::MIN
                } else {
                    wide as i64
                };
                self.edges[i].weight = new_weight;
                let id = self.edges[i].id;
                proof {
                    assert(self.edges@[i as int] == (GraphEdge {
                        weight: spec_sat_add(old(self).edges@[i as int].weight, edge.weight),
                        ..old(self).edges@[i as int]
                    }));
                    assert(self.edges@[i as int].id == Some((i + 1) as i64));
                }
                return match id {
                    Some(v) => v,
                    None => 0,
                };
            }
            i += 1;
        }
        let id = (n as i64) + 1;
        self.edges.push(GraphEdge { id: Some(id), ..edge });
        id
    }

    /// A copy of every node, in creation order.
    pub fn get_graph_nodes(&self) -> (r: Vec<GraphNode>)
        ensures
            r@ == self.nodes@,
    {
        let mut out: Vec<GraphNode> = Vec::new();
        let mut i: usize = 0;
        while i < self.nodes.len()
            invariant
                i <= self.nodes@.len(),
                out@ =~= self.nodes@.subrange(0, i as int),
            decreases self.nodes@.len() - i,
        {
            out.push(clone_node(&self.nodes[i]));
            i += 1;
        }
        proof {
            assert(out@ =~= self.nodes@);
        }
        out
    }

    /// A copy of every edge, in creation order.
    pub fn get_graph_edges(&self) -> (r: Vec<GraphEdge>)
        ensures
            r@ == self.edges@,
    {
        let mut out: Vec<GraphEdge> = Vec::new();
        let mut i: usize = 0;
        while i < self.edges.len()
            invariant
                i <= self.edges@.len(),
                out@ =~= self.edges@.subrange(0, i as int),
            decreases self.edges@.len() - i,
        {
            out.push(clone_edge(&self.edges[i]));
            i += 1;
        }
        proof {
            assert(out@ =~= self.edges@);
        }
        out
    }
}

} // verus!
