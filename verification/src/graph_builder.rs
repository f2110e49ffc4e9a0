//! The knowledge-graph builder: classifies entity strings into types,
//! upserts one node per entity, and connects every pair of entities mentioned
//! in the same turn with a weighted co-occurrence edge.
//!
//! Letter case is read from ASCII letters; the suffix and keyword patterns
//! follow the store's conventions for organizations, preferences and tasks.

use vstd::prelude::*;
use crate::store::{GraphEdge, GraphNode, MemoryStore};
use crate::graph::{spec_edge_index, spec_node_index, spec_sat_add};
use crate::strutil;
use vstd::string::StrSliceExecFns;

verus! {

/// An ASCII capital letter.
pub open spec fn spec_is_upper(c: char) -> bool {
    'A' <= c && c <= 'Z'
}

/// An ASCII letter.
pub open spec fn spec_is_alpha(c: char) -> bool {
    ('a' <= c && c <= 'z') || ('A' <= c && c <= 'Z')
}

/// Whether any character of `s` is an ASCII capital.
pub open spec fn spec_any_upper(s: Seq<char>) -> bool {
    exists|i: int| 0 <= i < s.len() && spec_is_upper(s[i])
}

/// Whether every character of `s` is an ASCII letter or whitespace.
pub open spec fn spec_all_alpha_or_space(s: Seq<char>) -> bool {
    forall|i: int| 0 <= i < s.len() ==> spec_is_alpha(s[i]) || strutil::spec_is_space(#[trigger] s[i])
}

/// The entity type inferred for a name: capitalized names are organizations
/// when they carry a company marker, short all-letter ones are people, the
/// rest generic entities; uncapitalized names fall to preference, task or the
/// default concept by their markers.
pub open spec fn spec_entity_type(s: Seq<char>) -> Seq<char> {
    if spec_any_upper(s) && s.len() > 1 {
        if strutil::spec_contains(s, "公司"@) || strutil::spec_contains(s, "Corp"@)
            || strutil::spec_contains(s, "Ltd"@) {
            "organization"@
        } else if s.len() <= 5 && spec_all_alpha_or_space(s) {
            "person"@
        } else {
            "entity"@
        }
    } else if strutil::spec_ends_with(s, "喜欢"@) || strutil::spec_ends_with(s, "偏好"@)
        || strutil::spec_contains(s, "prefer"@) {
        "preference"@
    } else if strutil::spec_ends_with(s, "任务"@) || strutil::spec_ends_with(s, "task"@)
        || strutil::spec_contains(s, "目标"@) {
        "task"@
    } else {
        "concept"@
    }
}

/// Whether any character is an ASCII capital.
fn any_upper(s: &str) -> (r: bool)
    ensures
        r == spec_any_upper(s@),
{
    let n = s.unicode_len();
    let mut i: usize = 0;
    while i < n
        invariant
            n == s@.len(),
            i <= n,
            forall|k: int| 0 <= k < i ==> !spec_is_upper(s@[k]),
        decreases n - i,
    {
        let c = s.get_char(i);
        if 'A' <= c && c <= 'Z' {
            return true;
        }
        i += 1;
    }
    false
}

/// Whether every character is an ASCII letter or whitespace.
fn all_alpha_or_space(s: &str) -> (r: bool)
    ensures
        r == spec_all_alpha_or_space(s@),
{
    let n = s.unicode_len();
    let mut i: usize = 0;
    while i < n
        invariant
            n == s@.len(),
            i <= n,
            forall|k: int|
                0 <= k < i ==> spec_is_alpha(s@[k]) || strutil::spec_is_space(#[trigger] s@[k]),
        decreases n - i,
    {
        let c = s.get_char(i);
        let alpha = ('a' <= c && c <= 'z') || ('A' <= c && c <= 'Z');
        if !alpha && !strutil::is_space(c) {
            return false;
        }
        i += 1;
    }
    true
}

/// Infers an entity's type from its name, per [`spec_entity_type`].
pub fn infer_entity_type(entity_name: &str) -> (r: String)
    ensures
        r@ == spec_entity_type(entity_name@),
{
    if any_upper(entity_name) && entity_name.unicode_len() > 1 {
        if strutil::str_contains(entity_name, "公司") || strutil::str_contains(
            entity_name,
            "Corp",
        ) || strutil::str_contains(entity_name, "Ltd") {
            String::from_str("organization")
        } else if entity_name.unicode_len() <= 5 && all_alpha_or_space(entity_name) {
            String::from_str("person")
        } else {
            String::from_str("entity")
        }
    } else if strutil::str_ends_with(entity_name, "喜欢") || strutil::str_ends_with(
        entity_name,
        "偏好",
    ) || strutil::str_contains(entity_name, "prefer") {
        String::from_str("preference")
    } else if strutil::str_ends_with(entity_name, "任务") || strutil::str_ends_with(
        entity_name,
        "task",
    ) || strutil::str_contains(entity_name, "目标") {
        String::from_str("task")
    } else {
        String::from_str("concept")
    }
}

/// The relation label for a pair of entity types.
pub open spec fn spec_relation_of_types(t1: Seq<char>, t2: Seq<char>) -> Seq<char> {
    if (t1 == "person"@ && t2 == "organization"@) || (t1 == "organization"@ && t2 == "person"@) {
        "works_at"@
    } else if (t1 == "person"@ && t2 == "preference"@) || (t1 == "preference"@ && t2
        == "person"@) {
        "prefers"@
    } else if (t1 == "person"@ && t2 == "task"@) || (t1 == "task"@ && t2 == "person"@) {
        "assigned_to"@
    } else if (t1 == "task"@ && t2 == "concept"@) || (t1 == "concept"@ && t2 == "task"@) {
        "relates_to"@
    } else if t1 == "person"@ && t2 == "person"@ {
        "knows"@
    } else if t1 == "organization"@ && t2 == "organization"@ {
        "partners_with"@
    } else if t1 == "preference"@ && t2 == "preference"@ {
        "similar_to"@
    } else {
        "co_occurs"@
    }
}

/// The relation label inferred for a pair of entity names.
pub open spec fn spec_relation_type(e1: Seq<char>, e2: Seq<char>) -> Seq<char> {
    spec_relation_of_types(spec_entity_type(e1), spec_entity_type(e2))
}

/// Infers the relation between two entities from their inferred types, per
/// [`spec_relation_type`].
pub fn infer_relation_type(entity1: &str, entity2: &str) -> (r: String)
    ensures
        r@ == spec_relation_type(entity1@, entity2@),
{
    let t1 = infer_entity_type(entity1);
    let t2 = infer_entity_type(entity2);
    let p = "person";
    let o = "organization";
    let pr = "preference";
    let ta = "task";
    let co = "concept";
    let t1p = strutil::str_eq(t1.as_str(), p);
    let t1o = strutil::str_eq(t1.as_str(), o);
    let t1pr = strutil::str_eq(t1.as_str(), pr);
    let t1ta = strutil::str_eq(t1.as_str(), ta);
    let t1co = strutil::str_eq(t1.as_str(), co);
    let t2p = strutil::str_eq(t2.as_str(), p);
    let t2o = strutil::str_eq(t2.as_str(), o);
    let t2pr = strutil::str_eq(t2.as_str(), pr);
    let t2ta = strutil::str_eq(t2.as_str(), ta);
    let t2co = strutil::str_eq(t2.as_str(), co);
    if (t1p && t2o) || (t1o && t2p) {
        String::from_str("works_at")
    } else if (t1p && t2pr) || (t1pr && t2p) {
        String::from_str("prefers")
    } else if (t1p && t2ta) || (t1ta && t2p) {
        String::from_str("assigned_to")
    } else if (t1ta && t2co) || (t1co && t2ta) {
        String::from_str("relates_to")
    } else if t1p && t2p {
        String::from_str("knows")
    } else if t1o && t2o {
        String::from_str("partners_with")
    } else if t1pr && t2pr {
        String::from_str("similar_to")
    } else {
        String::from_str("co_occurs")
    }
}

/// The weight a fresh co-occurrence edge is created with: the turn's base
/// weight divided by the configured divisor, clamped to the configured
/// bounds. All quantities in thousandths.
pub open spec fn spec_cooccur_weight(base: i64, divisor: i64, min_w: i64, max_w: i64) -> i64 {
    let raw = base * 1000 / (divisor as int);
    if raw < min_w {
        min_w
    } else if raw > max_w {
        max_w
    } else {
        raw as i64
    }
}

/// The creation weight of a co-occurrence edge, per [`spec_cooccur_weight`].
pub fn cooccur_weight(base: i64, divisor: i64, min_w: i64, max_w: i64) -> (r: i64)
    requires
        0 <= base <= 1000000,
        divisor >= 1,
        min_w <= max_w,
    ensures
        r == spec_cooccur_weight(base, divisor, min_w, max_w),
{
    let raw: i64 = ((base as i128) * 1000 / (divisor as i128)) as i64;
    proof {
        vstd::arithmetic::div_mod::lemma_div_is_ordered(0, (base as int) * 1000, divisor as int);
        vstd::arithmetic::div_mod::lemma_div_is_ordered(
            (base as int) * 1000,
            1000000000,
            divisor as int,
        );
    }
    if raw < min_w {
        min_w
    } else if raw > max_w {
        max_w
    } else {
        raw
    }
}

/// The row id of the node an entity name resolves to; zero when absent.
pub open spec fn spec_node_id_of(nodes: Seq<GraphNode>, name: Seq<char>) -> int {
    match spec_node_index(nodes, spec_entity_type(name), name) {
        Some(i) => i + 1,
        None => 0,
    }
}

/// Whether the co-occurrence edge of two entities is present: an edge between
/// their nodes' canonically ordered ids, labelled with their inferred
/// relation.
pub open spec fn spec_cooccur_edge_present(
    nodes: Seq<GraphNode>,
    edges: Seq<GraphEdge>,
    e1: Seq<char>,
    e2: Seq<char>,
) -> bool {
    let n1 = spec_node_id_of(nodes, e1);
    let n2 = spec_node_id_of(nodes, e2);
    let f = if n1 <= n2 {
        n1
    } else {
        n2
    };
    let t = if n1 <= n2 {
        n2
    } else {
        n1
    };
    spec_edge_index(edges, f as i64, t as i64, spec_relation_type(e1, e2)) is Some
}

/// The view of an edge: endpoints, relation and weight.
pub open spec fn spec_edge_view(e: GraphEdge) -> (i64, i64, Seq<char>, i64) {
    (e.from_node, e.to_node, e.relation_type@, e.weight)
}

/// The views of a table of edges, in order.
pub open spec fn spec_edge_views(edges: Seq<GraphEdge>) -> Seq<(i64, i64, Seq<char>, i64)>
    decreases edges.len(),
{
    if edges.len() == 0 {
        Seq::empty()
    } else {
        spec_edge_views(edges.drop_last()).push(spec_edge_view(edges.last()))
    }
}

/// Views are taken pointwise.
proof fn lemma_edge_views_index(edges: Seq<GraphEdge>)
    ensures
        spec_edge_views(edges).len() == edges.len(),
        forall|i: int|
            0 <= i < edges.len() ==> spec_edge_views(edges)[i] == spec_edge_view(edges[i]),
    decreases edges.len(),
{
    if edges.len() > 0 {
        lemma_edge_views_index(edges.drop_last());
    }
}

/// One co-occurrence upsert applied to the edge views: an existing triple's
/// weight is accumulated (saturated) when `acc` is set and kept otherwise; a
/// missing triple is appended at weight `w`.
pub open spec fn spec_cooccur_upsert(
    views: Seq<(i64, i64, Seq<char>, i64)>,
    f: i64,
    t: i64,
    rel: Seq<char>,
    w: i64,
    acc: bool,
) -> Seq<(i64, i64, Seq<char>, i64)> {
    if exists|i: int|
        0 <= i < views.len() && (#[trigger] views[i]).0 == f && views[i].1 == t && views[i].2
            == rel {
        if acc {
            let i = choose|i: int|
                0 <= i < views.len() && (#[trigger] views[i]).0 == f && views[i].1 == t
                    && views[i].2 == rel;
            views.update(i, (f, t, rel, spec_sat_add(views[i].3, w)))
        } else {
            views
        }
    } else {
        views.push((f, t, rel, w))
    }
}

/// The smaller node id of the pair `(x, y)`.
pub open spec fn spec_pair_from(ids: Seq<i64>, x: int, y: int) -> i64 {
    if ids[x] <= ids[y] {
        ids[x]
    } else {
        ids[y]
    }
}

/// The larger node id of the pair `(x, y)`.
pub open spec fn spec_pair_to(ids: Seq<i64>, x: int, y: int) -> i64 {
    if ids[x] <= ids[y] {
        ids[y]
    } else {
        ids[x]
    }
}

/// The edge views after feeding every entity pair from `(a, b)` on, row by
/// row, in the order the builder walks them.
pub open spec fn spec_cooccur_fold(
    views: Seq<(i64, i64, Seq<char>, i64)>,
    names: Seq<Seq<char>>,
    ids: Seq<i64>,
    a: int,
    b: int,
    w: i64,
    acc: bool,
) -> Seq<(i64, i64, Seq<char>, i64)>
    decreases names.len() - a, names.len() + 1 - b,
{
    if a < 0 || b <= a || a >= names.len() || b > names.len() {
        views
    } else if b == names.len() {
        spec_cooccur_fold(views, names, ids, a + 1, a + 2, w, acc)
    } else {
        spec_cooccur_fold(
            spec_cooccur_upsert(
                views,
                spec_pair_from(ids, a, b),
                spec_pair_to(ids, a, b),
                spec_relation_type(names[a], names[b]),
                w,
                acc,
            ),
            names,
            ids,
            a,
            b + 1,
            w,
            acc,
        )
    }
}

/// The node id each trigger name resolves to in `nodes`.
pub open spec fn spec_trigger_ids(nodes: Seq<GraphNode>, names: Seq<Seq<char>>) -> Seq<i64>
    decreases names.len(),
{
    if names.len() == 0 {
        Seq::empty()
    } else {
        spec_trigger_ids(nodes, names.drop_last()).push(
            spec_node_id_of(nodes, names.last()) as i64,
        )
    }
}

/// Trigger ids are resolved pointwise.
proof fn lemma_trigger_ids_index(nodes: Seq<GraphNode>, names: Seq<Seq<char>>)
    ensures
        spec_trigger_ids(nodes, names).len() == names.len(),
        forall|k: int|
            0 <= k < names.len() ==> spec_trigger_ids(nodes, names)[k] == spec_node_id_of(
                nodes,
                names[k],
            ) as i64,
    decreases names.len(),
{
    if names.len() > 0 {
        lemma_trigger_ids_index(nodes, names.drop_last());
    }
}

/// Connects one edge upsert's effect on the table to the view-level upsert.
proof fn lemma_views_after_upsert(
    pre: Seq<GraphEdge>,
    post: Seq<GraphEdge>,
    f: i64,
    t: i64,
    rel: Seq<char>,
    w: i64,
    acc: bool,
)
    requires
        forall|i: int, j: int|
            0 <= i < j < pre.len() ==> !((#[trigger] pre[i]).from_node
                == (#[trigger] pre[j]).from_node && pre[i].to_node == pre[j].to_node
                && pre[i].relation_type@ == pre[j].relation_type@),
        match spec_edge_index(pre, f, t, rel) {
            Some(i) => if acc {
                post.len() == pre.len() && post[i] == (GraphEdge {
                    weight: spec_sat_add(pre[i].weight, w),
                    ..pre[i]
                }) && forall|k: int| 0 <= k < pre.len() && k != i ==> post[k] == pre[k]
            } else {
                post == pre
            },
            None => post.len() == pre.len() + 1 && (forall|k: int|
                0 <= k < pre.len() ==> post[k] == pre[k]) && post.last().from_node == f
                && post.last().to_node == t && post.last().relation_type@ == rel
                && post.last().weight == w,
        },
    ensures
        spec_edge_views(post) == spec_cooccur_upsert(spec_edge_views(pre), f, t, rel, w, acc),
{
    lemma_edge_views_index(pre);
    lemma_edge_views_index(post);
    let vpre = spec_edge_views(pre);
    match spec_edge_index(pre, f, t, rel) {
        Some(i) => {
            assert(0 <= i < pre.len() && pre[i].from_node == f && pre[i].to_node == t
                && pre[i].relation_type@ == rel);
            assert(vpre[i].0 == f && vpre[i].1 == t && vpre[i].2 == rel);
            assert(exists|k: int|
                0 <= k < vpre.len() && (#[trigger] vpre[k]).0 == f && vpre[k].1 == t && vpre[k].2
                    == rel);
            if acc {
                let iv = choose|k: int|
                    0 <= k < vpre.len() && (#[trigger] vpre[k]).0 == f && vpre[k].1 == t
                        && vpre[k].2 == rel;
                assert(iv == i) by {
                    if iv != i {
                        assert(pre[iv].from_node == f && pre[iv].to_node == t
                            && pre[iv].relation_type@ == rel);
                        if iv < i {
                            assert(!(pre[iv].from_node == pre[i].from_node && pre[iv].to_node
                                == pre[i].to_node && pre[iv].relation_type@
                                == pre[i].relation_type@));
                        } else {
                            assert(!(pre[i].from_node == pre[iv].from_node && pre[i].to_node
                                == pre[iv].to_node && pre[i].relation_type@
                                == pre[iv].relation_type@));
                        }
                    }
                }
                assert(spec_edge_views(post) =~= vpre.update(
                    i,
                    (f, t, rel, spec_sat_add(vpre[i].3, w)),
                ));
            } else {
                assert(spec_edge_views(post) == vpre);
            }
        },
        None => {
            assert(!(exists|k: int|
                0 <= k < vpre.len() && (#[trigger] vpre[k]).0 == f && vpre[k].1 == t && vpre[k].2
                    == rel)) by {
                if exists|k: int|
                    0 <= k < vpre.len() && (#[trigger] vpre[k]).0 == f && vpre[k].1 == t
                        && vpre[k].2 == rel {
                    let k = choose|k: int|
                        0 <= k < vpre.len() && (#[trigger] vpre[k]).0 == f && vpre[k].1 == t
                            && vpre[k].2 == rel;
                    assert(pre[k].from_node == f && pre[k].to_node == t && pre[k].relation_type@
                        == rel);
                    assert(spec_edge_index(pre, f, t, rel) is Some);
                }
            }
            assert(spec_edge_views(post) =~= vpre.push((f, t, rel, w)));
        },
    }
}

impl MemoryStore {
    /// Feeds one turn's extracted entity strings into the knowledge graph:
    /// every entity gets a node of its inferred type, and every unordered
    /// pair of entities gets a co-occurrence edge between the canonically
    /// ordered node ids, created at the clamped weight and accumulated on
    /// repetition when `enable_weight_accumulation` is set.
    ///
    /// Afterwards every entity has its node, and every pair its edge with the
    /// inferred relation.
    pub fn update_knowledge_graph(
        &mut self,
        memory_triggers: &Vec<String>,
        base_edge_weight: i64,
        cooccur_weight_divisor: i64,
        min_edge_weight: i64,
        max_edge_weight: i64,
        enable_weight_accumulation: bool,
    )
        requires
            old(self).wf(),
            0 <= base_edge_weight <= 1000000,
            cooccur_weight_divisor >= 1,
            min_edge_weight <= max_edge_weight,
            old(self).nodes@.len() + memory_triggers@.len() <= i64::MAX,
            old(self).edges@.len() + memory_triggers@.len() * memory_triggers@.len()
                <= i64::MAX,
        ensures
            final(self).wf(),
            final(self).sessions == old(self).sessions,
            final(self).events == old(self).events,
            final(self).chunks == old(self).chunks,
            final(self).mappings == old(self).mappings,
            final(self).profiles == old(self).profiles,
            final(self).traits == old(self).traits,
            forall|k: int|
                0 <= k < memory_triggers@.len() ==> spec_node_index(
                    final(self).nodes@,
                    spec_entity_type(#[trigger] memory_triggers@[k]@),
                    memory_triggers@[k]@,
                ) is Some,
            forall|x: int, y: int|
                #![trigger memory_triggers@[x], memory_triggers@[y]]
                0 <= x < y < memory_triggers@.len() ==> spec_cooccur_edge_present(
                    final(self).nodes@,
                    final(self).edges@,
                    memory_triggers@[x]@,
                    memory_triggers@[y]@,
                ),
            ({
                let names = strutil::views_of(memory_triggers@);
                let ids = spec_trigger_ids(final(self).nodes@, names);
                spec_edge_views(final(self).edges@) == spec_cooccur_fold(
                    spec_edge_views(old(self).edges@),
                    names,
                    ids,
                    0,
                    1,
                    spec_cooccur_weight(
                        base_edge_weight,
                        cooccur_weight_divisor,
                        min_edge_weight,
                        max_edge_weight,
                    ),
                    enable_weight_accumulation,
                )
            }),
    {
        let n = memory_triggers.len();
        let mut node_ids: Vec<i64> = Vec::new();
        let mut i: usize = 0;
        while i < n
            invariant
                n == memory_triggers@.len(),
                i <= n,
                node_ids@.len() == i,
                self.wf(),
                self.sessions == old(self).sessions,
                self.events == old(self).events,
                self.chunks == old(self).chunks,
                self.mappings == old(self).mappings,
                self.profiles == old(self).profiles,
                self.traits == old(self).traits,
                self.edges == old(self).edges,
                self.nodes@.len() <= old(self).nodes@.len() + i,
                old(self).nodes@.len() + memory_triggers@.len() <= i64::MAX,
                forall|k: int|
                    0 <= k < i ==> spec_node_index(
                        self.nodes@,
                        spec_entity_type(#[trigger] memory_triggers@[k]@),
                        memory_triggers@[k]@,
                    ) == Some(node_ids@[k] - 1) && 1 <= node_ids@[k] <= self.nodes@.len(),
            decreases n - i,
        {
            let trigger_name = &memory_triggers[i];
            let entity_type = infer_entity_type(trigger_name.as_str());
            let ghost pre_nodes = self.nodes@;
            let node_id = self.upsert_graph_node(
                GraphNode {
                    id: None,
                    entity_type,
                    entity_name: trigger_name.clone(),
                },
            );
            node_ids.push(node_id);
            proof {
                let ghost et = spec_entity_type(memory_triggers@[i as int]@);
                let ghost en = memory_triggers@[i as int]@;
                lemma_node_index_values_stable(
                    pre_nodes,
                    self.nodes@,
                    memory_triggers@,
                    node_ids@,
                    i as int,
                );
                match spec_node_index(pre_nodes, et, en) {
                    Some(idx) => {
                        assert(spec_node_index(self.nodes@, et, en) == Some(idx));
                    },
                    None => {
                        let w = self.nodes@.len() - 1;
                        assert(self.nodes@[w].entity_type@ == et && self.nodes@[w].entity_name@
                            == en);
                        assert(spec_node_index(self.nodes@, et, en) == Some(w)) by {
                            let c = choose|j: int|
                                0 <= j < self.nodes@.len() && (#[trigger] self.nodes@[j]).entity_type@
                                    == et && self.nodes@[j].entity_name@ == en;
                            if c != w {
                                assert(!(self.nodes@[c].entity_type@ == self.nodes@[w].entity_type@
                                    && self.nodes@[c].entity_name@ == self.nodes@[w].entity_name@));
                            }
                        }
                    },
                }
            }
            i += 1;
        }
        let ghost fixed_nodes = self.nodes@;
        let ghost names = strutil::views_of(memory_triggers@);
        let ghost idsv = spec_trigger_ids(fixed_nodes, names);
        let ghost w0 = spec_cooccur_weight(
            base_edge_weight,
            cooccur_weight_divisor,
            min_edge_weight,
            max_edge_weight,
        );
        let ghost goal = spec_cooccur_fold(
            spec_edge_views(old(self).edges@),
            names,
            idsv,
            0,
            1,
            w0,
            enable_weight_accumulation,
        );
        proof {
            lemma_trigger_ids_index(fixed_nodes, names);
            assert(names.len() == n);
            assert forall|k: int| 0 <= k < n implies idsv[k] == node_ids@[k] by {
                assert(names[k] == memory_triggers@[k]@);
                assert(spec_node_index(
                    fixed_nodes,
                    spec_entity_type(names[k]),
                    names[k],
                ) == Some(node_ids@[k] - 1));
            }
            assert(idsv =~= node_ids@);
        }
        let mut a: usize = 0;
        while a < n
            invariant
                n == memory_triggers@.len(),
                a <= n,
                node_ids@.len() == n,
                self.wf(),
                self.sessions == old(self).sessions,
                self.events == old(self).events,
                self.chunks == old(self).chunks,
                self.mappings == old(self).mappings,
                self.profiles == old(self).profiles,
                self.traits == old(self).traits,
                self.nodes@ == fixed_nodes,
                self.edges@.len() <= old(self).edges@.len() + a * n,
                old(self).edges@.len() + n * n <= i64::MAX,
                0 <= base_edge_weight <= 1000000,
                cooccur_weight_divisor >= 1,
                min_edge_weight <= max_edge_weight,
                forall|k: int|
                    0 <= k < n ==> spec_node_index(
                        fixed_nodes,
                        spec_entity_type(#[trigger] memory_triggers@[k]@),
                        memory_triggers@[k]@,
                    ) == Some(node_ids@[k] - 1) && 1 <= node_ids@[k] <= fixed_nodes.len(),
                forall|x: int, y: int|
                    #![trigger memory_triggers@[x], memory_triggers@[y]]
                    0 <= x < y < n && x < a ==> spec_cooccur_edge_present(
                        fixed_nodes,
                        self.edges@,
                        memory_triggers@[x]@,
                        memory_triggers@[y]@,
                    ),
                names == strutil::views_of(memory_triggers@),
                idsv == node_ids@,
                w0 == spec_cooccur_weight(
                    base_edge_weight,
                    cooccur_weight_divisor,
                    min_edge_weight,
                    max_edge_weight,
                ),
                spec_cooccur_fold(
                    spec_edge_views(self.edges@),
                    names,
                    idsv,
                    a as int,
                    a + 1,
                    w0,
                    enable_weight_accumulation,
                ) == goal,
            decreases n - a,
        {
            let mut b: usize = a + 1;
            while b < n
                invariant
                    n == memory_triggers@.len(),
                    a < n,
                    a + 1 <= b <= n,
                    node_ids@.len() == n,
                    self.wf(),
                    self.sessions == old(self).sessions,
                    self.events == old(self).events,
                    self.chunks == old(self).chunks,
                    self.mappings == old(self).mappings,
                    self.profiles == old(self).profiles,
                    self.traits == old(self).traits,
                    self.nodes@ == fixed_nodes,
                    self.edges@.len() <= old(self).edges@.len() + a * n + (b - a - 1),
                    old(self).edges@.len() + n * n <= i64::MAX,
                    0 <= base_edge_weight <= 1000000,
                    cooccur_weight_divisor >= 1,
                    min_edge_weight <= max_edge_weight,
                    forall|k: int|
                        0 <= k < n ==> spec_node_index(
                            fixed_nodes,
                            spec_entity_type(#[trigger] memory_triggers@[k]@),
                            memory_triggers@[k]@,
                        ) == Some(node_ids@[k] - 1) && 1 <= node_ids@[k] <= fixed_nodes.len(),
                    forall|x: int, y: int|
                        #![trigger memory_triggers@[x], memory_triggers@[y]]
                        0 <= x < y < n && (x < a || (x == a && y < b))
                            ==> spec_cooccur_edge_present(
                            fixed_nodes,
                            self.edges@,
                            memory_triggers@[x]@,
                            memory_triggers@[y]@,
                        ),
                    names == strutil::views_of(memory_triggers@),
                    idsv == node_ids@,
                    w0 == spec_cooccur_weight(
                        base_edge_weight,
                        cooccur_weight_divisor,
                        min_edge_weight,
                        max_edge_weight,
                    ),
                    spec_cooccur_fold(
                        spec_edge_views(self.edges@),
                        names,
                        idsv,
                        a as int,
                        b as int,
                        w0,
                        enable_weight_accumulation,
                    ) == goal,
                decreases n - b,
            {
                let id1 = node_ids[a];
                let id2 = node_ids[b];
                let from_node = if id1 <= id2 {
                    id1
                } else {
                    id2
                };
                let to_node = if id1 <= id2 {
                    id2
                } else {
                    id1
                };
                let weight = cooccur_weight(
                    base_edge_weight,
                    cooccur_weight_divisor,
                    min_edge_weight,
                    max_edge_weight,
                );
                let relation_type = infer_relation_type(
                    memory_triggers[a].as_str(),
                    memory_triggers[b].as_str(),
                );
                let ghost pre_nodes = self.nodes@;
                let edge = GraphEdge { id: None, from_node, to_node, relation_type, weight };
                proof {
                    assert(a * n + (b - a - 1) + 1 <= n * n) by (nonlinear_arith)
                        requires
                            0 <= a < n,
                            a < b <= n,
                    ;
                }
                let ghost pre_edges = self.edges@;
                let ghost rel = spec_relation_type(
                    memory_triggers@[a as int]@,
                    memory_triggers@[b as int]@,
                );
                if enable_weight_accumulation {
                    let _ = self.upsert_graph_edge_with_accumulation(edge);
                } else {
                    let _ = self.upsert_graph_edge(edge);
                }
                proof {
                    assert(self.nodes@ == pre_nodes);
                    lemma_edge_present_stable(pre_edges, self.edges@);
                    // The pair just handled has its edge: either it already
                    // existed, or the new last edge carries the triple.
                    assert(spec_cooccur_edge_present(
                        fixed_nodes,
                        self.edges@,
                        memory_triggers@[a as int]@,
                        memory_triggers@[b as int]@,
                    )) by {
                        if spec_edge_index(pre_edges, from_node, to_node, rel) is None {
                            let w = self.edges@.len() - 1;
                            assert(self.edges@[w].from_node == from_node && self.edges@[w].to_node
                                == to_node && self.edges@[w].relation_type@ == rel);
                        }
                    }
                    assert(names[a as int] == memory_triggers@[a as int]@);
                    assert(names[b as int] == memory_triggers@[b as int]@);
                    assert(from_node == spec_pair_from(idsv, a as int, b as int));
                    assert(to_node == spec_pair_to(idsv, a as int, b as int));
                    assert(rel == spec_relation_type(names[a as int], names[b as int]));
                    assert(weight == w0);
                    lemma_views_after_upsert(
                        pre_edges,
                        self.edges@,
                        from_node,
                        to_node,
                        rel,
                        weight,
                        enable_weight_accumulation,
                    );
                    assert(spec_cooccur_fold(
                        spec_edge_views(pre_edges),
                        names,
                        idsv,
                        a as int,
                        b as int,
                        w0,
                        enable_weight_accumulation,
                    ) == spec_cooccur_fold(
                        spec_cooccur_upsert(
                            spec_edge_views(pre_edges),
                            spec_pair_from(idsv, a as int, b as int),
                            spec_pair_to(idsv, a as int, b as int),
                            spec_relation_type(names[a as int], names[b as int]),
                            w0,
                            enable_weight_accumulation,
                        ),
                        names,
                        idsv,
                        a as int,
                        b + 1,
                        w0,
                        enable_weight_accumulation,
                    ));
                    assert(spec_cooccur_fold(
                        spec_edge_views(self.edges@),
                        names,
                        idsv,
                        a as int,
                        b + 1,
                        w0,
                        enable_weight_accumulation,
                    ) == goal);
                }
                b += 1;
            }
            proof {
                assert(a * n + (n - a - 1) <= (a + 1) * n) by (nonlinear_arith)
                    requires
                        0 <= a < n,
                ;
                assert(spec_cooccur_fold(
                    spec_edge_views(self.edges@),
                    names,
                    idsv,
                    a as int,
                    n as int,
                    w0,
                    enable_weight_accumulation,
                ) == spec_cooccur_fold(
                    spec_edge_views(self.edges@),
                    names,
                    idsv,
                    a + 1,
                    a + 2,
                    w0,
                    enable_weight_accumulation,
                ));
            }
            a += 1;
        }
        proof {
            assert(spec_cooccur_fold(
                spec_edge_views(self.edges@),
                names,
                idsv,
                n as int,
                n + 1,
                w0,
                enable_weight_accumulation,
            ) == spec_edge_views(self.edges@));
            assert(spec_trigger_ids(self.nodes@, names) == idsv);
        }
    }
}

/// Edges that keep their endpoints and relation keep every present triple
/// present, whatever happens to their weights or what is appended after them.
proof fn lemma_edge_present_stable(pre: Seq<GraphEdge>, post: Seq<GraphEdge>)
    requires
        pre.len() <= post.len(),
        forall|k: int|
            0 <= k < pre.len() ==> (#[trigger] post[k]).from_node == pre[k].from_node
                && post[k].to_node == pre[k].to_node && post[k].relation_type@
                == pre[k].relation_type@,
    ensures
        forall|f: i64, t: i64, r: Seq<char>|
            #![trigger spec_edge_index(pre, f, t, r)]
            spec_edge_index(pre, f, t, r) is Some ==> spec_edge_index(post, f, t, r) is Some,
{
    assert forall|f: i64, t: i64, r: Seq<char>|
        spec_edge_index(pre, f, t, r) is Some implies #[trigger] spec_edge_index(
        post,
        f,
        t,
        r,
    ) is Some by {
        let w = choose|i: int|
            0 <= i < pre.len() && (#[trigger] pre[i]).from_node == f && pre[i].to_node == t
                && pre[i].relation_type@ == r;
        assert(post[w].from_node == f && post[w].to_node == t && post[w].relation_type@ == r);
    }
}

/// Appending nodes keeps every resolved entity resolved at the same index,
/// as long as the grown table still holds each entity once.
proof fn lemma_node_index_values_stable(
    pre: Seq<GraphNode>,
    post: Seq<GraphNode>,
    triggers: Seq<String>,
    ids: Seq<i64>,
    upto: int,
)
    requires
        pre.len() <= post.len(),
        forall|k: int| 0 <= k < pre.len() ==> post[k] == pre[k],
        forall|i: int, j: int|
            0 <= i < j < post.len() ==> !((#[trigger] post[i]).entity_type@
                == (#[trigger] post[j]).entity_type@ && post[i].entity_name@
                == post[j].entity_name@),
        upto <= ids.len(),
        forall|k: int|
            0 <= k < upto ==> spec_node_index(
                pre,
                spec_entity_type(#[trigger] triggers[k]@),
                triggers[k]@,
            ) == Some(ids[k] - 1) && 1 <= ids[k] <= pre.len(),
    ensures
        forall|k: int|
            0 <= k < upto ==> spec_node_index(
                post,
                spec_entity_type(#[trigger] triggers[k]@),
                triggers[k]@,
            ) == Some(ids[k] - 1),
{
    assert forall|k: int|
        0 <= k < upto implies spec_node_index(
        post,
        spec_entity_type(#[trigger] triggers[k]@),
        triggers[k]@,
    ) == Some(ids[k] - 1) by {
        let et = spec_entity_type(triggers[k]@);
        let en = triggers[k]@;
        let idx = ids[k] - 1;
        assert(pre[idx].entity_type@ == et && pre[idx].entity_name@ == en) by {
            let c = choose|i: int|
                0 <= i < pre.len() && (#[trigger] pre[i]).entity_type@ == et && pre[i].entity_name@
                    == en;
            assert(c == idx);
        }
        assert(post[idx].entity_type@ == et && post[idx].entity_name@ == en);
        let c2 = choose|i: int|
            0 <= i < post.len() && (#[trigger] post[i]).entity_type@ == et && post[i].entity_name@
                == en;
        if c2 != idx {
            assert(!(post[c2].entity_type@ == post[idx].entity_type@ && post[c2].entity_name@
                == post[idx].entity_name@));
        }
    }
}

} // verus!
