//! Persona rows of the store: profile and trait upserts, ranked listing, and
//! substring-matched fact retrieval.
//!
//! Traits are ranked by stability, then confidence, then recency of
//! observation; equal ranks are broken by descending row id so that every
//! listing is reproducible.

use vstd::prelude::*;
use vstd::relations::sorted_by;
use crate::store::{MemoryStore, PersonaProfile, PersonaTrait, clone_trait, spec_id_of};
use crate::strutil;

verus! {

broadcast use vstd::seq_lib::group_to_multiset_ensures;

/// The rank value of an optional observation time; never-seen sorts last.
pub open spec fn spec_seen_rank(t: Option<u64>) -> int {
    match t {
        Some(v) => v as int + 1,
        None => 0,
    }
}

/// Whether `a` ranks at or before `b`: stability descending, then confidence
/// descending, then last observation descending, then row id descending.
pub open spec fn spec_trait_le(a: PersonaTrait, b: PersonaTrait) -> bool {
    if a.stability != b.stability {
        a.stability > b.stability
    } else if a.confidence != b.confidence {
        a.confidence > b.confidence
    } else if spec_seen_rank(a.last_seen) != spec_seen_rank(b.last_seen) {
        spec_seen_rank(a.last_seen) > spec_seen_rank(b.last_seen)
    } else {
        spec_id_of(a.id) >= spec_id_of(b.id)
    }
}

/// The trait ranking as an ordering function.
pub open spec fn trait_order() -> spec_fn(PersonaTrait, PersonaTrait) -> bool {
    |a: PersonaTrait, b: PersonaTrait| spec_trait_le(a, b)
}

/// Whether `a` ranks at or before `b`, per [`spec_trait_le`].
pub fn trait_le(a: &PersonaTrait, b: &PersonaTrait) -> (r: bool)
    ensures
        r == spec_trait_le(*a, *b),
{
    if a.stability != b.stability {
        a.stability > b.stability
    } else if a.confidence != b.confidence {
        a.confidence > b.confidence
    } else {
        let ra: u128 = match a.last_seen {
            Some(v) => (v as u128) + 1,
            None => 0,
        };
        let rb: u128 = match b.last_seen {
            Some(v) => (v as u128) + 1,
            None => 0,
        };
        if ra != rb {
            ra > rb
        } else {
            let ia: i64 = match a.id {
                Some(v) => v,
                None => 0,
            };
            let ib: i64 = match b.id {
                Some(v) => v,
                None => 0,
            };
            ia >= ib
        }
    }
}

/// Places `x` into the rank-sorted vector `v`.
fn insert_trait_sorted(v: &mut Vec<PersonaTrait>, x: PersonaTrait)
    requires
        sorted_by(old(v)@, trait_order()),
    ensures
        sorted_by(final(v)@, trait_order()),
        final(v)@.to_multiset() == old(v)@.to_multiset().insert(x),
        final(v)@.len() == old(v)@.len() + 1,
{
    let mut pos: usize = 0;
    while pos < v.len() && trait_le(&v[pos], &x)
        invariant
            pos <= v@.len(),
            *v == *old(v),
            forall|k: int| 0 <= k < pos ==> spec_trait_le(#[trigger] v@[k], x),
        decreases v@.len() - pos,
    {
        pos += 1;
    }
    let ghost pre = v@;
    v.insert(pos, x);
    proof {
        pre.insert_ensures(pos as int, x);
        if pos < pre.len() {
            assert(!spec_trait_le(pre[pos as int], x));
            assert(spec_trait_le(x, pre[pos as int]));
        }
        assert forall|i: int, j: int|
            0 <= i < j < v@.len() implies trait_order()(v@[i], v@[j]) by {
            if j < pos {
                assert(trait_order()(pre[i], pre[j]));
            } else if i < pos && j == pos {
                assert(spec_trait_le(pre[i], x));
            } else if i < pos && j > pos {
                assert(trait_order()(pre[i], pre[j - 1]));
            } else if i == pos && j > pos {
                assert(spec_trait_le(x, pre[pos as int]));
                if j - 1 > pos {
                    assert(trait_order()(pre[pos as int], pre[j - 1]));
                }
            } else {
                assert(trait_order()(pre[i - 1], pre[j - 1]));
            }
        }
        assert(v@.to_multiset() == pre.to_multiset().insert(x)) by {
            vstd::seq_lib::to_multiset_insert(pre, pos as int, x);
        }
    }
}

/// Sorts traits by rank; the result is a permutation of the input.
fn sort_traits(v: Vec<PersonaTrait>) -> (r: Vec<PersonaTrait>)
    ensures
        sorted_by(r@, trait_order()),
        r@.to_multiset() == v@.to_multiset(),
{
    let ghost input = v@;
    let mut rest = v;
    let mut out: Vec<PersonaTrait> = Vec::new();
    proof {
        assert(input.subrange(0, 0) =~= Seq::<PersonaTrait>::empty());
        assert(Seq::<PersonaTrait>::empty().to_multiset() =~= out@.to_multiset());
    }
    let n = rest.len();
    let mut i: usize = 0;
    while i < n
        invariant
            n == rest@.len(),
            rest@ == input,
            i <= n,
            sorted_by(out@, trait_order()),
            out@.to_multiset() == input.subrange(0, i as int).to_multiset(),
        decreases n - i,
    {
        let ghost pre = input.subrange(0, i as int);
        let x = clone_trait(&rest[i]);
        insert_trait_sorted(&mut out, x);
        proof {
            let post = input.subrange(0, i + 1);
            assert(post.drop_last() =~= pre);
            assert(post =~= pre.push(input[i as int]));
        }
        i += 1;
    }
    proof {
        assert(input.subrange(0, n as int) =~= input);
    }
    out
}

/// Index of the profile for `agent`, when one exists.
pub open spec fn spec_profile_index(profiles: Seq<PersonaProfile>, agent: Seq<char>) -> Option<
    int,
> {
    if exists|i: int| 0 <= i < profiles.len() && (#[trigger] profiles[i]).agent_name@ == agent {
        Some(choose|i: int| 0 <= i < profiles.len() && (#[trigger] profiles[i]).agent_name@ == agent)
    } else {
        None
    }
}

/// Index of the trait keyed `(agent, trait type, trait key)`, when one exists.
pub open spec fn spec_trait_index(
    traits: Seq<PersonaTrait>,
    agent: Seq<char>,
    ttype: Seq<char>,
    tkey: Seq<char>,
) -> Option<int> {
    if exists|i: int|
        0 <= i < traits.len() && (#[trigger] traits[i]).agent_name@ == agent
            && traits[i].trait_type@ == ttype && traits[i].trait_key@ == tkey {
        Some(
            choose|i: int|
                0 <= i < traits.len() && (#[trigger] traits[i]).agent_name@ == agent
                    && traits[i].trait_type@ == ttype && traits[i].trait_key@ == tkey,
        )
    } else {
        None
    }
}

/// The traits of `agent` kept by a listing, optionally narrowed to one type.
pub open spec fn spec_trait_filter(agent: Seq<char>, ttype: Option<Seq<char>>) -> spec_fn(
    PersonaTrait,
) -> bool {
    |t: PersonaTrait|
        t.agent_name@ == agent && (match ttype {
            Some(s) => t.trait_type@ == s,
            None => true,
        })
}

/// The traits of `agent` whose key or value has `query` as a substring.
pub open spec fn spec_fact_filter(agent: Seq<char>, query: Seq<char>) -> spec_fn(
    PersonaTrait,
) -> bool {
    |t: PersonaTrait|
        t.agent_name@ == agent && (strutil::spec_contains(t.trait_key@, query)
            || strutil::spec_contains(t.trait_value@, query))
}

impl MemoryStore {
    /// Finds or creates the profile for `profile.agent_name`; an existing
    /// profile only has its update time advanced. Returns the profile's id.
    pub fn upsert_persona_profile(&mut self, profile: PersonaProfile, now_ms: u64) -> (r: i64)
        requires
            old(self).wf(),
            old(self).profiles@.len() + 1 <= i64::MAX,
        ensures
            final(self).wf(),
            final(self).sessions == old(self).sessions,
            final(self).events == old(self).events,
            final(self).chunks == old(self).chunks,
            final(self).mappings == old(self).mappings,
            final(self).nodes == old(self).nodes,
            final(self).edges == old(self).edges,
            final(self).traits == old(self).traits,
            match spec_profile_index(old(self).profiles@, profile.agent_name@) {
                Some(i) => {
                    &&& r == i + 1
                    &&& final(self).profiles@.len() == old(self).profiles@.len()
                    &&& final(self).profiles@[i] == (PersonaProfile {
                        updated_at: Some(now_ms),
                        ..old(self).profiles@[i]
                    })
                    &&& forall|k: int|
                        0 <= k < old(self).profiles@.len() && k != i ==> final(self).profiles@[k]
                            == #[trigger] old(self).profiles@[k]
                },
                None => {
                    &&& r == old(self).profiles@.len() + 1
                    &&& final(self).profiles@.len() == old(self).profiles@.len() + 1
                    &&& forall|k: int|
                        0 <= k < old(self).profiles@.len() ==> final(self).profiles@[k]
                            == #[trigger] old(self).profiles@[k]
                    &&& final(self).profiles@.last().id == Some(r)
                    &&& final(self).profiles@.last().agent_name@ == profile.agent_name@
                    &&& final(self).profiles@.last().created_at == Some(now_ms)
                    &&& final(self).profiles@.last().updated_at == Some(now_ms)
                },
            },
    {
        let n = self.profiles.len();
        let mut i: usize = 0;
        while i < n
            invariant
                n == self.profiles@.len(),
                i <= n,
                self.wf(),
                *self == *old(self),
                forall|k: int|
                    0 <= k < i ==> (#[trigger] self.profiles@[k]).agent_name@
                        != profile.agent_name@,
            decreases n - i,
        {
            if strutil::str_eq(self.profiles[i].agent_name.as_str(), profile.agent_name.as_str()) {
                proof {
                    let s = self.profiles@;
                    let c = choose|k: int|
                        0 <= k < s.len() && (#[trigger] s[k]).agent_name@ == profile.agent_name@;
                    if c != i {
                        assert(s[c].agent_name@ != s[i as int].agent_name@);
                    }
                }
                self.profiles[i].updated_at = Some(now_ms);
                proof {
                    assert(self.profiles@[i as int].id == Some((i + 1) as i64));
                }
                let id = self.profiles[i].id;
                return match id {
                    Some(v) => v,
                    None => 0,
                };
            }
            i += 1;
        }
        let id = (n as i64) + 1;
        self.profiles.push(
            PersonaProfile {
                id: Some(id),
                agent_name: profile.agent_name,
                created_at: Some(now_ms),
                updated_at: Some(now_ms),
            },
        );
        id
    }

    /// The profile of `agent_name`, when one exists.
    pub fn get_persona_profile(&self, agent_name: &str) -> (r: Option<PersonaProfile>)
        requires
            self.wf(),
        ensures
            match spec_profile_index(self.profiles@, agent_name@) {
                Some(i) => r == Some(self.profiles@[i]),
                None => r is None,
            },
    {
        let n = self.profiles.len();
        let mut i: usize = 0;
        while i < n
            invariant
                n == self.profiles@.len(),
                i <= n,
                self.wf(),
                forall|k: int|
                    0 <= k < i ==> (#[trigger] self.profiles@[k]).agent_name@ != agent_name@,
            decreases n - i,
        {
            if strutil::str_eq(self.profiles[i].agent_name.as_str(), agent_name) {
                proof {
                    let s = self.profiles@;
                    let c = choose|k: int|
                        0 <= k < s.len() && (#[trigger] s[k]).agent_name@ == agent_name@;
                    if c != i {
                        assert(s[c].agent_name@ != s[i as int].agent_name@);
                    }
                }
                let p = &self.profiles[i];
                return Some(
                    PersonaProfile {
                        id: p.id,
                        agent_name: p.agent_name.clone(),
                        created_at: p.created_at,
                        updated_at: p.updated_at,
                    },
                );
            }
            i += 1;
        }
        None
    }

    /// Creates or replaces the trait keyed `(agent, trait type, trait key)`:
    /// the value, confidence, stability and source are taken from `t`, the
    /// observation time is set to `now_ms`, and an existing row keeps its id.
    /// Returns the trait's id.
    pub fn upsert_persona_trait(&mut self, t: PersonaTrait, now_ms: u64) -> (r: i64)
        requires
            old(self).wf(),
            old(self).traits@.len() + 1 <= i64::MAX,
        ensures
            final(self).wf(),
            final(self).sessions == old(self).sessions,
            final(self).events == old(self).events,
            final(self).chunks == old(self).chunks,
            final(self).mappings == old(self).mappings,
            final(self).nodes == old(self).nodes,
            final(self).edges == old(self).edges,
            final(self).profiles == old(self).profiles,
            match spec_trait_index(old(self).traits@, t.agent_name@, t.trait_type@, t.trait_key@) {
                Some(i) => {
                    &&& r == i + 1
                    &&& final(self).traits@.len() == old(self).traits@.len()
                    &&& final(self).traits@[i] == (PersonaTrait {
                        trait_value: t.trait_value,
                        confidence: t.confidence,
                        stability: t.stability,
                        last_seen: Some(now_ms),
                        source_event_id: t.source_event_id,
                        ..old(self).traits@[i]
                    })
                    &&& forall|k: int|
                        0 <= k < old(self).traits@.len() && k != i ==> final(self).traits@[k]
                            == #[trigger] old(self).traits@[k]
                },
                None => {
                    &&& r == old(self).traits@.len() + 1
                    &&& final(self).traits@.len() == old(self).traits@.len() + 1
                    &&& forall|k: int|
                        0 <= k < old(self).traits@.len() ==> final(self).traits@[k]
                            == #[trigger] old(self).traits@[k]
                    &&& final(self).traits@.last() == (PersonaTrait {
                        id: Some(r),
                        last_seen: Some(now_ms),
                        ..t
                    })
                },
            },
    {
        let n = self.traits.len();
        let mut i: usize = 0;
        while i < n
            invariant
                n == self.traits@.len(),
                i <= n,
                self.wf(),
                *self == *old(self),
                forall|k: int|
                    0 <= k < i ==> !((#[trigger] self.traits@[k]).agent_name@ == t.agent_name@
                        && self.traits@[k].trait_type@ == t.trait_type@
                        && self.traits@[k].trait_key@ == t.trait_key@),
            decreases n - i,
        {
            if strutil::str_eq(self.traits[i].agent_name.as_str(), t.agent_name.as_str())
                && strutil::str_eq(self.traits[i].trait_type.as_str(), t.trait_type.as_str())
                && strutil::str_eq(self.traits[i].trait_key.as_str(), t.trait_key.as_str()) {
                proof {
                    let s = self.traits@;
                    let c = choose|k: int|
                        0 <= k < s.len() && (#[trigger] s[k]).agent_name@ == t.agent_name@
                            && s[k].trait_type@ == t.trait_type@ && s[k].trait_key@
                            == t.trait_key@;
                    if c != i {
                        assert(!(s[c].agent_name@ == s[i as int].agent_name@ && s[c].trait_type@
                            == s[i as int].trait_type@ && s[c].trait_key@
                            == s[i as int].trait_key@));
                    }
                }
                self.traits[i].trait_value = t.trait_value;
                self.traits[i].confidence = t.confidence;
                self.traits[i].stability = t.stability;
                self.traits[i].last_seen = Some(now_ms);
                self.traits[i].source_event_id = t.source_event_id;
                proof {
                    assert(self.traits@[i as int].id == Some((i + 1) as i64));
                }
                let id = self.traits[i].id;
                return match id {
                    Some(v) => v,
                    None => 0,
                };
            }
            i += 1;
        }
        let id = (n as i64) + 1;
        self.traits.push(PersonaTrait { id: Some(id), last_seen: Some(now_ms), ..t });
        id
    }

    /// The traits of `agent_name`, optionally narrowed to one trait type,
    /// ranked by stability, confidence and recency, at most `top_k` of them.
    pub fn list_persona_traits(
        &self,
        agent_name: &str,
        trait_type: Option<&str>,
        top_k: Option<usize>,
    ) -> (r: Vec<PersonaTrait>)
        requires
            self.wf(),
        ensures
            sorted_by(r@, trait_order()),
            ({
                let kept = self.traits@.filter(
                    spec_trait_filter(
                        agent_name@,
                        match trait_type {
                            Some(t) => Some(t@),
                            None => None,
                        },
                    ),
                );
                &&& r@.len() == (match top_k {
                    Some(k) => if k <= kept.len() {
                        k as int
                    } else {
                        kept.len() as int
                    },
                    None => kept.len() as int,
                })
                &&& exists|full: Seq<PersonaTrait>|
                    sorted_by(full, trait_order()) && #[trigger] full.to_multiset()
                        == kept.to_multiset() && r@ == full.take(r@.len() as int)
            }),
    {
        let ghost ttv: Option<Seq<char>> = match trait_type {
            Some(t) => Some(t@),
            None => None,
        };
        let ghost pred = spec_trait_filter(agent_name@, ttv);
        let mut kept: Vec<PersonaTrait> = Vec::new();
        let n = self.traits.len();
        let mut i: usize = 0;
        proof {
            reveal(Seq::filter);
            assert(self.traits@.subrange(0, 0) =~= Seq::<PersonaTrait>::empty());
        }
        while i < n
            invariant
                n == self.traits@.len(),
                i <= n,
                pred == spec_trait_filter(agent_name@, ttv),
                ttv == (match trait_type {
                    Some(t) => Some(t@),
                    None => None::<Seq<char>>,
                }),
                kept@ == self.traits@.subrange(0, i as int).filter(pred),
            decreases n - i,
        {
            let ghost pre = self.traits@.subrange(0, i as int);
            let matches_agent = strutil::str_eq(self.traits[i].agent_name.as_str(), agent_name);
            let matches_type = match trait_type {
                Some(t) => strutil::str_eq(self.traits[i].trait_type.as_str(), t),
                None => true,
            };
            proof {
                assert(pred(self.traits@[i as int]) == (matches_agent && matches_type));
            }
            if matches_agent && matches_type {
                kept.push(clone_trait(&self.traits[i]));
            }
            proof {
                reveal(Seq::filter);
                let post = self.traits@.subrange(0, i + 1);
                assert(post.drop_last() =~= pre);
                assert(post.last() == self.traits@[i as int]);
            }
            i += 1;
        }
        proof {
            assert(self.traits@.subrange(0, n as int) =~= self.traits@);
        }
        let mut sorted = sort_traits(kept);
        let ghost full = sorted@;
        proof {
            vstd::seq_lib::to_multiset_len(full);
            vstd::seq_lib::to_multiset_len(kept@);
        }
        match top_k {
            Some(k) => {
                if k < sorted.len() {
                    sorted.truncate(k);
                }
            },
            None => {},
        }
        proof {
            assert(sorted@ == full.take(sorted@.len() as int)) by {
                assert(sorted@ =~= full.take(sorted@.len() as int));
            }
            assert forall|a: int, b: int|
                0 <= a < b < sorted@.len() implies trait_order()(sorted@[a], sorted@[b]) by {
                assert(trait_order()(full[a], full[b]));
                assert(sorted@[a] == full[a]);
                assert(sorted@[b] == full[b]);
            }
        }
        sorted
    }

    /// The traits of `agent_name` whose key or value has `query` as a
    /// substring, ranked by stability, confidence and recency, at most
    /// `top_k` of them.
    pub fn get_relevant_persona_facts(&self, agent_name: &str, query: &str, top_k: usize) -> (r:
        Vec<PersonaTrait>)
        requires
            self.wf(),
        ensures
            sorted_by(r@, trait_order()),
            ({
                let kept = self.traits@.filter(spec_fact_filter(agent_name@, query@));
                &&& r@.len() == (if top_k <= kept.len() {
                    top_k as int
                } else {
                    kept.len() as int
                })
                &&& exists|full: Seq<PersonaTrait>|
                    sorted_by(full, trait_order()) && #[trigger] full.to_multiset()
                        == kept.to_multiset() && r@ == full.take(r@.len() as int)
            }),
    {
        let ghost pred = spec_fact_filter(agent_name@, query@);
        let mut kept: Vec<PersonaTrait> = Vec::new();
        let n = self.traits.len();
        let mut i: usize = 0;
        proof {
            reveal(Seq::filter);
            assert(self.traits@.subrange(0, 0) =~= Seq::<PersonaTrait>::empty());
        }
        while i < n
            invariant
                n == self.traits@.len(),
                i <= n,
                pred == spec_fact_filter(agent_name@, query@),
                kept@ == self.traits@.subrange(0, i as int).filter(pred),
            decreases n - i,
        {
            let ghost pre = self.traits@.subrange(0, i as int);
            let matches_agent = strutil::str_eq(self.traits[i].agent_name.as_str(), agent_name);
            let hit = matches_agent && (strutil::str_contains(
                self.traits[i].trait_key.as_str(),
                query,
            ) || strutil::str_contains(self.traits[i].trait_value.as_str(), query));
            proof {
                assert(pred(self.traits@[i as int]) == hit);
            }
            if hit {
                kept.push(clone_trait(&self.traits[i]));
            }
            proof {
                reveal(Seq::filter);
                let post = self.traits@.subrange(0, i + 1);
                assert(post.drop_last() =~= pre);
                assert(post.last() == self.traits@[i as int]);
            }
            i += 1;
        }
        proof {
            assert(self.traits@.subrange(0, n as int) =~= self.traits@);
        }
        let mut sorted = sort_traits(kept);
        let ghost full = sorted@;
        proof {
            vstd::seq_lib::to_multiset_len(full);
            vstd::seq_lib::to_multiset_len(kept@);
        }
        if top_k < sorted.len() {
            sorted.truncate(top_k);
        }
        proof {
            assert(sorted@ == full.take(sorted@.len() as int)) by {
                assert(sorted@ =~= full.take(sorted@.len() as int));
            }
            assert forall|a: int, b: int|
                0 <= a < b < sorted@.len() implies trait_order()(sorted@[a], sorted@[b]) by {
                assert(trait_order()(full[a], full[b]));
                assert(sorted@[a] == full[a]);
                assert(sorted@[b] == full[b]);
            }
        }
        sorted
    }
}

} // verus!
