//! The persistent store's data model and rules: sessions, memory events,
//! semantic chunks and their provenance, the knowledge graph, and persona
//! traits.
//!
//! The store is a value; physical persistence mirrors it outside the library.
//! Its invariants: at most one session is active, events are held in
//! non-decreasing timestamp order, row ids are consecutive from 1, graph nodes
//! are unique per (entity type, entity name), edges per (from, to, relation),
//! and persona traits per (agent, trait type, trait key).
//!
//! Fractional columns (weights, sentiment, importance, confidence, stability)
//! are integers in thousandths; timestamps are epoch milliseconds supplied by
//! the caller.

use vstd::prelude::*;

verus! {

broadcast use vstd::seq_lib::group_to_multiset_ensures;

/// One conversation session.
#[derive(Debug, Clone, PartialEq)]
pub struct Session {
    /// Row id, consecutive from 1.
    pub id: i64,
    /// Agent the session belongs to.
    pub agent_name: String,
    /// Display title; empty when none was given.
    pub title: String,
    /// When the session was opened, epoch milliseconds.
    pub started_at: u64,
    /// When the session was closed, if it was.
    pub ended_at: Option<u64>,
    /// Whether this is the session new turns go to.
    pub is_active: bool,
}

/// One conversation turn, append-only.
#[derive(Debug, Clone, PartialEq)]
pub struct MemoryEvent {
    /// Session the turn belongs to.
    pub session_id: i64,
    /// Agent that handled the turn.
    pub agent_name: String,
    /// "user" or "assistant".
    pub role: String,
    /// The turn's text.
    pub text: String,
    /// Topic label, when one was assigned.
    pub topic: Option<String>,
    /// Sentiment in thousandths, when scored.
    pub sentiment: Option<i64>,
    /// Importance in thousandths, when scored.
    pub importance: Option<i64>,
    /// Decay factor in thousandths.
    pub decay: i64,
    /// Serialized embedding vector, when one was computed.
    pub embedding: Option<Vec<u8>>,
    /// When the turn happened, epoch milliseconds; stamped by the store.
    pub ts: u64,
}

/// The mathematical value of a [`MemoryEvent`].
#[verifier::ext_equal]
pub ghost struct MemoryEventV {
    /// Session the turn belongs to.
    pub session_id: i64,
    /// Agent that handled the turn.
    pub agent_name: Seq<char>,
    /// "user" or "assistant".
    pub role: Seq<char>,
    /// The turn's text.
    pub text: Seq<char>,
    /// Topic label, when one was assigned.
    pub topic: Option<Seq<char>>,
    /// Sentiment in thousandths, when scored.
    pub sentiment: Option<i64>,
    /// Importance in thousandths, when scored.
    pub importance: Option<i64>,
    /// Decay factor in thousandths.
    pub decay: i64,
    /// Embedding bytes, when computed.
    pub embedding: Option<Seq<u8>>,
    /// When the turn happened, epoch milliseconds.
    pub ts: u64,
}

impl View for MemoryEvent {
    type V = MemoryEventV;

    open spec fn view(&self) -> MemoryEventV {
        MemoryEventV {
            session_id: self.session_id,
            agent_name: self.agent_name@,
            role: self.role@,
            text: self.text@,
            topic: match self.topic {
                Some(t) => Some(t@),
                None => None,
            },
            sentiment: self.sentiment,
            importance: self.importance,
            decay: self.decay,
            embedding: match self.embedding {
                Some(b) => Some(b@),
                None => None,
            },
            ts: self.ts,
        }
    }
}

impl DeepView for MemoryEvent {
    type V = MemoryEventV;

    open spec fn deep_view(&self) -> MemoryEventV {
        self.view()
    }
}

/// A condensed, weighted summary of one or more turns.
#[derive(Debug, Clone, PartialEq)]
pub struct SemanticChunk {
    /// Row id; assigned by the store on insert.
    pub id: Option<i64>,
    /// Short title, when one was derived.
    pub title: Option<String>,
    /// The summary text.
    pub summary: String,
    /// Comma-joined keywords, when any were extracted.
    pub keywords: Option<String>,
    /// Serialized embedding vector, when one was computed.
    pub embedding: Option<Vec<u8>>,
    /// When the chunk was last referenced, epoch milliseconds.
    pub last_ref_ts: Option<u64>,
    /// Importance weight in thousandths.
    pub weight: i64,
}

/// The mathematical value of a [`SemanticChunk`].
#[verifier::ext_equal]
pub ghost struct SemanticChunkV {
    /// Row id; assigned by the store on insert.
    pub id: Option<i64>,
    /// Short title, when one was derived.
    pub title: Option<Seq<char>>,
    /// The summary text.
    pub summary: Seq<char>,
    /// Comma-joined keywords, when any were extracted.
    pub keywords: Option<Seq<char>>,
    /// Embedding bytes, when computed.
    pub embedding: Option<Seq<u8>>,
    /// When the chunk was last referenced, epoch milliseconds.
    pub last_ref_ts: Option<u64>,
    /// Importance weight in thousandths.
    pub weight: i64,
}

impl View for SemanticChunk {
    type V = SemanticChunkV;

    open spec fn view(&self) -> SemanticChunkV {
        SemanticChunkV {
            id: self.id,
            title: match self.title {
                Some(t) => Some(t@),
                None => None,
            },
            summary: self.summary@,
            keywords: match self.keywords {
                Some(k) => Some(k@),
                None => None,
            },
            embedding: match self.embedding {
                Some(b) => Some(b@),
                None => None,
            },
            last_ref_ts: self.last_ref_ts,
            weight: self.weight,
        }
    }
}

impl DeepView for SemanticChunk {
    type V = SemanticChunkV;

    open spec fn deep_view(&self) -> SemanticChunkV {
        self.view()
    }
}

/// Provenance link from a chunk to the session and events it came from.
#[derive(Debug, Clone, PartialEq)]
pub struct SemanticChunkMapping {
    /// Row id; assigned by the store on insert.
    pub id: Option<i64>,
    /// The chunk.
    pub chunk_id: i64,
    /// The session it was aggregated from.
    pub session_id: i64,
    /// The origin event ids, as a bracketed list.
    pub memory_event_ids: String,
    /// When the mapping was created, epoch milliseconds.
    pub created_ts: Option<u64>,
}

/// One entity in the knowledge graph.
#[derive(Debug, Clone, PartialEq)]
pub struct GraphNode {
    /// Row id; assigned by the store on insert.
    pub id: Option<i64>,
    /// Kind of entity: "person", "organization", "preference", "task",
    /// "concept" or another label.
    pub entity_type: String,
    /// The entity's name.
    pub entity_name: String,
}

/// A weighted co-occurrence edge between two entities.
#[derive(Debug, Clone, PartialEq)]
pub struct GraphEdge {
    /// Row id; assigned by the store on insert.
    pub id: Option<i64>,
    /// Lower endpoint (the graph builder canonicalizes node ids so that
    /// `from_node <= to_node`).
    pub from_node: i64,
    /// Higher endpoint.
    pub to_node: i64,
    /// Relation label, "co_occurs" by default.
    pub relation_type: String,
    /// Accumulated weight in thousandths.
    pub weight: i64,
}

/// Aggregate persona record of one agent.
#[derive(Debug, Clone, PartialEq)]
pub struct PersonaProfile {
    /// Row id; assigned by the store on insert.
    pub id: Option<i64>,
    /// The agent; unique.
    pub agent_name: String,
    /// When the profile was created, epoch milliseconds.
    pub created_at: Option<u64>,
    /// When it was last touched.
    pub updated_at: Option<u64>,
}

/// One normalized fact about the user, keyed by (type, key) per agent.
#[derive(Debug, Clone, PartialEq)]
pub struct PersonaTrait {
    /// Row id; assigned by the store on insert and kept across updates.
    pub id: Option<i64>,
    /// The agent the fact belongs to.
    pub agent_name: String,
    /// "preference", "attribute", "goal" or another label.
    pub trait_type: String,
    /// The fact's key, such as "food" or "music".
    pub trait_key: String,
    /// The fact's normalized value.
    pub trait_value: String,
    /// Confidence in thousandths.
    pub confidence: i64,
    /// Stability in thousandths; grows with repeated confirmation.
    pub stability: i64,
    /// When the fact was last observed, epoch milliseconds.
    pub last_seen: Option<u64>,
    /// The event the fact came from, if recorded.
    pub source_event_id: Option<i64>,
}

/// The id value of an optional row id; unassigned reads as 0.
pub open spec fn spec_id_of(id: Option<i64>) -> int {
    match id {
        Some(v) => v as int,
        None => 0,
    }
}

/// The in-memory persistent store.
#[derive(Debug)]
pub struct MemoryStore {
    /// Sessions, in creation order.
    pub sessions: Vec<Session>,
    /// Memory events, in timestamp order.
    pub events: Vec<MemoryEvent>,
    /// Semantic chunks, in creation order.
    pub chunks: Vec<SemanticChunk>,
    /// Chunk provenance mappings, in creation order.
    pub mappings: Vec<SemanticChunkMapping>,
    /// Graph nodes, in creation order.
    pub nodes: Vec<GraphNode>,
    /// Graph edges, in creation order.
    pub edges: Vec<GraphEdge>,
    /// Persona profiles, in creation order.
    pub profiles: Vec<PersonaProfile>,
    /// Persona traits, in creation order.
    pub traits: Vec<PersonaTrait>,
}

/// At most one session is active.
pub open spec fn spec_one_active(sessions: Seq<Session>) -> bool {
    forall|i: int, j: int|
        0 <= i < j < sessions.len() ==> !((#[trigger] sessions[i]).is_active
            && (#[trigger] sessions[j]).is_active)
}

/// Events are in non-decreasing timestamp order.
pub open spec fn spec_events_sorted(events: Seq<MemoryEventV>) -> bool {
    forall|i: int, j: int|
        0 <= i < j < events.len() ==> (#[trigger] events[i]).ts <= (#[trigger] events[j]).ts
}

impl MemoryStore {
    /// The store's invariant.
    pub open spec fn wf(self) -> bool {
        &&& self.sessions@.len() <= i64::MAX
        &&& self.events@.len() <= i64::MAX
        &&& self.chunks@.len() <= i64::MAX
        &&& self.mappings@.len() <= i64::MAX
        &&& self.nodes@.len() <= i64::MAX
        &&& self.edges@.len() <= i64::MAX
        &&& self.profiles@.len() <= i64::MAX
        &&& self.traits@.len() <= i64::MAX
        &&& spec_one_active(self.sessions@)
        &&& forall|i: int|
            0 <= i < self.sessions@.len() ==> (#[trigger] self.sessions@[i]).id == i + 1
        &&& spec_events_sorted(self.events.deep_view())
        &&& forall|i: int|
            0 <= i < self.chunks@.len() ==> (#[trigger] self.chunks@[i]).id == Some((i + 1) as i64)
        &&& forall|i: int|
            0 <= i < self.mappings@.len() ==> (#[trigger] self.mappings@[i]).id == Some(
                (i + 1) as i64,
            )
        &&& forall|i: int|
            0 <= i < self.nodes@.len() ==> (#[trigger] self.nodes@[i]).id == Some((i + 1) as i64)
        &&& forall|i: int, j: int|
            0 <= i < j < self.nodes@.len() ==> !((#[trigger] self.nodes@[i]).entity_type@
                == (#[trigger] self.nodes@[j]).entity_type@ && self.nodes@[i].entity_name@
                == self.nodes@[j].entity_name@)
        &&& forall|i: int|
            0 <= i < self.edges@.len() ==> (#[trigger] self.edges@[i]).id == Some((i + 1) as i64)
        &&& forall|i: int, j: int|
            0 <= i < j < self.edges@.len() ==> !((#[trigger] self.edges@[i]).from_node
                == (#[trigger] self.edges@[j]).from_node && self.edges@[i].to_node
                == self.edges@[j].to_node && self.edges@[i].relation_type@
                == self.edges@[j].relation_type@)
        &&& forall|i: int|
            0 <= i < self.profiles@.len() ==> (#[trigger] self.profiles@[i]).id == Some(
                (i + 1) as i64,
            )
        &&& forall|i: int, j: int|
            0 <= i < j < self.profiles@.len() ==> (#[trigger] self.profiles@[i]).agent_name@
                != (#[trigger] self.profiles@[j]).agent_name@
        &&& forall|i: int|
            0 <= i < self.traits@.len() ==> (#[trigger] self.traits@[i]).id == Some((i + 1) as i64)
        &&& forall|i: int, j: int|
            0 <= i < j < self.traits@.len() ==> !((#[trigger] self.traits@[i]).agent_name@
                == (#[trigger] self.traits@[j]).agent_name@ && self.traits@[i].trait_type@
                == self.traits@[j].trait_type@ && self.traits@[i].trait_key@
                == self.traits@[j].trait_key@)
    }

    /// An empty store.
    pub fn new() -> (r: MemoryStore)
        ensures
            r.wf(),
            r.sessions@.len() == 0,
            r.events@.len() == 0,
            r.chunks@.len() == 0,
            r.mappings@.len() == 0,
            r.nodes@.len() == 0,
            r.edges@.len() == 0,
            r.profiles@.len() == 0,
            r.traits@.len() == 0,
    {
        MemoryStore {
            sessions: Vec::new(),
            events: Vec::new(),
            chunks: Vec::new(),
            mappings: Vec::new(),
            nodes: Vec::new(),
            edges: Vec::new(),
            profiles: Vec::new(),
            traits: Vec::new(),
        }
    }
}

/// A session after the deactivation sweep at `now_ms`: an active session is
/// closed, the rest are untouched.
pub open spec fn spec_deactivated(s: Session, now_ms: u64) -> Session {
    if s.is_active {
        Session { is_active: false, ended_at: Some(now_ms), ..s }
    } else {
        s
    }
}

/// The id of the active session, when one exists.
pub open spec fn spec_active_session_id(sessions: Seq<Session>) -> Option<i64> {
    if exists|i: int| 0 <= i < sessions.len() && (#[trigger] sessions[i]).is_active {
        Some(
            sessions[choose|i: int|
                0 <= i < sessions.len() && (#[trigger] sessions[i]).is_active].id,
        )
    } else {
        None
    }
}

/// The timestamp an event inserted at `now_ms` is stamped with: the stored
/// clock never runs backwards past the latest stored event.
pub open spec fn spec_stamped_ts(events: Seq<MemoryEventV>, now_ms: u64) -> u64 {
    if events.len() > 0 && events.last().ts > now_ms {
        events.last().ts
    } else {
        now_ms
    }
}

impl MemoryStore {
    /// Closes every active session (at most one under the invariant).
    pub fn close_active_session(&mut self, now_ms: u64)
        requires
            old(self).wf(),
        ensures
            final(self).wf(),
            final(self).sessions@.len() == old(self).sessions@.len(),
            forall|i: int|
                0 <= i < old(self).sessions@.len() ==> final(self).sessions@[i]
                    == spec_deactivated(#[trigger] old(self).sessions@[i], now_ms),
            final(self).events == old(self).events,
            final(self).chunks == old(self).chunks,
            final(self).mappings == old(self).mappings,
            final(self).nodes == old(self).nodes,
            final(self).edges == old(self).edges,
            final(self).profiles == old(self).profiles,
            final(self).traits == old(self).traits,
    {
        let n = self.sessions.len();
        let mut i: usize = 0;
        while i < n
            invariant
                n == self.sessions@.len(),
                n == old(self).sessions@.len(),
                i <= n,
                forall|k: int|
                    0 <= k < i ==> self.sessions@[k] == spec_deactivated(
                        #[trigger] old(self).sessions@[k],
                        now_ms,
                    ),
                forall|k: int| i <= k < n ==> self.sessions@[k] == old(self).sessions@[k],
                self.events == old(self).events,
                self.chunks == old(self).chunks,
                self.mappings == old(self).mappings,
                self.nodes == old(self).nodes,
                self.edges == old(self).edges,
                self.profiles == old(self).profiles,
                self.traits == old(self).traits,
            decreases n - i,
        {
            if self.sessions[i].is_active {
                self.sessions[i].is_active = false;
                self.sessions[i].ended_at = Some(now_ms);
            }
            i += 1;
        }
        proof {
            assert forall|k: int| 0 <= k < self.sessions@.len() implies !(
            #[trigger] self.sessions@[k]).is_active by {
                assert(self.sessions@[k] == spec_deactivated(old(self).sessions@[k], now_ms));
            }
            assert forall|k: int| 0 <= k < self.sessions@.len() implies (
            #[trigger] self.sessions@[k]).id == k + 1 by {
                assert(self.sessions@[k] == spec_deactivated(old(self).sessions@[k], now_ms));
            }
        }
    }

    /// Closes any active session, then opens a new active one for
    /// `agent_name`; returns the new session's id.
    pub fn open_session(&mut self, agent_name: &str, title: Option<&str>, now_ms: u64) -> (r: i64)
        requires
            old(self).wf(),
            old(self).sessions@.len() + 1 <= i64::MAX,
        ensures
            final(self).wf(),
            r == old(self).sessions@.len() + 1,
            final(self).sessions@.len() == old(self).sessions@.len() + 1,
            forall|i: int|
                0 <= i < old(self).sessions@.len() ==> final(self).sessions@[i]
                    == spec_deactivated(#[trigger] old(self).sessions@[i], now_ms),
            final(self).sessions@.last().id == r,
            final(self).sessions@.last().agent_name@ == agent_name@,
            final(self).sessions@.last().title@ == (match title {
                Some(t) => t@,
                None => Seq::<char>::empty(),
            }),
            final(self).sessions@.last().started_at == now_ms,
            final(self).sessions@.last().ended_at is None,
            final(self).sessions@.last().is_active,
            spec_active_session_id(final(self).sessions@) == Some(r),
            final(self).events == old(self).events,
            final(self).chunks == old(self).chunks,
            final(self).mappings == old(self).mappings,
            final(self).nodes == old(self).nodes,
            final(self).edges == old(self).edges,
            final(self).profiles == old(self).profiles,
            final(self).traits == old(self).traits,
    {
        self.close_active_session(now_ms);
        let id = (self.sessions.len() as i64) + 1;
        let title_s = match title {
            Some(t) => String::from_str(t),
            None => String::new(),
        };
        let session = Session {
            id,
            agent_name: String::from_str(agent_name),
            title: title_s,
            started_at: now_ms,
            ended_at: None,
            is_active: true,
        };
        self.sessions.push(session);
        proof {
            let s = self.sessions@;
            let w = s.len() - 1;
            assert(s[w].is_active);
            assert forall|k: int| 0 <= k < w implies !(#[trigger] s[k]).is_active by {
                assert(s[k] == spec_deactivated(old(self).sessions@[k], now_ms));
            }
            assert(spec_active_session_id(s) == Some(s[w].id)) by {
                let c = choose|i: int| 0 <= i < s.len() && (#[trigger] s[i]).is_active;
                assert(c == w);
            }
            assert forall|k: int| 0 <= k < s.len() implies (#[trigger] s[k]).id == k + 1 by {
                if k < w {
                    assert(s[k] == spec_deactivated(old(self).sessions@[k], now_ms));
                }
            }
        }
        id
    }

    /// The id of the active session, when one exists.
    pub fn get_active_session(&self) -> (r: Option<i64>)
        requires
            self.wf(),
        ensures
            r == spec_active_session_id(self.sessions@),
    {
        let n = self.sessions.len();
        let mut i: usize = 0;
        while i < n
            invariant
                n == self.sessions@.len(),
                i <= n,
                forall|k: int| 0 <= k < i ==> !(#[trigger] self.sessions@[k]).is_active,
                self.wf(),
            decreases n - i,
        {
            if self.sessions[i].is_active {
                proof {
                    let s = self.sessions@;
                    let c = choose|k: int| 0 <= k < s.len() && (#[trigger] s[k]).is_active;
                    if c != i {
                        assert(!(s[c].is_active && s[i as int].is_active));
                    }
                }
                return Some(self.sessions[i].id);
            }
            i += 1;
        }
        None
    }

    /// Sets the title of session `session_id`; a missing id changes nothing.
    pub fn upsert_session_title(&mut self, session_id: i64, title: &str)
        requires
            old(self).wf(),
        ensures
            final(self).wf(),
            final(self).sessions@.len() == old(self).sessions@.len(),
            forall|i: int|
                0 <= i < old(self).sessions@.len() && old(self).sessions@[i].id != session_id
                    ==> final(self).sessions@[i] == #[trigger] old(self).sessions@[i],
            forall|i: int|
                0 <= i < old(self).sessions@.len() && old(self).sessions@[i].id == session_id
                    ==> final(self).sessions@[i] == (Session {
                    title: (#[trigger] final(self).sessions@[i]).title,
                    ..old(self).sessions@[i]
                }) && final(self).sessions@[i].title@ == title@,
            final(self).events == old(self).events,
            final(self).chunks == old(self).chunks,
            final(self).mappings == old(self).mappings,
            final(self).nodes == old(self).nodes,
            final(self).edges == old(self).edges,
            final(self).profiles == old(self).profiles,
            final(self).traits == old(self).traits,
    {
        if session_id >= 1 && (session_id as u64) <= (self.sessions.len() as u64) {
            let idx = (session_id - 1) as usize;
            self.sessions[idx].title = String::from_str(title);
        }
    }

    /// Appends one turn, stamped with `now_ms` — or with the latest stored
    /// timestamp where the caller's clock has run backwards, a deliberate
    /// choice that keeps the table in its time-ascending order instead of
    /// restoring that order on every read. Returns the new row id.
    pub fn insert_memory_event(&mut self, event: MemoryEvent, now_ms: u64) -> (r: i64)
        requires
            old(self).wf(),
            old(self).events@.len() + 1 <= i64::MAX,
        ensures
            final(self).wf(),
            r == old(self).events@.len() + 1,
            final(self).events.deep_view() == old(self).events.deep_view().push(
                MemoryEventV {
                    ts: spec_stamped_ts(old(self).events.deep_view(), now_ms),
                    ..event@
                },
            ),
            final(self).sessions == old(self).sessions,
            final(self).chunks == old(self).chunks,
            final(self).mappings == old(self).mappings,
            final(self).nodes == old(self).nodes,
            final(self).edges == old(self).edges,
            final(self).profiles == old(self).profiles,
            final(self).traits == old(self).traits,
    {
        let n = self.events.len();
        let ts: u64 = if n > 0 {
            let last_ts = self.events[n - 1].ts;
            if last_ts > now_ms {
                last_ts
            } else {
                now_ms
            }
        } else {
            now_ms
        };
        let id = (n as i64) + 1;
        let stamped = MemoryEvent { ts, ..event };
        self.events.push(stamped);
        proof {
            assert(self.events.deep_view() =~= old(self).events.deep_view().push(
                MemoryEventV { ts, ..event@ },
            ));
            assert forall|i: int, j: int|
                0 <= i < j < self.events.deep_view().len() implies (#[trigger] self.events.deep_view()[i]).ts
                <= (#[trigger] self.events.deep_view()[j]).ts by {
                if j == self.events.deep_view().len() - 1 {
                    let ev = old(self).events.deep_view();
                    if ev.len() > 0 {
                        assert(ev[i].ts <= ev[ev.len() - 1].ts);
                    }
                }
            }
        }
        id
    }

    /// The events of session `session_id`, in non-decreasing timestamp order.
    pub fn list_memory_events(&self, session_id: i64) -> (r: Vec<MemoryEvent>)
        requires
            self.wf(),
        ensures
            r.deep_view() == self.events.deep_view().filter(
                |e: MemoryEventV| e.session_id == session_id,
            ),
            spec_events_sorted(r.deep_view()),
    {
        let mut out: Vec<MemoryEvent> = Vec::new();
        let mut i: usize = 0;
        let n = self.events.len();
        proof {
            reveal(Seq::filter);
            assert(self.events.deep_view().subrange(0, 0) =~= Seq::<MemoryEventV>::empty());
            assert(out.deep_view() =~= Seq::<MemoryEventV>::empty());
        }
        while i < n
            invariant
                n == self.events@.len(),
                i <= n,
                self.wf(),
                out.deep_view() == self.events.deep_view().subrange(0, i as int).filter(
                    |e: MemoryEventV| e.session_id == session_id,
                ),
                forall|a: int, k: int|
                    0 <= a < out.deep_view().len() && i <= k < n ==> (#[trigger] out.deep_view()[a]).ts
                        <= (#[trigger] self.events.deep_view()[k]).ts,
                spec_events_sorted(out.deep_view()),
            decreases n - i,
        {
            let ghost pre = self.events.deep_view().subrange(0, i as int);
            let ghost out_pre = out.deep_view();
            if self.events[i].session_id == session_id {
                let copy = clone_event(&self.events[i]);
                out.push(copy);
                proof {
                    assert(out.deep_view() =~= out_pre.push(self.events.deep_view()[i as int]));
                }
            }
            proof {
                reveal(Seq::filter);
                let post = self.events.deep_view().subrange(0, i + 1);
                assert(post.drop_last() =~= pre);
                assert(post.last() == self.events.deep_view()[i as int]);
            }
            i += 1;
        }
        proof {
            assert(self.events.deep_view().subrange(0, n as int) =~= self.events.deep_view());
        }
        out
    }

    /// Removes every memory event.
    pub fn clear_all_memory_events(&mut self)
        requires
            old(self).wf(),
        ensures
            final(self).wf(),
            final(self).events@.len() == 0,
            final(self).sessions == old(self).sessions,
            final(self).chunks == old(self).chunks,
            final(self).mappings == old(self).mappings,
            final(self).nodes == old(self).nodes,
            final(self).edges == old(self).edges,
            final(self).profiles == old(self).profiles,
            final(self).traits == old(self).traits,
    {
        self.events = Vec::new();
    }

    /// Stores one semantic chunk: the id and the reference time are assigned
    /// by the store. Returns the new row id.
    pub fn insert_semantic_chunk(&mut self, chunk: SemanticChunk, now_ms: u64) -> (r: i64)
        requires
            old(self).wf(),
            old(self).chunks@.len() + 1 <= i64::MAX,
        ensures
            final(self).wf(),
            r == old(self).chunks@.len() + 1,
            final(self).chunks.deep_view() == old(self).chunks.deep_view().push(
                SemanticChunkV { id: Some(r), last_ref_ts: Some(now_ms), ..chunk@ },
            ),
            final(self).sessions == old(self).sessions,
            final(self).events == old(self).events,
            final(self).mappings == old(self).mappings,
            final(self).nodes == old(self).nodes,
            final(self).edges == old(self).edges,
            final(self).profiles == old(self).profiles,
            final(self).traits == old(self).traits,
    {
        let id = (self.chunks.len() as i64) + 1;
        let stamped = SemanticChunk { id: Some(id), last_ref_ts: Some(now_ms), ..chunk };
        self.chunks.push(stamped);
        proof {
            assert(self.chunks.deep_view() =~= old(self).chunks.deep_view().push(
                SemanticChunkV { id: Some(id), last_ref_ts: Some(now_ms), ..chunk@ },
            ));
        }
        id
    }

    /// Advances the reference time of chunk `chunk_id` to `now_ms`; a missing
    /// id changes nothing.
    pub fn update_semantic_chunk_ref_time(&mut self, chunk_id: i64, now_ms: u64)
        requires
            old(self).wf(),
        ensures
            final(self).wf(),
            final(self).chunks@.len() == old(self).chunks@.len(),
            forall|i: int|
                0 <= i < old(self).chunks@.len() && old(self).chunks.deep_view()[i].id != Some(
                    chunk_id,
                ) ==> final(self).chunks.deep_view()[i] == #[trigger] old(
                    self,
                ).chunks.deep_view()[i],
            forall|i: int|
                0 <= i < old(self).chunks@.len() && old(self).chunks.deep_view()[i].id == Some(
                    chunk_id,
                ) ==> final(self).chunks.deep_view()[i] == (SemanticChunkV {
                    last_ref_ts: Some(now_ms),
                    ..#[trigger] old(self).chunks.deep_view()[i]
                }),
            final(self).sessions == old(self).sessions,
            final(self).events == old(self).events,
            final(self).mappings == old(self).mappings,
            final(self).nodes == old(self).nodes,
            final(self).edges == old(self).edges,
            final(self).profiles == old(self).profiles,
            final(self).traits == old(self).traits,
    {
        if chunk_id >= 1 && (chunk_id as u64) <= (self.chunks.len() as u64) {
            let idx = (chunk_id - 1) as usize;
            self.chunks[idx].last_ref_ts = Some(now_ms);
            proof {
                let dv = self.chunks.deep_view();
                let odv = old(self).chunks.deep_view();
                assert(dv[idx as int] =~= (SemanticChunkV {
                    last_ref_ts: Some(now_ms),
                    ..odv[idx as int]
                }));
                assert forall|i: int|
                    0 <= i < old(self).chunks@.len() && odv[i].id != Some(
                        chunk_id,
                    ) implies dv[i] == #[trigger] odv[i] by {
                    assert(odv[i] == old(self).chunks@[i]@);
                    assert(old(self).chunks@[i].id == Some((i + 1) as i64));
                    assert(i != idx);
                    assert(dv[i] == self.chunks@[i]@);
                }
                assert forall|i: int|
                    0 <= i < old(self).chunks@.len() && odv[i].id == Some(
                        chunk_id,
                    ) implies dv[i] == (SemanticChunkV {
                    last_ref_ts: Some(now_ms),
                    ..#[trigger] odv[i]
                }) by {
                    assert(odv[i] == old(self).chunks@[i]@);
                    assert(old(self).chunks@[i].id == Some((i + 1) as i64));
                    assert(i == idx);
                }
            }
        } else {
            proof {
                assert forall|i: int| 0 <= i < old(self).chunks@.len() implies #[trigger] old(
                    self,
                ).chunks.deep_view()[i].id != Some(chunk_id) by {
                    assert(old(self).chunks.deep_view()[i] == old(self).chunks@[i]@);
                    assert(old(self).chunks@[i].id == Some((i + 1) as i64));
                }
            }
        }
    }

    /// Stores a provenance mapping; the id and creation time are assigned by
    /// the store. Returns the new row id.
    pub fn insert_semantic_chunk_mapping(
        &mut self,
        mapping: SemanticChunkMapping,
        now_ms: u64,
    ) -> (r: i64)
        requires
            old(self).wf(),
            old(self).mappings@.len() + 1 <= i64::MAX,
        ensures
            final(self).wf(),
            r == old(self).mappings@.len() + 1,
            final(self).mappings@ == old(self).mappings@.push(
                SemanticChunkMapping { id: Some(r), created_ts: Some(now_ms), ..mapping },
            ),
            final(self).sessions == old(self).sessions,
            final(self).events == old(self).events,
            final(self).chunks == old(self).chunks,
            final(self).nodes == old(self).nodes,
            final(self).edges == old(self).edges,
            final(self).profiles == old(self).profiles,
            final(self).traits == old(self).traits,
    {
        let id = (self.mappings.len() as i64) + 1;
        self.mappings.push(
            SemanticChunkMapping { id: Some(id), created_ts: Some(now_ms), ..mapping },
        );
        id
    }

    /// The provenance mappings of chunk `chunk_id`, in creation order.
    pub fn get_chunk_mappings_by_chunk_id(&self, chunk_id: i64) -> (r: Vec<SemanticChunkMapping>)
        requires
            self.wf(),
        ensures
            r@ == self.mappings@.filter(|m: SemanticChunkMapping| m.chunk_id == chunk_id),
    {
        let mut out: Vec<SemanticChunkMapping> = Vec::new();
        let mut i: usize = 0;
        let n = self.mappings.len();
        proof {
            reveal(Seq::filter);
            assert(self.mappings@.subrange(0, 0) =~= Seq::<SemanticChunkMapping>::empty());
        }
        while i < n
            invariant
                n == self.mappings@.len(),
                i <= n,
                out@ == self.mappings@.subrange(0, i as int).filter(
                    |m: SemanticChunkMapping| m.chunk_id == chunk_id,
                ),
            decreases n - i,
        {
            let ghost pre = self.mappings@.subrange(0, i as int);
            if self.mappings[i].chunk_id == chunk_id {
                out.push(clone_mapping(&self.mappings[i]));
            }
            proof {
                reveal(Seq::filter);
                let post = self.mappings@.subrange(0, i + 1);
                assert(post.drop_last() =~= pre);
                assert(post.last() == self.mappings@[i as int]);
            }
            i += 1;
        }
        proof {
            assert(self.mappings@.subrange(0, n as int) =~= self.mappings@);
        }
        out
    }

    /// The provenance mappings recorded for session `session_id`, in creation
    /// order.
    pub fn get_chunk_mappings_by_session_id(
        &self,
        session_id: i64,
    ) -> (r: Vec<SemanticChunkMapping>)
        requires
            self.wf(),
        ensures
            r@ == self.mappings@.filter(|m: SemanticChunkMapping| m.session_id == session_id),
    {
        let mut out: Vec<SemanticChunkMapping> = Vec::new();
        let mut i: usize = 0;
        let n = self.mappings.len();
        proof {
            reveal(Seq::filter);
            assert(self.mappings@.subrange(0, 0) =~= Seq::<SemanticChunkMapping>::empty());
        }
        while i < n
            invariant
                n == self.mappings@.len(),
                i <= n,
                out@ == self.mappings@.subrange(0, i as int).filter(
                    |m: SemanticChunkMapping| m.session_id == session_id,
                ),
            decreases n - i,
        {
            let ghost pre = self.mappings@.subrange(0, i as int);
            if self.mappings[i].session_id == session_id {
                out.push(clone_mapping(&self.mappings[i]));
            }
            proof {
                reveal(Seq::filter);
                let post = self.mappings@.subrange(0, i + 1);
                assert(post.drop_last() =~= pre);
                assert(post.last() == self.mappings@[i as int]);
            }
            i += 1;
        }
        proof {
            assert(self.mappings@.subrange(0, n as int) =~= self.mappings@);
        }
        out
    }
}

/// Copies one event; the copy's value equals the original's.
pub fn clone_event(e: &MemoryEvent) -> (r: MemoryEvent)
    ensures
        r@ == e@,
{
    MemoryEvent {
        session_id: e.session_id,
        agent_name: e.agent_name.clone(),
        role: e.role.clone(),
        text: e.text.clone(),
        topic: clone_opt_string(&e.topic),
        sentiment: e.sentiment,
        importance: e.importance,
        decay: e.decay,
        embedding: clone_opt_bytes(&e.embedding),
        ts: e.ts,
    }
}

/// Copies one chunk; the copy's value equals the original's.
pub fn clone_chunk(c: &SemanticChunk) -> (r: SemanticChunk)
    ensures
        r@ == c@,
{
    SemanticChunk {
        id: c.id,
        title: clone_opt_string(&c.title),
        summary: c.summary.clone(),
        keywords: clone_opt_string(&c.keywords),
        embedding: clone_opt_bytes(&c.embedding),
        last_ref_ts: c.last_ref_ts,
        weight: c.weight,
    }
}

/// Copies one mapping.
pub fn clone_mapping(m: &SemanticChunkMapping) -> (r: SemanticChunkMapping)
    ensures
        r == *m,
{
    SemanticChunkMapping {
        id: m.id,
        chunk_id: m.chunk_id,
        session_id: m.session_id,
        memory_event_ids: m.memory_event_ids.clone(),
        created_ts: m.created_ts,
    }
}

/// Copies one graph node.
pub fn clone_node(n: &GraphNode) -> (r: GraphNode)
    ensures
        r == *n,
{
    GraphNode {
        id: n.id,
        entity_type: n.entity_type.clone(),
        entity_name: n.entity_name.clone(),
    }
}

/// Copies one graph edge.
pub fn clone_edge(e: &GraphEdge) -> (r: GraphEdge)
    ensures
        r == *e,
{
    GraphEdge {
        id: e.id,
        from_node: e.from_node,
        to_node: e.to_node,
        relation_type: e.relation_type.clone(),
        weight: e.weight,
    }
}

/// Copies one persona trait.
pub fn clone_trait(t: &PersonaTrait) -> (r: PersonaTrait)
    ensures
        r == *t,
{
    PersonaTrait {
        id: t.id,
        agent_name: t.agent_name.clone(),
        trait_type: t.trait_type.clone(),
        trait_key: t.trait_key.clone(),
        trait_value: t.trait_value.clone(),
        confidence: t.confidence,
        stability: t.stability,
        last_seen: t.last_seen,
        source_event_id: t.source_event_id,
    }
}

/// Copies an optional string.
fn clone_opt_string(s: &Option<String>) -> (r: Option<String>)
    ensures
        r == *s,
{
    match s {
        Some(v) => Some(v.clone()),
        None => None,
    }
}

/// Copies a byte vector.
fn clone_bytes(v: &Vec<u8>) -> (r: Vec<u8>)
    ensures
        r@ == v@,
{
    let mut out: Vec<u8> = Vec::new();
    let mut i: usize = 0;
    while i < v.len()
        invariant
            i <= v@.len(),
            out@ =~= v@.subrange(0, i as int),
        decreases v@.len() - i,
    {
        out.push(v[i]);
        i += 1;
    }
    proof {
        assert(out@ =~= v@);
    }
    out
}

/// Copies an optional byte vector; the views agree.
fn clone_opt_bytes(v: &Option<Vec<u8>>) -> (r: Option<Vec<u8>>)
    ensures
        r is Some <==> v is Some,
        r is Some ==> r.unwrap()@ == v.unwrap()@,
{
    match v {
        Some(b) => Some(clone_bytes(b)),
        None => None,
    }
}


/// At any time, at most one session is active: two active positions in a
/// well-formed store are the same position.
pub proof fn lemma_at_most_one_active(store: MemoryStore, i: int, j: int)
    requires
        store.wf(),
        0 <= i < store.sessions@.len(),
        0 <= j < store.sessions@.len(),
        store.sessions@[i].is_active,
        store.sessions@[j].is_active,
    ensures
        i == j,
{
    if i < j {
        assert(!(store.sessions@[i].is_active && store.sessions@[j].is_active));
    } else if j < i {
        assert(!(store.sessions@[j].is_active && store.sessions@[i].is_active));
    }
}

} // verus!
