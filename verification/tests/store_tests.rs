//! Store behaviour: sessions, events, chunks, graph, persona and retrieval.

use rwkv_agent_kit::store::{GraphEdge, GraphNode, MemoryEvent, MemoryStore, PersonaTrait, SemanticChunk};

fn event(session_id: i64, role: &str, text: &str) -> MemoryEvent {
    MemoryEvent {
        session_id,
        agent_name: "chat".to_string(),
        role: role.to_string(),
        text: text.to_string(),
        topic: None,
        sentiment: None,
        importance: None,
        decay: 1000,
        embedding: None,
        ts: 0,
    }
}

fn chunk(title: &str, summary: &str, weight: i64) -> SemanticChunk {
    SemanticChunk {
        id: None,
        title: Some(title.to_string()),
        summary: summary.to_string(),
        keywords: None,
        embedding: None,
        last_ref_ts: None,
        weight,
    }
}

#[test]
fn test_single_active_session() {
    let mut store = MemoryStore::new();
    let s1 = store.open_session("chat", Some("first"), 1_000);
    let s2 = store.open_session("chat", Some("second"), 2_000);
    assert_eq!(s1, 1);
    assert_eq!(s2, 2);

    // Opening the second session closed the first: one session is active.
    let active: Vec<&_> = store.sessions.iter().filter(|s| s.is_active).collect();
    assert_eq!(active.len(), 1);
    assert_eq!(active[0].id, 2);
    assert_eq!(store.sessions[0].ended_at, Some(2_000));
    assert_eq!(store.get_active_session(), Some(2));

    store.close_active_session(3_000);
    assert_eq!(store.get_active_session(), None);
}

#[test]
fn test_session_title_update() {
    let mut store = MemoryStore::new();
    store.open_session("chat", None, 1_000);
    store.upsert_session_title(1, "renamed");
    assert_eq!(store.sessions[0].title, "renamed");
    // A missing id changes nothing.
    store.upsert_session_title(9, "ghost");
    assert_eq!(store.sessions.len(), 1);
}

#[test]
fn test_memory_events_listed_in_time_order() {
    let mut store = MemoryStore::new();
    let sid = store.open_session("chat", None, 1_000);

    store.insert_memory_event(event(sid, "user", "one"), 5_000);
    // A clock running backwards is clamped: the order never decreases.
    store.insert_memory_event(event(sid, "assistant", "two"), 4_000);
    store.insert_memory_event(event(sid, "user", "three"), 9_000);
    store.insert_memory_event(event(99, "user", "other session"), 9_500);

    let events = store.list_memory_events(sid);
    assert_eq!(events.len(), 3);
    assert_eq!(events[0].text, "one");
    assert_eq!(events[1].text, "two");
    assert_eq!(events[2].text, "three");
    for w in events.windows(2) {
        assert!(w[0].ts <= w[1].ts);
    }

    store.clear_all_memory_events();
    assert_eq!(store.list_memory_events(sid).len(), 0);
}

#[test]
fn test_semantic_chunks_listed_by_recency() {
    let mut store = MemoryStore::new();
    store.insert_semantic_chunk(chunk("old", "alpha", 500), 1_000);
    store.insert_semantic_chunk(chunk("new", "beta", 500), 9_000);
    store.insert_semantic_chunk(chunk("mid", "gamma", 500), 5_000);

    let listed = store.list_semantic_chunks(None);
    assert_eq!(listed.len(), 3);
    assert_eq!(listed[0].title.as_deref(), Some("new"));
    assert_eq!(listed[1].title.as_deref(), Some("mid"));
    assert_eq!(listed[2].title.as_deref(), Some("old"));

    // Advancing a chunk's reference time moves it to the front.
    store.update_semantic_chunk_ref_time(1, 20_000);
    let listed = store.list_semantic_chunks(Some(2));
    assert_eq!(listed.len(), 2);
    assert_eq!(listed[0].title.as_deref(), Some("old"));
    assert_eq!(listed[1].title.as_deref(), Some("new"));
}

#[test]
fn test_chunk_mappings() {
    let mut store = MemoryStore::new();
    let sid = store.open_session("chat", None, 1_000);
    let cid = store.insert_semantic_chunk(chunk("t", "s", 500), 2_000);
    let mid = store.insert_semantic_chunk_mapping(
        rwkv_agent_kit::store::SemanticChunkMapping {
            id: None,
            chunk_id: cid,
            session_id: sid,
            memory_event_ids: "[]".to_string(),
            created_ts: None,
        },
        3_000,
    );
    assert_eq!(mid, 1);
    let by_chunk = store.get_chunk_mappings_by_chunk_id(cid);
    assert_eq!(by_chunk.len(), 1);
    assert_eq!(by_chunk[0].created_ts, Some(3_000));
    let by_session = store.get_chunk_mappings_by_session_id(sid);
    assert_eq!(by_session.len(), 1);
    assert_eq!(store.get_chunk_mappings_by_chunk_id(cid + 7).len(), 0);
}

#[test]
fn test_graph_node_upsert_is_idempotent() {
    let mut store = MemoryStore::new();
    let n1 = store.upsert_graph_node(GraphNode {
        id: None,
        entity_type: "person".to_string(),
        entity_name: "Alice".to_string(),
    });
    let n2 = store.upsert_graph_node(GraphNode {
        id: None,
        entity_type: "person".to_string(),
        entity_name: "Alice".to_string(),
    });
    assert_eq!(n1, 1);
    assert_eq!(n2, 1);
    assert_eq!(store.get_graph_nodes().len(), 1);

    let found = store.get_node_by_entity("person", "Alice").unwrap();
    assert_eq!(found.id, Some(1));
    assert!(store.get_node_by_entity("person", "Bob").is_none());
}

#[test]
fn test_edge_accumulation_sums_weights() {
    let mut store = MemoryStore::new();
    store.upsert_graph_node(GraphNode {
        id: None,
        entity_type: "person".to_string(),
        entity_name: "Alice".to_string(),
    });
    store.upsert_graph_node(GraphNode {
        id: None,
        entity_type: "concept".to_string(),
        entity_name: "music".to_string(),
    });

    // Inserting the same edge with weights 0.3 then 0.4 stores 0.7: the
    // accumulation is a plain sum, with no re-clamping after creation.
    let e1 = store.upsert_graph_edge_with_accumulation(GraphEdge {
        id: None,
        from_node: 1,
        to_node: 2,
        relation_type: "co_occurs".to_string(),
        weight: 300,
    });
    let e2 = store.upsert_graph_edge_with_accumulation(GraphEdge {
        id: None,
        from_node: 1,
        to_node: 2,
        relation_type: "co_occurs".to_string(),
        weight: 400,
    });
    assert_eq!(e1, e2);
    let edges = store.get_graph_edges();
    assert_eq!(edges.len(), 1);
    assert_eq!(edges[0].weight, 700);
}

#[test]
fn test_plain_edge_upsert_keeps_weight() {
    let mut store = MemoryStore::new();
    let e1 = store.upsert_graph_edge(GraphEdge {
        id: None,
        from_node: 1,
        to_node: 2,
        relation_type: "knows".to_string(),
        weight: 300,
    });
    let e2 = store.upsert_graph_edge(GraphEdge {
        id: None,
        from_node: 1,
        to_node: 2,
        relation_type: "knows".to_string(),
        weight: 900,
    });
    assert_eq!(e1, e2);
    assert_eq!(store.get_graph_edges()[0].weight, 300);
}

fn trait_row(key: &str, value: &str, confidence: i64, stability: i64) -> PersonaTrait {
    PersonaTrait {
        id: None,
        agent_name: "chat".to_string(),
        trait_type: "preference".to_string(),
        trait_key: key.to_string(),
        trait_value: value.to_string(),
        confidence,
        stability,
        last_seen: None,
        source_event_id: None,
    }
}

#[test]
fn test_persona_trait_upsert_and_ranking() {
    let mut store = MemoryStore::new();
    store.upsert_persona_trait(trait_row("food", "noodles", 500, 200), 1_000);
    store.upsert_persona_trait(trait_row("music", "jazz", 900, 800), 2_000);
    // Replacing a known key keeps its row id and count.
    let id = store.upsert_persona_trait(trait_row("food", "rice", 700, 300), 3_000);
    assert_eq!(id, 1);
    assert_eq!(store.traits.len(), 2);

    let listed = store.list_persona_traits("chat", Some("preference"), None);
    assert_eq!(listed.len(), 2);
    // Higher stability ranks first.
    assert_eq!(listed[0].trait_key, "music");
    assert_eq!(listed[1].trait_value, "rice");

    let top = store.list_persona_traits("chat", None, Some(1));
    assert_eq!(top.len(), 1);
}

#[test]
fn test_relevant_persona_facts_match_substring() {
    let mut store = MemoryStore::new();
    store.upsert_persona_trait(trait_row("food", "spicy noodles", 500, 200), 1_000);
    store.upsert_persona_trait(trait_row("music", "jazz", 900, 800), 2_000);

    let facts = store.get_relevant_persona_facts("chat", "noodles", 5);
    assert_eq!(facts.len(), 1);
    assert_eq!(facts[0].trait_key, "food");

    let none = store.get_relevant_persona_facts("chat", "opera", 5);
    assert_eq!(none.len(), 0);
}

#[test]
fn test_persona_profile_upsert() {
    let mut store = MemoryStore::new();
    let p1 = store.upsert_persona_profile(
        rwkv_agent_kit::store::PersonaProfile {
            id: None,
            agent_name: "chat".to_string(),
            created_at: None,
            updated_at: None,
        },
        1_000,
    );
    let p2 = store.upsert_persona_profile(
        rwkv_agent_kit::store::PersonaProfile {
            id: None,
            agent_name: "chat".to_string(),
            created_at: None,
            updated_at: None,
        },
        2_000,
    );
    assert_eq!(p1, p2);
    assert_eq!(store.profiles.len(), 1);
    assert_eq!(store.profiles[0].created_at, Some(1_000));
    assert_eq!(store.profiles[0].updated_at, Some(2_000));
    let got = store.get_persona_profile("chat").unwrap();
    assert_eq!(got.id, Some(1));
}
