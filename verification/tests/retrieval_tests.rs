//! Retrieval behaviour: scoring, decay, budget and formatting.

use rwkv_agent_kit::retrieval::{decay_milli, token_overlap_milli};
use rwkv_agent_kit::store::{MemoryEvent, MemoryStore, PersonaTrait, SemanticChunk};
use rwkv_agent_kit::strutil::tokenize;

fn event(session_id: i64, role: &str, text: &str, importance: Option<i64>) -> MemoryEvent {
    MemoryEvent {
        session_id,
        agent_name: "chat".to_string(),
        role: role.to_string(),
        text: text.to_string(),
        topic: None,
        sentiment: None,
        importance,
        decay: 1000,
        embedding: None,
        ts: 0,
    }
}

fn chunk_at(title: &str, summary: &str, weight: i64) -> SemanticChunk {
    SemanticChunk {
        id: None,
        title: Some(title.to_string()),
        summary: summary.to_string(),
        keywords: None,
        embedding: None,
        last_ref_ts: None,
        weight,
    }
}

#[test]
fn test_decay_values() {
    // No time passed: no decay.
    assert_eq!(decay_milli(0, 1000), 1000);
    // One minute under a one-hour constant: barely any decay.
    assert_eq!(decay_milli(1, 1000), 984);
    // Two hours under a one-hour constant: roughly e^-2.
    assert_eq!(decay_milli(120, 1000), 135);
    // A zero constant is clamped rather than dividing by zero.
    assert!(decay_milli(60, 0) <= 1000);
}

#[test]
fn test_token_overlap() {
    let q = tokenize("alpha beta");
    // Three of the text's tokens occur among the query's two tokens.
    assert_eq!(token_overlap_milli(&q, "alpha alpha beta"), 1500);
    assert_eq!(token_overlap_milli(&q, "alpha"), 500);
    assert_eq!(token_overlap_milli(&q, "gamma delta"), 0);
    let empty = tokenize("");
    assert_eq!(token_overlap_milli(&empty, "anything"), 0);
}

#[test]
fn test_retrieval_on_empty_store_is_empty() {
    let store = MemoryStore::new();
    let out = store.retrieve_memories("chat", "anything", 5, 1000, 1000, 2000, 1_000_000);
    assert_eq!(out, "");
}

#[test]
fn test_retrieval_never_exceeds_budget() {
    let mut store = MemoryStore::new();
    let sid = store.open_session("chat", None, 1_000);
    for i in 0..20 {
        store.insert_memory_event(
            event(sid, "user", &format!("alpha beta gamma delta epsilon {}", i), None),
            2_000 + i,
        );
    }
    store.upsert_persona_trait(
        PersonaTrait {
            id: None,
            agent_name: "chat".to_string(),
            trait_type: "preference".to_string(),
            trait_key: "alpha".to_string(),
            trait_value: "beta".to_string(),
            confidence: 850,
            stability: 500,
            last_seen: None,
            source_event_id: None,
        },
        3_000,
    );
    for budget in [0usize, 5, 16, 17, 40, 80, 200] {
        let out = store.retrieve_memories("chat", "alpha beta", 10, 1000, 1000, budget, 10_000);
        assert!(out.chars().count() <= budget);
    }
}

#[test]
fn test_retrieval_formats_sections() {
    let mut store = MemoryStore::new();
    let sid = store.open_session("chat", None, 1_000);
    store.insert_memory_event(event(sid, "user", "tell me about alpha", None), 2_000);
    store.insert_semantic_chunk(chunk_at("notes", "alpha beta notes", 500), 3_000);
    store.upsert_persona_trait(
        PersonaTrait {
            id: None,
            agent_name: "chat".to_string(),
            trait_type: "preference".to_string(),
            trait_key: "alpha".to_string(),
            trait_value: "likes alpha".to_string(),
            confidence: 850,
            stability: 500,
            last_seen: None,
            source_event_id: None,
        },
        3_500,
    );

    let out = store.retrieve_memories("chat", "alpha", 10, 1000, 1000, 4000, 10_000);
    assert!(out.contains("[Persona Facts]\n"));
    assert!(out.contains("[Persona] preference::alpha = likes alpha (conf: 0.85)\n"));
    assert!(out.contains("[Event] user: tell me about alpha\n"));
    assert!(out.contains("[Chunk] notes: alpha beta notes\n"));
    // Persona facts come first.
    assert!(out.find("[Persona]").unwrap() < out.find("[Event]").unwrap());
}

#[test]
fn test_recent_chunk_outranks_heavier_stale_chunk() {
    // Chunk A carries weight 0.8 but was last referenced two hours ago;
    // chunk B carries weight 0.2 and was referenced a minute ago. Under a
    // one-hour decay constant and identical textual match, B must outrank A:
    // A's decay of roughly e^-2 outweighs its weight advantage.
    let now: u64 = 10 * 3600 * 1000;
    let mut store = MemoryStore::new();
    store.insert_semantic_chunk(chunk_at("A", "alpha beta", 800), now - 2 * 3600 * 1000);
    store.insert_semantic_chunk(chunk_at("B", "alpha beta", 200), now - 60 * 1000);

    let out = store.retrieve_memories("chat", "alpha beta", 10, 1000, 1000, 2000, now);
    let pos_a = out.find("[Chunk] A:").expect("chunk A missing from the context");
    let pos_b = out.find("[Chunk] B:").expect("chunk B missing from the context");
    assert!(pos_b < pos_a);
}

#[test]
fn test_retrieval_ranks_without_embeddings() {
    // No embedding provider exists anywhere: scoring falls back to token
    // overlap and still returns ranked results.
    let mut store = MemoryStore::new();
    let sid = store.open_session("chat", None, 1_000);
    store.insert_memory_event(event(sid, "user", "the weather in spring", None), 2_000);
    store.insert_memory_event(event(sid, "assistant", "spring weather is mild", None), 3_000);
    store.insert_memory_event(event(sid, "user", "unrelated cooking talk", None), 4_000);

    let out = store.retrieve_memories("chat", "spring weather", 2, 1000, 1000, 2000, 10_000);
    assert!(!out.is_empty());
    // The two weather turns win the two slots; the cooking turn is cut.
    assert!(out.contains("spring weather is mild"));
    assert!(out.contains("the weather in spring"));
    assert!(!out.contains("cooking"));
}

#[test]
fn test_importance_boosts_event_rank() {
    let mut store = MemoryStore::new();
    let sid = store.open_session("chat", None, 1_000);
    store.insert_memory_event(event(sid, "user", "alpha plain", None), 2_000);
    store.insert_memory_event(event(sid, "user", "alpha boosted", Some(1000)), 3_000);

    let out = store.retrieve_memories("chat", "alpha", 10, 1000, 1500, 2000, 10_000);
    let plain = out.find("alpha plain").unwrap();
    let boosted = out.find("alpha boosted").unwrap();
    assert!(boosted < plain);
}

#[test]
fn test_retrieval_stops_before_midline_cut() {
    let mut store = MemoryStore::new();
    let sid = store.open_session("chat", None, 1_000);
    store.insert_memory_event(event(sid, "user", "alpha one", None), 2_000);
    store.insert_memory_event(event(sid, "user", "alpha two", None), 3_000);

    // Budget for one full line but not two: the output holds exactly one
    // whole line rather than a truncated second.
    let line = "[Event] user: alpha one\n";
    let budget = line.chars().count() + 3;
    let out = store.retrieve_memories("chat", "alpha", 10, 1000, 1000, budget, 10_000);
    assert_eq!(out.lines().count(), 1);
    assert!(out.ends_with('\n'));
}

#[test]
fn test_top_k_limits_candidate_lines() {
    let mut store = MemoryStore::new();
    let sid = store.open_session("chat", None, 1_000);
    for i in 0..6 {
        store.insert_memory_event(event(sid, "user", &format!("alpha {}", i), None), 2_000 + i);
    }
    let out = store.retrieve_memories("chat", "alpha", 2, 1000, 1000, 100_000, 10_000);
    assert_eq!(out.lines().count(), 2);
}

#[test]
fn test_negative_chunk_limit_lists_all() {
    let mut store = MemoryStore::new();
    store.insert_semantic_chunk(chunk_at("a", "x", 100), 1_000);
    store.insert_semantic_chunk(chunk_at("b", "y", 100), 2_000);
    assert_eq!(store.list_semantic_chunks(Some(-1)).len(), 2);
    assert_eq!(store.list_semantic_chunks(Some(0)).len(), 0);
}

#[test]
fn test_session_reopens_after_close() {
    let mut store = MemoryStore::new();
    store.open_session("chat", None, 1_000);
    store.close_active_session(2_000);
    let sid = store.open_session("chat", None, 3_000);
    assert_eq!(sid, 2);
    assert_eq!(store.get_active_session(), Some(2));
}

#[test]
fn test_full_confidence_renders_two_places() {
    let mut store = MemoryStore::new();
    store.upsert_persona_trait(
        PersonaTrait {
            id: None,
            agent_name: "chat".to_string(),
            trait_type: "style".to_string(),
            trait_key: "tone".to_string(),
            trait_value: "direct".to_string(),
            confidence: 1000,
            stability: 100,
            last_seen: None,
            source_event_id: None,
        },
        1_000,
    );
    let out = store.retrieve_memories("chat", "tone", 5, 1000, 1000, 500, 2_000);
    assert!(out.contains("(conf: 1.00)"));
}
