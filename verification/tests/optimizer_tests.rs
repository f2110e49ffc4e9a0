//! Optimizer, performance-monitor, cache, builder and agent behaviour.

use rwkv_agent_kit::aggregation::{ConversationSummary, build_semantic_chunk};
use rwkv_agent_kit::agents::{AgentFactory, AgentResult, AgentType, WorkflowAggregator};
use rwkv_agent_kit::cache::QueryResultCache;
use rwkv_agent_kit::dbconfig::{DatabaseConfig, DatabaseType};
use rwkv_agent_kit::graph_builder::{cooccur_weight, infer_entity_type, infer_relation_type};
use rwkv_agent_kit::optimizer::{
    IndexDefinition, IndexType, QueryOptimizer, analyze_plan, calculate_complexity_score,
    generate_create_index_sql, get_slow_query_suggestions, should_analyze, should_vacuum,
    used_index_of,
};
use rwkv_agent_kit::performance::{MonitoringConfig, PerformanceMonitor};
use rwkv_agent_kit::state::{StateConfig, StateManager};
use rwkv_agent_kit::store::MemoryStore;

#[test]
fn test_complexity_scoring() {
    assert_eq!(calculate_complexity_score("SELECT name FROM t WHERE x = 1", ""), 1);
    // A join, an ordering and a table scan add up.
    assert_eq!(
        calculate_complexity_score(
            "SELECT a FROM t JOIN u ON t.x = u.x ORDER BY a",
            "SCAN TABLE t",
        ),
        7,
    );
    // Two SELECT occurrences count as a subquery.
    assert_eq!(
        calculate_complexity_score("SELECT a FROM (SELECT a FROM t)", ""),
        4,
    );
    // The score never passes ten.
    assert_eq!(
        calculate_complexity_score(
            "SELECT a FROM (SELECT a) JOIN u GROUP BY a HAVING a > 1 ORDER BY a",
            "SCAN TABLE t TEMP B-TREE NESTED LOOP",
        ),
        10,
    );
}

#[test]
fn test_create_index_sql() {
    let def = IndexDefinition {
        name: "idx_t_name".to_string(),
        table: "t".to_string(),
        columns: vec!["name".to_string(), "kind".to_string()],
        index_type: IndexType::Composite,
        unique: false,
        where_clause: None,
        expression: None,
        auto_create: true,
    };
    assert_eq!(
        generate_create_index_sql(&def),
        "CREATE INDEX IF NOT EXISTS idx_t_name ON t (name, kind)",
    );

    let partial = IndexDefinition {
        name: "idx_t_imp".to_string(),
        table: "t".to_string(),
        columns: vec!["imp".to_string()],
        index_type: IndexType::Partial,
        unique: true,
        where_clause: Some("imp IS NOT NULL".to_string()),
        expression: None,
        auto_create: true,
    };
    assert_eq!(
        generate_create_index_sql(&partial),
        "CREATE UNIQUE INDEX IF NOT EXISTS idx_t_imp ON t (imp) WHERE imp IS NOT NULL",
    );
}

#[test]
fn test_plan_analysis() {
    assert_eq!(
        used_index_of("SEARCH TABLE t USING INDEX idx_a (x=?)"),
        Some("idx_a".to_string()),
    );
    assert_eq!(used_index_of("SCAN TABLE t"), None);

    let rows = vec![
        "SEARCH TABLE t USING INDEX idx_a (x=?)".to_string(),
        "SCAN TABLE u".to_string(),
        "USE TEMP B-TREE FOR ORDER BY".to_string(),
    ];
    let analysis = analyze_plan("SELECT * FROM t ORDER BY x", &rows);
    assert_eq!(analysis.used_indexes, vec!["idx_a".to_string()]);
    assert_eq!(analysis.optimization_suggestions.len(), 2);
    assert!(analysis.query_plan.contains("SCAN TABLE u\n"));
    assert!(analysis.complexity_score >= 1 && analysis.complexity_score <= 10);

    let suggestions = get_slow_query_suggestions("SELECT * FROM t ORDER BY x", &analysis);
    assert!(suggestions.len() > analysis.optimization_suggestions.len());
    assert!(suggestions.iter().any(|s| s.contains("SELECT *")));
    assert!(suggestions.iter().any(|s| s.contains("ORDER BY")));
}

#[test]
fn test_predefined_index_catalog() {
    let catalog = QueryOptimizer::get_predefined_indexes();
    assert_eq!(catalog.len(), 16);
    assert!(catalog.iter().all(|d| d.auto_create));
    assert_eq!(catalog.iter().filter(|d| d.unique).count(), 1);
    assert_eq!(catalog[6].name, "idx_graph_nodes_entity");
    assert_eq!(QueryOptimizer::new().predefined_indexes.len(), 16);
    assert!(should_vacuum(1001));
    assert!(!should_vacuum(1000));
    assert!(should_analyze(0));
    assert!(!should_analyze(3));
}

#[test]
fn test_performance_monitor() {
    let config = MonitoringConfig::default();
    let mut monitor = PerformanceMonitor::new(config);

    monitor.record_query("SELECT * FROM test", 100, true, 1_000);
    monitor.record_query("SELECT * FROM test", 200, true, 2_000);

    let stats = monitor.get_query_stats();
    assert_eq!(stats.len(), 1);

    let stat = &stats[0];
    assert_eq!(stat.count, 2);
    assert_eq!(stat.avg_duration_ms, 150);
    assert_eq!(stat.min_duration_ms, 100);
    assert_eq!(stat.max_duration_ms, 200);
    assert_eq!(stat.error_count, 0);

    monitor.record_query("OTHER", 900, false, 3_000);
    let slow = monitor.get_slow_queries(500);
    assert_eq!(slow.len(), 1);
    assert_eq!(slow[0].sql, "OTHER");
    assert_eq!(slow[0].error_count, 1);

    monitor.record_acquire(10, true);
    monitor.record_acquire(30, false);
    monitor.update_pool_stats(8, 3);
    let pool = monitor.get_pool_stats();
    assert_eq!(pool.acquire_count, 2);
    assert_eq!(pool.acquire_success_count, 1);
    assert_eq!(pool.acquire_failed_count, 1);
    assert_eq!(pool.avg_acquire_time_ms, 20);
    assert_eq!(pool.active_connections, 5);
}

#[test]
fn test_query_result_cache() {
    let mut cache = QueryResultCache::new(10, 60_000);

    cache.set("key1".to_string(), "value1".to_string(), None, 1_000);
    let result = cache.get(&"key1".to_string(), 1_500);
    assert_eq!(result, Some("value1".to_string()));

    let result = cache.get(&"nonexistent".to_string(), 1_500);
    assert_eq!(result, None);

    // A short-lived entry expires and is dropped on read.
    cache.set("key2".to_string(), "value2".to_string(), Some(10), 2_000);
    let result = cache.get(&"key2".to_string(), 2_020);
    assert_eq!(result, None);
}

#[test]
fn test_cache_eviction_and_sweep() {
    let mut cache = QueryResultCache::new(2, 60_000);
    cache.set("a".to_string(), "1".to_string(), None, 100);
    cache.set("b".to_string(), "2".to_string(), None, 200);
    cache.set("c".to_string(), "3".to_string(), None, 300);
    // Capacity two: one of the earlier keys was evicted, the newest stays.
    let (len, cap) = cache.get_stats();
    assert_eq!(cap, 2);
    assert_eq!(len, 2);
    assert_eq!(cache.get(&"c".to_string(), 400), Some("3".to_string()));

    let mut cache = QueryResultCache::new(5, 1_000);
    cache.set("old".to_string(), "x".to_string(), Some(50), 100);
    cache.set("new".to_string(), "y".to_string(), None, 120);
    cache.cleanup_expired(500);
    let (len, _) = cache.get_stats();
    assert_eq!(len, 1);
    assert_eq!(cache.get(&"new".to_string(), 600), Some("y".to_string()));
}

#[test]
fn test_entity_classification() {
    assert_eq!(infer_entity_type("Acme Corp"), "organization");
    assert_eq!(infer_entity_type("鸿蒙公司"), "concept");
    assert_eq!(infer_entity_type("Bob"), "person");
    assert_eq!(infer_entity_type("Refrigerator9000"), "entity");
    assert_eq!(infer_entity_type("听音乐喜欢"), "preference");
    assert_eq!(infer_entity_type("备货任务"), "task");
    assert_eq!(infer_entity_type("jazz"), "concept");

    assert_eq!(infer_relation_type("Bob", "Acme Corp"), "works_at");
    assert_eq!(infer_relation_type("Bob", "Ann"), "knows");
    assert_eq!(infer_relation_type("jazz", "rain"), "co_occurs");
}

#[test]
fn test_cooccur_weight_clamps() {
    // 0.8 over a divisor of 10 gives 0.08, clamped up to the minimum 0.1.
    assert_eq!(cooccur_weight(800, 10000, 100, 2000), 100);
    // 5.0 over a divisor of 1 stays 5.0, clamped down to the maximum 2.0.
    assert_eq!(cooccur_weight(5000, 1000, 100, 2000), 2000);
    // In-range weights pass through.
    assert_eq!(cooccur_weight(900, 2000, 100, 2000), 450);
}

#[test]
fn test_knowledge_graph_update() {
    let mut store = MemoryStore::new();
    let triggers = vec!["Bob".to_string(), "Acme Corp".to_string()];
    store.update_knowledge_graph(&triggers, 800, 10000, 100, 2000, true);

    let nodes = store.get_graph_nodes();
    assert_eq!(nodes.len(), 2);
    assert_eq!(nodes[0].entity_type, "person");
    assert_eq!(nodes[1].entity_type, "organization");

    let edges = store.get_graph_edges();
    assert_eq!(edges.len(), 1);
    assert_eq!(edges[0].relation_type, "works_at");
    assert_eq!(edges[0].weight, 100);
    assert!(edges[0].from_node <= edges[0].to_node);

    // The same turn again accumulates the edge's weight.
    store.update_knowledge_graph(&triggers, 800, 10000, 100, 2000, true);
    assert_eq!(store.get_graph_edges()[0].weight, 200);
    assert_eq!(store.get_graph_nodes().len(), 2);
}

#[test]
fn test_semantic_chunk_threshold() {
    let summary = ConversationSummary {
        importance_score: 7,
        user_intent_summary: "plan a trip".to_string(),
        summary: "the user plans a trip".to_string(),
        memory_triggers: vec!["trip".to_string(), "spring".to_string()],
    };
    let c = build_semantic_chunk(summary, 5).expect("importance above the threshold");
    assert_eq!(c.title.as_deref(), Some("plan a trip"));
    assert_eq!(c.keywords.as_deref(), Some("trip, spring"));
    assert_eq!(c.weight, 700);
    assert_eq!(c.id, None);

    let low = ConversationSummary {
        importance_score: 3,
        user_intent_summary: String::new(),
        summary: "small talk".to_string(),
        memory_triggers: Vec::new(),
    };
    assert!(build_semantic_chunk(low, 5).is_none());
}

#[test]
fn test_single_agent_response() {
    let agent_results = vec![AgentResult {
        agent_name: "chat".to_string(),
        response: "单一回应".to_string(),
        error: None,
        execution_time_ms: 100,
    }];

    let result = WorkflowAggregator::single_agent_response(&agent_results);
    assert_eq!(result, "单一回应");

    let failed = vec![AgentResult {
        agent_name: "chat".to_string(),
        response: String::new(),
        error: Some("boom".to_string()),
        execution_time_ms: 100,
    }];
    assert_eq!(
        WorkflowAggregator::single_agent_response(&failed),
        "所有智能体执行失败"
    );
}

#[test]
fn test_agent_names_and_priorities() {
    assert_eq!(AgentFactory::get_type_by_name("chat"), Some(AgentType::Chat));
    assert_eq!(AgentFactory::get_type_by_name("router"), Some(AgentType::Router));
    assert_eq!(AgentFactory::get_type_by_name("nobody"), None);
    assert_eq!(AgentFactory::available_types().len(), 3);

    assert_eq!(WorkflowAggregator::get_agent_display_name("chat"), "对话助手");
    assert_eq!(WorkflowAggregator::get_agent_display_name("custom"), "custom");
    assert_eq!(WorkflowAggregator::get_agent_priority("chat"), 1);
    assert_eq!(WorkflowAggregator::get_agent_priority("custom"), 99);

    assert_eq!(WorkflowAggregator::truncate_text("short", 10), "short");
    assert_eq!(WorkflowAggregator::truncate_text("a longer text", 8), "a longer...");
    // Truncation counts UTF-8 bytes: three bytes keep one CJK character.
    assert_eq!(WorkflowAggregator::truncate_text("日本語", 3), "日...");
    assert_eq!(WorkflowAggregator::truncate_text("日本語", 9), "日本語");
}

#[test]
fn test_database_config_shapes() {
    let sqlite = DatabaseConfig::sqlite("data/x.db");
    assert_eq!(sqlite.db_type, DatabaseType::Sqlite);
    assert_eq!(sqlite.db_path, "data/x.db");
    let memory = DatabaseConfig::memory();
    assert_eq!(memory.db_type, DatabaseType::Memory);
    assert_eq!(memory.db_path, ":memory:");
    assert_eq!(DatabaseConfig::default().pool_size, 10);
}

#[test]
fn test_state_manager_lookup() {
    let manager = StateManager::new(vec![
        StateConfig {
            path: "./model/chat.state".to_string(),
            name: Some("chat".to_string()),
            default: true,
        },
        StateConfig {
            path: "./model/router.state".to_string(),
            name: Some("router".to_string()),
            default: false,
        },
    ]);
    assert_eq!(
        manager.get_state_path_by_name("router"),
        Some("./model/router.state".to_string()),
    );
    assert_eq!(manager.get_state_path_by_name("nobody"), None);
    assert_eq!(
        manager.get_default_state_path(),
        Some("./model/chat.state".to_string()),
    );
}
