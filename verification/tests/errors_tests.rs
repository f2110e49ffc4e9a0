//! Error taxonomy and resilience behaviour.

use rwkv_agent_kit::errors::{ErrorCategory, ErrorCode, ErrorSeverity, RwkvError};
use rwkv_agent_kit::resilience::{
    CircuitBreaker, CircuitState, ErrorAggregator, ErrorHandler, ErrorHandlerConfig, RetrySession,
    should_retry,
};

#[test]
fn error_test_error_creation() {
    let error = RwkvError::new(ErrorCode::ModelLoadFailed, "测试错误".to_string());
    assert_eq!(error.code, ErrorCode::ModelLoadFailed);
    assert_eq!(error.message, "测试错误");
    assert_eq!(error.category(), ErrorCategory::Model);
    assert_eq!(error.severity(), ErrorSeverity::Critical);
    assert!(!error.is_recoverable());
    assert!(error.is_fatal());
}

#[test]
fn test_error_with_context() {
    let error = RwkvError::new(ErrorCode::AgentNotFound, "智能体不存在".to_string())
        .with_context("agent_name: test_agent".to_string())
        .with_trace_id("trace_123".to_string());

    assert_eq!(error.context, Some("agent_name: test_agent".to_string()));
    assert_eq!(error.trace_id, Some("trace_123".to_string()));
}

#[test]
fn test_error_display() {
    let error = RwkvError::new(ErrorCode::DatabaseTimeout, "查询超时".to_string())
        .with_context("表: users".to_string());

    let display = error.display_string();
    assert!(display.contains("[2005]"));
    assert!(display.contains("数据库操作超时"));
    assert!(display.contains("查询超时"));
    assert!(display.contains("上下文: 表: users"));
}

#[test]
fn test_error_severity() {
    assert_eq!(
        rwkv_agent_kit::severity::ErrorSeverity::Critical.to_string(),
        "CRITICAL"
    );
    assert_eq!(
        rwkv_agent_kit::severity::ErrorSeverity::Error.to_string(),
        "ERROR"
    );
    assert_eq!(
        rwkv_agent_kit::severity::ErrorSeverity::Warning.to_string(),
        "WARNING"
    );
    assert_eq!(
        rwkv_agent_kit::severity::ErrorSeverity::Info.to_string(),
        "INFO"
    );
}

#[test]
fn test_error_code_numbers() {
    assert_eq!(ErrorCode::ConfigFileNotFound.number(), 1001);
    assert_eq!(ErrorCode::DatabaseTimeout.number(), 2005);
    assert_eq!(ErrorCode::UserInputTooLong.number(), 7001);
    assert_eq!(ErrorCode::InternalTimeout.number(), 9004);
    assert_eq!(ErrorCode::NetworkTimeout.category(), ErrorCategory::Network);
    assert_eq!(ErrorCode::SystemDiskFull.severity(), ErrorSeverity::Critical);
    assert_eq!(ErrorCode::DatabaseTimeout.description(), "数据库操作超时");
}

#[test]
fn test_circuit_breaker() {
    let mut breaker = CircuitBreaker::new(3, 1000);
    let t0: u64 = 10_000;

    // A fresh breaker is closed and lets calls pass.
    assert_eq!(breaker.state(), &CircuitState::Closed);
    assert!(breaker.can_execute(t0));

    // Two failures leave it closed; the third opens it.
    breaker.record_failure(t0);
    breaker.record_failure(t0 + 1);
    assert_eq!(breaker.state(), &CircuitState::Closed);

    breaker.record_failure(t0 + 2);
    assert_eq!(breaker.state(), &CircuitState::Open);
    assert!(!breaker.can_execute(t0 + 3));

    // Once the recovery timeout has elapsed a trial call is allowed.
    assert!(breaker.can_execute(t0 + 2 + 2000));
    assert_eq!(breaker.state(), &CircuitState::HalfOpen);

    // A success from half-open closes the breaker and clears the count.
    breaker.record_success();
    assert_eq!(breaker.state(), &CircuitState::Closed);
    assert_eq!(breaker.failure_count(), 0);
}

#[test]
fn test_circuit_breaker_rejects_before_timeout() {
    let mut breaker = CircuitBreaker::new(2, 5000);
    breaker.record_failure(100);
    breaker.record_failure(200);
    assert_eq!(breaker.state(), &CircuitState::Open);
    // Rejected at every instant before the timeout elapses.
    assert!(!breaker.can_execute(200));
    assert!(!breaker.can_execute(5199));
    assert_eq!(breaker.state(), &CircuitState::Open);
    // Allowed exactly when it has elapsed.
    assert!(breaker.can_execute(5200));
    assert_eq!(breaker.state(), &CircuitState::HalfOpen);
}

#[test]
fn test_error_aggregator() {
    let mut aggregator = ErrorAggregator::new(60_000, 0);

    aggregator.record_error(ErrorCode::DatabaseTimeout, 1_000);
    aggregator.record_error(ErrorCode::DatabaseTimeout, 3_000);
    aggregator.record_error(ErrorCode::ModelLoadFailed, 4_000);

    let stats = aggregator.get_stats();
    assert_eq!(stats.len(), 2);

    let db_stats = stats
        .iter()
        .find(|s| s.error_code == ErrorCode::DatabaseTimeout)
        .unwrap();
    assert_eq!(db_stats.count, 2);
    assert_eq!(db_stats.first_occurrence, 1_000);
    assert_eq!(db_stats.last_occurrence, 3_000);

    let model_stats = stats
        .iter()
        .find(|s| s.error_code == ErrorCode::ModelLoadFailed)
        .unwrap();
    assert_eq!(model_stats.count, 1);

    let frequent = aggregator.get_frequent_errors(2);
    assert_eq!(frequent.len(), 1);
    assert_eq!(frequent[0].error_code, ErrorCode::DatabaseTimeout);
}

#[test]
fn test_retry_delays_grow_and_cap() {
    let config = ErrorHandlerConfig {
        max_retries: 5,
        retry_delay_ms: 100,
        backoff_multiplier: 2000,
        max_retry_delay_ms: 350,
        ..Default::default()
    };
    let mut session = RetrySession::new(config);

    // The operation fails max_retries - 1 times, then succeeds: exactly
    // max_retries - 1 delays are induced, each at least the previous one,
    // all capped.
    let mut delays = Vec::new();
    for _ in 0..4 {
        match session.on_failure(ErrorCode::DatabaseTimeout) {
            Some(d) => delays.push(d),
            None => panic!("the session gave up while attempts remained"),
        }
    }
    assert_eq!(delays, vec![100, 200, 350, 350]);
    assert_eq!(delays.len(), 4);
    for w in delays.windows(2) {
        assert!(w[0] <= w[1]);
    }
    for d in &delays {
        assert!(*d <= 350);
    }
    // The fifth failure exhausts the attempts.
    assert_eq!(session.on_failure(ErrorCode::DatabaseTimeout), None);
}

#[test]
fn test_retry_short_circuits_permanent_errors() {
    let config = ErrorHandlerConfig::default();
    // Malformed input and configuration errors never retry.
    assert!(!should_retry(&config, ErrorCode::UserInputEmpty, 1));
    assert!(!should_retry(&config, ErrorCode::ConfigParseError, 1));
    // Transient conditions retry while attempts remain.
    assert!(should_retry(&config, ErrorCode::NetworkTimeout, 1));
    assert!(should_retry(&config, ErrorCode::SystemOutOfMemory, 2));
    // Attempts run out at max_retries.
    assert!(!should_retry(&config, ErrorCode::NetworkTimeout, 3));
}

#[test]
fn test_retry_session_rejects_permanent_error_at_once() {
    let mut session = RetrySession::new(ErrorHandlerConfig::default());
    assert_eq!(session.on_failure(ErrorCode::UserInputEmpty), None);
}

#[test]
fn test_aggregator_prunes_old_entries() {
    let mut aggregator = ErrorAggregator::new(1_000, 0);
    aggregator.record_error(ErrorCode::NetworkTimeout, 100);
    // The sweep cadence has passed and the old entry falls out of the window.
    aggregator.record_error(ErrorCode::ModelLoadFailed, 5_000);
    let stats = aggregator.get_stats();
    assert_eq!(stats.len(), 1);
    assert_eq!(stats[0].error_code, ErrorCode::ModelLoadFailed);
}

#[test]
fn test_error_display_without_context() {
    let error = RwkvError::new(ErrorCode::NetworkTimeout, "slow".to_string());
    let display = error.display_string();
    assert_eq!(display, "[5001] 网络超时: slow");
}

#[test]
fn test_error_handler_per_category_breakers() {
    let config = ErrorHandlerConfig {
        circuit_breaker_threshold: 2,
        circuit_breaker_recovery_time: 60,
        ..Default::default()
    };
    let mut handler = ErrorHandler::new(config, 0);

    // Database failures trip the database breaker and nothing else.
    handler.handle_error(ErrorCode::DatabaseTimeout, 1_000);
    handler.handle_error(ErrorCode::DatabaseTimeout, 2_000);
    handler.handle_error(ErrorCode::NetworkTimeout, 3_000);

    assert!(!handler.can_execute_for(ErrorCategory::Database, 4_000));
    assert!(handler.can_execute_for(ErrorCategory::Network, 4_000));
    assert!(handler.can_execute_for(ErrorCategory::Model, 4_000));

    let status = handler.get_circuit_breaker_status();
    assert_eq!(status.len(), 2);
    assert_eq!(handler.get_error_stats().len(), 2);
    assert_eq!(handler.get_frequent_errors(2).len(), 1);

    // Resetting reopens the category for calls.
    handler.reset_circuit_breaker(ErrorCategory::Database);
    assert!(handler.can_execute_for(ErrorCategory::Database, 5_000));

    handler.handle_error(ErrorCode::DatabaseTimeout, 6_000);
    handler.handle_error(ErrorCode::DatabaseTimeout, 7_000);
    handler.reset_all_circuit_breakers();
    assert!(handler.can_execute_for(ErrorCategory::Database, 8_000));
}
