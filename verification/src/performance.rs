//! Performance layer: per-statement execution statistics, connection-pool
//! occupancy, and an LRU result cache with per-entry expiry checked lazily on
//! read and swept on demand.
//!
//! Durations are milliseconds; averages are integer milliseconds.

use vstd::prelude::*;
use crate::strutil;

verus! {

/// Connection-pool sizing and lifetimes.
#[derive(Debug, Clone, Copy, PartialEq)]
pub struct PoolConfig {
    /// Connections kept open at least.
    pub min_connections: u32,
    /// Connections opened at most.
    pub max_connections: u32,
    /// Seconds to wait for a fresh connection.
    pub connect_timeout: u64,
    /// Seconds an idle connection is kept.
    pub idle_timeout: u64,
    /// Seconds a connection lives at most.
    pub max_lifetime: u64,
    /// Seconds to wait when acquiring from the pool.
    pub acquire_timeout: u64,
    /// Whether connections are opened ahead of use.
    pub enable_warmup: bool,
    /// Connections opened ahead of use.
    pub warmup_connections: u32,
}

/// Query execution limits and plan caching.
#[derive(Debug, Clone, Copy, PartialEq)]
pub struct QueryConfig {
    /// Milliseconds before a query is abandoned.
    pub query_timeout_ms: u64,
    /// Milliseconds above which a query counts as slow.
    pub slow_query_threshold_ms: u64,
    /// Rows handled per batch.
    pub batch_size: usize,
    /// Whether query plans are cached.
    pub enable_query_plan_cache: bool,
    /// Entries the plan cache holds.
    pub query_plan_cache_size: usize,
    /// Whether statements are prepared once and reused.
    pub enable_prepared_statements: bool,
}

/// Result, embedding and metadata cache sizing.
#[derive(Debug, Clone, Copy, PartialEq)]
pub struct CacheConfig {
    /// Whether query results are cached.
    pub enable_result_cache: bool,
    /// Entries the result cache holds.
    pub result_cache_size: usize,
    /// Seconds a cached result lives.
    pub result_cache_ttl: u64,
    /// Whether embeddings are cached.
    pub enable_embedding_cache: bool,
    /// Entries the embedding cache holds.
    pub embedding_cache_size: usize,
    /// Seconds a cached embedding lives.
    pub embedding_cache_ttl: u64,
    /// Whether table metadata is cached.
    pub enable_metadata_cache: bool,
    /// Entries the metadata cache holds.
    pub metadata_cache_size: usize,
}

/// Monitoring switches; the sampling rate is in thousandths.
#[derive(Debug, Clone, Copy, PartialEq)]
pub struct MonitoringConfig {
    /// Whether statistics are recorded at all.
    pub enable_monitoring: bool,
    /// Seconds a statistic is retained.
    pub retention_seconds: u64,
    /// Share of statements sampled, in thousandths.
    pub sampling_rate: u64,
    /// Whether metrics are exported.
    pub enable_metrics_export: bool,
}

impl Default for MonitoringConfig {
    /// Monitoring on, one day of retention, every statement sampled.
    fn default() -> (r: MonitoringConfig)
        ensures
            r.enable_monitoring,
            r.retention_seconds == 86400,
            r.sampling_rate == 1000,
            r.enable_metrics_export,
    {
        MonitoringConfig {
            enable_monitoring: true,
            retention_seconds: 86400,
            sampling_rate: 1000,
            enable_metrics_export: true,
        }
    }
}

/// The performance layer's configuration.
#[derive(Debug, Clone, Copy, PartialEq)]
pub struct PerformanceConfig {
    /// Connection-pool settings.
    pub pool: PoolConfig,
    /// Query settings.
    pub query: QueryConfig,
    /// Cache settings.
    pub cache: CacheConfig,
    /// Monitoring settings.
    pub monitoring: MonitoringConfig,
}

impl Default for PerformanceConfig {
    /// The stock sizing: five to fifty pooled connections, one-second slow
    /// query threshold, ten thousand cached results for five minutes.
    fn default() -> (r: PerformanceConfig)
        ensures
            r.pool.min_connections == 5 && r.pool.max_connections == 50,
            r.pool.connect_timeout == 30 && r.pool.idle_timeout == 600,
            r.pool.max_lifetime == 3600 && r.pool.acquire_timeout == 30,
            r.pool.enable_warmup && r.pool.warmup_connections == 5,
            r.query.query_timeout_ms == 30000 && r.query.slow_query_threshold_ms == 1000,
            r.query.batch_size == 100 && r.query.enable_query_plan_cache,
            r.query.query_plan_cache_size == 1000 && r.query.enable_prepared_statements,
            r.cache.enable_result_cache && r.cache.result_cache_size == 10000,
            r.cache.result_cache_ttl == 300 && r.cache.enable_embedding_cache,
            r.cache.embedding_cache_size == 5000 && r.cache.embedding_cache_ttl == 3600,
            r.cache.enable_metadata_cache && r.cache.metadata_cache_size == 1000,
            r.monitoring == (MonitoringConfig {
                enable_monitoring: true,
                retention_seconds: 86400,
                sampling_rate: 1000,
                enable_metrics_export: true,
            }),
    {
        PerformanceConfig {
            pool: PoolConfig {
                min_connections: 5,
                max_connections: 50,
                connect_timeout: 30,
                idle_timeout: 600,
                max_lifetime: 3600,
                acquire_timeout: 30,
                enable_warmup: true,
                warmup_connections: 5,
            },
            query: QueryConfig {
                query_timeout_ms: 30000,
                slow_query_threshold_ms: 1000,
                batch_size: 100,
                enable_query_plan_cache: true,
                query_plan_cache_size: 1000,
                enable_prepared_statements: true,
            },
            cache: CacheConfig {
                enable_result_cache: true,
                result_cache_size: 10000,
                result_cache_ttl: 300,
                enable_embedding_cache: true,
                embedding_cache_size: 5000,
                embedding_cache_ttl: 3600,
                enable_metadata_cache: true,
                metadata_cache_size: 1000,
            },
            monitoring: MonitoringConfig {
                enable_monitoring: true,
                retention_seconds: 86400,
                sampling_rate: 1000,
                enable_metrics_export: true,
            },
        }
    }
}

/// Execution statistics of one statement.
#[derive(Debug, Clone, PartialEq)]
pub struct QueryStats {
    /// The statement.
    pub sql: String,
    /// Executions recorded.
    pub count: u64,
    /// Total execution time, milliseconds.
    pub total_duration_ms: u64,
    /// Average execution time, milliseconds (total over count).
    pub avg_duration_ms: u64,
    /// Fastest execution, milliseconds.
    pub min_duration_ms: u64,
    /// Slowest execution, milliseconds.
    pub max_duration_ms: u64,
    /// Failed executions.
    pub error_count: u64,
    /// When the statement last ran, epoch milliseconds.
    pub last_executed: u64,
}

/// Connection-pool occupancy and acquisition statistics.
#[derive(Debug, Clone, Copy, PartialEq)]
pub struct PoolStats {
    /// Connections busy right now.
    pub active_connections: u32,
    /// Connections idle right now.
    pub idle_connections: u32,
    /// Connections open in all.
    pub total_connections: u32,
    /// Tasks waiting for a connection.
    pub waiting_tasks: u32,
    /// Acquisitions attempted.
    pub acquire_count: u64,
    /// Acquisitions that succeeded.
    pub acquire_success_count: u64,
    /// Acquisitions that failed.
    pub acquire_failed_count: u64,
    /// Average acquisition time, milliseconds.
    pub avg_acquire_time_ms: u64,
}

/// Per-statement and pool statistics.
#[derive(Debug)]
pub struct PerformanceMonitor {
    /// One entry per distinct statement.
    pub query_stats: Vec<QueryStats>,
    /// Pool occupancy.
    pub pool_stats: PoolStats,
    /// The governing switches.
    pub config: MonitoringConfig,
}

/// At most one entry per statement text.
pub open spec fn spec_stats_unique(stats: Seq<QueryStats>) -> bool {
    forall|i: int, j: int| 0 <= i < j < stats.len() ==> stats[i].sql@ != stats[j].sql@
}

/// Index of the entry keyed by `sql`, when one exists.
pub open spec fn spec_query_index(stats: Seq<QueryStats>, sql: Seq<char>) -> Option<int> {
    if exists|i: int| 0 <= i < stats.len() && (#[trigger] stats[i]).sql@ == sql {
        Some(choose|i: int| 0 <= i < stats.len() && (#[trigger] stats[i]).sql@ == sql)
    } else {
        None
    }
}

/// How a statement's entry changes when one more execution is recorded: the
/// count grows by one and the total by the duration (both saturated), the
/// average is their quotient, the extremes absorb the duration, a failure
/// adds to the error count, and the execution time is stamped.
pub open spec fn spec_query_bumped(
    o: QueryStats,
    n: QueryStats,
    duration_ms: u64,
    success: bool,
    now_ms: u64,
) -> bool {
    &&& n.sql@ == o.sql@
    &&& n.count == (if o.count < u64::MAX {
        o.count + 1
    } else {
        o.count as int
    })
    &&& n.total_duration_ms == (if o.total_duration_ms + duration_ms <= u64::MAX {
        o.total_duration_ms + duration_ms
    } else {
        u64::MAX as int
    })
    &&& n.avg_duration_ms == n.total_duration_ms / n.count
    &&& n.min_duration_ms == (if duration_ms < o.min_duration_ms {
        duration_ms
    } else {
        o.min_duration_ms
    })
    &&& n.max_duration_ms == (if duration_ms > o.max_duration_ms {
        duration_ms
    } else {
        o.max_duration_ms
    })
    &&& n.error_count == (if success {
        o.error_count as int
    } else if o.error_count < u64::MAX {
        o.error_count + 1
    } else {
        o.error_count as int
    })
    &&& n.last_executed == now_ms
}

/// The fresh entry of a statement first recorded at `now_ms`.
pub open spec fn spec_query_fresh(
    e: QueryStats,
    sql: Seq<char>,
    duration_ms: u64,
    success: bool,
    now_ms: u64,
) -> bool {
    &&& e.sql@ == sql
    &&& e.count == 1
    &&& e.total_duration_ms == duration_ms
    &&& e.avg_duration_ms == duration_ms
    &&& e.min_duration_ms == duration_ms
    &&& e.max_duration_ms == duration_ms
    &&& e.error_count == (if success {
        0int
    } else {
        1int
    })
    &&& e.last_executed == now_ms
}

impl PerformanceMonitor {
    /// No statement appears twice.
    pub open spec fn wf(self) -> bool {
        spec_stats_unique(self.query_stats@)
    }

    /// A monitor with no statistics yet.
    pub fn new(config: MonitoringConfig) -> (r: PerformanceMonitor)
        ensures
            r.wf(),
            r.query_stats@.len() == 0,
            r.config == config,
            r.pool_stats == (PoolStats {
                active_connections: 0,
                idle_connections: 0,
                total_connections: 0,
                waiting_tasks: 0,
                acquire_count: 0,
                acquire_success_count: 0,
                acquire_failed_count: 0,
                avg_acquire_time_ms: 0,
            }),
    {
        PerformanceMonitor {
            query_stats: Vec::new(),
            pool_stats: PoolStats {
                active_connections: 0,
                idle_connections: 0,
                total_connections: 0,
                waiting_tasks: 0,
                acquire_count: 0,
                acquire_success_count: 0,
                acquire_failed_count: 0,
                avg_acquire_time_ms: 0,
            },
            config,
        }
    }

    /// Records one execution of `sql`: the statement's count grows, its
    /// total, average, fastest and slowest durations are updated, and a
    /// failure adds to its error count. Disabled monitoring records nothing.
    pub fn record_query(&mut self, sql: &str, duration_ms: u64, success: bool, now_ms: u64)
        requires
            old(self).wf(),
        ensures
            final(self).wf(),
            final(self).config == old(self).config,
            final(self).pool_stats == old(self).pool_stats,
            !old(self).config.enable_monitoring ==> final(self).query_stats@ == old(self).query_stats@,
            old(self).config.enable_monitoring ==> exists|i: int|
                0 <= i < final(self).query_stats@.len() && (#[trigger] final(self).query_stats@[i]).sql@ == sql@ && final(self).query_stats@[i].last_executed
                    == now_ms && final(self).query_stats@[i].count > 0 && final(self).query_stats@[i].avg_duration_ms == final(self).query_stats@[i].total_duration_ms
                    / final(self).query_stats@[i].count,
            old(self).config.enable_monitoring ==> match spec_query_index(
                old(self).query_stats@,
                sql@,
            ) {
                Some(i) => final(self).query_stats@.len() == old(self).query_stats@.len()
                    && (forall|k: int|
                    0 <= k < old(self).query_stats@.len() && k != i ==> final(self).query_stats@[k]
                        == old(self).query_stats@[k]) && spec_query_bumped(
                    old(self).query_stats@[i],
                    final(self).query_stats@[i],
                    duration_ms,
                    success,
                    now_ms,
                ),
                None => final(self).query_stats@.len() == old(self).query_stats@.len() + 1 && (
                forall|k: int|
                    0 <= k < old(self).query_stats@.len() ==> final(self).query_stats@[k] == old(
                        self,
                    ).query_stats@[k]) && spec_query_fresh(
                    final(self).query_stats@.last(),
                    sql@,
                    duration_ms,
                    success,
                    now_ms,
                ),
            },
    {
        if !self.config.enable_monitoring {
            return ;
        }
        let n = self.query_stats.len();
        let mut idx: usize = 0;
        let mut found = false;
        while idx < n && !found
            invariant
                n == self.query_stats@.len(),
                idx <= n,
                *self == *old(self),
                found ==> idx < n && self.query_stats@[idx as int].sql@ == sql@,
                !found ==> forall|k: int| 0 <= k < idx ==> self.query_stats@[k].sql@ != sql@,
            decreases n - idx + (if found { 0int } else { 1int }),
        {
            if strutil::str_eq(self.query_stats[idx].sql.as_str(), sql) {
                found = true;
            } else {
                idx += 1;
            }
        }
        if found {
            let st = &self.query_stats[idx];
            let new_count: u64 = if st.count < u64::MAX {
                st.count + 1
            } else {
                st.count
            };
            let new_total: u64 = if st.total_duration_ms <= u64::MAX - duration_ms {
                st.total_duration_ms + duration_ms
            } else {
                u64::MAX
            };
            let new_min: u64 = if duration_ms < st.min_duration_ms {
                duration_ms
            } else {
                st.min_duration_ms
            };
            let new_max: u64 = if duration_ms > st.max_duration_ms {
                duration_ms
            } else {
                st.max_duration_ms
            };
            let new_errors: u64 = if success {
                st.error_count
            } else if st.error_count < u64::MAX {
                st.error_count + 1
            } else {
                st.error_count
            };
            let sql_owned = st.sql.clone();
            self.query_stats[idx] = QueryStats {
                sql: sql_owned,
                count: new_count,
                total_duration_ms: new_total,
                avg_duration_ms: new_total / new_count,
                min_duration_ms: new_min,
                max_duration_ms: new_max,
                error_count: new_errors,
                last_executed: now_ms,
            };
            proof {
                assert(self.query_stats@[idx as int].sql@ == sql@);
                assert(spec_query_index(old(self).query_stats@, sql@) == Some(idx as int)) by {
                    let s = old(self).query_stats@;
                    assert(0 <= idx < s.len() && s[idx as int].sql@ == sql@);
                    let c = choose|i: int| 0 <= i < s.len() && (#[trigger] s[i]).sql@ == sql@;
                    if c != idx {
                        assert(s[c].sql@ != s[idx as int].sql@);
                    }
                }
                assert(spec_query_bumped(
                    old(self).query_stats@[idx as int],
                    self.query_stats@[idx as int],
                    duration_ms,
                    success,
                    now_ms,
                ));
                assert(forall|k: int|
                    0 <= k < self.query_stats@.len() && k != idx ==> self.query_stats@[k] == old(self).query_stats@[k]);
                assert(spec_stats_unique(self.query_stats@)) by {
                    assert forall|a: int, b: int|
                        0 <= a < b < self.query_stats@.len() implies self.query_stats@[a].sql@
                        != self.query_stats@[b].sql@ by {
                        assert(old(self).query_stats@[a].sql@ != old(self).query_stats@[b].sql@);
                    }
                }
            }
        } else {
            self.query_stats.push(
                QueryStats {
                    sql: String::from_str(sql),
                    count: 1,
                    total_duration_ms: duration_ms,
                    avg_duration_ms: duration_ms,
                    min_duration_ms: duration_ms,
                    max_duration_ms: duration_ms,
                    error_count: if success {
                        0
                    } else {
                        1
                    },
                    last_executed: now_ms,
                },
            );
            proof {
                assert(self.query_stats@.last().sql@ == sql@);
                assert(spec_query_index(old(self).query_stats@, sql@) is None);
                assert(spec_query_fresh(
                    self.query_stats@.last(),
                    sql@,
                    duration_ms,
                    success,
                    now_ms,
                ));
                assert(forall|k: int|
                    0 <= k < self.query_stats@.len() - 1 ==> self.query_stats@[k] == old(self).query_stats@[k]);
                assert(spec_stats_unique(self.query_stats@)) by {
                    assert forall|a: int, b: int|
                        0 <= a < b < self.query_stats@.len() implies self.query_stats@[a].sql@
                        != self.query_stats@[b].sql@ by {
                        if b < self.query_stats@.len() - 1 {
                            assert(old(self).query_stats@[a].sql@ != old(self).query_stats@[b].sql@);
                        }
                    }
                }
            }
        }
    }

    /// Records one connection acquisition and reworks the running average
    /// acquisition time. Disabled monitoring records nothing.
    pub fn record_acquire(&mut self, duration_ms: u64, success: bool)
        requires
            old(self).wf(),
            old(self).pool_stats.acquire_count < u64::MAX,
            old(self).pool_stats.acquire_success_count < u64::MAX,
            old(self).pool_stats.acquire_failed_count < u64::MAX,
        ensures
            final(self).wf(),
            final(self).config == old(self).config,
            final(self).query_stats@ == old(self).query_stats@,
            !old(self).config.enable_monitoring ==> final(self).pool_stats == old(self).pool_stats,
            old(self).config.enable_monitoring ==> final(self).pool_stats == (PoolStats {
                acquire_count: (old(self).pool_stats.acquire_count + 1) as u64,
                acquire_success_count: (old(self).pool_stats.acquire_success_count + (if success {
                    1int
                } else {
                    0int
                })) as u64,
                acquire_failed_count: (old(self).pool_stats.acquire_failed_count + (if success {
                    0int
                } else {
                    1int
                })) as u64,
                avg_acquire_time_ms: ((old(self).pool_stats.avg_acquire_time_ms * old(
                    self,
                ).pool_stats.acquire_count + duration_ms) / (old(self).pool_stats.acquire_count
                    + 1)) as u64,
                ..old(self).pool_stats
            }),
    {
        if !self.config.enable_monitoring {
            return ;
        }
        let stats = &self.pool_stats;
        let count = stats.acquire_count;
        proof {
            let avg = stats.avg_acquire_time_ms;
            vstd::arithmetic::mul::lemma_mul_upper_bound(
                avg as int,
                u64::MAX as int,
                count as int,
                u64::MAX as int,
            );
            assert((u64::MAX as int) * (u64::MAX as int) + u64::MAX < u128::MAX as int)
                by (nonlinear_arith);
            let m: int = if avg >= duration_ms {
                avg as int
            } else {
                duration_ms as int
            };
            assert((avg as int) * (count as int) + duration_ms <= m * (count as int) + m)
                by (nonlinear_arith)
                requires avg <= m && duration_ms <= m && count >= 0,
            ;
            assert(m * (count as int) + m == m * ((count as int) + 1)) by (nonlinear_arith);
            assert((m * ((count as int) + 1)) / ((count as int) + 1) == m) by (nonlinear_arith)
                requires (count as int) + 1 > 0,
            ;
            vstd::arithmetic::div_mod::lemma_div_is_ordered(
                (avg as int) * (count as int) + duration_ms,
                m * ((count as int) + 1),
                (count as int) + 1,
            );
        }
        let wide: u128 = ((stats.avg_acquire_time_ms as u128) * (count as u128) + (
        duration_ms as u128)) / ((count as u128) + 1);
        self.pool_stats = PoolStats {
            acquire_count: count + 1,
            acquire_success_count: if success {
                stats.acquire_success_count + 1
            } else {
                stats.acquire_success_count
            },
            acquire_failed_count: if success {
                stats.acquire_failed_count
            } else {
                stats.acquire_failed_count + 1
            },
            avg_acquire_time_ms: wide as u64,
            ..self.pool_stats
        };
    }

    /// Takes the pool's occupancy numbers: the busy count is the total minus
    /// the idle.
    pub fn update_pool_stats(&mut self, total_connections: u32, idle_connections: u32)
        requires
            old(self).wf(),
            idle_connections <= total_connections,
        ensures
            final(self).wf(),
            final(self).config == old(self).config,
            final(self).query_stats@ == old(self).query_stats@,
            !old(self).config.enable_monitoring ==> final(self).pool_stats == old(self).pool_stats,
            old(self).config.enable_monitoring ==> final(self).pool_stats == (PoolStats {
                total_connections,
                idle_connections,
                active_connections: (total_connections - idle_connections) as u32,
                ..old(self).pool_stats
            }),
    {
        if !self.config.enable_monitoring {
            return ;
        }
        self.pool_stats = PoolStats {
            total_connections,
            idle_connections,
            active_connections: total_connections - idle_connections,
            ..self.pool_stats
        };
    }

    /// A copy of every statement's statistics.
    pub fn get_query_stats(&self) -> (r: Vec<QueryStats>)
        ensures
            r@ == self.query_stats@,
    {
        let mut out: Vec<QueryStats> = Vec::new();
        let mut i: usize = 0;
        while i < self.query_stats.len()
            invariant
                i <= self.query_stats@.len(),
                out@ =~= self.query_stats@.subrange(0, i as int),
            decreases self.query_stats@.len() - i,
        {
            let st = &self.query_stats[i];
            out.push(
                QueryStats {
                    sql: st.sql.clone(),
                    count: st.count,
                    total_duration_ms: st.total_duration_ms,
                    avg_duration_ms: st.avg_duration_ms,
                    min_duration_ms: st.min_duration_ms,
                    max_duration_ms: st.max_duration_ms,
                    error_count: st.error_count,
                    last_executed: st.last_executed,
                },
            );
            i += 1;
        }
        proof {
            assert(out@ =~= self.query_stats@);
        }
        out
    }

    /// The statements whose average duration has reached `threshold_ms`.
    pub fn get_slow_queries(&self, threshold_ms: u64) -> (r: Vec<QueryStats>)
        ensures
            r@ == self.query_stats@.filter(|s: QueryStats| s.avg_duration_ms >= threshold_ms),
    {
        let mut out: Vec<QueryStats> = Vec::new();
        let mut i: usize = 0;
        let n = self.query_stats.len();
        proof {
            reveal(Seq::filter);
            assert(self.query_stats@.subrange(0, 0) =~= Seq::<QueryStats>::empty());
        }
        while i < n
            invariant
                n == self.query_stats@.len(),
                i <= n,
                out@ == self.query_stats@.subrange(0, i as int).filter(
                    |s: QueryStats| s.avg_duration_ms >= threshold_ms,
                ),
            decreases n - i,
        {
            let ghost pre = self.query_stats@.subrange(0, i as int);
            if self.query_stats[i].avg_duration_ms >= threshold_ms {
                let st = &self.query_stats[i];
                out.push(
                    QueryStats {
                        sql: st.sql.clone(),
                        count: st.count,
                        total_duration_ms: st.total_duration_ms,
                        avg_duration_ms: st.avg_duration_ms,
                        min_duration_ms: st.min_duration_ms,
                        max_duration_ms: st.max_duration_ms,
                        error_count: st.error_count,
                        last_executed: st.last_executed,
                    },
                );
            }
            proof {
                reveal(Seq::filter);
                let post = self.query_stats@.subrange(0, i + 1);
                assert(post.drop_last() =~= pre);
                assert(post.last() == self.query_stats@[i as int]);
            }
            i += 1;
        }
        proof {
            assert(self.query_stats@.subrange(0, n as int) =~= self.query_stats@);
        }
        out
    }

    /// The pool's statistics.
    pub fn get_pool_stats(&self) -> (r: PoolStats)
        ensures
            r == self.pool_stats,
    {
        self.pool_stats
    }

    /// Drops statistics whose last execution is older than the retention
    /// window.
    pub fn cleanup_expired_stats(&mut self, now_ms: u64)
        requires
            old(self).wf(),
        ensures
            final(self).wf(),
            final(self).config == old(self).config,
            final(self).pool_stats == old(self).pool_stats,
            final(self).query_stats@ == old(self).query_stats@.filter(
                |s: QueryStats| s.last_executed + old(self).config.retention_seconds * 1000
                    >= now_ms,
            ),
    {
        let retention_ms: u64 = if self.config.retention_seconds <= u64::MAX / 1000 {
            self.config.retention_seconds * 1000
        } else {
            u64::MAX
        };
        proof {
            assert(self.config.retention_seconds <= u64::MAX / 1000 ==> retention_ms
                == self.config.retention_seconds * 1000) by (nonlinear_arith)
                requires retention_ms == self.config.retention_seconds * 1000
                    || !(self.config.retention_seconds <= u64::MAX / 1000),
            ;
        }
        let mut kept: Vec<QueryStats> = Vec::new();
        let n = self.query_stats.len();
        let mut i: usize = 0;
        proof {
            reveal(Seq::filter);
            assert(self.query_stats@.subrange(0, 0) =~= Seq::<QueryStats>::empty());
        }
        while i < n
            invariant
                n == self.query_stats@.len(),
                i <= n,
                *self == *old(self),
                retention_ms == (if old(self).config.retention_seconds <= u64::MAX / 1000 {
                    (old(self).config.retention_seconds * 1000) as int
                } else {
                    u64::MAX as int
                }),
                old(self).config.retention_seconds * 1000 >= retention_ms,
                kept@ == self.query_stats@.subrange(0, i as int).filter(
                    |s: QueryStats| s.last_executed + old(self).config.retention_seconds * 1000
                        >= now_ms,
                ),
            decreases n - i,
        {
            let ghost pre = self.query_stats@.subrange(0, i as int);
            let st = &self.query_stats[i];
            let fresh = now_ms <= retention_ms || st.last_executed >= now_ms - retention_ms;
            proof {
                assert(fresh == (st.last_executed + old(self).config.retention_seconds * 1000
                    >= now_ms));
            }
            if fresh {
                kept.push(
                    QueryStats {
                        sql: st.sql.clone(),
                        count: st.count,
                        total_duration_ms: st.total_duration_ms,
                        avg_duration_ms: st.avg_duration_ms,
                        min_duration_ms: st.min_duration_ms,
                        max_duration_ms: st.max_duration_ms,
                        error_count: st.error_count,
                        last_executed: st.last_executed,
                    },
                );
            }
            proof {
                reveal(Seq::filter);
                let post = self.query_stats@.subrange(0, i + 1);
                assert(post.drop_last() =~= pre);
                assert(post.last() == self.query_stats@[i as int]);
            }
            i += 1;
        }
        proof {
            assert(self.query_stats@.subrange(0, n as int) =~= self.query_stats@);
        }
        let ghost target = old(self).query_stats@.filter(
            |s: QueryStats| s.last_executed + old(self).config.retention_seconds * 1000 >= now_ms,
        );
        self.query_stats = kept;
        proof {
            assert(spec_stats_unique(self.query_stats@)) by {
                old(self).query_stats@.lemma_filter_len(
                    |s: QueryStats| s.last_executed + old(self).config.retention_seconds * 1000
                        >= now_ms,
                );
                assert forall|a: int, b: int|
                    0 <= a < b < self.query_stats@.len() implies self.query_stats@[a].sql@
                    != self.query_stats@[b].sql@ by {
                    lemma_filter_distinct(
                        old(self).query_stats@,
                        |s: QueryStats| s.last_executed + old(self).config.retention_seconds
                            * 1000 >= now_ms,
                        a,
                        b,
                    );
                }
            }
        }
    }
}

/// Elements of a filtered sequence with distinct statement texts keep them
/// distinct.
proof fn lemma_filter_distinct(
    s: Seq<QueryStats>,
    pred: spec_fn(QueryStats) -> bool,
    a: int,
    b: int,
)
    requires
        spec_stats_unique(s),
        0 <= a < b < s.filter(pred).len(),
    ensures
        s.filter(pred)[a].sql@ != s.filter(pred)[b].sql@,
    decreases s.len(),
{
    reveal(Seq::filter);
    if s.len() > 0 {
        let sub = s.drop_last().filter(pred);
        if pred(s.last()) {
            if b < sub.len() {
                lemma_filter_distinct(s.drop_last(), pred, a, b);
            } else {
                // The last filtered element is the last of `s`; the other one
                // comes from the front and is therefore distinct.
                assert(s.filter(pred)[b] == s.last());
                lemma_filter_elem_from(s.drop_last(), pred, a);
                let w = choose|w: int|
                    0 <= w < s.drop_last().len() && s.drop_last()[w] == sub[a];
                assert(s[w].sql@ != s.last().sql@);
            }
        } else {
            lemma_filter_distinct(s.drop_last(), pred, a, b);
        }
    }
}

/// Every element of a filtered sequence comes from the original.
proof fn lemma_filter_elem_from(s: Seq<QueryStats>, pred: spec_fn(QueryStats) -> bool, i: int)
    requires
        0 <= i < s.filter(pred).len(),
    ensures
        exists|w: int| 0 <= w < s.len() && s[w] == #[trigger] s.filter(pred)[i],
    decreases s.len(),
{
    reveal(Seq::filter);
    if s.len() > 0 {
        let sub = s.drop_last().filter(pred);
        if pred(s.last()) && i == sub.len() {
            assert(s[s.len() - 1] == s.filter(pred)[i]);
        } else {
            lemma_filter_elem_from(s.drop_last(), pred, i);
            let w = choose|w: int|
                0 <= w < s.drop_last().len() && s.drop_last()[w] == s.drop_last().filter(pred)[i];
            assert(s[w] == s.filter(pred)[i]);
        }
    }
}

} // verus!
