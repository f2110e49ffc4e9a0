//! Query optimization: the catalog of named indexes the store is created
//! with, the SQL text for creating them, and the analysis that reads an
//! execution plan into index usage, optimization advice and a complexity
//! score.
//!
//! Executing statements is the application's business; everything here is a
//! function from statement and plan text to decisions.

use vstd::prelude::*;
use crate::strutil;
use vstd::string::StrSliceExecFns;

verus! {

/// Kind of index.
#[derive(Debug, Clone, PartialEq, Eq, Structural)]
pub enum IndexType {
    /// Plain B-tree index, the default.
    BTree,
    /// Unique index.
    Unique,
    /// Partial index over a predicate.
    Partial,
    /// Index over an expression.
    Expression,
    /// Multi-column index.
    Composite,
}

/// One named index of the catalog.
#[derive(Debug, Clone, PartialEq)]
pub struct IndexDefinition {
    /// Index name.
    pub name: String,
    /// Table the index belongs to.
    pub table: String,
    /// Indexed columns.
    pub columns: Vec<String>,
    /// Kind of index.
    pub index_type: IndexType,
    /// Whether the index enforces uniqueness.
    pub unique: bool,
    /// Predicate of a partial index.
    pub where_clause: Option<String>,
    /// Expression of an expression index.
    pub expression: Option<String>,
    /// Whether startup creates the index when missing.
    pub auto_create: bool,
}

/// What the analysis of one statement found.
#[derive(Debug, Clone, PartialEq)]
pub struct QueryAnalysis {
    /// The statement analyzed.
    pub sql: String,
    /// The execution plan, one detail line per row.
    pub query_plan: String,
    /// Rows scanned, when the plan reports it.
    pub rows_scanned: Option<u64>,
    /// Rows returned, when the plan reports it.
    pub rows_returned: Option<u64>,
    /// Indexes the plan used.
    pub used_indexes: Vec<String>,
    /// Optimization advice derived from the plan.
    pub optimization_suggestions: Vec<String>,
    /// Complexity score from 1 to 10.
    pub complexity_score: u32,
}

/// Occurrences of `pat` in `hay`, counted left to right without overlap.
pub open spec fn spec_count_from(hay: Seq<char>, i: int, pat: Seq<char>) -> int
    decreases hay.len() - i,
{
    if pat.len() == 0 || i < 0 || i + pat.len() > hay.len() {
        0
    } else if strutil::spec_match_at(hay, i, pat) {
        1 + spec_count_from(hay, i + pat.len(), pat)
    } else {
        spec_count_from(hay, i + 1, pat)
    }
}

/// Occurrences of `pat` in `hay`.
pub open spec fn spec_count_occurrences(hay: Seq<char>, pat: Seq<char>) -> int {
    spec_count_from(hay, 0, pat)
}

/// Counts the occurrences of `pat` in `hay`, left to right without overlap.
pub fn count_occurrences(hay: &str, pat: &str) -> (r: usize)
    ensures
        r == spec_count_occurrences(hay@, pat@),
        r <= hay@.len(),
{
    let hay_len = hay.unicode_len();
    let pat_len = pat.unicode_len();
    if pat_len == 0 || pat_len > hay_len {
        return 0;
    }
    let last = hay_len - pat_len;
    let mut cnt: usize = 0;
    let mut i: usize = 0;
    while i <= last
        invariant
            hay_len == hay@.len(),
            pat_len == pat@.len(),
            0 < pat_len <= hay_len,
            last == hay_len - pat_len,
            i <= hay_len,
            cnt <= i,
            cnt + spec_count_from(hay@, i as int, pat@) == spec_count_occurrences(hay@, pat@),
        decreases hay_len - i,
    {
        if strutil::match_at(hay, hay_len, i, pat, pat_len) {
            cnt += 1;
            i += pat_len;
        } else {
            i += 1;
        }
    }
    proof {
        assert(spec_count_from(hay@, i as int, pat@) == 0);
    }
    cnt
}

/// The complexity score of a statement given its plan: one point base, plus
/// points for joins, subqueries, ordering, grouping and having in the text,
/// and for table scans, temporary b-trees and nested loops in the plan,
/// capped at ten.
pub open spec fn spec_complexity_score(sql: Seq<char>, plan: Seq<char>) -> int {
    let s = 1 + (if strutil::spec_contains(sql, "JOIN"@) {
        2int
    } else {
        0int
    }) + (if strutil::spec_contains(sql, "SUBQUERY"@) || (strutil::spec_contains(sql, "SELECT"@)
        && spec_count_occurrences(sql, "SELECT"@) > 1) {
        3int
    } else {
        0int
    }) + (if strutil::spec_contains(sql, "ORDER BY"@) {
        1int
    } else {
        0int
    }) + (if strutil::spec_contains(sql, "GROUP BY"@) {
        2int
    } else {
        0int
    }) + (if strutil::spec_contains(sql, "HAVING"@) {
        2int
    } else {
        0int
    }) + (if strutil::spec_contains(plan, "SCAN TABLE"@) {
        3int
    } else {
        0int
    }) + (if strutil::spec_contains(plan, "TEMP B-TREE"@) {
        2int
    } else {
        0int
    }) + (if strutil::spec_contains(plan, "NESTED LOOP"@) {
        2int
    } else {
        0int
    });
    if s > 10 {
        10
    } else {
        s
    }
}

/// Scores a statement's complexity, per [`spec_complexity_score`].
pub fn calculate_complexity_score(sql: &str, query_plan: &str) -> (r: u32)
    ensures
        r == spec_complexity_score(sql@, query_plan@),
        1 <= r <= 10,
{
    let mut score: u32 = 1;
    if strutil::str_contains(sql, "JOIN") {
        score += 2;
    }
    if strutil::str_contains(sql, "SUBQUERY") || (strutil::str_contains(sql, "SELECT")
        && count_occurrences(sql, "SELECT") > 1) {
        score += 3;
    }
    if strutil::str_contains(sql, "ORDER BY") {
        score += 1;
    }
    if strutil::str_contains(sql, "GROUP BY") {
        score += 2;
    }
    if strutil::str_contains(sql, "HAVING") {
        score += 2;
    }
    if strutil::str_contains(query_plan, "SCAN TABLE") {
        score += 3;
    }
    if strutil::str_contains(query_plan, "TEMP B-TREE") {
        score += 2;
    }
    if strutil::str_contains(query_plan, "NESTED LOOP") {
        score += 2;
    }
    if score > 10 {
        score = 10;
    }
    score
}

/// The SQL that creates an index: `CREATE [UNIQUE ]INDEX IF NOT EXISTS
/// <name> ON <table> (<expression or columns>)[ WHERE <predicate>]`.
pub open spec fn spec_create_index_sql(d: IndexDefinition) -> Seq<char> {
    let head = "CREATE "@ + (if d.unique {
        "UNIQUE "@
    } else {
        Seq::empty()
    }) + "INDEX IF NOT EXISTS "@ + d.name@ + " ON "@ + d.table@;
    let cols = match d.expression {
        Some(e) => " ("@ + e@ + ")"@,
        None => " ("@ + strutil::spec_join(strutil::views_of(d.columns@), ", "@) + ")"@,
    };
    let tail = match d.where_clause {
        Some(w) => " WHERE "@ + w@,
        None => Seq::empty(),
    };
    head + cols + tail
}

/// Builds the index-creation SQL, per [`spec_create_index_sql`].
pub fn generate_create_index_sql(index_def: &IndexDefinition) -> (r: String)
    ensures
        r@ == spec_create_index_sql(*index_def),
{
    let mut sql = String::new();
    sql.append("CREATE ");
    if index_def.unique {
        sql.append("UNIQUE ");
    }
    sql.append("INDEX IF NOT EXISTS ");
    sql.append(index_def.name.as_str());
    sql.append(" ON ");
    sql.append(index_def.table.as_str());
    match &index_def.expression {
        Some(e) => {
            sql.append(" (");
            sql.append(e.as_str());
            sql.append(")");
        },
        None => {
            sql.append(" (");
            let joined = strutil::join_strings(&index_def.columns, ", ");
            sql.append(joined.as_str());
            sql.append(")");
        },
    }
    match &index_def.where_clause {
        Some(w) => {
            sql.append(" WHERE ");
            sql.append(w.as_str());
        },
        None => {},
    }
    assert(sql@ =~= spec_create_index_sql(*index_def));
    sql
}

/// First position at which `pat` occurs in `hay`, scanning from `i`.
pub open spec fn spec_find_from(hay: Seq<char>, i: int, pat: Seq<char>) -> Option<int>
    decreases hay.len() - i,
{
    if i < 0 || i + pat.len() > hay.len() {
        None
    } else if pat.len() == 0 {
        Some(i)
    } else if strutil::spec_match_at(hay, i, pat) {
        Some(i)
    } else {
        spec_find_from(hay, i + 1, pat)
    }
}

/// First position at which `pat` occurs in `hay`.
pub open spec fn spec_find(hay: Seq<char>, pat: Seq<char>) -> Option<int> {
    spec_find_from(hay, 0, pat)
}

/// Finds the first occurrence of `pat` in `hay`, per [`spec_find`].
pub fn find_str(hay: &str, pat: &str) -> (r: Option<usize>)
    ensures
        match spec_find(hay@, pat@) {
            Some(i) => 0 <= i && i + pat@.len() <= hay@.len() && r == Some(i as usize),
            None => r is None,
        },
        r is Some ==> r.unwrap() + pat@.len() <= hay@.len(),
{
    let hay_len = hay.unicode_len();
    let pat_len = pat.unicode_len();
    if pat_len > hay_len {
        return None;
    }
    if pat_len == 0 {
        return Some(0);
    }
    let last = hay_len - pat_len;
    let mut i: usize = 0;
    while i < last + 1
        invariant
            hay_len == hay@.len(),
            pat_len == pat@.len(),
            0 < pat_len <= hay_len,
            last == hay_len - pat_len,
            i <= last + 1,
            spec_find(hay@, pat@) == spec_find_from(hay@, i as int, pat@),
        decreases last + 1 - i,
    {
        if strutil::match_at(hay, hay_len, i, pat, pat_len) {
            return Some(i);
        }
        i += 1;
    }
    None
}

/// The index name one plan row reports: the text after `USING INDEX `, up to
/// the next space or the end of the row; nothing when the row reports no
/// index use.
pub open spec fn spec_used_index_of(row: Seq<char>) -> Option<Seq<char>> {
    match spec_find(row, "USING INDEX "@) {
        Some(p) => {
            let rest = row.subrange(p + 12, row.len() as int);
            match spec_find(rest, " "@) {
                Some(e) => Some(rest.subrange(0, e)),
                None => Some(rest),
            }
        },
        None => None,
    }
}

/// Extracts the index name a plan row reports, per [`spec_used_index_of`].
pub fn used_index_of(row: &str) -> (r: Option<String>)
    ensures
        spec_used_index_of(row@) is Some <==> r is Some,
        r is Some ==> r.unwrap()@ == spec_used_index_of(row@).unwrap(),
{
    let marker = "USING INDEX ";
    proof {
        reveal_strlit("USING INDEX ");
    }
    let found = find_str(row, marker);
    match found {
        Some(p) => {
            let row_len = row.unicode_len();
            let rest = row.substring_char(p + 12, row_len);
            let rest_owned = String::from_str(rest);
            proof {
                assert(rest_owned@ == row@.subrange(p + 12, row@.len() as int));
            }
            proof {
                assert(spec_find(row@, "USING INDEX "@) == Some(p as int));
            }
            let found_sp = find_str(rest_owned.as_str(), " ");
            match found_sp {
                Some(e) => {
                    let name = rest_owned.as_str().substring_char(0, e);
                    let out = String::from_str(name);
                    proof {
                        assert(out@ == row@.subrange(p + 12, row@.len() as int).subrange(
                            0,
                            e as int,
                        ));
                        assert(spec_find(rest_owned@, " "@) == Some(e as int));
                        assert(spec_used_index_of(row@) == Some(out@));
                    }
                    Some(out)
                },
                None => {
                    proof {
                        assert(spec_find(rest_owned@, " "@) is None);
                        assert(spec_used_index_of(row@) == Some(rest_owned@));
                    }
                    Some(rest_owned)
                },
            }
        },
        None => None,
    }
}

/// The index names a plan reports, row by row.
pub open spec fn spec_used_indexes(rows: Seq<Seq<char>>) -> Seq<Seq<char>>
    decreases rows.len(),
{
    if rows.len() == 0 {
        Seq::empty()
    } else {
        spec_used_indexes(rows.drop_last()) + (match spec_used_index_of(rows.last()) {
            Some(name) => seq![name],
            None => Seq::empty(),
        })
    }
}

/// The advice derived from the plan rows: an index suggestion for every
/// unindexed table scan, and an ordering index for every temporary b-tree.
pub open spec fn spec_plan_suggestions(rows: Seq<Seq<char>>) -> Seq<Seq<char>>
    decreases rows.len(),
{
    if rows.len() == 0 {
        Seq::empty()
    } else {
        let row = rows.last();
        let scan: Seq<Seq<char>> = if strutil::spec_contains(row, "SCAN TABLE"@)
            && !strutil::spec_contains(row, "USING INDEX"@) {
            seq!["Consider adding an index for the table scan: "@ + row]
        } else {
            Seq::empty()
        };
        let temp: Seq<Seq<char>> = if strutil::spec_contains(row, "TEMP B-TREE"@) {
            seq!["The plan uses a temporary B-tree; consider an ORDER BY index"@]
        } else {
            Seq::empty()
        };
        spec_plan_suggestions(rows.drop_last()) + scan + temp
    }
}

/// The plan text: every row followed by a newline.
pub open spec fn spec_plan_text(rows: Seq<Seq<char>>) -> Seq<char>
    decreases rows.len(),
{
    if rows.len() == 0 {
        Seq::empty()
    } else {
        spec_plan_text(rows.drop_last()) + rows.last() + "\n"@
    }
}

/// Reads an execution plan into the statement's analysis: which indexes were
/// used, what advice the plan rows give, and the complexity score of the
/// statement and plan. The plan rows are the `detail` column of the plan
/// query, which the caller obtains from the database.
pub fn analyze_plan(sql: &str, plan_rows: &Vec<String>) -> (r: QueryAnalysis)
    ensures
        r.sql@ == sql@,
        r.query_plan@ == spec_plan_text(strutil::views_of(plan_rows@)),
        r.rows_scanned is None,
        r.rows_returned is None,
        strutil::views_of(r.used_indexes@) == spec_used_indexes(strutil::views_of(plan_rows@)),
        strutil::views_of(r.optimization_suggestions@) == spec_plan_suggestions(
            strutil::views_of(plan_rows@),
        ),
        r.complexity_score == spec_complexity_score(
            sql@,
            spec_plan_text(strutil::views_of(plan_rows@)),
        ),
{
    let ghost rows = strutil::views_of(plan_rows@);
    let mut query_plan = String::new();
    let mut used_indexes: Vec<String> = Vec::new();
    let mut suggestions: Vec<String> = Vec::new();
    let n = plan_rows.len();
    let mut i: usize = 0;
    proof {
        assert(rows.subrange(0, 0) =~= Seq::<Seq<char>>::empty());
        assert(strutil::views_of(used_indexes@) =~= Seq::<Seq<char>>::empty());
        assert(strutil::views_of(suggestions@) =~= Seq::<Seq<char>>::empty());
    }
    while i < n
        invariant
            n == plan_rows@.len(),
            i <= n,
            rows == strutil::views_of(plan_rows@),
            query_plan@ == spec_plan_text(rows.subrange(0, i as int)),
            strutil::views_of(used_indexes@) == spec_used_indexes(rows.subrange(0, i as int)),
            strutil::views_of(suggestions@) == spec_plan_suggestions(rows.subrange(0, i as int)),
        decreases n - i,
    {
        let detail = &plan_rows[i];
        let ghost pre = rows.subrange(0, i as int);
        query_plan.append(detail.as_str());
        query_plan.append("\n");
        match used_index_of(detail.as_str()) {
            Some(name) => {
                let ghost upre = used_indexes@;
                used_indexes.push(name);
                proof {
                    assert(strutil::views_of(used_indexes@) =~= strutil::views_of(upre) + seq![
                        used_indexes@.last()@,
                    ]);
                }
            },
            None => {},
        }
        let scan_hit = strutil::str_contains(detail.as_str(), "SCAN TABLE")
            && !strutil::str_contains(detail.as_str(), "USING INDEX");
        if scan_hit {
            let mut advice = String::new();
            advice.append("Consider adding an index for the table scan: ");
            advice.append(detail.as_str());
            let ghost spre = suggestions@;
            suggestions.push(advice);
            proof {
                assert(strutil::views_of(suggestions@) =~= strutil::views_of(spre) + seq![
                    suggestions@.last()@,
                ]);
            }
        }
        if strutil::str_contains(detail.as_str(), "TEMP B-TREE") {
            let advice = String::from_str(
                "The plan uses a temporary B-tree; consider an ORDER BY index",
            );
            let ghost spre = suggestions@;
            suggestions.push(advice);
            proof {
                assert(strutil::views_of(suggestions@) =~= strutil::views_of(spre) + seq![
                    suggestions@.last()@,
                ]);
            }
        }
        proof {
            let post = rows.subrange(0, i + 1);
            assert(post.drop_last() =~= pre);
            assert(post.last() == rows[i as int]);
        }
        i += 1;
    }
    proof {
        assert(rows.subrange(0, n as int) =~= rows);
    }
    let complexity_score = calculate_complexity_score(sql, query_plan.as_str());
    QueryAnalysis {
        sql: String::from_str(sql),
        query_plan,
        rows_scanned: None,
        rows_returned: None,
        used_indexes,
        optimization_suggestions: suggestions,
        complexity_score,
    }
}

/// Whether a table should be vacuumed: more than a thousand free pages.
pub fn should_vacuum(freelist_count: i64) -> (r: bool)
    ensures
        r == (freelist_count > 1000),
{
    freelist_count > 1000
}

/// Whether a table should be analyzed: no statistics recorded for it yet.
pub fn should_analyze(stat_count: i64) -> (r: bool)
    ensures
        r == (stat_count == 0),
{
    stat_count == 0
}


/// Builds one catalog entry.
fn catalog_entry(
    name: &str,
    table: &str,
    columns: Vec<String>,
    index_type: IndexType,
    unique: bool,
    where_clause: Option<String>,
) -> (r: IndexDefinition)
    ensures
        r.name@ == name@,
        r.table@ == table@,
        r.columns == columns,
        r.index_type == index_type,
        r.unique == unique,
        r.where_clause == where_clause,
        r.expression is None,
        r.auto_create,
{
    IndexDefinition {
        name: String::from_str(name),
        table: String::from_str(table),
        columns,
        index_type,
        unique,
        where_clause,
        expression: None,
        auto_create: true,
    }
}

fn one_col(c: &str) -> (r: Vec<String>)
    ensures
        r@.len() == 1,
        r@[0]@ == c@,
{
    let mut v: Vec<String> = Vec::new();
    v.push(String::from_str(c));
    v
}

fn two_cols(a: &str, b: &str) -> (r: Vec<String>)
    ensures
        r@.len() == 2,
        r@[0]@ == a@,
        r@[1]@ == b@,
{
    let mut v: Vec<String> = Vec::new();
    v.push(String::from_str(a));
    v.push(String::from_str(b));
    v
}

/// The index catalog and the pure analysis rules; statement execution is the
/// application's side.
pub struct QueryOptimizer {
    /// The named indexes created idempotently at startup.
    pub predefined_indexes: Vec<IndexDefinition>,
}

impl QueryOptimizer {
    /// The catalog of indexes the store is created with: sixteen entries over
    /// the event, chunk, graph, persona and session tables, every one created
    /// automatically, uniquely named, and exactly one of them — the entity
    /// identity of graph nodes — unique.
    pub fn get_predefined_indexes() -> (r: Vec<IndexDefinition>)
        ensures
            r@.len() == 16,
            forall|i: int| 0 <= i < 16 ==> (#[trigger] r@[i]).auto_create,
            forall|i: int| 0 <= i < 16 ==> ((#[trigger] r@[i]).unique <==> i == 6),
            r@[0].name@ == "idx_memory_events_session_agent"@ && r@[0].table@
                == "memory_events"@,
            r@[1].name@ == "idx_memory_events_timestamp"@ && r@[1].table@ == "memory_events"@,
            r@[2].name@ == "idx_memory_events_importance"@ && r@[2].table@ == "memory_events"@
                && r@[2].where_clause is Some,
            r@[3].name@ == "idx_memory_events_role_agent"@ && r@[3].table@ == "memory_events"@,
            r@[4].name@ == "idx_semantic_chunks_weight"@ && r@[4].table@ == "semantic_chunks"@,
            r@[5].name@ == "idx_semantic_chunks_last_ref"@ && r@[5].table@
                == "semantic_chunks"@,
            r@[6].name@ == "idx_graph_nodes_entity"@ && r@[6].table@ == "graph_nodes"@,
            r@[7].name@ == "idx_graph_nodes_type"@ && r@[7].table@ == "graph_nodes"@,
            r@[8].name@ == "idx_graph_edges_from_to"@ && r@[8].table@ == "graph_edges"@,
            r@[9].name@ == "idx_graph_edges_weight"@ && r@[9].table@ == "graph_edges"@,
            r@[10].name@ == "idx_graph_edges_relation"@ && r@[10].table@ == "graph_edges"@,
            r@[11].name@ == "idx_persona_traits_agent_type"@ && r@[11].table@
                == "persona_traits"@,
            r@[12].name@ == "idx_persona_traits_confidence"@ && r@[12].table@
                == "persona_traits"@,
            r@[13].name@ == "idx_persona_traits_last_seen"@ && r@[13].table@
                == "persona_traits"@,
            r@[14].name@ == "idx_sessions_agent_active"@ && r@[14].table@ == "sessions"@,
            r@[15].name@ == "idx_sessions_created_at"@ && r@[15].table@ == "sessions"@,
    {
        let mut v: Vec<IndexDefinition> = Vec::new();
        v.push(
            catalog_entry(
                "idx_memory_events_session_agent",
                "memory_events",
                two_cols("session_id", "agent_name"),
                IndexType::Composite,
                false,
                None,
            ),
        );
        v.push(
            catalog_entry(
                "idx_memory_events_timestamp",
                "memory_events",
                one_col("created_at"),
                IndexType::BTree,
                false,
                None,
            ),
        );
        v.push(
            catalog_entry(
                "idx_memory_events_importance",
                "memory_events",
                one_col("importance"),
                IndexType::Partial,
                false,
                Some(String::from_str("importance IS NOT NULL")),
            ),
        );
        v.push(
            catalog_entry(
                "idx_memory_events_role_agent",
                "memory_events",
                two_cols("role", "agent_name"),
                IndexType::Composite,
                false,
                None,
            ),
        );
        v.push(
            catalog_entry(
                "idx_semantic_chunks_weight",
                "semantic_chunks",
                one_col("weight"),
                IndexType::BTree,
                false,
                None,
            ),
        );
        v.push(
            catalog_entry(
                "idx_semantic_chunks_last_ref",
                "semantic_chunks",
                one_col("last_ref_ts"),
                IndexType::BTree,
                false,
                None,
            ),
        );
        v.push(
            catalog_entry(
                "idx_graph_nodes_entity",
                "graph_nodes",
                two_cols("entity_type", "entity_name"),
                IndexType::Composite,
                true,
                None,
            ),
        );
        v.push(
            catalog_entry(
                "idx_graph_nodes_type",
                "graph_nodes",
                one_col("entity_type"),
                IndexType::BTree,
                false,
                None,
            ),
        );
        v.push(
            catalog_entry(
                "idx_graph_edges_from_to",
                "graph_edges",
                two_cols("from_node", "to_node"),
                IndexType::Composite,
                false,
                None,
            ),
        );
        v.push(
            catalog_entry(
                "idx_graph_edges_weight",
                "graph_edges",
                one_col("weight"),
                IndexType::BTree,
                false,
                None,
            ),
        );
        v.push(
            catalog_entry(
                "idx_graph_edges_relation",
                "graph_edges",
                one_col("relation_type"),
                IndexType::BTree,
                false,
                None,
            ),
        );
        v.push(
            catalog_entry(
                "idx_persona_traits_agent_type",
                "persona_traits",
                two_cols("agent_name", "trait_type"),
                IndexType::Composite,
                false,
                None,
            ),
        );
        v.push(
            catalog_entry(
                "idx_persona_traits_confidence",
                "persona_traits",
                one_col("confidence"),
                IndexType::BTree,
                false,
                None,
            ),
        );
        v.push(
            catalog_entry(
                "idx_persona_traits_last_seen",
                "persona_traits",
                one_col("last_seen"),
                IndexType::BTree,
                false,
                None,
            ),
        );
        v.push(
            catalog_entry(
                "idx_sessions_agent_active",
                "sessions",
                two_cols("agent_name", "is_active"),
                IndexType::Composite,
                false,
                None,
            ),
        );
        v.push(
            catalog_entry(
                "idx_sessions_created_at",
                "sessions",
                one_col("created_at"),
                IndexType::BTree,
                false,
                None,
            ),
        );
        proof {
            reveal_strlit("idx_memory_events_session_agent");
            reveal_strlit("idx_memory_events_timestamp");
            reveal_strlit("idx_memory_events_importance");
            reveal_strlit("idx_memory_events_role_agent");
            reveal_strlit("idx_semantic_chunks_weight");
            reveal_strlit("idx_semantic_chunks_last_ref");
            reveal_strlit("idx_graph_nodes_entity");
            reveal_strlit("idx_graph_nodes_type");
            reveal_strlit("idx_graph_edges_from_to");
            reveal_strlit("idx_graph_edges_weight");
            reveal_strlit("idx_graph_edges_relation");
            reveal_strlit("idx_persona_traits_agent_type");
            reveal_strlit("idx_persona_traits_confidence");
            reveal_strlit("idx_persona_traits_last_seen");
            reveal_strlit("idx_sessions_agent_active");
            reveal_strlit("idx_sessions_created_at");
        }
        v
    }

    /// An optimizer over the predefined catalog.
    pub fn new() -> (r: QueryOptimizer)
        ensures
            r.predefined_indexes@.len() == 16,
    {
        QueryOptimizer { predefined_indexes: QueryOptimizer::get_predefined_indexes() }
    }
}

/// The advice for a statement given its analysis: the plan's suggestions,
/// then a warning for `SELECT *`, for a leading-wildcard `LIKE`, for an
/// unindexed `ORDER BY`, and for a complexity score of seven or more.
pub fn get_slow_query_suggestions(sql: &str, analysis: &QueryAnalysis) -> (r: Vec<String>)
    ensures
        r@.len() >= analysis.optimization_suggestions@.len(),
        forall|i: int|
            0 <= i < analysis.optimization_suggestions@.len() ==> r@[i]
                == analysis.optimization_suggestions@[i],
        strutil::views_of(r@) == strutil::views_of(analysis.optimization_suggestions@) + (if
        strutil::spec_contains(sql@, "SELECT *"@) {
            seq!["Avoid SELECT *; name the columns the query needs"@]
        } else {
            Seq::<Seq<char>>::empty()
        }) + (if strutil::spec_contains(sql@, "LIKE '%"@) && strutil::spec_contains(sql@, "%'"@) {
            seq!["Avoid a leading wildcard in LIKE; consider full-text search"@]
        } else {
            Seq::<Seq<char>>::empty()
        }) + (if strutil::spec_contains(sql@, "ORDER BY"@) && !(exists|i: int|
            0 <= i < analysis.used_indexes@.len() && strutil::spec_contains(
                (#[trigger] analysis.used_indexes@[i])@,
                "ORDER"@,
            )) {
            seq!["Add an index for the ORDER BY clause to avoid a sort"@]
        } else {
            Seq::<Seq<char>>::empty()
        }) + (if analysis.complexity_score >= 7 {
            seq!["The query is complex; consider splitting it into simpler ones"@]
        } else {
            Seq::<Seq<char>>::empty()
        }),
{
    let mut out: Vec<String> = Vec::new();
    let mut i: usize = 0;
    proof {
        assert(strutil::views_of(out@) =~= Seq::<Seq<char>>::empty());
        assert(analysis.optimization_suggestions@.subrange(0, 0) =~= Seq::<String>::empty());
    }
    while i < analysis.optimization_suggestions.len()
        invariant
            i <= analysis.optimization_suggestions@.len(),
            out@ =~= analysis.optimization_suggestions@.subrange(0, i as int),
        decreases analysis.optimization_suggestions@.len() - i,
    {
        out.push(analysis.optimization_suggestions[i].clone());
        proof {
            assert(out@ =~= analysis.optimization_suggestions@.subrange(0, i + 1));
        }
        i += 1;
    }
    proof {
        assert(out@ =~= analysis.optimization_suggestions@);
    }
    let ghost base = strutil::views_of(out@);
    if strutil::str_contains(sql, "SELECT *") {
        out.push(String::from_str("Avoid SELECT *; name the columns the query needs"));
    }
    let ghost after_star = strutil::views_of(out@);
    if strutil::str_contains(sql, "LIKE '%") && strutil::str_contains(sql, "%'") {
        out.push(String::from_str("Avoid a leading wildcard in LIKE; consider full-text search"));
    }
    let ghost after_like = strutil::views_of(out@);
    let mut order_indexed = false;
    let mut j: usize = 0;
    while j < analysis.used_indexes.len()
        invariant
            j <= analysis.used_indexes@.len(),
            order_indexed == exists|k: int|
                0 <= k < j && strutil::spec_contains(
                    (#[trigger] analysis.used_indexes@[k])@,
                    "ORDER"@,
                ),
        decreases analysis.used_indexes@.len() - j,
    {
        if strutil::str_contains(analysis.used_indexes[j].as_str(), "ORDER") {
            order_indexed = true;
        }
        j += 1;
    }
    if strutil::str_contains(sql, "ORDER BY") && !order_indexed {
        out.push(String::from_str("Add an index for the ORDER BY clause to avoid a sort"));
    }
    let ghost after_order = strutil::views_of(out@);
    if analysis.complexity_score >= 7 {
        out.push(String::from_str("The query is complex; consider splitting it into simpler ones"));
    }
    proof {
        assert(strutil::views_of(out@) =~= strutil::views_of(
            analysis.optimization_suggestions@,
        ) + (if strutil::spec_contains(sql@, "SELECT *"@) {
            seq!["Avoid SELECT *; name the columns the query needs"@]
        } else {
            Seq::<Seq<char>>::empty()
        }) + (if strutil::spec_contains(sql@, "LIKE '%"@) && strutil::spec_contains(sql@, "%'"@) {
            seq!["Avoid a leading wildcard in LIKE; consider full-text search"@]
        } else {
            Seq::<Seq<char>>::empty()
        }) + (if strutil::spec_contains(sql@, "ORDER BY"@) && !(exists|k: int|
            0 <= k < analysis.used_indexes@.len() && strutil::spec_contains(
                (#[trigger] analysis.used_indexes@[k])@,
                "ORDER"@,
            )) {
            seq!["Add an index for the ORDER BY clause to avoid a sort"@]
        } else {
            Seq::<Seq<char>>::empty()
        }) + (if analysis.complexity_score >= 7 {
            seq!["The query is complex; consider splitting it into simpler ones"@]
        } else {
            Seq::<Seq<char>>::empty()
        }));
    }
    out
}

} // verus!
