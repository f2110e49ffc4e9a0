//! Semantic aggregation: the rule that turns an analyzed conversation turn
//! into a semantic chunk exactly when its importance reaches the configured
//! threshold.

use vstd::prelude::*;
use crate::store::SemanticChunk;
use crate::strutil;

verus! {

/// The analyzed content of one conversation turn.
#[derive(Debug, Clone, PartialEq)]
pub struct ConversationSummary {
    /// Importance on the ten-point scale.
    pub importance_score: i32,
    /// One-line reading of what the user wanted; may be empty.
    pub user_intent_summary: String,
    /// The condensed summary text.
    pub summary: String,
    /// Entity strings the turn mentioned.
    pub memory_triggers: Vec<String>,
}

/// A chunk's weight from a ten-point importance score, in thousandths.
pub open spec fn spec_chunk_weight(importance_score: i32) -> int {
    importance_score * 100
}

/// Builds the semantic chunk for an analyzed turn, or nothing when the turn's
/// importance is below `threshold` — a chunk is created exactly when
/// `importance_score >= threshold`. The chunk takes the intent line as title
/// (none when empty), the comma-joined triggers as keywords (none when there
/// are no triggers), and the importance scaled to a weight; the store assigns
/// id and reference time on insert.
pub fn build_semantic_chunk(parsed: ConversationSummary, threshold: i32) -> (r: Option<
    SemanticChunk,
>)
    requires
        0 <= parsed.importance_score <= 10,
    ensures
        r is Some <==> parsed.importance_score >= threshold,
        r is Some ==> {
            let c = r.unwrap();
            &&& c@.id is None
            &&& c@.title == (if parsed.user_intent_summary@.len() == 0 {
                None::<Seq<char>>
            } else {
                Some(parsed.user_intent_summary@)
            })
            &&& c@.summary == parsed.summary@
            &&& c@.keywords == (if parsed.memory_triggers@.len() == 0 {
                None::<Seq<char>>
            } else {
                Some(strutil::spec_join(strutil::views_of(parsed.memory_triggers@), ", "@))
            })
            &&& c@.embedding is None
            &&& c@.last_ref_ts is None
            &&& c@.weight == spec_chunk_weight(parsed.importance_score)
        },
{
    if parsed.importance_score < threshold {
        return None;
    }
    let title = if parsed.user_intent_summary.as_str().is_empty() {
        None
    } else {
        Some(parsed.user_intent_summary)
    };
    let keywords = if parsed.memory_triggers.len() == 0 {
        None
    } else {
        Some(strutil::join_strings(&parsed.memory_triggers, ", "))
    };
    let weight: i64 = (parsed.importance_score as i64) * 100;
    Some(
        SemanticChunk {
            id: None,
            title,
            summary: parsed.summary,
            keywords,
            embedding: None,
            last_ref_ts: None,
            weight,
        },
    )
}

} // verus!
