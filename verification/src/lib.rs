//! Persistent-memory subsystem of a conversational agent.
//!
//! The crate stores raw conversation turns, aggregates important turns into
//! longer-lived semantic summaries, builds a weighted co-occurrence knowledge
//! graph of mentioned entities, retrieves the most relevant prior context for
//! a new query, and wraps storage work in a resilience layer (retry, circuit
//! breaking, error classification) so that storage hiccups degrade gracefully.
//!
//! Fractional quantities (weights, confidences, similarity scores) are held as
//! integers in thousandths throughout, and timestamps as milliseconds, so that
//! every rule about them can be stated and checked exactly.

pub mod aggregation;
pub mod agents;
pub mod cache;
pub mod chunks;
pub mod config;
pub mod dbconfig;
pub mod errors;
pub mod graph;
pub mod graph_builder;
pub mod optimizer;
pub mod performance;
pub mod persona;
pub mod resilience;
pub mod retrieval;
pub mod severity;
pub mod state;
pub mod store;
pub mod strutil;
pub mod utils;

use vstd::prelude::*;

verus! {

/// Library name, as reported by `version_info`.
pub const NAME: &'static str = "RWKV-Agent-Kit";

/// Library version, as reported by `version_info`.
pub const VERSION: &'static str = "0.1.1";

/// Library description, as reported by `version_info`.
pub const DESCRIPTION: &'static str = "Agent memory toolkit";

/// Full version banner: `<name> v<version> - <description>`.
pub fn version_info() -> (r: String)
    ensures
        r@ == NAME@ + " v"@ + VERSION@ + " - "@ + DESCRIPTION@,
{
    let mut s = String::new();
    s.append(NAME);
    s.append(" v");
    s.append(VERSION);
    s.append(" - ");
    s.append(DESCRIPTION);
    s
}

} // verus!
