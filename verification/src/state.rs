//! Checkpoints of an agent's state: their metadata, the schema version a
//! loaded checkpoint must have, and the timestamps they carry.
use vstd::prelude::*;

use crate::react::messages::MessageView;
use crate::text::{copy_str, decimal, lit, push_decimal, push_decimal_u64, push_str};

verus! {

/// The schema version of checkpoints written by this library.
pub const CURRENT_SCHEMA_VERSION: u32 = 1;

/// When and how far a checkpoint was taken.
#[derive(Clone, Debug, PartialEq, Eq)]
pub struct CheckpointMetadata {
    /// Seconds since the Unix epoch, written `<secs>s`.
    pub created_at: String,
    pub cycles_completed: usize,
    pub schema_version: u32,
}

/// A saved agent state.
#[derive(Clone, Debug)]
pub struct AgentCheckpoint {
    pub history: Vec<MessageView>,
    pub compacted_context: Option<String>,
    pub phase: String,
    /// Partial results by name, each as JSON text.
    pub partial_results: Vec<(String, String)>,
    pub metadata: CheckpointMetadata,
}

/// A timestamp: the seconds since the Unix epoch followed by `s`.
pub fn timestamp_text(secs: u64) -> (r: String)
    ensures
        r@ == decimal(secs as nat) + lit("s"),
{
    let mut r = String::new();
    push_decimal_u64(&mut r, secs);
    push_str(&mut r, "s");
    r
}

impl CheckpointMetadata {
    /// The metadata of a fresh checkpoint taken at `created_at`: no cycle
    /// completed, the current schema.
    pub fn new(created_at: String) -> (r: Self)
        ensures
            r.created_at == created_at,
            r.cycles_completed == 0,
            r.schema_version == CURRENT_SCHEMA_VERSION,
    {
        CheckpointMetadata { created_at, cycles_completed: 0, schema_version: CURRENT_SCHEMA_VERSION }
    }
}

impl AgentCheckpoint {
    /// An empty checkpoint taken at `created_at`.
    pub fn new(created_at: String) -> (r: Self)
        ensures
            r.history@.len() == 0,
            r.compacted_context is None,
            r.phase@ == Seq::<char>::empty(),
            r.partial_results@.len() == 0,
            r.metadata.created_at == created_at,
            r.metadata.cycles_completed == 0,
            r.metadata.schema_version == CURRENT_SCHEMA_VERSION,
    {
        AgentCheckpoint {
            history: Vec::new(),
            compacted_context: None,
            phase: String::new(),
            partial_results: Vec::new(),
            metadata: CheckpointMetadata::new(created_at),
        }
    }
}

/// The error for a checkpoint of another schema.
pub open spec fn schema_error_text(found: u32) -> Seq<char> {
    lit("unsupported schema_version ") + decimal(found as nat) + lit(" (expected ") + decimal(
        CURRENT_SCHEMA_VERSION as nat,
    ) + lit(")")
}

/// Accepts a loaded checkpoint only with the current schema version.
pub fn check_schema(metadata: &CheckpointMetadata) -> (r: Result<(), String>)
    ensures
        metadata.schema_version == CURRENT_SCHEMA_VERSION ==> r is Ok,
        metadata.schema_version != CURRENT_SCHEMA_VERSION ==> (r matches Err(m) && m@
            == schema_error_text(metadata.schema_version)),
{
    if metadata.schema_version == CURRENT_SCHEMA_VERSION {
        return Ok(());
    }
    let mut m = copy_str("unsupported schema_version ");
    push_decimal_u64(&mut m, metadata.schema_version as u64);
    push_str(&mut m, " (expected ");
    push_decimal_u64(&mut m, CURRENT_SCHEMA_VERSION as u64);
    push_str(&mut m, ")");
    Err(m)
}

} // verus!
