//! What the indexer status endpoint reports, and how a report counts for
//! the polling engine.
use vstd::prelude::*;
use crate::polling::Status;
use crate::text::{chars_of, same_text};

verus! {

/// One indexing cycle.
#[derive(Debug)]
pub struct IndexerResult {
    pub cycle_took: String,
}

/// The indexer's report: its status word and its recent cycles.
#[derive(Debug)]
pub struct Indexer {
    pub status: String,
    pub results: Vec<IndexerResult>,
}

/// How a status word counts: `indexing` is busy, `waiting` is settled, any
/// other word is neither.
pub open spec fn status_kind(s: Seq<char>) -> Status {
    if s == "indexing"@ {
        Status::Busy
    } else if s == "waiting"@ {
        Status::Settled
    } else {
        Status::Other
    }
}

/// How a status word counts for the polling engine.
pub fn status_of(status: &str) -> (r: Status)
    ensures
        r == status_kind(status@),
{
    let cs = chars_of(status);
    if same_text(&cs, &chars_of("indexing")) {
        Status::Busy
    } else if same_text(&cs, &chars_of("waiting")) {
        Status::Settled
    } else {
        Status::Other
    }
}

impl Indexer {
    /// How this report counts for the polling engine.
    pub fn status_kind(&self) -> (r: Status)
        ensures
            r == status_kind(self.status@),
    {
        status_of(self.status.as_str())
    }
}

} // verus!
