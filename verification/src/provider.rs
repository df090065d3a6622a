//! Configuration surface of a reconciliation run: the destination playlist,
//! the path of the source export file, and the fixed sizing constants for
//! search pages and mutation batches.

use vstd::prelude::*;

verus! {

/// The destination mutation endpoint accepts at most this many track
/// identifiers per call, so batches never exceed it.
pub const MAX_BATCH_SIZE: usize = 80;

/// How many candidate tracks one search call requests.
pub const SEARCH_PAGE_SIZE: u32 = 50;

/// A reconciliation run importing one source export file into one
/// destination playlist.
pub struct TidalProvider {
    /// Identifier of the destination playlist that matched tracks are added to.
    pub playlist: String,
    /// Path of the source export file, kept as text; the caller opens it.
    pub file: String,
}

impl TidalProvider {
    /// Builds a run description from the two configuration values.
    pub fn new(playlist: String, file: String) -> (r: TidalProvider)
        ensures
            r.playlist == playlist,
            r.file == file,
    {
        TidalProvider { playlist, file }
    }
}

} // verus!
