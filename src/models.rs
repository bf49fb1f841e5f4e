//! Records kept in the metadata store.

use vstd::prelude::*;

verus! {

/// A file as stored.
pub struct FileRecord {
    pub id: i64,
    pub path: String,
    pub size: u64,
    pub hash: Option<String>,
    pub file_type: String,
    pub modified: i64,
    pub created_at: i64,
}

/// A finished scan as stored.
pub struct ScanRecord {
    pub id: i64,
    pub path: String,
    pub file_count: usize,
    pub total_size: u64,
    pub scan_time: i64,
    pub created_at: i64,
}

/// A duplicate group as stored.
pub struct DuplicateRecord {
    pub id: i64,
    pub hash: String,
    pub file_paths: Vec<String>,
    pub file_count: usize,
    pub total_size: u64,
    pub wasted_space: u64,
    pub created_at: i64,
}

} // verus!
