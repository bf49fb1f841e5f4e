//! Settings that front ends keep between runs.

use vstd::prelude::*;

verus! {

/// The content hash used to compare files.
#[derive(Clone, Copy, Debug, PartialEq, Eq, Structural)]
pub enum HashAlgorithm {
    Blake3,
    Sha256,
}

/// How directories are walked and which files a walk keeps.
pub struct ScanConfig {
    /// Follow symbolic links.
    pub follow_links: bool,
    /// Maximum depth of the walk.
    pub max_depth: Option<usize>,
    /// Least file size to keep, in bytes.
    pub min_file_size: u64,
    /// Glob patterns of paths to leave out.
    pub exclude_patterns: Vec<String>,
}

impl Default for ScanConfig {
    /// No links followed, no depth bound, every size, and temporary files,
    /// caches, git metadata and node modules left out.
    fn default() -> (r: Self)
        ensures
            !r.follow_links,
            r.max_depth.is_none(),
            r.min_file_size == 0,
            r.exclude_patterns@.len() == 4,
            r.exclude_patterns@[0]@ == "*.tmp"@,
            r.exclude_patterns@[1]@ == "*.cache"@,
            r.exclude_patterns@[2]@ == ".git/*"@,
            r.exclude_patterns@[3]@ == "node_modules/*"@,
    {
        let mut patterns: Vec<String> = Vec::new();
        patterns.push(String::from_str("*.tmp"));
        patterns.push(String::from_str("*.cache"));
        patterns.push(String::from_str(".git/*"));
        patterns.push(String::from_str("node_modules/*"));
        ScanConfig {
            follow_links: false,
            max_depth: None,
            min_file_size: 0,
            exclude_patterns: patterns,
        }
    }
}

} // verus!
