//! Settings of the general-purpose archivers.

use vstd::prelude::*;

verus! {

/// ZIP with deflate, at a level from 0 to 9.
pub struct ZipCompressor {
    pub compression_level: i32,
}

impl ZipCompressor {
    /// Level 6.
    pub fn new() -> (r: Self)
        ensures
            r.compression_level == 6,
    {
        ZipCompressor { compression_level: 6 }
    }

    /// The level, clamped to 0..=9.
    pub fn with_compression_level(self, level: i32) -> (r: Self)
        ensures
            r.compression_level == if level < 0 {
                0
            } else if level > 9 {
                9
            } else {
                level
            },
    {
        let l = if level < 0 {
            0
        } else if level > 9 {
            9
        } else {
            level
        };
        ZipCompressor { compression_level: l }
    }
}

/// GZIP, at a level from 0 to 9; single files only.
pub struct GzipCompressor {
    pub compression_level: u32,
}

impl GzipCompressor {
    /// Level 6.
    pub fn new() -> (r: Self)
        ensures
            r.compression_level == 6,
    {
        GzipCompressor { compression_level: 6 }
    }

    /// The level, capped at 9.
    pub fn with_compression_level(self, level: u32) -> (r: Self)
        ensures
            r.compression_level == if level > 9 {
                9
            } else {
                level
            },
    {
        GzipCompressor { compression_level: if level > 9 { 9 } else { level } }
    }
}

/// One of the archivers.
pub enum CompressionAlgorithm {
    Zip(ZipCompressor),
    Gzip(GzipCompressor),
}

/// An archiver chosen once and used for many files.
pub struct Compressor {
    pub algorithm: CompressionAlgorithm,
}

impl Compressor {
    /// ZIP at level 6.
    pub fn new_zip() -> (r: Self)
        ensures
            r.algorithm matches CompressionAlgorithm::Zip(z) && z.compression_level == 6,
    {
        Compressor { algorithm: CompressionAlgorithm::Zip(ZipCompressor::new()) }
    }

    /// GZIP at level 6.
    pub fn new_gzip() -> (r: Self)
        ensures
            r.algorithm matches CompressionAlgorithm::Gzip(g) && g.compression_level == 6,
    {
        Compressor { algorithm: CompressionAlgorithm::Gzip(GzipCompressor::new()) }
    }
}

} // verus!
