//! Settings of the video comparison.

use vstd::prelude::*;

verus! {

/// Video comparison by frames sampled at regular intervals.
pub struct VideoSimilarity {
    pub sample_count: usize,
}

impl VideoSimilarity {
    /// Ten frames per video.
    pub fn new() -> (r: Self)
        ensures
            r.sample_count == 10,
    {
        VideoSimilarity { sample_count: 10 }
    }

    pub fn with_sample_count(self, count: usize) -> (r: Self)
        ensures
            r.sample_count == count,
    {
        VideoSimilarity { sample_count: count }
    }
}

} // verus!
