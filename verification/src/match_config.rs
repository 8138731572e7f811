//! Search configuration for image template matching.

use crate::match_result::PPM;
use vstd::prelude::*;

verus! {

/// Configuration for image template matching. Ratios (scale steps and the
/// confidence threshold) are fixed-point fractions in parts per million.
#[derive(Debug, Clone)]
pub struct MatchConfig {
    /// Search at multiple scales (default: true).
    pub search_multiple_scales: bool,
    /// Convert to grayscale for faster matching (default: false). The
    /// matcher works on intensity frames either way, since normalized
    /// cross-correlation requires a single channel.
    pub use_grayscale: bool,
    /// Scale factors to search, in parts per million
    /// (default: 1.0, 0.9, 0.8, 0.7, 0.6, 0.5).
    pub scale_steps: Vec<u32>,
    /// Minimum confidence threshold in parts per million of 1.0
    /// (default: 0.8).
    pub confidence: u32,
    /// Maximum number of results to return (default: 100).
    pub limit: usize,
    /// Use parallel processing (default: true).
    pub parallel: bool,
}

impl MatchConfig {
    /// Invariant: the confidence threshold is a ratio in [0, 1].
    pub open spec fn wf(self) -> bool {
        self.confidence <= PPM
    }

    /// Create a new config with default values.
    pub fn new() -> (r: Self)
        ensures
            r.search_multiple_scales == true,
            r.use_grayscale == false,
            r.scale_steps@ =~= seq![
                1_000_000u32,
                900_000u32,
                800_000u32,
                700_000u32,
                600_000u32,
                500_000u32,
            ],
            r.confidence == 800_000u32,
            r.limit == 100usize,
            r.parallel == true,
            r.wf(),
    {
        Self::default()
    }

    /// Set `search_multiple_scales`.
    pub fn with_multi_scale(self, enabled: bool) -> (r: Self)
        ensures
            r == (MatchConfig { search_multiple_scales: enabled, ..self }),
    {
        MatchConfig { search_multiple_scales: enabled, ..self }
    }

    /// Set `use_grayscale`.
    pub fn with_grayscale(self, enabled: bool) -> (r: Self)
        ensures
            r == (MatchConfig { use_grayscale: enabled, ..self }),
    {
        MatchConfig { use_grayscale: enabled, ..self }
    }

    /// Set `scale_steps`.
    pub fn with_scale_steps(self, steps: Vec<u32>) -> (r: Self)
        ensures
            r == (MatchConfig { scale_steps: steps, ..self }),
    {
        MatchConfig { scale_steps: steps, ..self }
    }

    /// Set the confidence threshold; values above 1.0 are clamped to 1.0.
    pub fn with_confidence(self, confidence: u32) -> (r: Self)
        ensures
            r.confidence == if confidence > PPM {
                PPM as u32
            } else {
                confidence
            },
            r.search_multiple_scales == self.search_multiple_scales,
            r.use_grayscale == self.use_grayscale,
            r.scale_steps == self.scale_steps,
            r.limit == self.limit,
            r.parallel == self.parallel,
            r.wf(),
    {
        let clamped = if confidence > PPM {
            PPM
        } else {
            confidence
        };
        MatchConfig { confidence: clamped, ..self }
    }

    /// Set the result limit.
    pub fn with_limit(self, limit: usize) -> (r: Self)
        ensures
            r == (MatchConfig { limit, ..self }),
    {
        MatchConfig { limit, ..self }
    }

    /// Set parallel processing.
    pub fn with_parallel(self, enabled: bool) -> (r: Self)
        ensures
            r == (MatchConfig { parallel: enabled, ..self }),
    {
        MatchConfig { parallel: enabled, ..self }
    }
}

impl Default for MatchConfig {
    /// The default search: all six scale steps, 0.8 confidence, at most
    /// 100 results, parallel.
    fn default() -> (r: Self)
        ensures
            r.search_multiple_scales == true,
            r.use_grayscale == false,
            r.scale_steps@ =~= seq![
                1_000_000u32,
                900_000u32,
                800_000u32,
                700_000u32,
                600_000u32,
                500_000u32,
            ],
            r.confidence == 800_000u32,
            r.limit == 100usize,
            r.parallel == true,
            r.wf(),
    {
        let mut steps: Vec<u32> = Vec::new();
        steps.push(1_000_000);
        steps.push(900_000);
        steps.push(800_000);
        steps.push(700_000);
        steps.push(600_000);
        steps.push(500_000);
        MatchConfig {
            search_multiple_scales: true,
            use_grayscale: false,
            scale_steps: steps,
            confidence: 800_000,
            limit: 100,
            parallel: true,
        }
    }
}

} // verus!
