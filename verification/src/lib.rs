//! Near-duplicate detection for text corpora.
//!
//! The crate normalises text, scores pairs of items under a configurable
//! similarity method and groups the items of a corpus into classes of
//! near-duplicates. Scores are exact rationals and thresholds are fixed-point
//! values, so every contract is stated over integers and sequences.

pub mod classifier;
pub mod config;
pub mod distance;
pub mod error;
pub mod grouping;
pub mod language;
pub mod ngram;
pub mod normalize;
pub mod presets;
pub mod score;
pub mod split;
pub mod state;
pub mod strategy;
pub mod text;

use vstd::prelude::*;

verus! {

/// Entry point that ties the components of the engine together.
pub struct DeduplicationCore;

impl DeduplicationCore {
    /// Creates the entry point.
    pub fn new() -> (core: Self)
        ensures
            core == DeduplicationCore,
    {
        DeduplicationCore
    }
}

} // verus!
