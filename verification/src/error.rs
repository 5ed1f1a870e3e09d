use vstd::prelude::*;

verus! {

/// The errors that the library reports.
#[derive(Debug, PartialEq, Eq)]
pub enum ReimgError {
    /// No search automaton could be built over the file names; holds the reason.
    PatternSet(String),
    /// Deleting all images automatically failed for this many files.
    AutoDeletionFailed(usize),
    /// Deleting images one by one failed for this many files.
    ManualDeletionFailed(usize),
}

} // verus!
