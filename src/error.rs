//! The failures that an MTIE computation can report.
use vstd::prelude::*;

verus! {

/// Why an MTIE computation gave no result.
#[derive(Debug, Clone, Copy, PartialEq, Eq)]
pub enum MtieError {
    /// The exact engine was asked for more samples than it takes on.
    /// The pyramid engine has no such ceiling.
    SizeExceeded { ceiling: usize, actual: usize },
    /// An MTIE curve fell from one interval to the next: the pair at `index`
    /// holds `earlier`, the pair after it `later`, and `later < earlier`.
    /// This is a defect of the computation, never of the data.
    NotMonotonic { index: usize, earlier: u64, later: u64 },
}

} // verus!
