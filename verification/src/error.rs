//! Failures of report construction and accumulation. All are fail-fast: the
//! fold aborts on the first failing trade and nothing is retried.

use vstd::prelude::*;

verus! {

#[derive(Debug, PartialEq, Eq, Clone, Copy, Structural)]
pub enum Error {
    /// The report window ends before it starts: rejected at construction.
    InvalidWindow,
    /// A trade was folded into the accumulator of another area. This signals
    /// a routing defect upstream, not a normal data condition.
    AreaMismatch,
    /// A delivery interval whose length cannot be represented as a 64-bit
    /// second count.
    DurationOverflow,
    /// A contribution or running total outside the accumulator's numeric
    /// range.
    AmountOverflow,
}

} // verus!
