use vstd::prelude::*;

verus! {

/// Why a kernel rejected its whole batch.
#[derive(Debug, Clone, Copy, PartialEq, Eq, Structural)]
pub enum KernelError {
    /// A timestamp does not stand for any calendar instant.
    InvalidTimestamp,
    /// A nearest match was asked against no reference timestamps.
    EmptyReference,
    /// Arguments that must correspond element for element disagree in shape.
    ShapeMismatch,
    /// A coordinate or segment index lies outside its table.
    IndexOutOfRange,
}

} // verus!
