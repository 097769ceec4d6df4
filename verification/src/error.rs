//! Specific errors for UprobeStats.
use vstd::prelude::*;

verus! {

/// Specific error variants for UprobeStats.
#[derive(Debug, Clone, Copy, PartialEq, Eq)]
pub enum UprobeStatsError {
    /// The BPF program itself reported an error state.
    /// The value is a hint from the BPF program itself about what went wrong.
    BpfProgramError(i64),
    /// Data received from BPF is malformed or logically invalid.
    /// The value is a hint from the BPF handler about what went wrong.
    BpfDataInvalid(i64),
}

} // verus!
