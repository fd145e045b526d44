use vstd::prelude::*;

verus! {

/// Errors that the scheduler core reports to its callers.
#[derive(Debug, PartialEq, Eq)]
pub enum TaskError {
    /// A frequency was given that can never fire: a zero period, or an
    /// absolute time that is not strictly in the future.
    InvalidFrequency(String),
}

} // verus!
