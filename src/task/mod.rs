pub mod frequency;
pub mod task;

pub use frequency::{FrequencySeconds, FrequencyState, SecondsState};
pub use task::{Task, TaskBuilder};

use vstd::prelude::*;

verus! {

/// Identifier of a task, unique among the live tasks of one scheduler.
pub type TaskId = u64;

/// Identifier of one run of a task.
pub type RecordId = i64;

} // verus!
