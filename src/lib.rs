//! A hierarchical timing-wheel scheduler core: three cascading wheels
//! (seconds, minutes, hours) plus a day-round counter, a tracking index for
//! constant-time cancellation, and the firing-time sequences of tasks.
pub mod error;
pub mod task;
pub mod timer;
pub mod utils;
