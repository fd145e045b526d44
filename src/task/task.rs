use vstd::prelude::*;

use crate::error::TaskError;
use crate::task::frequency::{FrequencySeconds, FrequencyState, ONE_MINUTE};
use crate::task::TaskId;
use crate::timer::wheel::WheelCascadeGuide;
use crate::utils;

verus! {

/// A scheduled unit of work: its id, the runner that does the work (opaque
/// to the scheduler), its address in the wheels and its firing times.
pub struct Task<R> {
    /// The unique identifier for the task.
    pub task_id: TaskId,
    /// What runs when the task fires; the scheduler only carries it.
    pub runner: R,
    /// Where the task sits, or is heading, in the wheels.
    pub cascade_guide: WheelCascadeGuide,
    /// The times at which the task fires.
    pub frequency: FrequencyState,
}

impl<R> Task<R> {
    /// Whether the task's guide has no pending minute or hour stage: the task
    /// fires when the second hand reaches its `sec` slot.
    pub fn is_arrived(&self) -> (r: bool)
        ensures
            r == self.cascade_guide.arrived(),
    {
        self.cascade_guide.is_arrived()
    }

    /// Takes the next firing time of the task.
    pub fn next_alarm_timestamp(&mut self) -> (r: Option<u64>)
        ensures
            r == old(self).frequency.peek_spec(),
            *final(self) == (Task { frequency: old(self).frequency.advanced(), ..*old(self) }),
    {
        self.frequency.next_alarm_timestamp()
    }

    pub fn set_wheel_position(&mut self, wheel_position: WheelCascadeGuide)
        ensures
            *final(self) == (Task { cascade_guide: wheel_position, ..*old(self) }),
    {
        self.cascade_guide = wheel_position;
    }
}

/// Configuration of a task before it is spawned.
#[derive(Clone, Copy, Debug, PartialEq, Eq)]
pub struct TaskBuilder {
    pub task_id: TaskId,
    pub frequency: FrequencySeconds,
}

impl Default for TaskBuilder {
    fn default() -> (r: TaskBuilder)
        ensures
            r == (TaskBuilder { task_id: 0, frequency: FrequencySeconds::Once(ONE_MINUTE) }),
    {
        TaskBuilder { task_id: 0, frequency: FrequencySeconds::default() }
    }
}

impl TaskBuilder {
    /// A builder for task `task_id`, firing once a minute from its creation.
    pub fn new(task_id: u64) -> (r: TaskBuilder)
        ensures
            r == (TaskBuilder { task_id, frequency: FrequencySeconds::Once(ONE_MINUTE) }),
    {
        TaskBuilder { task_id, frequency: FrequencySeconds::default() }
    }

    pub fn with_frequency_once_by_seconds(&mut self, seconds: u64) -> (r: &mut TaskBuilder)
        ensures
            *r == (TaskBuilder { frequency: FrequencySeconds::Once(seconds), ..*old(self) }),
            *final(self) == *final(r),
    {
        self.frequency = FrequencySeconds::Once(seconds);
        self
    }

    pub fn with_frequency_repeated_by_seconds(&mut self, seconds: u64) -> (r: &mut TaskBuilder)
        ensures
            *r == (TaskBuilder { frequency: FrequencySeconds::Repeated(seconds), ..*old(self) }),
            *final(self) == *final(r),
    {
        self.frequency = FrequencySeconds::Repeated(seconds);
        self
    }

    pub fn with_frequency_count_down_by_seconds(&mut self, count_down: u64, seconds: u64) -> (r:
        &mut TaskBuilder)
        ensures
            *r == (TaskBuilder {
                frequency: FrequencySeconds::CountDown(count_down, seconds),
                ..*old(self)
            }),
            *final(self) == *final(r),
    {
        self.frequency = FrequencySeconds::CountDown(count_down, seconds);
        self
    }

    /// Fires once at the absolute time `timestamp`, judged against the time
    /// `now`: the delay is `timestamp - now`, which must be positive.
    pub fn with_frequency_once_by_timestamp_seconds_at(&mut self, timestamp: u64, now: u64) -> (r:
        Result<&mut TaskBuilder, TaskError>)
        ensures
            timestamp > now ==> (r matches Ok(b) && *b == (TaskBuilder {
                frequency: FrequencySeconds::Once((timestamp - now) as u64),
                ..*old(self)
            }) && *final(self) == *final(b)),
            timestamp <= now ==> (r matches Err(TaskError::InvalidFrequency(_)) && *final(self)
                == *old(self)),
    {
        if timestamp > now {
            self.frequency = FrequencySeconds::Once(timestamp - now);
            Ok(self)
        } else {
            Err(TaskError::InvalidFrequency("once timestamp is not after the current time".to_owned()))
        }
    }

    /// Fires once at the absolute time `timestamp`, which must lie strictly
    /// after the current time by the wall clock.
    pub fn with_frequency_once_by_timestamp_seconds(&mut self, timestamp: u64) -> (r: Result<
        &mut TaskBuilder,
        TaskError,
    >)
        ensures
            r matches Ok(b) ==> ({
                &&& *final(self) == *final(b)
                &&& b.task_id == old(self).task_id
                &&& b.frequency matches FrequencySeconds::Once(gap) && 0 < gap <= timestamp
            }),
            r matches Err(e) ==> (e matches TaskError::InvalidFrequency(_) && *final(self)
                == *old(self)),
    {
        let now = utils::timestamp();
        self.with_frequency_once_by_timestamp_seconds_at(timestamp, now)
    }

    /// Turns the configuration into a task carrying `task_runner`, with its
    /// firing times counted from now; a zero period is refused.
    pub fn spwan_async<R>(self, task_runner: R) -> (r: Result<Task<R>, TaskError>)
        ensures
            self.frequency.period() == 0 <==> r matches Err(TaskError::InvalidFrequency(_)),
            r matches Ok(t) ==> {
                &&& t.task_id == self.task_id
                &&& t.runner == task_runner
                &&& t.cascade_guide == WheelCascadeGuide::initial()
                &&& t.frequency.wf()
                &&& exists|now: u64|
                    t.frequency == #[trigger] FrequencyState::from_spec(self.frequency, now)
            },
    {
        if self.frequency.period_seconds() == 0 {
            return Err(TaskError::InvalidFrequency("the period of a frequency must be positive".to_owned()));
        }
        let frequency = FrequencyState::from(self.frequency);
        Ok(
            Task {
                task_id: self.task_id,
                runner: task_runner,
                cascade_guide: WheelCascadeGuide::default(),
                frequency,
            },
        )
    }
}

} // verus!
