//! A single task of a routine: what was planned, what has been spent, and
//! what it is currently allotted.

use vstd::prelude::*;
use crate::flex::{Bounds, FlexItem};
use crate::time::{Duration, MAX_SECS, NANOS_PER_SEC};

verus! {

/// Where a task stands.
#[derive(Debug, Copy, Clone, PartialEq, Eq, Structural)]
pub enum CompletionStatus {
    NotYet,
    Done,
    Skipped,
}

/// One schedulable unit of a routine.
#[derive(Debug)]
pub struct Task {
    /// Time already spent on the task.
    pub elapsed: Duration,
    /// The duration the task was planned with. It never changes.
    pub original_duration: Duration,
    /// Whether the task is still open.
    pub status: CompletionStatus,
    /// What the task is called.
    pub name: String,
    /// The current allotment, which resizing may shrink or grow.
    pub duration: Duration,
}

/// A task as plain values, with its times in nanoseconds.
pub struct TaskView {
    pub name: Seq<char>,
    pub elapsed: nat,
    pub original_duration: nat,
    pub duration: nat,
    pub status: CompletionStatus,
}

impl TaskView {
    /// The least and the most the task may be allotted. Time already spent
    /// cannot be taken back, so the least is the elapsed time. An open task
    /// may grow back to its plan; a closed one is frozen at what it took.
    pub open spec fn bounds(self) -> Bounds {
        Bounds {
            min: self.elapsed,
            max: match self.status {
                CompletionStatus::NotYet => if self.elapsed >= self.original_duration {
                    self.elapsed
                } else {
                    self.original_duration
                },
                _ => self.elapsed,
            },
        }
    }

    /// What is left of the allotment, and nothing where the task has run
    /// over it.
    pub open spec fn remaining(self) -> nat {
        if self.duration >= self.elapsed {
            (self.duration - self.elapsed) as nat
        } else {
            0
        }
    }

    /// Whether the task is as `Task::new` makes it: open, with nothing
    /// spent, and allotted what it was planned with.
    pub open spec fn is_fresh(self) -> bool {
        &&& self.status == CompletionStatus::NotYet
        &&& self.elapsed == 0
        &&& self.duration == self.original_duration
    }
}

impl View for Task {
    type V = TaskView;

    open spec fn view(&self) -> TaskView {
        TaskView {
            name: self.name@,
            elapsed: self.elapsed@,
            original_duration: self.original_duration@,
            duration: self.duration@,
            status: self.status,
        }
    }
}

impl Task {
    /// An open task called `name`, planned for `duration` seconds.
    pub fn new(name: &str, duration: u64) -> (task: Task)
        requires
            duration <= MAX_SECS,
        ensures
            task@.name == name@,
            task@.original_duration == duration * NANOS_PER_SEC,
            task@.is_fresh(),
    {
        Task {
            name: name.to_owned(),
            elapsed: Duration::zero(),
            original_duration: Duration::from_secs(duration),
            duration: Duration::from_secs(duration),
            status: CompletionStatus::NotYet,
        }
    }

    /// What is left of the current allotment: zero once the elapsed time
    /// has reached it.
    pub fn remaining(&self) -> (left: Duration)
        ensures
            left@ == self@.remaining(),
    {
        self.duration.saturating_sub(self.elapsed)
    }

    /// Counts `duration` more as spent on the task.
    pub fn elapse(&mut self, duration: Duration)
        requires
            old(self)@.elapsed + duration@ <= u64::MAX,
        ensures
            final(self)@ == (TaskView {
                elapsed: old(self)@.elapsed + duration@,
                ..old(self)@
            }),
    {
        self.elapsed = Duration::from_nanos(self.elapsed.as_nanos() + duration.as_nanos());
    }
}

impl FlexItem for Task {
    open spec fn spec_max_size(&self) -> nat {
        self@.bounds().max
    }

    open spec fn spec_min_size(&self) -> nat {
        self@.bounds().min
    }

    fn max_size(&self) -> (d: Duration) {
        match self.status {
            CompletionStatus::NotYet => if self.elapsed.as_nanos()
                >= self.original_duration.as_nanos() {
                self.elapsed
            } else {
                self.original_duration
            },
            _ => self.elapsed,
        }
    }

    fn min_size(&self) -> (d: Duration) {
        self.elapsed
    }
}

} // verus!
