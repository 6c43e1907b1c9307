//! The log of what happened to the tasks, and the coalescing of its entries.
//!
//! One entry is held back at a time. A new entry either merges into it,
//! which only two stretches of elapsed time on the same task do, or takes
//! its place, and the entry that was held back is handed out to be written.
//! Writing is the caller's business.

use vstd::prelude::*;
use vstd::string::StringExecFns;
use crate::task::Task;
use crate::text::{duration_text, format_duration};
use crate::time::{Duration, Timestamp, NANOS_PER_SEC};

verus! {

/// What happened to a task.
#[derive(Debug, Copy, Clone, PartialEq, Eq, Structural)]
pub enum LogEvent {
    /// Time passed on the task.
    Elapsed(Duration),
    /// The task was marked done (`true`) or opened again (`false`).
    Complete(bool),
    /// The task was skipped (`true`) or taken up again (`false`).
    Skip(bool),
}

/// One entry of the log.
#[derive(Debug)]
pub struct LogElement {
    time: Timestamp,
    task_name: String,
    event: LogEvent,
}

/// A log entry as plain values.
pub struct LogElementView {
    pub time: Timestamp,
    pub task_name: Seq<char>,
    pub event: LogEvent,
}

impl LogElementView {
    /// Whether `next` merges into `self`: both record elapsed time on a
    /// task of the same name, and the two spans together can be represented.
    pub open spec fn absorbs(self, next: LogElementView) -> bool {
        &&& self.task_name == next.task_name
        &&& self.event matches LogEvent::Elapsed(a)
        &&& next.event matches LogEvent::Elapsed(b)
        &&& a@ + b@ <= u64::MAX
    }

    /// The entry that `self` and `next` merge into: the elapsed times
    /// added up, under the time stamp of `self`.
    pub open spec fn merged(self, next: LogElementView) -> LogElementView {
        LogElementView {
            event: LogEvent::Elapsed(
                Duration { nanos: (self.event->Elapsed_0@ + next.event->Elapsed_0@) as u64 },
            ),
            ..self
        }
    }
}

/// What is held back once `entry` has come in while `held` was held back:
/// the two merged where they merge, and `entry` otherwise.
pub open spec fn held_after(held: Option<LogElementView>, entry: LogElementView) -> Option<
    LogElementView,
> {
    match held {
        Some(h) => if h.absorbs(entry) {
            Some(h.merged(entry))
        } else {
            Some(entry)
        },
        None => Some(entry),
    }
}

/// What has to be written once `entry` has come in while `held` was held
/// back: what was held back, unless `entry` merged into it.
pub open spec fn flushed_by(held: Option<LogElementView>, entry: LogElementView) -> Option<
    LogElementView,
> {
    match held {
        Some(h) => if h.absorbs(entry) {
            None
        } else {
            Some(h)
        },
        None => None,
    }
}

/// The view of an entry that may be there.
pub open spec fn entry_view(entry: Option<LogElement>) -> Option<LogElementView> {
    match entry {
        Some(e) => Some(e@),
        None => None,
    }
}

/// What an event reads like in the log.
pub open spec fn event_text(event: LogEvent) -> Seq<char> {
    match event {
        LogEvent::Elapsed(d) => duration_text(d@ / (NANOS_PER_SEC as nat)) + " elapsed"@,
        LogEvent::Complete(true) => "completed"@,
        LogEvent::Complete(false) => "uncompleted"@,
        LogEvent::Skip(true) => "skipped"@,
        LogEvent::Skip(false) => "unskipped"@,
    }
}

impl View for LogElement {
    type V = LogElementView;

    closed spec fn view(&self) -> LogElementView {
        LogElementView { time: self.time, task_name: self.task_name@, event: self.event }
    }
}

impl LogElement {
    fn new(task: &Task, event: LogEvent, now: Timestamp) -> (e: LogElement)
        ensures
            e@ == (LogElementView { time: now, task_name: task@.name, event }),
    {
        LogElement { time: now, task_name: task.name.clone(), event }
    }

    /// Merges `next` into `self` where that is possible.
    ///
    /// Two entries merge only if both record elapsed time on a task of the
    /// same name, and the two spans together can be represented: the result
    /// is one entry with the spans added up and the time stamp of `self`,
    /// and nothing beside it. In every other case both entries come back
    /// as they are: `self` is to be written, and `next` is what is held
    /// back from now on.
    pub fn combine(self, next: LogElement) -> (r: (LogElement, Option<LogElement>))
        ensures
            self@.absorbs(next@) ==> r.0@ == self@.merged(next@) && r.1 is None,
            !self@.absorbs(next@) ==> r.0 == self && r.1 == Some(next),
    {
        if self.task_name == next.task_name {
            match (self.event, next.event) {
                (LogEvent::Elapsed(a), LogEvent::Elapsed(b)) => match a.checked_add(b) {
                    Some(sum) => (
                        LogElement {
                            time: self.time,
                            task_name: self.task_name,
                            event: LogEvent::Elapsed(sum),
                        },
                        None,
                    ),
                    None => (self, Some(next)),
                },
                (_, _) => (self, Some(next)),
            }
        } else {
            (self, Some(next))
        }
    }

    /// The entry for `elapsed` having passed on `task`, made at `now`.
    pub fn elapsed(task: &Task, elapsed: Duration, now: Timestamp) -> (e: LogElement)
        ensures
            e@ == (LogElementView {
                time: now,
                task_name: task@.name,
                event: LogEvent::Elapsed(elapsed),
            }),
    {
        Self::new(task, LogEvent::Elapsed(elapsed), now)
    }

    /// The entry for `task` having been marked done at `now`.
    pub fn completed(task: &Task, now: Timestamp) -> (e: LogElement)
        ensures
            e@ == (LogElementView {
                time: now,
                task_name: task@.name,
                event: LogEvent::Complete(true),
            }),
    {
        Self::new(task, LogEvent::Complete(true), now)
    }

    /// The entry for `task` having been opened again at `now`.
    pub fn uncompleted(task: &Task, now: Timestamp) -> (e: LogElement)
        ensures
            e@ == (LogElementView {
                time: now,
                task_name: task@.name,
                event: LogEvent::Complete(false),
            }),
    {
        Self::new(task, LogEvent::Complete(false), now)
    }

    /// The entry for `task` having been skipped at `now`.
    pub fn skipped(task: &Task, now: Timestamp) -> (e: LogElement)
        ensures
            e@ == (LogElementView {
                time: now,
                task_name: task@.name,
                event: LogEvent::Skip(true),
            }),
    {
        Self::new(task, LogEvent::Skip(true), now)
    }

    /// The entry for `task` having been taken up again at `now`.
    pub fn unskipped(task: &Task, now: Timestamp) -> (e: LogElement)
        ensures
            e@ == (LogElementView {
                time: now,
                task_name: task@.name,
                event: LogEvent::Skip(false),
            }),
    {
        Self::new(task, LogEvent::Skip(false), now)
    }

    /// When the entry was made.
    pub fn time(&self) -> (t: Timestamp)
        ensures
            t == self@.time,
    {
        self.time
    }

    /// The name of the task that the entry is about.
    pub fn task_name(&self) -> (name: &str)
        ensures
            name@ == self@.task_name,
    {
        self.task_name.as_str()
    }

    /// What happened.
    pub fn event(&self) -> (event: LogEvent)
        ensures
            event == self@.event,
    {
        self.event
    }

    /// What happened, as it reads in the log.
    pub fn message(&self) -> (text: String)
        ensures
            text@ == event_text(self@.event),
    {
        match self.event {
            LogEvent::Elapsed(d) => format_duration(d).concat(" elapsed"),
            LogEvent::Complete(true) => String::from_str("completed"),
            LogEvent::Complete(false) => String::from_str("uncompleted"),
            LogEvent::Skip(true) => String::from_str("skipped"),
            LogEvent::Skip(false) => String::from_str("unskipped"),
        }
    }

    /// The line of the entry in the log: the time of day, which the caller
    /// has written out as `clock`, then the task's name, then what
    /// happened, each followed by a blank and parted by a tab.
    pub fn line(&self, clock: &str) -> (text: String)
        ensures
            text@ == clock@ + " \t"@ + self@.task_name + " \t"@ + event_text(self@.event),
    {
        let mut text = String::from_str(clock);
        text.append(" \t");
        text.append(self.task_name.as_str());
        text.append(" \t");
        text.append(self.message().as_str());
        text
    }
}

/// The log with the one entry that it holds back.
#[derive(Debug)]
pub struct RoutineLogger {
    pending: Option<LogElement>,
}

impl View for RoutineLogger {
    type V = Option<LogElementView>;

    /// The entry that is held back, if there is one.
    closed spec fn view(&self) -> Option<LogElementView> {
        match self.pending {
            Some(e) => Some(e@),
            None => None,
        }
    }
}

impl RoutineLogger {
    /// A log that holds nothing back.
    pub fn new() -> (logger: RoutineLogger)
        ensures
            logger@ is None,
    {
        RoutineLogger { pending: None }
    }

    /// Takes in `event` and hands out the entry that has to be written
    /// now, if there is one.
    ///
    /// Where an entry is held back and `event` merges into it, the merged
    /// entry is held back and nothing is handed out. Otherwise `event` is
    /// held back, and what was held back before is handed out as it was.
    pub fn log(&mut self, event: LogElement) -> (flushed: Option<LogElement>)
        ensures
            final(self)@ == held_after(old(self)@, event@),
            entry_view(flushed) == flushed_by(old(self)@, event@),
    {
        if let Some(held) = self.pending.take() {
            let (a, b) = held.combine(event);
            if let Some(e) = b {
                self.pending = Some(e);
                Some(a)
            } else {
                self.pending = Some(a);
                None
            }
        } else {
            self.pending = Some(event);
            None
        }
    }

    /// Hands out the entry that is held back, if there is one, to be
    /// written at the end. Nothing is held back afterwards.
    pub fn finish(&mut self) -> (flushed: Option<LogElement>)
        ensures
            final(self)@ is None,
            entry_view(flushed) == old(self)@,
    {
        self.pending.take()
    }
}

} // verus!
