//! A routine: an ordered list of tasks and the time budget that they are
//! kept fitting into.
//!
//! Whenever the state changes (time passes, a task is closed or skipped, a
//! task is added, a deadline is set) the current duration of every task is
//! derived anew from the budget. [`RoutineView`] is the mathematical model
//! of the routine; the contract of each operation says which model state it
//! leads to.

use vstd::prelude::*;
use crate::flex::{
    bounds_of, ceilings, flexed, lemma_flexed_total, lemma_share_within_bounds,
    lemma_surplus_gives_ceilings, lemma_total_insert, lemma_total_take, lemma_total_take_le,
    lemma_total_update, lemma_total_zeros, mins, nanos, total, total_ceiling, total_min, Bounds,
    Flex,
};
use crate::task::{CompletionStatus, Task, TaskView};
use crate::time::{Duration, Timestamp};

verus! {

/// Why a task could not be toggled or skipped.
#[derive(Debug, Copy, Clone, PartialEq, Eq, Structural)]
pub enum ToggleFailure {
    /// The index names no task.
    NoSelection,
    /// A task that is done cannot be skipped.
    NoDoneToSkip,
}

/// Why a deadline could not be set.
#[derive(Debug, Copy, Clone, PartialEq, Eq, Structural)]
pub enum DeadlineError {
    /// The deadline lies before the current instant.
    Passed,
    /// The budget up to the deadline is too long to represent.
    TooFar,
}

/// How the budget follows time.
#[derive(Debug, Copy, Clone, PartialEq, Eq, Structural)]
pub enum TimeMode {
    /// The budget is whatever the plan adds up to.
    ExpectedEnd,
    /// The routine has to end at a fixed instant.
    FixedEnd(Timestamp),
}

/// An ordered list of tasks with a time budget.
#[derive(Debug)]
pub struct Routine {
    /// The tasks, in the order in which they are shown and resized.
    pub tasks: Vec<Task>,
    /// The time that the tasks are fitted into.
    pub flex_goal: Duration,
    /// How the budget follows time.
    pub mode: TimeMode,
    /// Time that passed while no task was selected.
    pub spilled_time: Duration,
}

/// A routine as plain values, with its times in nanoseconds.
pub struct RoutineView {
    pub tasks: Seq<TaskView>,
    pub flex_goal: nat,
    pub mode: TimeMode,
    pub spilled_time: nat,
}

/// The view of every task, in order.
pub open spec fn task_views(tasks: Seq<Task>) -> Seq<TaskView> {
    Seq::new(tasks.len(), |i: int| tasks[i]@)
}

/// The sum of the planned durations of `tasks`.
pub open spec fn planned_total(tasks: Seq<TaskView>) -> nat {
    total(Seq::new(tasks.len(), |i: int| tasks[i].original_duration))
}

/// The status that toggling leads to: a done task is opened again, an
/// open or a skipped one becomes done.
pub open spec fn toggle_transition(status: CompletionStatus) -> CompletionStatus {
    match status {
        CompletionStatus::Done => CompletionStatus::NotYet,
        CompletionStatus::NotYet => CompletionStatus::Done,
        CompletionStatus::Skipped => CompletionStatus::Done,
    }
}

/// The status that skipping leads to: a skipped task is opened again, an
/// open one becomes skipped, and a done one cannot be skipped.
pub open spec fn skip_transition(status: CompletionStatus) -> Result<
    CompletionStatus,
    ToggleFailure,
> {
    match status {
        CompletionStatus::Skipped => Ok(CompletionStatus::NotYet),
        CompletionStatus::NotYet => Ok(CompletionStatus::Skipped),
        CompletionStatus::Done => Err(ToggleFailure::NoDoneToSkip),
    }
}

impl RoutineView {
    /// The bounds of every task, in order.
    pub open spec fn bounds(self) -> Seq<Bounds> {
        Seq::new(self.tasks.len(), |i: int| self.tasks[i].bounds())
    }

    /// What the tasks are fitted into: the goal less the spilled time.
    /// It is negative once more time has spilled than the goal holds.
    pub open spec fn budget(self) -> int {
        self.flex_goal - self.spilled_time
    }

    /// Whether the budget covers the time already spent on the tasks.
    pub open spec fn feasible(self) -> bool {
        total_min(self.bounds()) <= self.budget()
    }

    /// The current duration that resizing gives every task: its share of
    /// the budget, and zero for every task where the budget is infeasible.
    pub open spec fn allotted(self) -> Seq<nat> {
        if self.feasible() {
            flexed(self.bounds(), self.budget() as nat)
        } else {
            Seq::new(self.tasks.len(), |i: int| 0nat)
        }
    }

    /// The routine with every current duration derived anew.
    pub open spec fn resized(self) -> RoutineView {
        RoutineView {
            tasks: Seq::new(
                self.tasks.len(),
                |i: int| TaskView { duration: self.allotted()[i], ..self.tasks[i] },
            ),
            ..self
        }
    }

    /// Whether nothing has happened yet: there is no deadline, no time has
    /// spilled, every task is open with nothing spent on it, and the goal
    /// is the sum of the planned durations.
    pub open spec fn untouched(self) -> bool {
        &&& self.mode == TimeMode::ExpectedEnd
        &&& self.spilled_time == 0
        &&& self.flex_goal == self.total_originals()
        &&& forall|i: int|
            0 <= i < self.tasks.len() ==> self.tasks[i].status == CompletionStatus::NotYet
                && self.tasks[i].elapsed == 0
    }

    /// Whether every current duration is what resizing gives it.
    pub open spec fn is_resized(self) -> bool {
        self.durations() == self.allotted()
    }

    /// The current duration of every task, in order.
    pub open spec fn durations(self) -> Seq<nat> {
        Seq::new(self.tasks.len(), |i: int| self.tasks[i].duration)
    }

    /// The elapsed time of every task, in order.
    pub open spec fn elapsed_times(self) -> Seq<nat> {
        Seq::new(self.tasks.len(), |i: int| self.tasks[i].elapsed)
    }

    /// The planned duration of every task, in order.
    pub open spec fn originals(self) -> Seq<nat> {
        Seq::new(self.tasks.len(), |i: int| self.tasks[i].original_duration)
    }

    /// The planned duration of every task that is done or skipped, and zero
    /// for every open one, in order.
    pub open spec fn closed_originals(self) -> Seq<nat> {
        Seq::new(
            self.tasks.len(),
            |i: int|
                if self.tasks[i].status == CompletionStatus::NotYet {
                    0nat
                } else {
                    self.tasks[i].original_duration
                },
        )
    }

    /// What is left of every task's current duration, in order.
    pub open spec fn remainders(self) -> Seq<nat> {
        Seq::new(self.tasks.len(), |i: int| self.tasks[i].remaining())
    }

    /// The sum of the current durations.
    pub open spec fn duration(self) -> nat {
        total(self.durations())
    }

    /// The time spent on all tasks together.
    pub open spec fn elapsed(self) -> nat {
        total(self.elapsed_times())
    }

    /// The sum of the planned durations.
    pub open spec fn total_originals(self) -> nat {
        total(self.originals())
    }

    /// The sum of the planned durations of the tasks that are done or
    /// skipped.
    pub open spec fn completed_originals(self) -> nat {
        total(self.closed_originals())
    }

    /// The time left over all tasks: for each task what is left of its
    /// current duration, never less than zero.
    pub open spec fn remaining(self) -> nat {
        total(self.remainders())
    }

    /// For every task whether it is still open.
    pub open spec fn checkboxes(self) -> Seq<bool> {
        Seq::new(self.tasks.len(), |i: int| self.tasks[i].status == CompletionStatus::NotYet)
    }

    /// The goal once `task` has joined: extended by the task's planned
    /// duration, but left alone under a fixed deadline.
    pub open spec fn goal_with(self, task: TaskView) -> nat {
        match self.mode {
            TimeMode::ExpectedEnd => self.flex_goal + task.original_duration,
            TimeMode::FixedEnd(_) => self.flex_goal,
        }
    }

    /// The routine after `task` has been added at the end.
    pub open spec fn pushed(self, task: TaskView) -> RoutineView {
        RoutineView {
            tasks: self.tasks.push(task),
            flex_goal: self.goal_with(task),
            ..self
        }.resized()
    }

    /// The routine after `task` has been added before position `i`.
    pub open spec fn inserted(self, i: int, task: TaskView) -> RoutineView {
        RoutineView {
            tasks: self.tasks.insert(i, task),
            flex_goal: self.goal_with(task),
            ..self
        }.resized()
    }

    /// The routine with the status of task `i` replaced.
    pub open spec fn with_status(self, i: int, status: CompletionStatus) -> RoutineView {
        RoutineView {
            tasks: self.tasks.update(i, TaskView { status, ..self.tasks[i] }),
            ..self
        }
    }

    /// Whether `i` names a task.
    pub open spec fn selects(self, i: Option<usize>) -> bool {
        i matches Some(k) && k < self.tasks.len()
    }

    /// What toggling task `i` answers: the new status of the task, or
    /// `NoSelection` where `i` names no task.
    pub open spec fn toggle_outcome(self, i: Option<usize>) -> Result<
        CompletionStatus,
        ToggleFailure,
    > {
        if !self.selects(i) {
            Err(ToggleFailure::NoSelection)
        } else {
            Ok(toggle_transition(self.tasks[i.unwrap() as int].status))
        }
    }

    /// The routine after task `i` has been toggled. The task changes its
    /// status by the table of [`toggle_transition`]. Closing an open task
    /// resizes the routine; the other changes leave the durations alone.
    pub open spec fn toggled(self, i: Option<usize>) -> RoutineView {
        if !self.selects(i) {
            self
        } else {
            let k = i.unwrap() as int;
            let changed = self.with_status(k, toggle_transition(self.tasks[k].status));
            if self.tasks[k].status == CompletionStatus::NotYet {
                changed.resized()
            } else {
                changed
            }
        }
    }

    /// What skipping task `i` answers: the new status of the task,
    /// `NoDoneToSkip` for a task that is done, or `NoSelection` where `i`
    /// names no task.
    pub open spec fn skip_outcome(self, i: Option<usize>) -> Result<
        CompletionStatus,
        ToggleFailure,
    > {
        if !self.selects(i) {
            Err(ToggleFailure::NoSelection)
        } else {
            skip_transition(self.tasks[i.unwrap() as int].status)
        }
    }

    /// The routine after task `i` has been skipped. The task changes its
    /// status by the table of [`skip_transition`], and stays as it is where
    /// the table has an error. Skipping an open task resizes the routine;
    /// taking a skipped one up again leaves the durations alone.
    pub open spec fn skipped(self, i: Option<usize>) -> RoutineView {
        if !self.selects(i) {
            self
        } else {
            let k = i.unwrap() as int;
            match skip_transition(self.tasks[k].status) {
                Ok(status) => {
                    let changed = self.with_status(k, status);
                    if self.tasks[k].status == CompletionStatus::NotYet {
                        changed.resized()
                    } else {
                        changed
                    }
                },
                Err(_) => self,
            }
        }
    }

    /// The routine after `span` has passed: on task `i` where one is given,
    /// and as spilled time where none is.
    pub open spec fn elapsed_by(self, i: Option<usize>, span: nat) -> RoutineView {
        match i {
            Some(k) => RoutineView {
                tasks: self.tasks.update(
                    k as int,
                    TaskView {
                        elapsed: self.tasks[k as int].elapsed + span,
                        ..self.tasks[k as int]
                    },
                ),
                ..self
            },
            None => RoutineView { spilled_time: self.spilled_time + span, ..self },
        }.resized()
    }

    /// What setting the deadline `deadline` at the instant `now` answers.
    pub open spec fn deadline_outcome(self, deadline: Timestamp, now: Timestamp) -> Result<
        (),
        DeadlineError,
    > {
        if deadline@ < now@ {
            Err(DeadlineError::Passed)
        } else if self.elapsed() + deadline@ - now@ > u64::MAX {
            Err(DeadlineError::TooFar)
        } else {
            Ok(())
        }
    }

    /// The routine once it has to end at `deadline`, seen from the instant
    /// `now`: the goal becomes the time already spent on the tasks plus the
    /// time from `now` to the deadline.
    pub open spec fn with_deadline(self, deadline: Timestamp, now: Timestamp) -> RoutineView {
        RoutineView {
            mode: TimeMode::FixedEnd(deadline),
            flex_goal: (self.elapsed() + deadline@ - now@) as nat,
            ..self
        }.resized()
    }
}

impl View for Routine {
    type V = RoutineView;

    open spec fn view(&self) -> RoutineView {
        RoutineView {
            tasks: task_views(self.tasks@),
            flex_goal: self.flex_goal@,
            mode: self.mode,
            spilled_time: self.spilled_time@,
        }
    }
}

impl Flex for Routine {
    type Item = Task;

    open spec fn spec_items(&self) -> Seq<Task> {
        self.tasks@
    }

    fn get_items(&self) -> (items: &Vec<Task>) {
        &self.tasks
    }
}

/// To the resizing algorithm a routine's tasks have the bounds that its view
/// gives them.
pub proof fn lemma_bounds_of_tasks(tasks: Seq<Task>, v: RoutineView)
    requires
        v.tasks == task_views(tasks),
    ensures
        bounds_of(tasks) == v.bounds(),
{
    assert(bounds_of(tasks) =~= v.bounds());
}

/// Resizing is stable: the durations it gives depend on the budget and on
/// the bounds of the tasks alone, so resizing a second time changes nothing.
pub proof fn lemma_resize_is_idempotent(v: RoutineView)
    ensures
        v.resized().is_resized(),
        v.resized().resized() == v.resized(),
{
    let r = v.resized();
    assert(r.bounds() =~= v.bounds());
    assert(r.durations() =~= r.allotted());
    assert(r.resized().tasks =~= r.tasks);
}

/// The sum of the durations after resizing: the budget exactly where it is
/// feasible, capped at the joint ceiling of the tasks; and zero where it is
/// not.
pub proof fn lemma_resized_duration(v: RoutineView)
    ensures
        v.resized().duration() == if !v.feasible() {
            0
        } else if v.budget() >= total_ceiling(v.bounds()) {
            total_ceiling(v.bounds()) as int
        } else {
            v.budget()
        },
{
    assert(v.resized().durations() =~= v.allotted());
    if v.feasible() {
        lemma_flexed_total(v.bounds(), v.budget() as nat);
    } else {
        lemma_total_zeros(v.allotted());
    }
}

/// Floor: resizing never allots a task less than has been spent on it,
/// nor more than its ceiling, as long as the budget is feasible. Where it
/// is not, every task is allotted zero, and nothing is left of it.
pub proof fn lemma_resized_floor(v: RoutineView, i: int)
    requires
        0 <= i < v.tasks.len(),
    ensures
        v.feasible() ==> v.tasks[i].elapsed <= v.resized().tasks[i].duration
            <= v.bounds()[i].ceiling(),
        !v.feasible() ==> v.resized().tasks[i].duration == 0 && v.resized().tasks[i].remaining()
            == 0 && v.resized().remaining() == 0,
{
    if v.feasible() {
        lemma_share_within_bounds(v.bounds(), v.budget() as nat, i);
    } else {
        lemma_total_zeros(v.resized().remainders());
    }
}

/// Resizing a routine in which nothing has happened yet allots every task
/// the duration it was planned with.
pub proof fn lemma_untouched_plan(v: RoutineView)
    requires
        v.untouched(),
    ensures
        v.allotted() == v.originals(),
        v.resized().untouched(),
{
    let b = v.bounds();
    assert(ceilings(b) =~= v.originals());
    assert(mins(b) =~= v.elapsed_times());
    lemma_total_zeros(mins(b));
    lemma_surplus_gives_ceilings(b, v.budget() as nat);
    assert(v.resized().originals() =~= v.originals());
}

/// Budget conservation: in a routine that has no deadline and in which
/// nothing has happened yet, the durations add up to the plan. They do so
/// whether the tasks are still as they were made or have been resized, and
/// every single duration is the planned one.
pub proof fn lemma_budget_conservation(v: RoutineView)
    requires
        v.untouched(),
        v.is_resized() || forall|i: int| 0 <= i < v.tasks.len() ==> v.tasks[i].is_fresh(),
    ensures
        v.durations() == v.originals(),
        v.duration() == v.total_originals(),
{
    lemma_untouched_plan(v);
    assert(v.durations() =~= v.originals());
}

/// Budget conservation holds on as tasks join at the end: adding an open
/// task on which nothing has been spent to an untouched routine leaves it
/// untouched, with durations that add up to the plan.
pub proof fn lemma_push_conserves_budget(v: RoutineView, task: TaskView)
    requires
        v.untouched(),
        task.status == CompletionStatus::NotYet,
        task.elapsed == 0,
    ensures
        v.pushed(task).untouched(),
        v.pushed(task).is_resized(),
        v.pushed(task).duration() == v.pushed(task).total_originals(),
{
    let joined = RoutineView {
        tasks: v.tasks.push(task),
        flex_goal: v.goal_with(task),
        ..v
    };
    assert(joined.originals().drop_last() =~= v.originals());
    lemma_untouched_plan(joined);
    lemma_resize_is_idempotent(joined);
    lemma_budget_conservation(joined.resized());
}

/// Budget conservation holds on as tasks join anywhere: inserting an open
/// task on which nothing has been spent into an untouched routine leaves
/// it untouched, with durations that add up to the plan.
pub proof fn lemma_insert_conserves_budget(v: RoutineView, i: int, task: TaskView)
    requires
        v.untouched(),
        0 <= i <= v.tasks.len(),
        task.status == CompletionStatus::NotYet,
        task.elapsed == 0,
    ensures
        v.inserted(i, task).untouched(),
        v.inserted(i, task).is_resized(),
        v.inserted(i, task).duration() == v.inserted(i, task).total_originals(),
{
    let joined = RoutineView {
        tasks: v.tasks.insert(i, task),
        flex_goal: v.goal_with(task),
        ..v
    };
    assert(joined.originals() =~= v.originals().insert(i, task.original_duration));
    lemma_total_insert(v.originals(), i, task.original_duration);
    lemma_untouched_plan(joined);
    lemma_resize_is_idempotent(joined);
    lemma_budget_conservation(joined.resized());
}

/// Steady state: when time passes on one open task without taking it past
/// its planned duration, and the budget still covers the time spent, the
/// sum of the durations stays what it was. Where the budget reaches the
/// joint ceiling of the tasks, every single duration stays what it was.
pub proof fn lemma_steady_elapse(v: RoutineView, i: usize, span: nat)
    requires
        v.is_resized(),
        i < v.tasks.len(),
        v.tasks[i as int].status == CompletionStatus::NotYet,
        v.tasks[i as int].elapsed + span <= v.tasks[i as int].original_duration,
        v.elapsed_by(Some(i), span).feasible(),
    ensures
        v.elapsed_by(Some(i), span).duration() == v.duration(),
        v.budget() >= total_ceiling(v.bounds()) ==> v.elapsed_by(Some(i), span).durations()
            == v.durations(),
{
    let k = i as int;
    let later = RoutineView {
        tasks: v.tasks.update(
            k,
            TaskView { elapsed: v.tasks[k].elapsed + span, ..v.tasks[k] },
        ),
        ..v
    };
    assert(ceilings(later.bounds()) =~= ceilings(v.bounds()));
    assert(mins(later.bounds()) =~= mins(v.bounds()).update(k, v.tasks[k].elapsed + span));
    lemma_total_update(mins(v.bounds()), k, v.tasks[k].elapsed + span);
    assert(later.resized().bounds() =~= later.bounds());
    lemma_resized_duration(later);
    lemma_resized_duration(v);
    assert(v.resized().durations() =~= v.allotted());
    if v.budget() >= total_ceiling(v.bounds()) {
        lemma_surplus_gives_ceilings(v.bounds(), v.budget() as nat);
        lemma_surplus_gives_ceilings(later.bounds(), later.budget() as nat);
        assert(later.resized().durations() =~= later.allotted());
    }
}

/// Resizing touches the current durations alone: the tasks keep their
/// number, their names, their status and the time spent on them, and the
/// durations it gives never add up to more than the goal.
pub proof fn lemma_resized_keeps(v: RoutineView)
    ensures
        v.resized().tasks.len() == v.tasks.len(),
        v.resized().elapsed() == v.elapsed(),
        v.resized().checkboxes() == v.checkboxes(),
        v.resized().duration() <= v.flex_goal,
        forall|i: int|
            0 <= i < v.tasks.len() ==> v.resized().tasks[i] == (TaskView {
                duration: v.allotted()[i],
                ..v.tasks[i]
            }),
{
    lemma_resized_duration(v);
    assert(v.resized().elapsed_times() =~= v.elapsed_times());
    assert(v.resized().checkboxes() =~= v.checkboxes());
}

/// Time that passes on a task adds to the time spent on the tasks; time
/// that spills does not.
pub proof fn lemma_elapsed_after_elapse(v: RoutineView, i: Option<usize>, span: nat)
    requires
        i matches Some(k) ==> k < v.tasks.len(),
    ensures
        v.elapsed_by(i, span).elapsed() == v.elapsed() + if i is Some {
            span
        } else {
            0
        },
        v.elapsed_by(i, span).tasks.len() == v.tasks.len(),
        v.elapsed_by(i, span).checkboxes() == v.checkboxes(),
        v.elapsed_by(i, span).duration() <= v.flex_goal,
        forall|j: int|
            0 <= j < v.tasks.len() ==> (#[trigger] v.elapsed_by(i, span).tasks[j]).name
                == v.tasks[j].name,
{
    match i {
        Some(k) => {
            let later = RoutineView {
                tasks: v.tasks.update(
                    k as int,
                    TaskView { elapsed: v.tasks[k as int].elapsed + span, ..v.tasks[k as int] },
                ),
                ..v
            };
            assert(later.elapsed_times() =~= v.elapsed_times().update(
                k as int,
                v.tasks[k as int].elapsed + span,
            ));
            lemma_total_update(v.elapsed_times(), k as int, v.tasks[k as int].elapsed + span);
            assert(later.checkboxes() =~= v.checkboxes());
            lemma_resized_keeps(later);
        },
        None => {
            let later = RoutineView { spilled_time: v.spilled_time + span, ..v };
            assert(later.elapsed_times() =~= v.elapsed_times());
            assert(later.checkboxes() =~= v.checkboxes());
            lemma_resized_keeps(later);
        },
    }
}

/// A change of status alone leaves the time spent and the durations as
/// they are, and opens or closes the one checkbox.
pub proof fn lemma_sums_after_status(v: RoutineView, k: int, status: CompletionStatus)
    requires
        0 <= k < v.tasks.len(),
    ensures
        v.with_status(k, status).elapsed() == v.elapsed(),
        v.with_status(k, status).duration() == v.duration(),
        v.with_status(k, status).tasks.len() == v.tasks.len(),
        v.with_status(k, status).checkboxes() == v.checkboxes().update(
            k,
            status == CompletionStatus::NotYet,
        ),
{
    let w = v.with_status(k, status);
    assert(w.elapsed_times() =~= v.elapsed_times());
    assert(w.durations() =~= v.durations());
    assert(w.checkboxes() =~= v.checkboxes().update(k, status == CompletionStatus::NotYet));
}

/// A task that joins brings the time spent on it along.
pub proof fn lemma_elapsed_after_insert(v: RoutineView, i: int, task: TaskView)
    requires
        0 <= i <= v.tasks.len(),
    ensures
        v.inserted(i, task).elapsed() == v.elapsed() + task.elapsed,
        v.inserted(i, task).tasks.len() == v.tasks.len() + 1,
        v.inserted(i, task).duration() <= v.goal_with(task),
        v.pushed(task) == v.inserted(v.tasks.len() as int, task),
{
    let joined = RoutineView {
        tasks: v.tasks.insert(i, task),
        flex_goal: v.goal_with(task),
        ..v
    };
    assert(joined.elapsed_times() =~= v.elapsed_times().insert(i, task.elapsed));
    lemma_total_insert(v.elapsed_times(), i, task.elapsed);
    lemma_resized_keeps(joined);
    assert(v.tasks.push(task) =~= v.tasks.insert(v.tasks.len() as int, task));
}

impl Default for Routine {
    /// The empty routine: no task, no budget, no deadline.
    fn default() -> (r: Routine)
        ensures
            r@ == (RoutineView {
                tasks: Seq::<TaskView>::empty(),
                flex_goal: 0,
                mode: TimeMode::ExpectedEnd,
                spilled_time: 0,
            }),
    {
        let r = Routine {
            tasks: Vec::new(),
            flex_goal: Duration::zero(),
            mode: TimeMode::ExpectedEnd,
            spilled_time: Duration::zero(),
        };
        assert(r@.tasks =~= Seq::<TaskView>::empty());
        r
    }
}

impl Routine {
    /// Derives every current duration anew from the budget.
    fn update_flex(&mut self)
        ensures
            final(self)@ == old(self)@.resized(),
    {
        let ghost before = self@;
        let ghost plan = before.allotted();
        proof {
            lemma_bounds_of_tasks(self.tasks@, before);
        }
        let times: Option<Vec<Duration>> = if self.flex_goal.as_nanos()
            >= self.spilled_time.as_nanos() {
            let budget = self.flex_goal.saturating_sub(self.spilled_time);
            match self.flex(budget) {
                Ok(sizes) => Some(sizes),
                Err(_) => None,
            }
        } else {
            None
        };
        assert(times matches Some(sizes) ==> nanos(sizes@) == plan);
        assert(times is None ==> !before.feasible());
        let mut k: usize = 0;
        while k < self.tasks.len()
            invariant
                k <= self.tasks.len(),
                self.tasks.len() == before.tasks.len(),
                self.flex_goal@ == before.flex_goal,
                self.mode == before.mode,
                self.spilled_time@ == before.spilled_time,
                plan == before.allotted(),
                plan.len() == before.tasks.len(),
                times matches Some(sizes) ==> nanos(sizes@) == plan,
                times is None ==> !before.feasible(),
                forall|j: int|
                    0 <= j < k ==> self.tasks@[j]@ == (TaskView {
                        duration: plan[j],
                        ..before.tasks[j]
                    }),
                forall|j: int| k <= j < self.tasks.len() ==> self.tasks@[j]@ == before.tasks[j],
            decreases self.tasks.len() - k,
        {
            let time = match &times {
                Some(sizes) => {
                    assert(nanos(sizes@)[k as int] == sizes@[k as int]@);
                    sizes[k]
                },
                None => Duration::zero(),
            };
            self.tasks[k].duration = time;
            k += 1;
        }
        assert(self@.tasks =~= before.resized().tasks);
    }

    /// Whether the planned durations of `tasks` add up to a span that can be
    /// represented, as [`Routine::with_tasks`] asks.
    pub fn plan_fits(tasks: &Vec<Task>) -> (fits: bool)
        ensures
            fits == (planned_total(task_views(tasks@)) <= u64::MAX),
    {
        let ghost plan = Seq::new(tasks@.len(), |i: int| tasks@[i]@.original_duration);
        let mut sum: u128 = 0;
        let mut k: usize = 0;
        while k < tasks.len()
            invariant
                k <= tasks.len(),
                plan == Seq::new(tasks@.len(), |i: int| tasks@[i]@.original_duration),
                sum == total(plan.take(k as int)),
                sum <= k * u64::MAX,
            decreases tasks.len() - k,
        {
            proof {
                lemma_total_take(plan, k as int);
                assert((k + 1) * u64::MAX <= u128::MAX) by (nonlinear_arith)
                    requires
                        k + 1 <= u64::MAX,
                ;
            }
            sum = sum + tasks[k].original_duration.as_nanos() as u128;
            k += 1;
        }
        proof {
            assert(plan.take(k as int) =~= plan);
            assert(plan =~= Seq::new(
                task_views(tasks@).len(),
                |i: int| task_views(tasks@)[i].original_duration,
            ));
        }
        sum <= u64::MAX as u128
    }

    /// A routine of `tasks` without a deadline, whose goal is the sum of
    /// their planned durations. The tasks are taken as they are.
    pub fn with_tasks(tasks: Vec<Task>) -> (r: Routine)
        requires
            planned_total(task_views(tasks@)) <= u64::MAX,
        ensures
            r.tasks == tasks,
            r@ == (RoutineView {
                tasks: task_views(tasks@),
                flex_goal: planned_total(task_views(tasks@)),
                mode: TimeMode::ExpectedEnd,
                spilled_time: 0,
            }),
    {
        let mut r = Routine {
            tasks,
            flex_goal: Duration::zero(),
            mode: TimeMode::ExpectedEnd,
            spilled_time: Duration::zero(),
        };
        let goal = r.total_originals();
        r.flex_goal = goal;
        r
    }

    /// For every task, in order, whether it is still open: the tasks that a
    /// cursor may stop on when it moves by itself.
    pub fn get_checkboxes(&self) -> (boxes: Vec<bool>)
        ensures
            boxes@ == self@.checkboxes(),
    {
        let mut boxes: Vec<bool> = Vec::new();
        let mut k: usize = 0;
        while k < self.tasks.len()
            invariant
                k <= self.tasks.len(),
                boxes.len() == k,
                forall|j: int| 0 <= j < k ==> boxes[j] == self@.checkboxes()[j],
            decreases self.tasks.len() - k,
        {
            let open = match self.tasks[k].status {
                CompletionStatus::NotYet => true,
                CompletionStatus::Done => false,
                CompletionStatus::Skipped => false,
            };
            boxes.push(open);
            k += 1;
        }
        assert(boxes@ =~= self@.checkboxes());
        boxes
    }

    /// Brings the goal up to date with the deadline, seen from the instant
    /// `now`. Without a deadline there is nothing to do.
    ///
    /// Under a deadline the goal becomes the time spent on the tasks so far
    /// plus the time from `now` to the deadline, and the routine is resized.
    /// Where the deadline has passed or the goal would be too long to
    /// represent, the routine is left as it is.
    pub fn sync_goal(&mut self, now: Timestamp) -> (r: Result<(), DeadlineError>)
        ensures
            match old(self).mode {
                TimeMode::FixedEnd(deadline) => {
                    &&& r == old(self)@.deadline_outcome(deadline, now)
                    &&& final(self)@ == if r is Ok {
                        old(self)@.with_deadline(deadline, now)
                    } else {
                        old(self)@
                    }
                },
                TimeMode::ExpectedEnd => r is Ok && final(self)@ == old(self)@,
            },
    {
        match self.mode {
            TimeMode::ExpectedEnd => Ok(()),
            TimeMode::FixedEnd(deadline) => self.set_deadline(deadline, now),
        }
    }

    /// Makes the routine end at `deadline`, seen from the instant `now`.
    ///
    /// The goal becomes the time spent on the tasks so far plus the time
    /// from `now` to the deadline, and the routine is resized. Where the
    /// deadline has passed or the goal would be too long to represent, the
    /// routine is left as it is.
    pub fn set_deadline(&mut self, deadline: Timestamp, now: Timestamp) -> (r: Result<
        (),
        DeadlineError,
    >)
        ensures
            r == old(self)@.deadline_outcome(deadline, now),
            final(self)@ == if r is Ok {
                old(self)@.with_deadline(deadline, now)
            } else {
                old(self)@
            },
    {
        proof {
            lemma_bounds_of_tasks(self.tasks@, self@);
            assert(mins(self@.bounds()) =~= self@.elapsed_times());
        }
        let time_left = match deadline.duration_since(now) {
            Some(span) => span,
            None => {
                return Err(DeadlineError::Passed);
            },
        };
        let time_spent: u128 = self.min_size();
        if time_spent > (u64::MAX - time_left.as_nanos()) as u128 {
            return Err(DeadlineError::TooFar);
        }
        self.mode = TimeMode::FixedEnd(deadline);
        self.flex_goal = Duration::from_nanos(time_spent as u64 + time_left.as_nanos());
        self.update_flex();
        Ok(())
    }

    /// Adds `task` at the end and resizes the routine. Without a deadline
    /// the goal grows by the task's planned duration; under a deadline it
    /// stays, and the task has to borrow from the others.
    pub fn push(&mut self, task: Task)
        requires
            old(self)@.goal_with(task@) <= u64::MAX,
        ensures
            final(self)@ == old(self)@.pushed(task@),
    {
        let ghost joined = RoutineView {
            tasks: self@.tasks.push(task@),
            flex_goal: self@.goal_with(task@),
            ..self@
        };
        self.increase_time_for_new_task(&task);
        self.tasks.push(task);
        assert(self@.tasks =~= joined.tasks);
        self.update_flex();
    }

    /// Adds `task` before position `i` and resizes the routine. The goal
    /// changes as it does in [`Routine::push`].
    pub fn insert(&mut self, i: usize, task: Task)
        requires
            i <= old(self).tasks.len(),
            old(self)@.goal_with(task@) <= u64::MAX,
        ensures
            final(self)@ == old(self)@.inserted(i as int, task@),
    {
        let ghost joined = RoutineView {
            tasks: self@.tasks.insert(i as int, task@),
            flex_goal: self@.goal_with(task@),
            ..self@
        };
        self.increase_time_for_new_task(&task);
        self.tasks.insert(i, task);
        assert(self@.tasks =~= joined.tasks);
        self.update_flex();
    }

    /// Makes room in the goal for a task that joins.
    fn increase_time_for_new_task(&mut self, task: &Task)
        requires
            old(self)@.goal_with(task@) <= u64::MAX,
        ensures
            final(self)@ == (RoutineView {
                flex_goal: old(self)@.goal_with(task@),
                ..old(self)@
            }),
            final(self).tasks == old(self).tasks,
    {
        match self.mode {
            TimeMode::ExpectedEnd => {
                self.flex_goal = Duration::from_nanos(
                    self.flex_goal.as_nanos() + task.original_duration.as_nanos(),
                );
            },
            TimeMode::FixedEnd(_) => {},
        }
    }

    /// The task at position `active`, if there is one.
    pub fn get_nth(&self, active: Option<usize>) -> (task: Option<&Task>)
        ensures
            task.is_some() == self@.selects(active),
            task matches Some(t) ==> *t == self.tasks@[active.unwrap() as int],
    {
        match active {
            Some(i) => if i < self.tasks.len() {
                Some(&self.tasks[i])
            } else {
                None
            },
            None => None,
        }
    }

    /// Toggles task `i` between done and open.
    ///
    /// A done task is opened again; an open task becomes done, and the
    /// routine is resized; a skipped task becomes done. The answer is the
    /// new status, or `NoSelection` where `i` names no task.
    pub fn toggle(&mut self, i: Option<usize>) -> (r: Result<CompletionStatus, ToggleFailure>)
        ensures
            r == old(self)@.toggle_outcome(i),
            final(self)@ == old(self)@.toggled(i),
    {
        let k = match i {
            Some(k) => k,
            None => {
                return Err(ToggleFailure::NoSelection);
            },
        };
        if k >= self.tasks.len() {
            return Err(ToggleFailure::NoSelection);
        }
        match self.tasks[k].status {
            CompletionStatus::Done => {
                self.set_status(k, CompletionStatus::NotYet);
                Ok(CompletionStatus::NotYet)
            },
            CompletionStatus::NotYet => {
                self.set_status(k, CompletionStatus::Done);
                self.update_flex();
                Ok(CompletionStatus::Done)
            },
            CompletionStatus::Skipped => {
                self.set_status(k, CompletionStatus::Done);
                Ok(CompletionStatus::Done)
            },
        }
    }

    /// Toggles task `i` between skipped and open.
    ///
    /// A skipped task is opened again; an open task becomes skipped, and the
    /// routine is resized. The answer is the new status, `NoDoneToSkip` for
    /// a task that is done, which stays done, or `NoSelection` where `i`
    /// names no task.
    pub fn skip(&mut self, i: Option<usize>) -> (r: Result<CompletionStatus, ToggleFailure>)
        ensures
            r == old(self)@.skip_outcome(i),
            final(self)@ == old(self)@.skipped(i),
    {
        let k = match i {
            Some(k) => k,
            None => {
                return Err(ToggleFailure::NoSelection);
            },
        };
        if k >= self.tasks.len() {
            return Err(ToggleFailure::NoSelection);
        }
        match self.tasks[k].status {
            CompletionStatus::Skipped => {
                self.set_status(k, CompletionStatus::NotYet);
                Ok(CompletionStatus::NotYet)
            },
            CompletionStatus::NotYet => {
                self.set_status(k, CompletionStatus::Skipped);
                self.update_flex();
                Ok(CompletionStatus::Skipped)
            },
            CompletionStatus::Done => Err(ToggleFailure::NoDoneToSkip),
        }
    }

    /// Replaces the status of task `k`.
    fn set_status(&mut self, k: usize, status: CompletionStatus)
        requires
            k < old(self).tasks.len(),
        ensures
            final(self)@ == old(self)@.with_status(k as int, status),
    {
        self.tasks[k].status = status;
        assert(self@.tasks =~= old(self)@.with_status(k as int, status).tasks);
    }

    /// The sum of the entries of one column of the routine.
    fn column_total(&self, column: Column) -> (sum: Duration)
        requires
            total(column_of(self@, column)) <= u64::MAX,
        ensures
            sum@ == total(column_of(self@, column)),
    {
        let ghost cells = column_of(self@, column);
        let mut sum: u64 = 0;
        let mut k: usize = 0;
        while k < self.tasks.len()
            invariant
                k <= self.tasks.len(),
                cells == column_of(self@, column),
                cells.len() == self.tasks.len(),
                total(cells) <= u64::MAX,
                sum == total(cells.take(k as int)),
            decreases self.tasks.len() - k,
        {
            let task = &self.tasks[k];
            let cell = match column {
                Column::Duration => task.duration,
                Column::Elapsed => task.elapsed,
                Column::Original => task.original_duration,
                Column::ClosedOriginal => match task.status {
                    CompletionStatus::NotYet => Duration::zero(),
                    CompletionStatus::Done => task.original_duration,
                    CompletionStatus::Skipped => task.original_duration,
                },
                Column::Remaining => task.remaining(),
            };
            proof {
                lemma_total_take(cells, k as int);
                lemma_total_take_le(cells, k as int + 1);
            }
            sum = sum + cell.as_nanos();
            k += 1;
        }
        proof {
            assert(cells.take(k as int) =~= cells);
        }
        Duration::from_nanos(sum)
    }

    /// The sum of the current durations of the tasks.
    pub fn duration(&self) -> (sum: Duration)
        requires
            self@.duration() <= u64::MAX,
        ensures
            sum@ == self@.duration(),
    {
        assert(column_of(self@, Column::Duration) =~= self@.durations());
        self.column_total(Column::Duration)
    }

    /// The time spent on all tasks together.
    pub fn elapsed(&self) -> (sum: Duration)
        requires
            self@.elapsed() <= u64::MAX,
        ensures
            sum@ == self@.elapsed(),
    {
        assert(column_of(self@, Column::Elapsed) =~= self@.elapsed_times());
        self.column_total(Column::Elapsed)
    }

    /// The sum of the planned durations of the tasks.
    pub fn total_originals(&self) -> (sum: Duration)
        requires
            self@.total_originals() <= u64::MAX,
        ensures
            sum@ == self@.total_originals(),
    {
        assert(column_of(self@, Column::Original) =~= self@.originals());
        self.column_total(Column::Original)
    }

    /// The sum of the planned durations of the tasks that are done or
    /// skipped. A skipped task counts as completed here.
    pub fn completed_originals(&self) -> (sum: Duration)
        requires
            self@.completed_originals() <= u64::MAX,
        ensures
            sum@ == self@.completed_originals(),
    {
        assert(column_of(self@, Column::ClosedOriginal) =~= self@.closed_originals());
        self.column_total(Column::ClosedOriginal)
    }

    /// The time left over all tasks. A task that has run over its current
    /// duration counts as zero.
    pub fn remaining(&self) -> (sum: Duration)
        requires
            self@.remaining() <= u64::MAX,
        ensures
            sum@ == self@.remaining(),
    {
        assert(column_of(self@, Column::Remaining) =~= self@.remainders());
        self.column_total(Column::Remaining)
    }

    /// Lets `duration` pass and resizes the routine: on task `i` where one
    /// is given, and as spilled time, which is charged to no task but
    /// shrinks the budget of all, where none is.
    pub fn elapse(&mut self, i: Option<usize>, duration: Duration)
        requires
            i matches Some(k) ==> k < old(self).tasks.len() && old(self)@.tasks[k as int].elapsed
                + duration@ <= u64::MAX,
            i is None ==> old(self)@.spilled_time + duration@ <= u64::MAX,
        ensures
            final(self)@ == old(self)@.elapsed_by(i, duration@),
    {
        let ghost before = self@;
        match i {
            Some(k) => {
                self.tasks[k].elapse(duration);
                assert(self@.tasks =~= before.tasks.update(
                    k as int,
                    TaskView {
                        elapsed: before.tasks[k as int].elapsed + duration@,
                        ..before.tasks[k as int]
                    },
                ));
            },
            None => {
                self.spilled_time = Duration::from_nanos(
                    self.spilled_time.as_nanos() + duration.as_nanos(),
                );
            },
        }
        self.update_flex();
    }
}

/// The columns of a routine that are summed up.
enum Column {
    Duration,
    Elapsed,
    Original,
    ClosedOriginal,
    Remaining,
}

/// One column of the routine, in task order.
spec fn column_of(v: RoutineView, column: Column) -> Seq<nat> {
    match column {
        Column::Duration => v.durations(),
        Column::Elapsed => v.elapsed_times(),
        Column::Original => v.originals(),
        Column::ClosedOriginal => v.closed_originals(),
        Column::Remaining => v.remainders(),
    }
}

} // verus!
