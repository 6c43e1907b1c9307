//! One sitting with a routine: the tasks, the cursor on them, the menu that
//! has the focus, and the log entry that is held back.
//!
//! The session reads no clock, no key and no file. Its caller hands it what
//! happened (time passed, a line was typed, a command was given) together
//! with the current instant, and writes out the log entries that come back.
//! The cursor and the task list change together, so the cursor always knows
//! the length of the list.

use vstd::prelude::*;
use crate::keys::Command;
use crate::list_pointer::{ListPointer, ListPointerView};
use crate::logging::{
    entry_view, flushed_by, held_after, LogElement, LogElementView, LogEvent, RoutineLogger,
};
use crate::parse_new_task::{new_task_view, parse_new_task};
use crate::routine::{
    lemma_bounds_of_tasks, lemma_elapsed_after_elapse, lemma_elapsed_after_insert,
    lemma_resized_keeps, lemma_sums_after_status, planned_total, task_views, DeadlineError,
    Routine, RoutineView, TimeMode, ToggleFailure,
};
use crate::flex::{lemma_total_le, lemma_total_update, mins, total, Flex};
use crate::task::{CompletionStatus, Task, TaskView};
use crate::time::{Duration, Timestamp};

verus! {

/// What the user is typing a line for.
#[derive(Debug, Copy, Clone, PartialEq, Eq, Structural)]
pub enum Menu {
    /// A task to add at the end.
    AppendTask,
    /// A task to add after the selected one.
    InsertTask,
    /// A note on why the routine is paused.
    Pause,
}

/// Where the keys go.
#[derive(Debug, Copy, Clone, PartialEq, Eq, Structural)]
pub enum Mode {
    /// To the task list.
    Navigation,
    /// To the line that is being typed.
    Typing(Menu),
}

/// One sitting with a routine.
#[derive(Debug)]
pub struct App {
    should_quit: bool,
    debug: bool,
    help_menu: bool,
    task_widget_state: ListPointer,
    tasks: Routine,
    logger: RoutineLogger,
    start_time: Timestamp,
    menu_focus: Mode,
}

/// A session as plain values.
pub struct AppView {
    /// Whether the session is over.
    pub should_quit: bool,
    /// Whether the debug panel is shown.
    pub debug: bool,
    /// Whether the help is shown.
    pub help_menu: bool,
    /// The cursor on the task list.
    pub pointer: ListPointerView,
    /// The tasks and their budget.
    pub routine: RoutineView,
    /// The log entry that is held back.
    pub pending: Option<LogElementView>,
    /// When the session began.
    pub start_time: Timestamp,
    /// Where the keys go.
    pub menu_focus: Mode,
}

/// The instant at which a deadline given as a time of day falls: `today`,
/// the instant of that time on the current day, unless it has passed at
/// `now`, and `tomorrow`, the instant of that time on the next day, then.
/// There is none where tomorrow's is needed and missing.
pub fn pick_deadline(now: Timestamp, today: Timestamp, tomorrow: Option<Timestamp>) -> (deadline:
    Option<Timestamp>)
    ensures
        deadline == if today@ < now@ {
            tomorrow
        } else {
            Some(today)
        },
{
    if today.as_nanos() < now.as_nanos() {
        tomorrow
    } else {
        Some(today)
    }
}

impl AppView {
    /// The cursor knows the length of the task list and points into it,
    /// and the sums that the session reports can be represented.
    pub open spec fn wf(self) -> bool {
        &&& self.pointer.wf()
        &&& self.pointer.length == self.routine.tasks.len()
        &&& self.routine.duration() <= u64::MAX
        &&& self.routine.elapsed() <= u64::MAX
    }

    /// The task that the cursor shows, which is none while it is paused.
    pub open spec fn selected(self) -> Option<usize> {
        match self.pointer.visible() {
            Some(i) => Some(i as usize),
            None => None,
        }
    }

    /// The name of the selected task.
    pub open spec fn selected_name(self) -> Seq<char> {
        self.routine.tasks[self.selected().unwrap() as int].name
    }

    /// The log entry about the selected task that says `event`, made at
    /// `now`.
    pub open spec fn entry(self, event: LogEvent, now: Timestamp) -> LogElementView {
        LogElementView { time: now, task_name: self.selected_name(), event }
    }

    /// Whether `span` more can be counted: on the selected task, so that
    /// the time spent on all tasks can still be represented, or as spilled
    /// time where no task is selected.
    pub open spec fn can_count(self, span: nat) -> bool {
        match self.selected() {
            Some(_) => self.routine.elapsed() + span <= u64::MAX,
            None => self.routine.spilled_time + span <= u64::MAX,
        }
    }

    /// The log entry that a tick of `span` makes: one for elapsed time on
    /// the selected task, and none where no task is selected or the time
    /// cannot be counted.
    pub open spec fn tick_entry(self, span: Duration, now: Timestamp) -> Option<LogElementView> {
        if self.can_count(span@) && self.selected() is Some {
            Some(self.entry(LogEvent::Elapsed(span), now))
        } else {
            None
        }
    }

    /// The session once `entry` has been logged, where there is one.
    pub open spec fn logged(self, entry: Option<LogElementView>) -> AppView {
        match entry {
            Some(e) => AppView { pending: held_after(self.pending, e), ..self },
            None => self,
        }
    }

    /// The entry that has to be written when `entry` is logged.
    pub open spec fn flushed(self, entry: Option<LogElementView>) -> Option<LogElementView> {
        match entry {
            Some(e) => flushed_by(self.pending, e),
            None => None,
        }
    }

    /// The session after a tick of `span` at the instant `now`.
    pub open spec fn ticked(self, span: Duration, now: Timestamp) -> AppView {
        if self.can_count(span@) {
            AppView {
                routine: self.routine.elapsed_by(self.selected(), span@),
                ..self.logged(self.tick_entry(span, now))
            }
        } else {
            self
        }
    }

    /// The log entry that an attempt to toggle the selected task makes:
    /// that the task was completed or opened again, and none where the
    /// attempt fails.
    pub open spec fn toggle_entry(self, now: Timestamp) -> Option<LogElementView> {
        match self.routine.toggle_outcome(self.selected()) {
            Ok(status) => Some(
                self.entry(LogEvent::Complete(status == CompletionStatus::Done), now),
            ),
            Err(_) => None,
        }
    }

    /// The log entry that an attempt to skip the selected task makes: that
    /// the task was skipped or taken up again, and none where the attempt
    /// fails.
    pub open spec fn skip_entry(self, now: Timestamp) -> Option<LogElementView> {
        match self.routine.skip_outcome(self.selected()) {
            Ok(status) => Some(
                self.entry(LogEvent::Skip(status == CompletionStatus::Skipped), now),
            ),
            Err(_) => None,
        }
    }

    /// The session after an attempt to toggle the selected task. When the
    /// task has become done the cursor moves on to the next open task, or
    /// back to the last open task before where none follows.
    pub open spec fn toggle_attempted(self, now: Timestamp) -> AppView {
        let routine = self.routine.toggled(self.selected());
        AppView {
            routine,
            pointer: if self.routine.toggle_outcome(self.selected()) == Ok::<CompletionStatus, ToggleFailure>(
                CompletionStatus::Done,
            ) {
                self.pointer.bounced(routine.checkboxes())
            } else {
                self.pointer
            },
            ..self.logged(self.toggle_entry(now))
        }
    }

    /// The session after an attempt to skip the selected task. When the
    /// task has become skipped the cursor moves on as it does after a task
    /// has become done.
    pub open spec fn skip_attempted(self, now: Timestamp) -> AppView {
        let routine = self.routine.skipped(self.selected());
        AppView {
            routine,
            pointer: if self.routine.skip_outcome(self.selected()) == Ok::<CompletionStatus, ToggleFailure>(
                CompletionStatus::Skipped,
            ) {
                self.pointer.bounced(routine.checkboxes())
            } else {
                self.pointer
            },
            ..self.logged(self.skip_entry(now))
        }
    }

    /// Whether `task` can join: the list has room for one more, the goal
    /// that makes room for it can be represented, and so can the time spent
    /// on all tasks.
    pub open spec fn can_add(self, task: TaskView) -> bool {
        &&& self.routine.tasks.len() < usize::MAX
        &&& self.routine.goal_with(task) <= u64::MAX
        &&& self.routine.elapsed() + task.elapsed <= u64::MAX
    }

    /// Where an inserted task goes: after the selected task, after the
    /// first task where none is selected, and to the end where the list is
    /// shorter than that.
    pub open spec fn insert_row(self) -> int {
        let after = match self.selected() {
            Some(i) => i + 1,
            None => 1,
        };
        if after <= self.routine.tasks.len() {
            after
        } else {
            self.routine.tasks.len() as int
        }
    }

    /// The session after `task` has joined before row `row`, which lies
    /// behind the cursor. Where the task cannot join, nothing changes.
    pub open spec fn joined(self, row: int, task: TaskView) -> AppView {
        if self.can_add(task) {
            AppView {
                pointer: ListPointerView { length: self.pointer.length + 1, ..self.pointer },
                routine: self.routine.inserted(row, task),
                ..self
            }
        } else {
            self
        }
    }

    /// The session after the line `text` has been submitted for `menu`:
    /// the task that the line describes has joined at the end or behind
    /// the cursor, or the pause is over. The keys go to the task list again.
    pub open spec fn submitted(self, menu: Menu, text: Seq<char>) -> AppView {
        let done = match menu {
            Menu::AppendTask => self.joined(
                self.routine.tasks.len() as int,
                new_task_view(text),
            ),
            Menu::InsertTask => self.joined(self.insert_row(), new_task_view(text)),
            Menu::Pause => AppView {
                pointer: ListPointerView { paused: false, ..self.pointer },
                ..self
            },
        };
        AppView { menu_focus: Mode::Navigation, ..done }
    }
}

impl AppView {
    /// The session after `command` has been carried out at the instant
    /// `now`, with `text` being the line that has been typed.
    pub open spec fn performed(self, command: Command, text: Seq<char>, now: Timestamp) -> AppView {
        match command {
            Command::Quit => AppView { should_quit: true, pending: None, ..self },
            Command::NextTask => AppView {
                pointer: self.pointer.moved_to(self.pointer.row_below()),
                ..self
            },
            Command::PrevTask => AppView {
                pointer: self.pointer.moved_to(self.pointer.row_above()),
                ..self
            },
            Command::Toggle => self.toggle_attempted(now),
            Command::Skip => self.skip_attempted(now),
            Command::AppendTask => AppView {
                menu_focus: Mode::Typing(Menu::AppendTask),
                ..self
            },
            Command::InsertTask => AppView {
                menu_focus: Mode::Typing(Menu::InsertTask),
                ..self
            },
            Command::ToggleHelp => AppView { help_menu: !self.help_menu, ..self },
            Command::ToggleDebug => AppView { debug: !self.debug, ..self },
            Command::CancelTyping => AppView { menu_focus: Mode::Navigation, ..self },
            Command::SubmitTyping(menu) => self.submitted(menu, text),
            Command::Type => self,
            Command::Ignore => self,
        }
    }

    /// The log entry that has to be written when `command` is carried out
    /// at the instant `now`.
    pub open spec fn written(self, command: Command, now: Timestamp) -> Option<LogElementView> {
        match command {
            Command::Quit => self.pending,
            Command::Toggle => self.flushed(self.toggle_entry(now)),
            Command::Skip => self.flushed(self.skip_entry(now)),
            _ => None,
        }
    }
}

impl View for App {
    type V = AppView;

    closed spec fn view(&self) -> AppView {
        AppView {
            should_quit: self.should_quit,
            debug: self.debug,
            help_menu: self.help_menu,
            pointer: self.task_widget_state@,
            routine: self.tasks@,
            pending: self.logger@,
            start_time: self.start_time,
            menu_focus: self.menu_focus,
        }
    }
}

impl App {
    /// Whether `tasks` can start a session: their planned durations add up
    /// to a span that can be represented, and so does the time spent on
    /// them.
    pub open spec fn can_start(tasks: Seq<TaskView>) -> bool {
        &&& planned_total(tasks) <= u64::MAX
        &&& (RoutineView {
            tasks,
            flex_goal: 0,
            mode: TimeMode::ExpectedEnd,
            spilled_time: 0,
        }).elapsed() <= u64::MAX
    }

    /// A session with `tasks` that begins at `start_time`: without a
    /// deadline, with the cursor on the first task, in navigation, and with
    /// the tasks resized to their plan. There is none where the tasks
    /// cannot start a session.
    pub fn new(tasks: Vec<Task>, start_time: Timestamp) -> (r: Option<App>)
        ensures
            r.is_some() == Self::can_start(task_views(tasks@)),
            r matches Some(app) ==> app@.wf() && app@ == (AppView {
                should_quit: false,
                debug: false,
                help_menu: false,
                pointer: ListPointerView {
                    offset: 0,
                    selected: if tasks@.len() == 0 {
                        None
                    } else {
                        Some(0nat)
                    },
                    paused: false,
                    length: tasks@.len(),
                },
                routine: (RoutineView {
                    tasks: task_views(tasks@),
                    flex_goal: planned_total(task_views(tasks@)),
                    mode: TimeMode::ExpectedEnd,
                    spilled_time: 0,
                }).resized(),
                pending: None,
                start_time,
                menu_focus: Mode::Navigation,
            }),
    {
        let ghost views = task_views(tasks@);
        let ghost bare = RoutineView {
            tasks: views,
            flex_goal: 0,
            mode: TimeMode::ExpectedEnd,
            spilled_time: 0,
        };
        if !Routine::plan_fits(&tasks) {
            return None;
        }
        let length = tasks.len();
        let mut routine = Routine::with_tasks(tasks);
        let ghost planned = routine@;
        proof {
            lemma_bounds_of_tasks(routine.tasks@, routine@);
            assert(mins(routine@.bounds()) =~= routine@.elapsed_times());
            assert(routine@.elapsed_times() =~= bare.elapsed_times());
        }
        if routine.min_size() > u64::MAX as u128 {
            return None;
        }
        routine.elapse(None, Duration::zero());
        proof {
            assert(planned.elapsed_by(None, 0) == planned.resized());
            lemma_resized_keeps(planned);
        }
        let app = App {
            should_quit: false,
            debug: false,
            help_menu: false,
            task_widget_state: ListPointer::new(length),
            tasks: routine,
            logger: RoutineLogger::new(),
            start_time,
            menu_focus: Mode::Navigation,
        };
        Some(app)
    }

    /// Whether the session is over.
    pub fn should_quit(&self) -> (b: bool)
        ensures
            b == self@.should_quit,
    {
        self.should_quit
    }

    /// Whether the debug panel is shown.
    pub fn debug(&self) -> (b: bool)
        ensures
            b == self@.debug,
    {
        self.debug
    }

    /// Whether the help is shown.
    pub fn help_menu(&self) -> (b: bool)
        ensures
            b == self@.help_menu,
    {
        self.help_menu
    }

    /// Where the keys go.
    pub fn menu_focus(&self) -> (mode: Mode)
        ensures
            mode == self@.menu_focus,
    {
        self.menu_focus
    }

    /// The cursor on the task list.
    pub fn task_widget_state(&self) -> (pointer: ListPointer)
        ensures
            pointer@ == self@.pointer,
    {
        self.task_widget_state
    }

    /// The tasks and their budget.
    pub fn tasks(&self) -> (routine: &Routine)
        ensures
            routine@ == self@.routine,
    {
        &self.tasks
    }

    /// When the session began.
    pub fn get_start_time(&self) -> (t: Timestamp)
        ensures
            t == self@.start_time,
    {
        self.start_time
    }

    /// The name of the selected task, if one is selected.
    pub fn get_current_task_name(&self) -> (name: Option<&str>)
        requires
            self@.wf(),
        ensures
            name is Some == self@.selected() is Some,
            name matches Some(n) ==> n@ == self@.selected_name(),
    {
        let i = self.task_widget_state.selected();
        match self.tasks.get_nth(i) {
            Some(t) => Some(t.name.as_str()),
            None => None,
        }
    }

    /// The time left over all tasks.
    pub fn get_total_remaining(&self) -> (left: Duration)
        requires
            self@.wf(),
        ensures
            left@ == self@.routine.remaining(),
    {
        proof {
            lemma_remaining_within_duration(self.tasks@);
        }
        self.tasks.remaining()
    }

    /// The sum of the current durations of the tasks.
    pub fn get_total_duration(&self) -> (sum: Duration)
        requires
            self@.wf(),
        ensures
            sum@ == self@.routine.duration(),
    {
        self.tasks.duration()
    }

    /// The time spent on all tasks together.
    pub fn get_time_elapsed(&self) -> (sum: Duration)
        requires
            self@.wf(),
        ensures
            sum@ == self@.routine.elapsed(),
    {
        self.tasks.elapsed()
    }

    /// When the routine will be over if every task takes what is left of
    /// it: `now` plus the time left. There is no answer where that instant
    /// is out of range.
    pub fn get_projected_end_time(&self, now: Timestamp) -> (end: Option<Timestamp>)
        requires
            self@.wf(),
        ensures
            end.is_some() == (now@ + self@.routine.remaining() <= i64::MAX),
            end matches Some(t) ==> t@ == now@ + self@.routine.remaining(),
    {
        now.checked_add(self.get_total_remaining())
    }

    /// Makes the routine end at `deadline`, seen from the instant `now`, as
    /// [`Routine::set_deadline`] does.
    pub fn set_deadline(&mut self, deadline: Timestamp, now: Timestamp) -> (r: Result<
        (),
        DeadlineError,
    >)
        requires
            old(self)@.wf(),
        ensures
            final(self)@.wf(),
            r == old(self)@.routine.deadline_outcome(deadline, now),
            final(self)@ == if r is Ok {
                AppView { routine: old(self)@.routine.with_deadline(deadline, now), ..old(self)@ }
            } else {
                old(self)@
            },
    {
        let ghost before = self.tasks@;
        let r = self.tasks.set_deadline(deadline, now);
        proof {
            if r is Ok {
                lemma_resized_keeps(
                    RoutineView {
                        mode: TimeMode::FixedEnd(deadline),
                        flex_goal: (before.elapsed() + deadline@ - now@) as nat,
                        ..before
                    },
                );
                assert((RoutineView {
                    mode: TimeMode::FixedEnd(deadline),
                    flex_goal: (before.elapsed() + deadline@ - now@) as nat,
                    ..before
                }).elapsed_times() =~= before.elapsed_times());
            }
        }
        r
    }

    /// Lets `delta` pass at the instant `now`, and hands out the log entry
    /// that has to be written now, if there is one.
    ///
    /// The time counts on the selected task, which is logged, or as
    /// spilled time where no task is selected. Time that would take the
    /// time spent beyond what can be represented is not counted at all.
    pub fn tick(&mut self, delta: Duration, now: Timestamp) -> (flushed: Option<LogElement>)
        requires
            old(self)@.wf(),
        ensures
            final(self)@.wf(),
            final(self)@ == old(self)@.ticked(delta, now),
            entry_view(flushed) == old(self)@.flushed(old(self)@.tick_entry(delta, now)),
    {
        let selected = self.task_widget_state.selected();
        let counts = match selected {
            Some(_) => self.tasks.elapsed().checked_add(delta).is_some(),
            None => self.tasks.spilled_time.checked_add(delta).is_some(),
        };
        if !counts {
            return None;
        }
        proof {
            lemma_elapsed_after_elapse(self.tasks@, selected, delta@);
            if selected is Some {
                lemma_entry_within_total(self.tasks@.elapsed_times(), selected.unwrap() as int);
            }
        }
        self.tasks.elapse(selected, delta);
        match self.tasks.get_nth(selected) {
            Some(t) => {
                assert(t@ == self.tasks@.tasks[selected.unwrap() as int]);
                let entry = LogElement::elapsed(t, delta, now);
                self.logger.log(entry)
            },
            None => None,
        }
    }

    /// Ends the session, and hands out the log entry that was held back,
    /// if there is one, to be written.
    pub fn quit(&mut self) -> (flushed: Option<LogElement>)
        ensures
            final(self)@ == (AppView { should_quit: true, pending: None, ..old(self)@ }),
            entry_view(flushed) == old(self)@.pending,
    {
        let flushed = self.logger.finish();
        self.should_quit = true;
        flushed
    }

    /// Opens the line for a task to add at the end.
    pub fn append_task_start(&mut self)
        ensures
            final(self)@ == (AppView {
                menu_focus: Mode::Typing(Menu::AppendTask),
                ..old(self)@
            }),
    {
        self.menu_focus = Mode::Typing(Menu::AppendTask);
    }

    /// Opens the line for a task to add after the selected one.
    pub fn insert_task_start(&mut self)
        ensures
            final(self)@ == (AppView {
                menu_focus: Mode::Typing(Menu::InsertTask),
                ..old(self)@
            }),
    {
        self.menu_focus = Mode::Typing(Menu::InsertTask);
    }

    /// Pauses the routine: the cursor is hidden, so that time spills, and
    /// the line for a note on the pause opens.
    pub fn pause(&mut self)
        ensures
            final(self)@ == (AppView {
                pointer: ListPointerView { paused: true, ..old(self)@.pointer },
                menu_focus: Mode::Typing(Menu::Pause),
                ..old(self)@
            }),
    {
        self.task_widget_state.pause();
        self.menu_focus = Mode::Typing(Menu::Pause);
    }

    /// Adds `task` before row `row`, which lies behind the cursor, where
    /// the task can join.
    fn join(&mut self, row: usize, task: Task)
        requires
            old(self)@.wf(),
            row <= old(self)@.routine.tasks.len(),
        ensures
            final(self)@.wf(),
            final(self)@ == old(self)@.joined(row as int, task@),
    {
        let fits = self.tasks.tasks.len() < usize::MAX && match self.tasks.mode {
            TimeMode::ExpectedEnd => self.tasks.flex_goal.checked_add(
                task.original_duration,
            ).is_some(),
            TimeMode::FixedEnd(_) => true,
        } && self.tasks.elapsed().checked_add(task.elapsed).is_some();
        if fits {
            proof {
                lemma_elapsed_after_insert(self.tasks@, row as int, task@);
            }
            self.task_widget_state.append_item();
            self.tasks.insert(row, task);
        }
    }

    /// Takes the line `text` that was typed for `menu`.
    ///
    /// A line for a new task is read as [`parse_new_task`] reads it, and
    /// the task joins at the end, or after the selected task; a task that
    /// cannot join is dropped. A line for a pause ends the pause. In every
    /// case the keys go to the task list again.
    pub fn submit_typing(&mut self, menu: Menu, text: &str)
        requires
            old(self)@.wf(),
        ensures
            final(self)@.wf(),
            final(self)@ == old(self)@.submitted(menu, text@),
    {
        match menu {
            Menu::AppendTask => {
                let task = parse_new_task(text);
                let row = self.tasks.tasks.len();
                self.join(row, task);
            },
            Menu::InsertTask => {
                let task = parse_new_task(text);
                let selected = self.task_widget_state.selected();
                assert(selected matches Some(i) ==> i < self.tasks.tasks.len());
                let after = match selected {
                    Some(i) => i + 1,
                    None => 1,
                };
                let row = if after <= self.tasks.tasks.len() {
                    after
                } else {
                    self.tasks.tasks.len()
                };
                self.join(row, task);
            },
            Menu::Pause => {
                self.task_widget_state.unpause();
            },
        }
        self.cancel_typing();
    }

    /// Gives up the line that is being typed: the keys go to the task list
    /// again.
    pub fn cancel_typing(&mut self)
        ensures
            final(self)@ == (AppView { menu_focus: Mode::Navigation, ..old(self)@ }),
    {
        self.menu_focus = Mode::Navigation;
    }

    /// Shows or hides the debug panel.
    pub fn toggle_debug(&mut self)
        ensures
            final(self)@ == (AppView { debug: !old(self)@.debug, ..old(self)@ }),
    {
        self.debug = !self.debug;
    }

    /// Shows or hides the help.
    pub fn toggle_help(&mut self)
        ensures
            final(self)@ == (AppView { help_menu: !old(self)@.help_menu, ..old(self)@ }),
    {
        self.help_menu = !self.help_menu;
    }

    /// Toggles the selected task between done and open at the instant
    /// `now`, and hands out the log entry that has to be written now, if
    /// there is one.
    ///
    /// The change is logged. After a task has become done the cursor moves
    /// on to the next open task, or back to the last open one before where
    /// none follows. Without a selected task nothing happens.
    pub fn attempt_toggle(&mut self, now: Timestamp) -> (flushed: Option<LogElement>)
        requires
            old(self)@.wf(),
        ensures
            final(self)@.wf(),
            final(self)@ == old(self)@.toggle_attempted(now),
            entry_view(flushed) == old(self)@.flushed(old(self)@.toggle_entry(now)),
    {
        let i = self.task_widget_state.selected();
        proof {
            lemma_sums_after_toggle(self.tasks@, i);
        }
        match self.tasks.toggle(i) {
            Ok(CompletionStatus::Done) => {
                let flushed = match self.tasks.get_nth(i) {
                    Some(task) => {
                        assert(task@ == self.tasks@.tasks[i.unwrap() as int]);
                        let entry = LogElement::completed(task, now);
                        self.logger.log(entry)
                    },
                    None => None,
                };
                self.bouncing_next_task();
                flushed
            },
            Ok(_) => {
                match self.tasks.get_nth(i) {
                    Some(task) => {
                        assert(task@ == self.tasks@.tasks[i.unwrap() as int]);
                        let entry = LogElement::uncompleted(task, now);
                        self.logger.log(entry)
                    },
                    None => None,
                }
            },
            Err(_) => None,
        }
    }

    /// Toggles the selected task between skipped and open at the instant
    /// `now`, and hands out the log entry that has to be written now, if
    /// there is one.
    ///
    /// The change is logged. After a task has become skipped the cursor
    /// moves on as it does after a task has become done. Without a selected
    /// task, or on a task that is done, nothing happens.
    pub fn attempt_skip(&mut self, now: Timestamp) -> (flushed: Option<LogElement>)
        requires
            old(self)@.wf(),
        ensures
            final(self)@.wf(),
            final(self)@ == old(self)@.skip_attempted(now),
            entry_view(flushed) == old(self)@.flushed(old(self)@.skip_entry(now)),
    {
        let i = self.task_widget_state.selected();
        proof {
            lemma_sums_after_skip(self.tasks@, i);
        }
        match self.tasks.skip(i) {
            Ok(CompletionStatus::Skipped) => {
                let flushed = match self.tasks.get_nth(i) {
                    Some(task) => {
                        assert(task@ == self.tasks@.tasks[i.unwrap() as int]);
                        let entry = LogElement::skipped(task, now);
                        self.logger.log(entry)
                    },
                    None => None,
                };
                self.bouncing_next_task();
                flushed
            },
            Ok(_) => {
                match self.tasks.get_nth(i) {
                    Some(task) => {
                        assert(task@ == self.tasks@.tasks[i.unwrap() as int]);
                        let entry = LogElement::unskipped(task, now);
                        self.logger.log(entry)
                    },
                    None => None,
                }
            },
            Err(_) => None,
        }
    }

    /// Carries out `command` at the instant `now`, and hands out the log
    /// entry that has to be written now, if there is one. `text` is the
    /// line that has been typed, which only a submitted line reads.
    ///
    /// A key that belongs to the line being typed changes nothing here:
    /// the line is the caller's.
    pub fn perform(&mut self, command: Command, text: &str, now: Timestamp) -> (flushed: Option<
        LogElement,
    >)
        requires
            old(self)@.wf(),
        ensures
            final(self)@.wf(),
            final(self)@ == old(self)@.performed(command, text@, now),
            entry_view(flushed) == old(self)@.written(command, now),
    {
        match command {
            Command::Quit => self.quit(),
            Command::NextTask => {
                self.next_task();
                None
            },
            Command::PrevTask => {
                self.prev_task();
                None
            },
            Command::Toggle => self.attempt_toggle(now),
            Command::Skip => self.attempt_skip(now),
            Command::AppendTask => {
                self.append_task_start();
                None
            },
            Command::InsertTask => {
                self.insert_task_start();
                None
            },
            Command::ToggleHelp => {
                self.toggle_help();
                None
            },
            Command::ToggleDebug => {
                self.toggle_debug();
                None
            },
            Command::CancelTyping => {
                self.cancel_typing();
                None
            },
            Command::SubmitTyping(menu) => {
                self.submit_typing(menu, text);
                None
            },
            Command::Type => None,
            Command::Ignore => None,
        }
    }

    /// Moves the cursor one task down, if there is one.
    pub fn next_task(&mut self)
        ensures
            final(self)@ == (AppView {
                pointer: old(self)@.pointer.moved_to(old(self)@.pointer.row_below()),
                ..old(self)@
            }),
    {
        let _ = self.task_widget_state.try_next();
    }

    /// Moves the cursor one task up, if there is one.
    pub fn prev_task(&mut self)
        ensures
            final(self)@ == (AppView {
                pointer: old(self)@.pointer.moved_to(old(self)@.pointer.row_above()),
                ..old(self)@
            }),
    {
        let _ = self.task_widget_state.try_prev();
    }

    /// Moves the cursor to the next open task below, and where there is
    /// none, to the last open task above.
    fn bouncing_next_task(&mut self)
        requires
            old(self)@.pointer.length == old(self)@.routine.tasks.len(),
        ensures
            final(self)@ == (AppView {
                pointer: old(self)@.pointer.bounced(old(self)@.routine.checkboxes()),
                ..old(self)@
            }),
    {
        let selectable = self.tasks.get_checkboxes();
        match self.task_widget_state.try_next_selectable(selectable.as_slice()) {
            Ok(_) => (),
            Err(_) => {
                let _ = self.task_widget_state.try_prev_selectable(selectable.as_slice());
            },
        }
    }

    /// Moves the cursor to the next open task below, if there is one.
    pub fn next_available_task(&mut self)
        requires
            old(self)@.wf(),
        ensures
            final(self)@ == (AppView {
                pointer: old(self)@.pointer.moved_to(
                    old(self)@.pointer.selectable_below(old(self)@.routine.checkboxes()),
                ),
                ..old(self)@
            }),
    {
        let selectable = self.tasks.get_checkboxes();
        let _ = self.task_widget_state.try_next_selectable(selectable.as_slice());
    }

    /// Moves the cursor to the last open task above, if there is one.
    pub fn prev_available_task(&mut self)
        requires
            old(self)@.wf(),
        ensures
            final(self)@ == (AppView {
                pointer: old(self)@.pointer.moved_to(
                    old(self)@.pointer.selectable_above(old(self)@.routine.checkboxes()),
                ),
                ..old(self)@
            }),
    {
        let selectable = self.tasks.get_checkboxes();
        let _ = self.task_widget_state.try_prev_selectable(selectable.as_slice());
    }
}

/// What is left of the tasks never adds up to more than their durations.
proof fn lemma_remaining_within_duration(v: RoutineView)
    ensures
        v.remaining() <= v.duration(),
{
    lemma_total_le(v.remainders(), v.durations());
}

/// One entry of a sum is at most the sum.
proof fn lemma_entry_within_total(s: Seq<nat>, i: int)
    requires
        0 <= i < s.len(),
    ensures
        s[i] <= total(s),
{
    lemma_total_update(s, i, 0);
}

/// Toggling a task leaves the time spent on the tasks as it is and keeps
/// the durations within what can be represented.
proof fn lemma_sums_after_toggle(v: RoutineView, i: Option<usize>)
    requires
        v.duration() <= u64::MAX,
        v.flex_goal <= u64::MAX,
    ensures
        v.toggled(i).elapsed() == v.elapsed(),
        v.toggled(i).tasks.len() == v.tasks.len(),
        v.toggled(i).duration() <= u64::MAX,
        forall|j: int|
            0 <= j < v.tasks.len() ==> (#[trigger] v.toggled(i).tasks[j]).name == v.tasks[j].name,
{
    if v.selects(i) {
        let k = i.unwrap() as int;
        lemma_sums_after_status(v, k, CompletionStatus::NotYet);
        lemma_sums_after_status(v, k, CompletionStatus::Done);
        lemma_resized_keeps(v.with_status(k, CompletionStatus::Done));
    }
}

/// Skipping a task leaves the time spent on the tasks as it is and keeps
/// the durations within what can be represented.
proof fn lemma_sums_after_skip(v: RoutineView, i: Option<usize>)
    requires
        v.duration() <= u64::MAX,
        v.flex_goal <= u64::MAX,
    ensures
        v.skipped(i).elapsed() == v.elapsed(),
        v.skipped(i).tasks.len() == v.tasks.len(),
        v.skipped(i).duration() <= u64::MAX,
        forall|j: int|
            0 <= j < v.tasks.len() ==> (#[trigger] v.skipped(i).tasks[j]).name == v.tasks[j].name,
{
    if v.selects(i) {
        let k = i.unwrap() as int;
        lemma_sums_after_status(v, k, CompletionStatus::NotYet);
        lemma_sums_after_status(v, k, CompletionStatus::Skipped);
        lemma_resized_keeps(v.with_status(k, CompletionStatus::Skipped));
    }
}

} // verus!
