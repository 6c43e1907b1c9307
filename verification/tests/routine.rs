use accordion_task::routine::{DeadlineError, Routine, TimeMode, ToggleFailure};
use accordion_task::task::{CompletionStatus, Task};
use accordion_task::time::{Duration, Timestamp};

fn routine_of(plan: &[(&str, u64)]) -> Routine {
    let mut list = Routine::default();
    for (name, secs) in plan {
        list.push(Task::new(name, *secs));
    }
    list
}

fn durations(list: &Routine) -> Vec<u64> {
    list.tasks.iter().map(|t| t.duration.as_nanos()).collect()
}

const SEC: u64 = 1_000_000_000;

#[test]
fn routine_dont_shrink_ahead_of_schedule() {
    // tasks grow back to their original size if possible
    // when a task is completed ahead of schedule
    let mut list = Routine::default();
    list.push(Task::new("a", 120));
    list.push(Task::new("b", 80));
    list.push(Task::new("c", 60));

    list.elapse(Some(0), Duration::new(10, 0));
    list.toggle(Some(0)).unwrap();
    list.elapse(Some(1), Duration::new(100, 0));
    list.toggle(Some(1)).unwrap();

    assert_eq!(list.tasks[2].duration, Duration::new(60, 0));
}

#[test]
fn routine_grow_back() {
    // tasks grow back to their original size if possible
    // when a task is completed ahead of schedule
    let mut list = Routine::default();
    list.push(Task::new("a", 120));
    list.push(Task::new("b", 80));
    list.push(Task::new("c", 60));

    list.elapse(Some(0), Duration::new(140, 0));
    list.toggle(Some(0)).unwrap();
    list.toggle(Some(1)).unwrap();

    assert_eq!(list.tasks[2].duration, Duration::new(60, 0));
}

#[test]
fn routine_steady_list_long() {
    let mut list = Routine::default();
    list.push(Task::new("a", 120));
    list.push(Task::new("b", 80));
    list.push(Task::new("c", 10));
    list.push(Task::new("d", 60));
    let active = Some(0);

    let old_duration = list.duration();

    list.elapse(active, Duration::new(121, 0));
    list.elapse(active, Duration::new(10, 0));

    assert_eq!(list.duration(), old_duration);
}

#[test]
fn routine_steady_list_twice() {
    let mut list = Routine::default();
    list.push(Task::new("a", 120));
    list.push(Task::new("b", 60));
    let active = Some(0);

    let old_duration = list.duration();

    list.elapse(active, Duration::new(121, 0));
    list.elapse(active, Duration::new(10, 0));

    assert_eq!(list.duration(), old_duration);
}

#[test]
fn routine_duration_grows() {
    let mut list = Routine::default();
    list.push(Task::new("a", 120));
    list.push(Task::new("b", 60));
    let active = Some(0);

    list.elapse(active, Duration::new(121, 0));

    assert_eq!(list.tasks[0].duration, list.tasks[0].elapsed);
}

#[test]
fn routine_steady_list() {
    let mut list = Routine::default();
    list.push(Task::new("a", 120));
    list.push(Task::new("b", 60));
    let active = Some(0);

    let old_duration = list.duration();

    list.elapse(active, Duration::new(121, 0));

    assert_eq!(list.duration(), old_duration);
}

#[test]
fn routine_contract_task() {
    let mut list = Routine::default();
    list.push(Task::new("a", 120));
    list.push(Task::new("b", 60));
    let active = Some(0);

    list.elapse(active, Duration::new(121, 0));

    assert_eq!(list.tasks[1].duration, Duration::new(59, 0));
}

#[test]
fn routine_no_overflow() {
    let mut list = Routine::default();
    list.push(Task::new("a", 120));
    list.push(Task::new("b", 60));
    let active = Some(0);

    list.elapse(active, Duration::new(121, 0));

    assert_eq!(list.tasks[0].remaining(), Duration::zero());
}

#[test]
fn routine_step_time_list() {
    let mut list = Routine::default();
    list.push(Task::new("a", 120));
    list.push(Task::new("b", 60));
    let active = Some(0);

    list.elapse(active, Duration::new(1, 0));

    assert_eq!(list.tasks[0].elapsed, Duration::new(1, 0));
}

#[test]
fn routine_total_time_elapsed() {
    let mut list = Routine::default();
    list.push(Task::new("a", 120));
    list.push(Task::new("b", 60));

    list.tasks[0].elapse(Duration::new(10, 0));
    list.tasks[1].elapse(Duration::new(70, 0));

    assert_eq!(list.elapsed(), Duration::new(80, 0))
}

#[test]
fn routine_total_duration() {
    let mut list = Routine::default();
    list.push(Task::new("a", 120));
    list.push(Task::new("b", 60));

    assert_eq!(list.duration(), Duration::new(180, 0))
}

#[test]
fn budget_is_conserved_while_nothing_happens() {
    let mut list = Routine::default();
    assert_eq!(list.duration(), Duration::zero());
    list.push(Task::new("a", 120));
    assert_eq!(list.duration(), list.total_originals());
    list.push(Task::new("b", 7));
    assert_eq!(list.duration(), list.total_originals());
    list.insert(1, Task::new("c", 33));
    assert_eq!(list.duration(), list.total_originals());
    list.insert(0, Task::new("d", 0));
    assert_eq!(list.duration(), Duration::new(160, 0));
    assert_eq!(durations(&list), vec![0, 120 * SEC, 33 * SEC, 7 * SEC]);
    assert_eq!(list.flex_goal, Duration::new(160, 0));
}

#[test]
fn with_tasks_takes_the_plan_as_goal() {
    let list = Routine::with_tasks(vec![Task::new("a", 120), Task::new("b", 60)]);
    assert_eq!(list.flex_goal, Duration::new(180, 0));
    assert_eq!(list.mode, TimeMode::ExpectedEnd);
    assert_eq!(list.spilled_time, Duration::zero());
    assert_eq!(list.duration(), Duration::new(180, 0));
    assert_eq!(list.total_originals(), Duration::new(180, 0));
    assert_eq!(list.tasks.len(), 2);
    assert_eq!(list.tasks[1].name, "b");
}

#[test]
fn steady_state_keeps_every_duration() {
    let mut list = routine_of(&[("a", 120), ("b", 60)]);
    list.elapse(Some(0), Duration::new(1, 0));
    assert_eq!(list.tasks[0].duration, Duration::new(120, 0));
    assert_eq!(list.tasks[1].duration, Duration::new(60, 0));
    list.elapse(Some(0), Duration::new(119, 0));
    assert_eq!(durations(&list), vec![120 * SEC, 60 * SEC]);
}

#[test]
fn overrun_is_taken_from_the_others() {
    let mut list = routine_of(&[("a", 120), ("b", 60)]);
    list.elapse(Some(0), Duration::new(121, 0));
    assert_eq!(list.tasks[0].duration, Duration::new(121, 0));
    assert_eq!(list.tasks[0].elapsed, Duration::new(121, 0));
    assert_eq!(list.tasks[1].duration, Duration::new(59, 0));
    assert_eq!(list.tasks[0].remaining(), Duration::zero());
    assert_eq!(list.remaining(), Duration::new(59, 0));
}

#[test]
fn durations_never_fall_under_the_time_spent() {
    let mut list = routine_of(&[("a", 10), ("b", 20), ("c", 30)]);
    list.elapse(Some(0), Duration::new(25, 0));
    list.elapse(Some(1), Duration::new(7, 0));
    for task in list.tasks.iter() {
        assert!(task.duration.as_nanos() >= task.elapsed.as_nanos());
    }
    assert_eq!(list.duration(), Duration::new(60, 0));
    // a: 25 rigid; b: 7..20; c: 0..30; room 28 of a slack of 43
    assert_eq!(durations(&list), vec![25 * SEC, 15_465_116_279, 19_534_883_721]);
}

#[test]
fn infeasible_budget_zeroes_every_duration() {
    let mut list = routine_of(&[("a", 10), ("b", 20)]);
    list.elapse(Some(0), Duration::new(31, 0));
    assert_eq!(durations(&list), vec![0, 0]);
    assert_eq!(list.duration(), Duration::zero());
    assert_eq!(list.remaining(), Duration::zero());
    assert_eq!(list.tasks[0].remaining(), Duration::zero());
    assert_eq!(list.elapsed(), Duration::new(31, 0));
}

#[test]
fn budget_that_is_just_used_up_is_feasible() {
    let mut list = routine_of(&[("a", 10), ("b", 20)]);
    list.elapse(Some(0), Duration::new(30, 0));
    assert_eq!(durations(&list), vec![30 * SEC, 0]);
}

#[test]
fn spilled_time_shrinks_every_budget() {
    let mut list = routine_of(&[("a", 120), ("b", 60)]);
    list.elapse(None, Duration::new(90, 0));
    assert_eq!(list.spilled_time, Duration::new(90, 0));
    assert_eq!(list.flex_goal, Duration::new(180, 0));
    assert_eq!(durations(&list), vec![60 * SEC, 30 * SEC]);
    assert_eq!(list.elapsed(), Duration::zero());
    list.elapse(None, Duration::new(90, 0));
    assert_eq!(durations(&list), vec![0, 0]);
    list.elapse(None, Duration::new(1, 0));
    assert_eq!(durations(&list), vec![0, 0]);
    assert_eq!(list.spilled_time, Duration::new(181, 0));
}

#[test]
fn toggle_transitions() {
    let mut list = routine_of(&[("a", 120), ("b", 60)]);
    assert_eq!(list.toggle(Some(0)), Ok(CompletionStatus::Done));
    assert_eq!(list.tasks[0].status, CompletionStatus::Done);
    assert_eq!(list.toggle(Some(0)), Ok(CompletionStatus::NotYet));
    assert_eq!(list.tasks[0].status, CompletionStatus::NotYet);
    assert_eq!(list.skip(Some(0)), Ok(CompletionStatus::Skipped));
    assert_eq!(list.toggle(Some(0)), Ok(CompletionStatus::Done));
    assert_eq!(list.tasks[0].status, CompletionStatus::Done);
    assert_eq!(list.tasks[1].status, CompletionStatus::NotYet);
}

#[test]
fn skip_transitions() {
    let mut list = routine_of(&[("a", 120), ("b", 60)]);
    assert_eq!(list.skip(Some(1)), Ok(CompletionStatus::Skipped));
    assert_eq!(list.tasks[1].status, CompletionStatus::Skipped);
    assert_eq!(list.skip(Some(1)), Ok(CompletionStatus::NotYet));
    assert_eq!(list.tasks[1].status, CompletionStatus::NotYet);
    assert_eq!(list.toggle(Some(1)), Ok(CompletionStatus::Done));
    assert_eq!(list.skip(Some(1)), Err(ToggleFailure::NoDoneToSkip));
    assert_eq!(list.tasks[1].status, CompletionStatus::Done);
}

#[test]
fn toggle_and_skip_without_a_task() {
    let mut list = routine_of(&[("a", 120), ("b", 60)]);
    assert_eq!(list.toggle(None), Err(ToggleFailure::NoSelection));
    assert_eq!(list.toggle(Some(2)), Err(ToggleFailure::NoSelection));
    assert_eq!(list.skip(None), Err(ToggleFailure::NoSelection));
    assert_eq!(list.skip(Some(7)), Err(ToggleFailure::NoSelection));
    assert_eq!(durations(&list), vec![120 * SEC, 60 * SEC]);
    let mut empty = Routine::default();
    assert_eq!(empty.toggle(Some(0)), Err(ToggleFailure::NoSelection));
    assert_eq!(empty.skip(Some(0)), Err(ToggleFailure::NoSelection));
}

#[test]
fn closing_a_task_early_frees_its_time() {
    let mut list = routine_of(&[("a", 100), ("b", 100)]);
    list.elapse(None, Duration::new(50, 0));
    assert_eq!(durations(&list), vec![75 * SEC, 75 * SEC]);
    list.elapse(Some(0), Duration::new(10, 0));
    list.toggle(Some(0)).unwrap();
    assert_eq!(durations(&list), vec![10 * SEC, 100 * SEC]);
}

#[test]
fn reopening_a_task_leaves_the_durations() {
    let mut list = routine_of(&[("a", 100), ("b", 100)]);
    list.elapse(None, Duration::new(50, 0));
    list.elapse(Some(0), Duration::new(10, 0));
    list.toggle(Some(0)).unwrap();
    list.toggle(Some(0)).unwrap();
    assert_eq!(durations(&list), vec![10 * SEC, 100 * SEC]);
    list.elapse(Some(1), Duration::new(0, 0));
    // a: 10..100, b: 0..100; room 140 of a slack of 190
    assert_eq!(durations(&list), vec![76_315_789_473, 73_684_210_527]);
}

#[test]
fn checkboxes_mark_the_open_tasks() {
    let mut list = routine_of(&[("a", 1), ("b", 2), ("c", 3)]);
    assert_eq!(list.get_checkboxes(), vec![true, true, true]);
    list.toggle(Some(1)).unwrap();
    list.skip(Some(2)).unwrap();
    assert_eq!(list.get_checkboxes(), vec![true, false, false]);
    assert_eq!(Routine::default().get_checkboxes(), Vec::<bool>::new());
}

#[test]
fn get_nth_finds_tasks_in_range() {
    let list = routine_of(&[("a", 1), ("b", 2)]);
    assert_eq!(list.get_nth(Some(1)).map(|t| t.name.as_str()), Some("b"));
    assert!(list.get_nth(Some(2)).is_none());
    assert!(list.get_nth(None).is_none());
}

#[test]
fn aggregates() {
    let mut list = routine_of(&[("a", 10), ("b", 20), ("c", 30)]);
    list.elapse(Some(0), Duration::new(4, 0));
    list.toggle(Some(0)).unwrap();
    list.skip(Some(2)).unwrap();
    assert_eq!(list.total_originals(), Duration::new(60, 0));
    assert_eq!(list.completed_originals(), Duration::new(40, 0));
    assert_eq!(list.elapsed(), Duration::new(4, 0));
    assert_eq!(durations(&list), vec![4 * SEC, 20 * SEC, 0]);
    assert_eq!(list.duration(), Duration::new(24, 0));
    assert_eq!(list.remaining(), Duration::new(20, 0));
}

#[test]
fn deadline_sets_the_goal() {
    let mut list = routine_of(&[("a", 120), ("b", 60)]);
    list.elapse(Some(0), Duration::new(20, 0));
    let now = Timestamp::from_nanos(1_000 * SEC as i64);
    let deadline = Timestamp::from_nanos(1_100 * SEC as i64);
    assert_eq!(list.set_deadline(deadline, now), Ok(()));
    assert_eq!(list.mode, TimeMode::FixedEnd(deadline));
    assert_eq!(list.flex_goal, Duration::new(120, 0));
    // a: 20..120, b: 0..60; room 100 of a slack of 160
    assert_eq!(durations(&list), vec![82_500_000_000, 37_500_000_000]);
}

#[test]
fn deadline_in_the_past_is_refused() {
    let mut list = routine_of(&[("a", 120), ("b", 60)]);
    let now = Timestamp::from_nanos(1_000);
    let deadline = Timestamp::from_nanos(999);
    assert_eq!(list.set_deadline(deadline, now), Err(DeadlineError::Passed));
    assert_eq!(list.mode, TimeMode::ExpectedEnd);
    assert_eq!(list.flex_goal, Duration::new(180, 0));
    assert_eq!(durations(&list), vec![120 * SEC, 60 * SEC]);
}

#[test]
fn deadline_now_leaves_no_time() {
    let mut list = routine_of(&[("a", 120), ("b", 60)]);
    list.elapse(Some(0), Duration::new(20, 0));
    let now = Timestamp::from_nanos(1_000);
    assert_eq!(list.set_deadline(now, now), Ok(()));
    assert_eq!(list.flex_goal, Duration::new(20, 0));
    assert_eq!(durations(&list), vec![20 * SEC, 0]);
}

#[test]
fn deadline_too_far_is_refused() {
    let mut list = routine_of(&[("a", 120)]);
    list.elapse(Some(0), Duration::new(1, 0));
    let now = Timestamp::from_nanos(i64::MIN);
    let deadline = Timestamp::from_nanos(i64::MAX);
    assert_eq!(list.set_deadline(deadline, now), Err(DeadlineError::TooFar));
    assert_eq!(list.mode, TimeMode::ExpectedEnd);
    assert_eq!(list.flex_goal, Duration::new(120, 0));
}

#[test]
fn task_added_under_a_deadline_borrows_from_the_others() {
    let mut list = routine_of(&[("a", 120), ("b", 60)]);
    let now = Timestamp::from_nanos(0);
    let deadline = Timestamp::from_nanos(180 * SEC as i64);
    list.set_deadline(deadline, now).unwrap();
    list.push(Task::new("c", 180));
    assert_eq!(list.flex_goal, Duration::new(180, 0));
    assert_eq!(durations(&list), vec![60 * SEC, 30 * SEC, 90 * SEC]);
    list.insert(0, Task::new("d", 360));
    assert_eq!(list.flex_goal, Duration::new(180, 0));
    assert_eq!(durations(&list), vec![90 * SEC, 30 * SEC, 15 * SEC, 45 * SEC]);
    assert_eq!(list.tasks[0].name, "d");
}

#[test]
fn sync_goal_follows_the_clock() {
    let mut list = routine_of(&[("a", 120), ("b", 60)]);
    assert_eq!(list.sync_goal(Timestamp::from_nanos(5)), Ok(()));
    assert_eq!(list.flex_goal, Duration::new(180, 0));
    let deadline = Timestamp::from_nanos(100 * SEC as i64);
    list.set_deadline(deadline, Timestamp::from_nanos(0)).unwrap();
    assert_eq!(list.flex_goal, Duration::new(100, 0));
    list.elapse(Some(0), Duration::new(30, 0));
    assert_eq!(list.sync_goal(Timestamp::from_nanos(40 * SEC as i64)), Ok(()));
    assert_eq!(list.flex_goal, Duration::new(90, 0));
    assert_eq!(
        list.sync_goal(Timestamp::from_nanos(100 * SEC as i64 + 1)),
        Err(DeadlineError::Passed)
    );
    assert_eq!(list.flex_goal, Duration::new(90, 0));
    assert_eq!(list.mode, TimeMode::FixedEnd(deadline));
}

#[test]
fn empty_routine() {
    let mut list = Routine::default();
    list.elapse(None, Duration::new(3, 0));
    assert_eq!(list.duration(), Duration::zero());
    assert_eq!(list.elapsed(), Duration::zero());
    assert_eq!(list.remaining(), Duration::zero());
    assert_eq!(list.total_originals(), Duration::zero());
    assert_eq!(list.completed_originals(), Duration::zero());
    assert_eq!(list.set_deadline(Timestamp::from_nanos(9), Timestamp::from_nanos(4)), Ok(()));
    assert_eq!(list.flex_goal, Duration::from_nanos(5));
}

#[test]
fn all_skipped_routine() {
    let mut list = routine_of(&[("a", 10), ("b", 20)]);
    list.skip(Some(0)).unwrap();
    list.skip(Some(1)).unwrap();
    assert_eq!(durations(&list), vec![0, 0]);
    assert_eq!(list.remaining(), Duration::zero());
    assert_eq!(list.get_checkboxes(), vec![false, false]);
}
