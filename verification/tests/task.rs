use accordion_task::flex::FlexItem;
use accordion_task::task::{CompletionStatus, Task};
use accordion_task::time::Duration;

#[test]
fn routine_step_time() {
    let mut task = Task::new("a", 60);
    task.elapse(Duration::new(10, 0));
    task.elapse(Duration::new(5, 0));

    assert_eq!(task.elapsed, Duration::new(15, 0));
}

#[test]
fn static_task_step_time() {
    let mut task = Task::new("a", 60);
    task.elapse(Duration::new(10, 0));
    task.elapse(Duration::new(5, 0));

    assert_eq!(task.elapsed, Duration::new(15, 0));
}

#[test]
fn new_task_is_open_and_unspent() {
    let task = Task::new("brush teeth", 90);
    assert_eq!(task.name, "brush teeth");
    assert_eq!(task.elapsed, Duration::zero());
    assert_eq!(task.original_duration, Duration::from_nanos(90_000_000_000));
    assert_eq!(task.duration, Duration::from_nanos(90_000_000_000));
    assert_eq!(task.status, CompletionStatus::NotYet);
}

#[test]
fn remaining_is_what_is_left() {
    let mut task = Task::new("a", 60);
    task.elapse(Duration::new(10, 500));
    assert_eq!(task.remaining(), Duration::new(49, 999_999_500));
}

#[test]
fn remaining_is_zero_after_overrun() {
    let mut task = Task::new("a", 60);
    task.elapse(Duration::new(60, 0));
    assert_eq!(task.remaining(), Duration::zero());
    task.elapse(Duration::new(0, 1));
    assert_eq!(task.remaining(), Duration::zero());
}

#[test]
fn open_task_may_grow_back_to_its_plan() {
    let mut task = Task::new("a", 60);
    task.elapse(Duration::new(10, 0));
    assert_eq!(task.min_size(), Duration::new(10, 0));
    assert_eq!(task.max_size(), Duration::new(60, 0));
    task.elapse(Duration::new(55, 0));
    assert_eq!(task.min_size(), Duration::new(65, 0));
    assert_eq!(task.max_size(), Duration::new(65, 0));
}

#[test]
fn closed_task_is_frozen_at_what_it_took() {
    let mut task = Task::new("a", 60);
    task.elapse(Duration::new(10, 0));
    task.status = CompletionStatus::Done;
    assert_eq!(task.min_size(), Duration::new(10, 0));
    assert_eq!(task.max_size(), Duration::new(10, 0));
    task.status = CompletionStatus::Skipped;
    assert_eq!(task.max_size(), Duration::new(10, 0));
}
