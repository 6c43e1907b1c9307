use accordion_task::logging::{LogElement, LogEvent, RoutineLogger};
use accordion_task::task::Task;
use accordion_task::time::{Duration, Timestamp};

fn at(secs: i64) -> Timestamp {
    Timestamp::from_nanos(secs * 1_000_000_000)
}

#[test]
fn api() {
    let task = Task::new("test", 120);
    let time = at(1431648000);
    let mut logger = RoutineLogger::new();

    let log = LogElement::completed(&task, time);
    assert!(logger.log(log).is_none());
}

#[test]
fn log_coalescing() {
    let task = Task::new("brush teeth", 120);
    let mut logger = RoutineLogger::new();
    assert!(logger.log(LogElement::elapsed(&task, Duration::new(10, 0), at(100))).is_none());
    assert!(logger.log(LogElement::elapsed(&task, Duration::new(5, 0), at(110))).is_none());

    let flushed = logger.log(LogElement::completed(&task, at(115))).expect("an entry to write");
    assert_eq!(flushed.task_name(), "brush teeth");
    assert_eq!(flushed.event(), LogEvent::Elapsed(Duration::new(15, 0)));
    assert_eq!(flushed.time(), at(100));

    let last = logger.finish().expect("an entry to write");
    assert_eq!(last.task_name(), "brush teeth");
    assert_eq!(last.event(), LogEvent::Complete(true));
    assert_eq!(last.time(), at(115));
    assert!(logger.finish().is_none());
}

#[test]
fn interleaved_complete_flushes_elapsed_unmodified() {
    let task = Task::new("brush teeth", 120);
    let mut logger = RoutineLogger::new();
    assert!(logger.log(LogElement::elapsed(&task, Duration::new(10, 0), at(1))).is_none());
    let first = logger.log(LogElement::completed(&task, at(2))).unwrap();
    assert_eq!(first.event(), LogEvent::Elapsed(Duration::new(10, 0)));
    assert_eq!(first.time(), at(1));
    let second = logger.log(LogElement::elapsed(&task, Duration::new(5, 0), at(3))).unwrap();
    assert_eq!(second.event(), LogEvent::Complete(true));
    let third = logger.finish().unwrap();
    assert_eq!(third.event(), LogEvent::Elapsed(Duration::new(5, 0)));
    assert_eq!(third.time(), at(3));
}

#[test]
fn combine_merges_elapsed_time_on_one_task() {
    let task = Task::new("a", 60);
    let first = LogElement::elapsed(&task, Duration::new(10, 0), at(7));
    let next = LogElement::elapsed(&task, Duration::new(5, 500), at(9));
    let (merged, rest) = first.combine(next);
    assert!(rest.is_none());
    assert_eq!(merged.event(), LogEvent::Elapsed(Duration::new(15, 500)));
    assert_eq!(merged.time(), at(7));
    assert_eq!(merged.task_name(), "a");
}

#[test]
fn combine_keeps_other_pairs_apart() {
    let a = Task::new("a", 60);
    let b = Task::new("b", 60);

    let (first, rest) = LogElement::elapsed(&a, Duration::new(1, 0), at(1))
        .combine(LogElement::elapsed(&b, Duration::new(2, 0), at(2)));
    assert_eq!(first.task_name(), "a");
    assert_eq!(first.event(), LogEvent::Elapsed(Duration::new(1, 0)));
    let rest = rest.unwrap();
    assert_eq!(rest.task_name(), "b");
    assert_eq!(rest.event(), LogEvent::Elapsed(Duration::new(2, 0)));
    assert_eq!(rest.time(), at(2));

    let (first, rest) =
        LogElement::completed(&a, at(1)).combine(LogElement::completed(&a, at(2)));
    assert_eq!(first.time(), at(1));
    assert_eq!(rest.unwrap().time(), at(2));

    let (first, rest) = LogElement::skipped(&a, at(1))
        .combine(LogElement::elapsed(&a, Duration::new(2, 0), at(2)));
    assert_eq!(first.event(), LogEvent::Skip(true));
    assert_eq!(rest.unwrap().event(), LogEvent::Elapsed(Duration::new(2, 0)));

    let (first, rest) = LogElement::elapsed(&a, Duration::new(2, 0), at(1))
        .combine(LogElement::unskipped(&a, at(2)));
    assert_eq!(first.event(), LogEvent::Elapsed(Duration::new(2, 0)));
    assert_eq!(rest.unwrap().event(), LogEvent::Skip(false));
}

#[test]
fn combine_does_not_merge_past_the_longest_span() {
    let a = Task::new("a", 60);
    let (first, rest) = LogElement::elapsed(&a, Duration::from_nanos(u64::MAX), at(1))
        .combine(LogElement::elapsed(&a, Duration::from_nanos(1), at(2)));
    assert_eq!(first.event(), LogEvent::Elapsed(Duration::from_nanos(u64::MAX)));
    assert_eq!(rest.unwrap().event(), LogEvent::Elapsed(Duration::from_nanos(1)));
}

#[test]
fn events_as_they_read() {
    let a = Task::new("a", 60);
    assert_eq!(LogElement::completed(&a, at(0)).message(), "completed");
    assert_eq!(LogElement::uncompleted(&a, at(0)).message(), "uncompleted");
    assert_eq!(LogElement::skipped(&a, at(0)).message(), "skipped");
    assert_eq!(LogElement::unskipped(&a, at(0)).message(), "unskipped");
    assert_eq!(LogElement::elapsed(&a, Duration::new(150, 0), at(0)).message(), "2m 30s elapsed");
    assert_eq!(LogElement::uncompleted(&a, at(0)).event(), LogEvent::Complete(false));
}

#[test]
fn log_line() {
    let task = Task::new("brush teeth", 120);
    let entry = LogElement::elapsed(&task, Duration::new(150, 0), at(0));
    assert_eq!(entry.line("19:36:00"), "19:36:00 \tbrush teeth \t2m 30s elapsed");
    let entry = LogElement::completed(&task, at(0));
    assert_eq!(entry.line("19:38:30"), "19:38:30 \tbrush teeth \tcompleted");
}
