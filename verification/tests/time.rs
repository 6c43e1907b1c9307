use accordion_task::time::{Duration, Timestamp, MAX_SECS, NANOS_PER_SEC};

#[test]
fn duration_from_seconds_and_nanoseconds() {
    assert_eq!(Duration::new(2, 5).as_nanos(), 2_000_000_005);
    assert_eq!(Duration::new(0, 1_500_000_000).as_nanos(), 1_500_000_000);
    assert_eq!(Duration::from_secs(3).as_nanos(), 3 * NANOS_PER_SEC);
    assert_eq!(Duration::zero().as_nanos(), 0);
}

#[test]
fn duration_parts() {
    let d = Duration::from_nanos(61_000_000_007);
    assert_eq!(d.as_secs(), 61);
    assert_eq!(d.subsec_nanos(), 7);
}

#[test]
fn checked_new_at_the_limit() {
    assert_eq!(Duration::checked_new(MAX_SECS, 709_551_615), Some(Duration::from_nanos(u64::MAX)));
    assert_eq!(Duration::checked_new(MAX_SECS, 709_551_616), None);
    assert_eq!(Duration::checked_new(MAX_SECS + 1, 0), None);
    assert_eq!(Duration::checked_new(u64::MAX, 0), None);
    assert_eq!(Duration::checked_new(7, 8), Some(Duration::new(7, 8)));
}

#[test]
fn checked_add_and_saturating_sub() {
    let a = Duration::from_nanos(10);
    let b = Duration::from_nanos(4);
    assert_eq!(a.checked_add(b), Some(Duration::from_nanos(14)));
    assert_eq!(Duration::from_nanos(u64::MAX).checked_add(Duration::from_nanos(1)), None);
    assert_eq!(a.saturating_sub(b), Duration::from_nanos(6));
    assert_eq!(b.saturating_sub(a), Duration::zero());
}

#[test]
fn time_between_instants() {
    let early = Timestamp::from_nanos(-5);
    let late = Timestamp::from_nanos(20);
    assert_eq!(late.duration_since(early), Some(Duration::from_nanos(25)));
    assert_eq!(early.duration_since(late), None);
    assert_eq!(late.duration_since(late), Some(Duration::zero()));
    assert_eq!(
        Timestamp::from_nanos(i64::MAX).duration_since(Timestamp::from_nanos(i64::MIN)),
        Some(Duration::from_nanos(u64::MAX))
    );
}

#[test]
fn instant_plus_span() {
    let t = Timestamp::from_nanos(-5);
    assert_eq!(t.checked_add(Duration::from_nanos(7)), Some(Timestamp::from_nanos(2)));
    assert_eq!(Timestamp::from_nanos(i64::MAX).checked_add(Duration::from_nanos(1)), None);
    assert_eq!(
        Timestamp::from_nanos(i64::MIN).checked_add(Duration::from_nanos(u64::MAX)),
        Some(Timestamp::from_nanos(i64::MAX))
    );
    assert_eq!(t.as_nanos(), -5);
}
