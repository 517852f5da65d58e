use punch_clock::{Duration, Event, Instant, Sheet, SheetError, SheetStatus};

const T0: i64 = 1_583_020_800_000_000;

fn at(micros: i64) -> Instant {
    Instant::from_micros(micros)
}

fn hours(n: i64) -> i64 {
    n * 3_600_000_000
}

fn minutes(n: i64) -> i64 {
    n * 60_000_000
}

#[test]
fn empty_sheet_has_empty_status_and_cannot_punch_out() {
    let mut sheet = Sheet::default();
    assert_eq!(sheet.status(), SheetStatus::Empty);
    assert!(matches!(sheet.punch_out_at(at(T0)), Err(SheetError::NoPunches)));
    assert!(sheet.events.is_empty());
}

#[test]
fn second_punch_in_fails_with_original_start() {
    let mut sheet = Sheet::default();
    assert_eq!(sheet.punch_in_at(at(T0)).unwrap(), at(T0));
    assert_eq!(sheet.status(), SheetStatus::PunchedIn(at(T0)));
    let before = sheet.events.clone();
    match sheet.punch_in_at(at(T0 + hours(1))) {
        Err(SheetError::PunchedIn(since)) => assert_eq!(since, at(T0)),
        other => panic!("unexpected result {:?}", other),
    }
    assert_eq!(sheet.events, before);
}

#[test]
fn closed_event_is_counted_and_clamped() {
    let mut sheet = Sheet::default();
    let t1 = T0 + hours(2);
    sheet.punch_in_at(at(T0)).unwrap();
    assert_eq!(sheet.punch_out_at(at(t1)).unwrap(), at(t1));
    let now = at(t1 + hours(5));
    assert_eq!(sheet.count_range_at(at(T0), at(t1), now), Duration::hours(2));
    assert_eq!(
        sheet.count_range_at(at(T0 - hours(1)), at(T0 + hours(1)), now),
        Duration::hours(1)
    );
    assert_eq!(sheet.count_range_at(at(t1), at(t1 + hours(1)), now), Duration::zero());
}

#[test]
fn open_event_runs_until_now() {
    let mut sheet = Sheet::default();
    sheet.punch_in_at(at(T0)).unwrap();
    let now = at(T0 + minutes(30));
    assert_eq!(
        sheet.count_range_at(at(T0), at(T0 + hours(1)), now),
        Duration::minutes(30)
    );
}

#[test]
fn status_after_punch_in_and_out() {
    let mut sheet = Sheet::default();
    sheet.punch_in_at(at(T0)).unwrap();
    assert_eq!(sheet.status(), SheetStatus::PunchedIn(at(T0)));
    sheet.punch_out_at(at(T0 + minutes(10))).unwrap();
    assert_eq!(sheet.status(), SheetStatus::PunchedOut(at(T0 + minutes(10))));
    sheet.punch_in_at(at(T0 + minutes(20))).unwrap();
    assert_eq!(sheet.status(), SheetStatus::PunchedIn(at(T0 + minutes(20))));
    assert_eq!(sheet.events.len(), 2);
}

#[test]
fn punch_out_twice_fails_with_last_stop() {
    let mut sheet = Sheet::default();
    sheet.punch_in_at(at(T0)).unwrap();
    sheet.punch_out_at(at(T0 + hours(1))).unwrap();
    let before = sheet.events.clone();
    match sheet.punch_out_at(at(T0 + hours(2))) {
        Err(SheetError::PunchedOut(since)) => assert_eq!(since, at(T0 + hours(1))),
        other => panic!("unexpected result {:?}", other),
    }
    assert_eq!(sheet.events, before);
}

#[test]
fn punch_out_closes_last_event_in_place() {
    let mut sheet = Sheet::default();
    sheet.punch_in_at(at(T0)).unwrap();
    sheet.punch_out_at(at(T0 + hours(1))).unwrap();
    assert_eq!(
        sheet.events,
        vec![Event { start: at(T0), stop: Some(at(T0 + hours(1))) }]
    );
}

#[test]
fn new_event_is_open() {
    let e = Event::new(at(T0));
    assert_eq!(e.start, at(T0));
    assert_eq!(e.stop, None);
}

#[test]
fn out_of_order_punches_are_accepted() {
    let mut sheet = Sheet::default();
    sheet.punch_in_at(at(T0)).unwrap();
    sheet.punch_out_at(at(T0 + hours(1))).unwrap();
    assert_eq!(sheet.punch_in_at(at(T0 - hours(3))).unwrap(), at(T0 - hours(3)));
    assert_eq!(sheet.status(), SheetStatus::PunchedIn(at(T0 - hours(3))));
}

#[test]
fn count_range_of_empty_sheet_is_zero() {
    let sheet = Sheet::default();
    assert_eq!(sheet.count_range_at(at(0), at(T0), at(T0)), Duration::zero());
}

#[test]
fn count_range_sums_several_events() {
    let mut sheet = Sheet::default();
    sheet.punch_in_at(at(T0)).unwrap();
    sheet.punch_out_at(at(T0 + hours(1))).unwrap();
    sheet.punch_in_at(at(T0 + hours(2))).unwrap();
    sheet.punch_out_at(at(T0 + hours(4))).unwrap();
    sheet.punch_in_at(at(T0 + hours(5))).unwrap();
    let now = at(T0 + hours(5) + minutes(15));
    let whole = sheet.count_range_at(at(T0), at(T0 + hours(6)), now);
    assert_eq!(whole, Duration { micros: (hours(3) + minutes(15)) as i128 });
    let part = sheet.count_range_at(at(T0 + minutes(30)), at(T0 + hours(3)), now);
    assert_eq!(part, Duration { micros: (minutes(30) + hours(1)) as i128 });
}

#[test]
fn count_range_grows_with_the_range() {
    let mut sheet = Sheet::default();
    sheet.punch_in_at(at(T0)).unwrap();
    sheet.punch_out_at(at(T0 + hours(2))).unwrap();
    let now = at(T0 + hours(9));
    let small = sheet.count_range_at(at(T0 + minutes(30)), at(T0 + hours(1)), now);
    let later_end = sheet.count_range_at(at(T0 + minutes(30)), at(T0 + hours(3)), now);
    let earlier_begin = sheet.count_range_at(at(T0 - hours(1)), at(T0 + hours(3)), now);
    assert_eq!(small, Duration::minutes(30));
    assert_eq!(later_end, Duration::minutes(90));
    assert_eq!(earlier_begin, Duration::hours(2));
}

#[test]
fn count_range_disjoint_is_zero() {
    let mut sheet = Sheet::default();
    sheet.punch_in_at(at(T0)).unwrap();
    sheet.punch_out_at(at(T0 + hours(1))).unwrap();
    sheet.punch_in_at(at(T0 + hours(5))).unwrap();
    let now = at(T0 + hours(6));
    assert_eq!(
        sheet.count_range_at(at(T0 + hours(2)), at(T0 + hours(4)), now),
        Duration::zero()
    );
    assert_eq!(
        sheet.count_range_at(at(T0 + hours(7)), at(T0 + hours(8)), now),
        Duration::zero()
    );
}

#[test]
fn punch_in_and_out_use_the_clock() {
    let mut sheet = Sheet::default();
    let start = sheet.punch_in().unwrap();
    assert!(start.micros > T0);
    assert_eq!(sheet.status(), SheetStatus::PunchedIn(start));
    let stop = sheet.punch_out().unwrap();
    assert!(stop.micros >= start.micros);
    assert_eq!(sheet.status(), SheetStatus::PunchedOut(stop));
    assert!(matches!(sheet.punch_out(), Err(SheetError::PunchedOut(s)) if s == stop));
}

#[test]
fn count_range_counts_open_event_to_the_clock() {
    let mut sheet = Sheet::default();
    sheet.punch_in_at(at(T0)).unwrap();
    let total = sheet.count_range(at(T0), at(i64::MAX));
    assert!(total.micros > 0);
}

#[test]
fn sheets_compare_by_their_events() {
    let mut a = Sheet::default();
    let mut b = Sheet::default();
    assert_eq!(a, b);
    a.punch_in_at(at(T0)).unwrap();
    assert_ne!(a, b);
    b.punch_in_at(at(T0)).unwrap();
    assert_eq!(a, b);
    a.punch_out_at(at(T0 + hours(1))).unwrap();
    b.punch_out_at(at(T0 + hours(2))).unwrap();
    assert_ne!(a, b);
}
