use tai_stuff::table::EXPIRES_AT_UTC;
use tai_stuff::{Duration, LeapSeconds, Step, SupplementaryTable, TaiDateTime};

#[test]
fn tai_clock_reading_is_taken_as_it_is() {
    assert_eq!(
        TaiDateTime::from_clock(2_000_000_037, 5),
        Some(TaiDateTime::new(Duration::new(2_000_000_037, 5)))
    );
    assert_eq!(
        TaiDateTime::from_clock(10, 1_500_000_000),
        Some(TaiDateTime::new(Duration::new(11, 500_000_000)))
    );
}

#[test]
fn tai_clock_reading_beyond_a_span_is_none() {
    assert_eq!(TaiDateTime::from_clock(i64::MAX, 1_000_000_000), None);
    assert_eq!(TaiDateTime::from_clock(i64::MIN, -1_000_000_000), None);
    assert_eq!(
        TaiDateTime::from_clock(i64::MAX, 999_999_999),
        Some(TaiDateTime::new(Duration::new(i64::MAX, 999_999_999)))
    );
}

#[test]
fn utc_clock_serves_where_the_tai_clock_does_not() {
    let mut known = LeapSeconds::new();
    let early = TaiDateTime::from_utc_clock((1_000_000_000, 7), &known);
    assert_eq!(early, Step::Done(TaiDateTime::new(Duration::new(1_000_000_032, 7))));
    let late = TaiDateTime::from_utc_clock((EXPIRES_AT_UTC, 7), &known);
    assert_eq!(late, Step::ReadLiveSource);
    let carried = TaiDateTime::from_utc_clock((1_000_000_000, -1_500_000_000), &known);
    assert_eq!(carried, Step::Done(TaiDateTime::new(Duration::new(1_000_000_030, 500_000_000))));
    known.supply(Some(SupplementaryTable::new().with_event((EXPIRES_AT_UTC, 38))));
    let late = TaiDateTime::from_utc_clock((EXPIRES_AT_UTC, 7), &known);
    assert_eq!(late, Step::Done(TaiDateTime::new(Duration::new(EXPIRES_AT_UTC + 38, 7))));
}

#[test]
fn now_lies_after_the_expiration_instant() {
    let mut known = LeapSeconds::new();
    let first = match TaiDateTime::now(&known) {
        Step::Done(instant) => instant,
        Step::ReadLiveSource => {
            known.supply(None);
            match TaiDateTime::now(&known) {
                Step::Done(instant) => instant,
                Step::ReadLiveSource => panic!("asked twice"),
            }
        }
    };
    assert!(first.since_epoch().whole_seconds() > EXPIRES_AT_UTC);
    known.supply(None);
    let second = match TaiDateTime::now(&known) {
        Step::Done(instant) => instant,
        Step::ReadLiveSource => panic!("asked after the answer"),
    };
    let elapsed = second - first;
    assert!(elapsed.whole_seconds() >= 0 && elapsed.whole_seconds() < 3600);
}
