use tai_stuff::leap_file;
use tai_stuff::leap_registry;
use tai_stuff::leap_registry::LeapInfo;
use tai_stuff::table::EXPIRES_AT_UTC;
use tai_stuff::text::{cut, find_byte, read_integer};
use tai_stuff::{LeapSeconds, Step, TimeScale};

const HISTORY: &str = "# Allowance for leap seconds added to each time zone file.\n\
#\n\
Leap\t1972\tJun\t30\t23:59:60\t+\tS\n\
Leap\t1972\tDec\t31\t23:59:60\t+\tS\n\
Leap\t1973\tDec\t31\t23:59:60\t+\tS\n\
Leap\t1974\tDec\t31\t23:59:60\t+\tS\n\
Leap\t1975\tDec\t31\t23:59:60\t+\tS\n\
Leap\t1976\tDec\t31\t23:59:60\t+\tS\n\
Leap\t1977\tDec\t31\t23:59:60\t+\tS\n\
Leap\t1978\tDec\t31\t23:59:60\t+\tS\n\
Leap\t1979\tDec\t31\t23:59:60\t+\tS\n\
Leap\t1981\tJun\t30\t23:59:60\t+\tS\n\
Leap\t1982\tJun\t30\t23:59:60\t+\tS\n\
Leap\t1983\tJun\t30\t23:59:60\t+\tS\n\
Leap\t1985\tJun\t30\t23:59:60\t+\tS\n\
Leap\t1987\tDec\t31\t23:59:60\t+\tS\n\
Leap\t1989\tDec\t31\t23:59:60\t+\tS\n\
Leap\t1990\tDec\t31\t23:59:60\t+\tS\n\
Leap\t1992\tJun\t30\t23:59:60\t+\tS\n\
Leap\t1993\tJun\t30\t23:59:60\t+\tS\n\
Leap\t1994\tJun\t30\t23:59:60\t+\tS\n\
Leap\t1995\tDec\t31\t23:59:60\t+\tS\n\
Leap\t1997\tJun\t30\t23:59:60\t+\tS\n\
Leap\t1998\tDec\t31\t23:59:60\t+\tS\n\
Leap\t2005\tDec\t31\t23:59:60\t+\tS\n\
Leap\t2008\tDec\t31\t23:59:60\t+\tS\n\
Leap\t2012\tJun\t30\t23:59:60\t+\tS\n\
Leap\t2015\tJun\t30\t23:59:60\t+\tS\n\
Leap\t2016\tDec\t31\t23:59:60\t+\tS\n";

fn events_of(text: &str) -> Vec<(i64, i64)> {
    leap_file::parse_leap_seconds(text.as_bytes()).as_slice().to_vec()
}

#[test]
fn published_history_adds_nothing_to_the_static_table() {
    assert_eq!(events_of(HISTORY), vec![]);
    assert_eq!(events_of(""), vec![]);
    assert_eq!(events_of("\n\n"), vec![]);
}

#[test]
fn new_leap_second_continues_the_published_count() {
    let text = format!("{}Leap\t2030\tJun\t30\t23:59:60\t+\tS\n#expires 2031\n", HISTORY);
    assert_eq!(events_of(&text), vec![(1909094400, 38)]);
}

#[test]
fn removed_leap_second_takes_effect_at_the_moment_named() {
    let text = format!(
        "{}Leap\t2030\tJun\t30\t23:59:60\t+\tS\nLeap\t2031\tDec\t31\t23:59:59\t-\tS\n",
        HISTORY
    );
    assert_eq!(events_of(&text), vec![(1909094400, 38), (1956527999, 37)]);
}

#[test]
fn malformed_line_between_two_valid_lines_is_passed_over() {
    let text = "Leap\t2030\tJun\t30\t23:59:60\t+\tS\n\
Leap\t2031\tFoo\t31\t23:59:60\t+\tS\n\
Leap\t2035\tJun\t30\t23:59:60\t+\tS\n";
    assert_eq!(events_of(text), vec![(1909094400, 11), (2066860800, 12)]);
}

#[test]
fn last_line_needs_no_line_feed() {
    let text = "Leap\t2030\tJun\t30\t23:59:60\t+\tS";
    assert_eq!(events_of(text), vec![(1909094400, 11)]);
}

#[test]
fn seconds_beyond_59_count_as_59() {
    assert_eq!(events_of("Leap\t2030\tJun\t30\t23:59:59\t+\tS\n"), vec![(1909094400, 11)]);
    assert_eq!(events_of("Leap\t2030\tJun\t30\t23:59:75\t+\tS\n"), vec![(1909094400, 11)]);
    assert_eq!(events_of("Leap\t2030\tJun\t30\t22:59:58\t+\tS\n"), vec![(1909090799, 11)]);
}

#[test]
fn lines_that_cannot_be_read_change_nothing() {
    let valid = "Leap\t2030\tJun\t30\t23:59:60\t+\tS\n";
    let broken = [
        "leap\t2030\tJun\t30\t23:59:60\t+\tS\n",
        " Leap\t2030\tJun\t30\t23:59:60\t+\tS\n",
        "Leap 2030 Jun 30 23:59:60 + S\n",
        "Leap\t2030\tJun\t30\t23:59:60\t+\n",
        "Leap\t2030\tJun\t30\t23:59:60\t*\tS\n",
        "Leap\t2030\tJun\t30\t23:59:60\t++\tS\n",
        "Leap\t2030\tJun\t31\t23:59:60\t+\tS\n",
        "Leap\t2030\tFeb\t29\t23:59:60\t+\tS\n",
        "Leap\t2030\tJun\t30\t24:59:60\t+\tS\n",
        "Leap\t2030\tJun\t30\t23:60:60\t+\tS\n",
        "Leap\t2030\tJun\t30\t23:59\t+\tS\n",
        "Leap\t2030\tJun\t30\t23:59:256\t+\tS\n",
        "Leap\t2030\tJun\t30\t23:59:-1\t+\tS\n",
        "Leap\t2030\tJun\t 30\t23:59:60\t+\tS\n",
        "Leap\t2030\tjun\t30\t23:59:60\t+\tS\n",
        "Leap\t2030\tJune\t30\t23:59:60\t+\tS\n",
        "Leap\t\tJun\t30\t23:59:60\t+\tS\n",
        "Leap\t10000\tJun\t30\t23:59:60\t+\tS\n",
        "Leap\t99999999999\tJun\t30\t23:59:60\t+\tS\n",
        "Leap\t2030\tJun\t30\t23:59:60\t+\r",
        "Leap\t2030",
    ];
    for line in broken {
        let text = format!("{}{}\n{}", valid, line, valid);
        assert_eq!(
            events_of(&text),
            vec![(1909094400, 11), (1909094400, 12)],
            "{:?}",
            line
        );
    }
}

#[test]
fn numbers_may_carry_a_plus_sign_and_leading_zeros() {
    let text = "Leap\t+2030\tJun\t+030\t023:059:060\t+\tS\n";
    assert_eq!(events_of(text), vec![(1909094400, 11)]);
}

#[test]
fn every_month_is_known_by_its_abbreviation() {
    let months = ["Jan", "Feb", "Mar", "Apr", "May", "Jun", "Jul", "Aug", "Sep", "Oct", "Nov", "Dec"];
    let first_days: [i64; 12] = [
        1893456000, 1896134400, 1898553600, 1901232000, 1903824000, 1906502400, 1909094400,
        1911772800, 1914451200, 1917043200, 1919721600, 1922313600,
    ];
    for (month, first_day) in months.iter().zip(first_days) {
        let text = format!("Leap\t2030\t{}\t1\t00:00:00\t-\tS\n", month);
        assert_eq!(events_of(&text), vec![(first_day, 9)], "{}", month);
    }
}

#[test]
fn leap_day_is_a_day_of_the_calendar() {
    assert_eq!(events_of("Leap\t2024\tFeb\t29\t12:00:00\t-\tS\n"), vec![(1709208000, 9)]);
    assert_eq!(events_of("Leap\t2023\tFeb\t29\t12:00:00\t-\tS\n"), vec![]);
}

#[test]
fn events_of_the_file_are_kept_from_the_expiration_instant_on() {
    // 2023-06-27 23:59:59 and the second after it, which is the expiration instant.
    assert_eq!(events_of("Leap\t2023\tJun\t27\t23:59:58\t+\tS\n"), vec![]);
    assert_eq!(
        events_of("Leap\t2023\tJun\t27\t23:59:59\t+\tS\n"),
        vec![(EXPIRES_AT_UTC, 11)]
    );
    assert_eq!(events_of("Leap\t2023\tJun\t27\t23:59:59\t-\tS\n"), vec![]);
    assert_eq!(
        events_of("Leap\t2023\tJun\t28\t00:00:00\t-\tS\n"),
        vec![(EXPIRES_AT_UTC, 9)]
    );
}

#[test]
fn parsed_file_serves_conversions() {
    let text = format!("{}Leap\t2030\tJun\t30\t23:59:60\t+\tS\n", HISTORY);
    let mut known = LeapSeconds::new();
    known.supply(Some(leap_file::parse_leap_seconds(text.as_bytes())));
    assert_eq!(known.offset(TimeScale::Utc, 1909094399), Step::Done(37));
    assert_eq!(known.offset(TimeScale::Utc, 1909094400), Step::Done(38));
}

#[test]
fn line_is_cut_into_its_fields() {
    let fields = leap_file::cut_line(b"Leap\t1972\tJun\t30\t23:59:60\t+\tS").unwrap();
    assert_eq!(fields.year, b"1972");
    assert_eq!(fields.month, b"Jun");
    assert_eq!(fields.day, b"30");
    assert_eq!(fields.hour, b"23");
    assert_eq!(fields.minute, b"59");
    assert_eq!(fields.second, b"60");
    assert_eq!(fields.sign, b"+");
    assert_eq!(leap_file::read_record(&fields), Some((78796799, true)));
    assert!(leap_file::cut_line(b"Leap\t1972\tJun\t30\t23:59:60\t+").is_none());
    assert!(leap_file::cut_line(b"Zone\t1972\tJun\t30\t23:59:60\t+\tS").is_none());
    assert_eq!(leap_file::read_month(b"Dec"), Some(12));
    assert_eq!(leap_file::read_month(b"dec"), None);
}

#[test]
fn text_is_cut_at_the_first_separator() {
    assert_eq!(find_byte(b"a\tb\tc", 9), 1);
    assert_eq!(find_byte(b"abc", 9), 3);
    assert_eq!(find_byte(b"", 9), 0);
    assert_eq!(cut(b"a\tb\tc", 9), Some((&b"a"[..], &b"b\tc"[..])));
    assert_eq!(cut(b"\t", 9), Some((&b""[..], &b""[..])));
    assert_eq!(cut(b"abc", 9), None);
}

#[test]
fn integers_are_read_as_the_standard_library_reads_them() {
    let texts = [
        "", "+", "-", "0", "-0", "+0", "007", "255", "256", "-1", "+17", "1 ", " 1", "1a", "٣",
        "2147483647", "2147483648", "-2147483648", "-2147483649", "99999999999999999999", "--1",
        "+-1", "1_000",
    ];
    for text in texts {
        let byte = read_integer(text.as_bytes(), 0, 255);
        assert_eq!(byte, text.parse::<u8>().ok().map(i64::from), "{:?}", text);
        let word = read_integer(text.as_bytes(), i32::MIN as i64, i32::MAX as i64);
        assert_eq!(word, text.parse::<i32>().ok().map(i64::from), "{:?}", text);
    }
}

fn record(year: u16, month: u16, day: u16, hour: u16, negative: u16) -> Vec<u8> {
    let mut bytes = Vec::new();
    for word in [year, month, day, hour, negative, 0] {
        bytes.extend_from_slice(&word.to_le_bytes());
    }
    bytes
}

fn registry_events(bytes: &[u8]) -> Option<Vec<(i64, i64)>> {
    leap_registry::parse_leap_seconds(bytes).map(|table| table.as_slice().to_vec())
}

#[test]
fn registry_value_must_be_whole_records() {
    assert_eq!(registry_events(&[]), None);
    assert_eq!(registry_events(&[0; 11]), None);
    assert_eq!(registry_events(&[0; 13]), None);
    assert_eq!(registry_events(&[0; 12]), Some(vec![]));
    let mut bytes = record(2030, 6, 30, 23, 0);
    bytes.push(0);
    assert_eq!(registry_events(&bytes), None);
}

#[test]
fn registry_records_count_on_from_37() {
    let mut bytes = record(2030, 6, 30, 23, 0);
    bytes.extend(record(2031, 12, 31, 23, 1));
    bytes.extend(record(2035, 6, 30, 23, 0));
    assert_eq!(
        registry_events(&bytes),
        Some(vec![(1909094400, 38), (1956528000, 37), (2066860800, 38)])
    );
}

#[test]
fn registry_records_before_the_expiration_instant_only_count() {
    let mut bytes = record(2018, 6, 30, 23, 0);
    bytes.extend(record(2030, 6, 30, 22, 0));
    assert_eq!(registry_events(&bytes), Some(vec![(1909090800, 39)]));
}

#[test]
fn registry_records_that_name_no_hour_are_passed_over() {
    let valid = record(2030, 6, 30, 23, 0);
    let broken = [
        record(2030, 0, 30, 23, 0),
        record(2030, 13, 30, 23, 0),
        record(2030, 6, 31, 23, 0),
        record(2030, 6, 0, 23, 0),
        record(2030, 6, 30, 24, 0),
        record(2030, 256 + 6, 30, 23, 0),
        record(2030, 6, 256 + 30, 23, 0),
        record(2030, 6, 30, 256 + 23, 0),
        record(10000, 6, 30, 23, 0),
    ];
    for record in broken {
        let mut bytes = valid.clone();
        bytes.extend(&record);
        bytes.extend(&valid);
        assert_eq!(
            registry_events(&bytes),
            Some(vec![(1909094400, 38), (1909094400, 39)]),
            "{:?}",
            record
        );
    }
}

#[test]
fn registry_record_is_read_least_significant_byte_first() {
    let bytes = [0xEE, 0x07, 6, 0, 30, 0, 23, 0, 1, 0, 0xAB, 0xCD];
    assert_eq!(
        leap_registry::read_info(&bytes),
        LeapInfo { year: 2030, month: 6, day: 30, hour: 23, negative: 1 }
    );
    assert_eq!(leap_registry::read_moment(leap_registry::read_info(&bytes)), Some(1909094399));
    assert_eq!(registry_events(&bytes), Some(vec![(1909094400, 36)]));
}
