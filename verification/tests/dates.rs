use mitewarrior::datetime::Date;
use mitewarrior::datetime::DateTime;
use mitewarrior::datetime::duration_minutes;
use mitewarrior::datetime::tw_date_parser;
use mitewarrior::tw_entry::TWEntry;

#[test]
fn parse_compact_stamp() {
    let dt = tw_date_parser("20240105T093000Z").unwrap();
    assert_eq!(dt.date, Date { year: 2024, month: 1, day: 5 });
    assert_eq!((dt.hour, dt.minute, dt.second), (9, 30, 0));
}

#[test]
fn parse_rejects_bad_shapes() {
    assert_eq!(tw_date_parser(""), None);
    assert_eq!(tw_date_parser("2024-01-05T09:30:00Z"), None);
    assert_eq!(tw_date_parser("20240105T093000"), None);
    assert_eq!(tw_date_parser("20240105 093000Z"), None);
    assert_eq!(tw_date_parser("20240105T0930000Z"), None);
    assert_eq!(tw_date_parser("2024010bT093000Z"), None);
}

#[test]
fn parse_rejects_impossible_moments() {
    assert_eq!(tw_date_parser("20240230T000000Z"), None);
    assert_eq!(tw_date_parser("20241301T000000Z"), None);
    assert_eq!(tw_date_parser("20240100T000000Z"), None);
    assert_eq!(tw_date_parser("20240105T240000Z"), None);
    assert_eq!(tw_date_parser("20240105T006000Z"), None);
    assert_eq!(tw_date_parser("20240105T000060Z"), None);
}

#[test]
fn parse_respects_leap_years() {
    assert!(tw_date_parser("20240229T120000Z").is_some());
    assert_eq!(tw_date_parser("20230229T120000Z"), None);
    assert!(tw_date_parser("20000229T000000Z").is_some());
    assert_eq!(tw_date_parser("19000229T000000Z"), None);
}

fn dt(text: &str) -> DateTime {
    tw_date_parser(text).unwrap()
}

#[test]
fn durations_in_whole_minutes() {
    assert_eq!(
        duration_minutes(&dt("20240105T090000Z"), &dt("20240105T093000Z")),
        30
    );
    // Truncated toward zero.
    assert_eq!(
        duration_minutes(&dt("20240105T090000Z"), &dt("20240105T093059Z")),
        30
    );
    // Negative when the end lies before the start.
    assert_eq!(
        duration_minutes(&dt("20240105T093000Z"), &dt("20240105T090000Z")),
        -30
    );
    // Across midnight and a month boundary.
    assert_eq!(
        duration_minutes(&dt("20240131T230000Z"), &dt("20240201T010000Z")),
        120
    );
    // Across the leap day.
    assert_eq!(
        duration_minutes(&dt("20240228T000000Z"), &dt("20240301T000000Z")),
        2 * 24 * 60
    );
}

#[test]
fn entry_duration_zero_when_a_stamp_is_absent() {
    let tags: Vec<String> = Vec::new();
    let e = TWEntry::new(Some("20240105T090000Z"), None, tags.clone());
    assert_eq!(e.get_duration(), 0);
    let e = TWEntry::new(None, Some("20240105T090000Z"), tags.clone());
    assert_eq!(e.get_duration(), 0);
    // An unparseable stamp becomes absent rather than an error.
    let e = TWEntry::new(Some("garbage"), Some("20240105T090000Z"), tags);
    assert!(e.start.is_none());
    assert_eq!(e.get_duration(), 0);
}

#[test]
fn entry_duration_between_stamps() {
    let tags: Vec<String> = Vec::new();
    let e = TWEntry::new(Some("20240105T090000Z"), Some("20240105T102000Z"), tags);
    assert_eq!(e.get_duration(), 80);
}
