use mitewarrior::datetime::Date;
use mitewarrior::mite::Mite;
use mitewarrior::mite::customer::CustomerObject;
use mitewarrior::mite::project::ProjectObject;
use mitewarrior::mite::service::ServiceObject;
use mitewarrior::model::project_selection::ProjectSelection;
use mitewarrior::timew_input::TimewInput;
use mitewarrior::tw_entry::TWEntry;
use mitewarrior::ui::Screen;
use mitewarrior::ui::UIData;

fn strings(tags: &[&str]) -> Vec<String> {
    tags.iter().map(|t| t.to_string()).collect()
}

fn entry(start: Option<&str>, end: Option<&str>, tags: &[&str]) -> TWEntry {
    TWEntry::new(start, end, strings(tags))
}

fn session(data: Vec<TWEntry>) -> UIData {
    let input = TimewInput { settings: Vec::new(), data };
    let mite = Mite::new(
        "key".to_string(),
        "instance".to_string(),
        Vec::<ServiceObject>::new(),
        Vec::<CustomerObject>::new(),
        Vec::<ProjectObject>::new(),
    );
    UIData::new(input, mite)
}

fn selection(id: i64, name: &str) -> ProjectSelection {
    ProjectSelection { customer_id: None, id, name: name.to_string() }
}

#[test]
fn queue_is_consumed_last_supplied_first() {
    let data = vec![
        entry(None, None, &["i1"]),
        entry(None, None, &["i2"]),
        entry(None, None, &["i3"]),
    ];
    let mut s = session(data);
    let sel = selection(1, "P");
    let mut screen = s.get_next_page().unwrap();
    for expected in ["i3", "i2", "i1"] {
        assert_eq!(screen, Screen::ProjectChoice);
        assert_eq!(s.current_entry.as_ref().unwrap().tags, vec![expected.to_string()]);
        assert_eq!(s.callback_next(&sel).unwrap(), Screen::ServiceChoice);
        screen = s.callback_service_selected(1).unwrap();
    }
    assert_eq!(screen, Screen::Finished);
}

#[test]
fn empty_queue_finishes_at_once() {
    let mut s = session(Vec::new());
    assert_eq!(s.get_next_page().unwrap(), Screen::Finished);
    assert!(s.get_answers().is_empty());
}

#[test]
fn explicit_hint_skips_service_choice() {
    let data = vec![entry(None, None, &["work", "s:4"])];
    let mut s = session(data);
    assert_eq!(s.get_next_page().unwrap(), Screen::ProjectChoice);
    assert_eq!(s.current_hint, Some(4));
    let screen = s.callback_next(&selection(7, "P")).unwrap();
    assert_eq!(screen, Screen::Finished);
    let answers = s.get_answers();
    assert_eq!(answers.len(), 1);
    assert_eq!(answers[0].service_id, 4);
    assert_eq!(answers[0].project_id, 7);
}

#[test]
fn missing_hint_enters_service_choice() {
    let data = vec![entry(None, None, &["work"])];
    let mut s = session(data);
    assert_eq!(s.get_next_page().unwrap(), Screen::ProjectChoice);
    assert_eq!(s.current_hint, None);
    let screen = s.callback_next(&selection(7, "P")).unwrap();
    assert_eq!(screen, Screen::ServiceChoice);
    assert_eq!(s.pending.as_ref().unwrap().note, "work");
    let screen = s.callback_service_selected(9).unwrap();
    assert_eq!(screen, Screen::Finished);
    let answers = s.get_answers();
    assert_eq!(answers.len(), 1);
    assert_eq!(answers[0].service_id, 9);
}

#[test]
fn malformed_hint_aborts_but_keeps_answers() {
    let data = vec![
        entry(None, None, &["bad", "s:oops"]),
        entry(None, None, &["good", "s:1"]),
    ];
    let mut s = session(data);
    // The last-supplied interval comes first and is fine.
    assert_eq!(s.get_next_page().unwrap(), Screen::ProjectChoice);
    assert_eq!(s.callback_next(&selection(1, "P")).unwrap_err(),
        mitewarrior::tags::ClassifyError::MalformedServiceHint);
    let answers = s.get_answers();
    assert_eq!(answers.len(), 1);
    assert_eq!(answers[0].note, "good");
}

#[test]
fn two_intervals_same_date_merge_end_to_end() {
    let a = entry(Some("20240105T090000Z"), Some("20240105T093000Z"), &["p1:ProjA", "fix bug"]);
    let b = entry(
        Some("20240105T100000Z"),
        Some("20240105T102000Z"),
        &["p1:ProjA", "fix bug", "s:2"],
    );
    let mut s = session(vec![a, b]);
    let sel = selection(1, "ProjA");
    // B is taken first: its hint records it at once.
    assert_eq!(s.get_next_page().unwrap(), Screen::ProjectChoice);
    assert_eq!(s.current_minutes, 20);
    // Recording B advances straight to A's project choice.
    assert_eq!(s.callback_next(&sel).unwrap(), Screen::ProjectChoice);
    assert_eq!(s.current_minutes, 30);
    // A has no hint: the user picks service 2.
    assert_eq!(s.callback_next(&sel).unwrap(), Screen::ServiceChoice);
    assert_eq!(s.callback_service_selected(2).unwrap(), Screen::Finished);
    let answers = s.get_answers();
    assert_eq!(answers.len(), 1);
    assert_eq!(answers[0].project_id, 1);
    assert_eq!(answers[0].service_id, 2);
    assert_eq!(answers[0].note, "fix bug");
    assert_eq!(answers[0].minutes, 50);
    assert_eq!(answers[0].date_at, Date { year: 2024, month: 1, day: 5 });
}

#[test]
fn two_intervals_different_dates_stay_separate() {
    let a = entry(Some("20240105T090000Z"), Some("20240105T093000Z"), &["p1:ProjA", "fix bug"]);
    let b = entry(
        Some("20240106T100000Z"),
        Some("20240106T102000Z"),
        &["p1:ProjA", "fix bug", "s:2"],
    );
    let mut s = session(vec![a, b]);
    let sel = selection(1, "ProjA");
    assert_eq!(s.get_next_page().unwrap(), Screen::ProjectChoice);
    assert_eq!(s.callback_next(&sel).unwrap(), Screen::ProjectChoice);
    assert_eq!(s.callback_next(&sel).unwrap(), Screen::ServiceChoice);
    assert_eq!(s.callback_service_selected(2).unwrap(), Screen::Finished);
    let answers = s.get_answers();
    assert_eq!(answers.len(), 2);
    let m: Vec<i64> = answers.iter().map(|a| a.minutes).collect();
    assert!(m.contains(&20) && m.contains(&30));
}
