use mitewarrior::answer::Answer;
use mitewarrior::answer::aggregate_answers;
use mitewarrior::datetime::Date;

fn answer(service_id: i64, project_id: i64, note: &str, minutes: i64, day: u8) -> Answer {
    Answer {
        service_id,
        project_id,
        note: note.to_string(),
        minutes,
        date_at: Date { year: 2024, month: 1, day },
    }
}

#[test]
fn duplicates_are_summed() {
    let input = vec![
        answer(2, 1, "fix bug", 15, 5),
        answer(2, 1, "fix bug", 20, 5),
    ];
    let out = aggregate_answers(input);
    assert_eq!(out.len(), 1);
    assert_eq!(out[0].minutes, 35);
    assert_eq!(out[0].service_id, 2);
    assert_eq!(out[0].project_id, 1);
    assert_eq!(out[0].note, "fix bug");
    assert_eq!(out[0].date_at, Date { year: 2024, month: 1, day: 5 });
}

#[test]
fn total_minutes_preserved() {
    let input = vec![
        answer(1, 1, "a", 10, 1),
        answer(1, 1, "a", 5, 1),
        answer(2, 1, "a", 7, 1),
        answer(1, 2, "b", 3, 2),
        answer(1, 1, "a", 1, 1),
    ];
    let before: i64 = input.iter().map(|a| a.minutes).sum();
    let out = aggregate_answers(input);
    let after: i64 = out.iter().map(|a| a.minutes).sum();
    assert_eq!(before, after);
    assert_eq!(after, 26);
    assert_eq!(out.len(), 3);
}

#[test]
fn distinct_identities_unchanged() {
    let input = vec![
        answer(1, 1, "a", 10, 1),
        answer(2, 1, "a", 20, 1),
        answer(1, 2, "a", 30, 1),
        answer(1, 1, "b", 40, 1),
        answer(1, 1, "a", 50, 2),
    ];
    let out = aggregate_answers(input.clone());
    assert_eq!(out.len(), input.len());
    for (o, i) in out.iter().zip(input.iter()) {
        assert_eq!(o, i);
        assert_eq!(o.minutes, i.minutes);
    }
}

#[test]
fn single_occurrence_minutes_kept() {
    let input = vec![answer(9, 9, "once", 42, 9)];
    let out = aggregate_answers(input);
    assert_eq!(out.len(), 1);
    assert_eq!(out[0].minutes, 42);
}

#[test]
fn empty_list() {
    let out = aggregate_answers(Vec::new());
    assert!(out.is_empty());
}

#[test]
fn first_appearance_order() {
    let input = vec![
        answer(1, 1, "a", 1, 1),
        answer(2, 2, "b", 2, 1),
        answer(1, 1, "a", 3, 1),
        answer(3, 3, "c", 4, 1),
    ];
    let out = aggregate_answers(input);
    assert_eq!(out.len(), 3);
    assert_eq!(out[0].service_id, 1);
    assert_eq!(out[0].minutes, 4);
    assert_eq!(out[1].service_id, 2);
    assert_eq!(out[1].minutes, 2);
    assert_eq!(out[2].service_id, 3);
    assert_eq!(out[2].minutes, 4);
}

#[test]
fn equality_ignores_minutes() {
    let a = answer(1, 1, "a", 10, 1);
    let b = answer(1, 1, "a", 99, 1);
    assert_eq!(a, b);
    let c = answer(1, 1, "a", 10, 2);
    assert_ne!(a, c);
}
