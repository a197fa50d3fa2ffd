use mitewarrior::tags::ClassifyError;
use mitewarrior::tags::TagCategory;
use mitewarrior::tags::build_note;
use mitewarrior::tags::classify;
use mitewarrior::tags::classify_tag;
use mitewarrior::tags::extract_service_hint;
use mitewarrior::tags::parse_i64;
use mitewarrior::taskwarrior::default_project;

fn strings(tags: &[&str]) -> Vec<String> {
    tags.iter().map(|t| t.to_string()).collect()
}

#[test]
fn classifier_full_example() {
    let tags = strings(&["implement", "p1:ProjA", "t2:TaskX", "s:5", "https://example.com/x"]);
    let c = classify(&tags).unwrap();
    assert_eq!(c.note, "implement https://example.com/x");
    assert_eq!(c.explicit_service_id, Some(5));
    assert_eq!(c.hint_tags, vec!["p1:ProjA".to_string(), "t2:TaskX".to_string()]);
}

#[test]
fn tag_categories_by_prefix() {
    assert_eq!(classify_tag("s:5"), TagCategory::ServiceHint);
    assert_eq!(classify_tag("p1:ProjA"), TagCategory::ProjectHint);
    assert_eq!(classify_tag("t2:TaskX"), TagCategory::TaskHint);
    assert_eq!(classify_tag("https://example.com"), TagCategory::Url);
    assert_eq!(classify_tag("http"), TagCategory::Url);
    assert_eq!(classify_tag("fix bug"), TagCategory::FreeText);
    // Starts with 'p' but has no colon: free text.
    assert_eq!(classify_tag("plain"), TagCategory::FreeText);
    // Starts with 's' but not with "s:": free text.
    assert_eq!(classify_tag("s5:x"), TagCategory::FreeText);
    assert_eq!(classify_tag(""), TagCategory::FreeText);
    assert_eq!(classify_tag("s:"), TagCategory::ServiceHint);
}

#[test]
fn note_free_text_then_urls() {
    let tags = strings(&["https://a", "alpha", "p1:P", "beta", "https://b"]);
    assert_eq!(build_note(&tags), "alpha beta https://a https://b");
}

#[test]
fn note_url_only_has_no_leading_space() {
    let tags = strings(&["https://only"]);
    assert_eq!(build_note(&tags), "https://only");
}

#[test]
fn note_empty_tags() {
    let tags = strings(&[]);
    assert_eq!(build_note(&tags), "");
}

#[test]
fn service_hint_trimmed_value() {
    let tags = strings(&["s: 12 "]);
    assert_eq!(extract_service_hint(&tags).unwrap(), Some(12));
}

#[test]
fn service_hint_absent() {
    let tags = strings(&["fix bug", "p1:P"]);
    assert_eq!(extract_service_hint(&tags).unwrap(), None);
}

#[test]
fn service_hint_last_wins() {
    let tags = strings(&["s:5", "s:7"]);
    assert_eq!(extract_service_hint(&tags).unwrap(), Some(7));
}

#[test]
fn service_hint_malformed_is_fatal() {
    let tags = strings(&["s:abc"]);
    assert_eq!(
        extract_service_hint(&tags),
        Err(ClassifyError::MalformedServiceHint)
    );
    let tags = strings(&["s:"]);
    assert_eq!(classify(&tags).unwrap_err(), ClassifyError::MalformedServiceHint);
}

#[test]
fn parse_i64_values() {
    assert_eq!(parse_i64("42"), Some(42));
    assert_eq!(parse_i64(" -7 "), Some(-7));
    assert_eq!(parse_i64("+3"), Some(3));
    assert_eq!(parse_i64("0"), Some(0));
    assert_eq!(parse_i64("9223372036854775807"), Some(i64::MAX));
    assert_eq!(parse_i64("-9223372036854775808"), Some(i64::MIN));
}

#[test]
fn parse_i64_rejects() {
    assert_eq!(parse_i64(""), None);
    assert_eq!(parse_i64("   "), None);
    assert_eq!(parse_i64("-"), None);
    assert_eq!(parse_i64("1 2"), None);
    assert_eq!(parse_i64("12a"), None);
    assert_eq!(parse_i64("9223372036854775808"), None);
    assert_eq!(parse_i64("-9223372036854775809"), None);
}

#[test]
fn default_project_placeholder() {
    assert_eq!(default_project(), "---");
}
