use mitewarrior::tags::trim_str;
use mitewarrior::timew_input::blank_line;
use mitewarrior::timew_input::parse_setting_line;
use mitewarrior::timew_input::parse_settings;

#[test]
fn key_and_trimmed_value() {
    assert_eq!(
        parse_setting_line("color: on"),
        ("color".to_string(), "on".to_string())
    );
}

#[test]
fn value_is_the_segment_between_the_first_two_colons() {
    assert_eq!(parse_setting_line("a:b:c"), ("a".to_string(), "b".to_string()));
}

#[test]
fn line_without_colon_has_empty_value() {
    assert_eq!(
        parse_setting_line("nocolon"),
        ("nocolon".to_string(), "".to_string())
    );
}

#[test]
fn empty_segments() {
    assert_eq!(parse_setting_line(": v"), ("".to_string(), "v".to_string()));
    assert_eq!(parse_setting_line("k:"), ("k".to_string(), "".to_string()));
    assert_eq!(parse_setting_line(""), ("".to_string(), "".to_string()));
}

#[test]
fn blank_lines_end_the_header() {
    assert!(blank_line(""));
    assert!(blank_line("   "));
    assert!(!blank_line(" x "));
    assert!(!blank_line("\t"));
}

#[test]
fn whole_header() {
    let lines = vec!["temp: off".to_string(), "debug: 1".to_string()];
    let kvs = parse_settings(&lines);
    assert_eq!(
        kvs,
        vec![
            ("temp".to_string(), "off".to_string()),
            ("debug".to_string(), "1".to_string()),
        ]
    );
}

#[test]
fn trimming() {
    assert_eq!(trim_str("  a b \t\n"), "a b");
    assert_eq!(trim_str(""), "");
    assert_eq!(trim_str("   "), "");
    assert_eq!(trim_str("x"), "x");
}
