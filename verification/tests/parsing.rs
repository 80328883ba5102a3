use flox_installables::model::ResolveError;
use flox_installables::parse::{parse, parse_one};

fn sources(raw: &str) -> Vec<(Option<String>, Vec<String>)> {
    parse(raw)
        .expect("parse should succeed")
        .into_iter()
        .map(|c| (c.source, c.attr_path))
        .collect()
}

#[test]
fn parse_dot_single_candidate() {
    let cands = sources(".");
    assert_eq!(cands.len(), 1);
    assert_eq!(cands[0].0.as_deref(), Some("."));
    assert!(cands[0].1.is_empty());
}

#[test]
fn parse_strips_trailing_run() {
    // the trailing run of `.` and `#` is removed before any splitting
    let with_run = sources("flox#hello.#.#");
    let without = sources("flox#hello");
    assert_eq!(with_run, without);
}

#[test]
fn parse_strips_trailing_dot_only() {
    let cands = sources("flox#packages.");
    assert_eq!(cands[0].0.as_deref(), Some("flox"));
    assert_eq!(cands[0].1, vec!["packages".to_string()]);
}

#[test]
fn parse_source_and_path() {
    let cands = sources("flox#packages.hello");
    assert_eq!(cands.len(), 2);
    assert_eq!(cands[0].0.as_deref(), Some("flox"));
    assert_eq!(cands[0].1, vec!["packages".to_string(), "hello".to_string()]);
    // fallback: everything before the last separator
    assert_eq!(cands[1].0.as_deref(), Some("flox"));
    assert_eq!(cands[1].1, vec!["packages".to_string()]);
}

#[test]
fn parse_no_separator_appends_empty_candidate() {
    let cands = sources("he");
    assert_eq!(cands.len(), 2);
    assert_eq!(cands[0].0, None);
    assert_eq!(cands[0].1, vec!["he".to_string()]);
    assert_eq!(cands[1].0, None);
    assert!(cands[1].1.is_empty());
}

#[test]
fn parse_empty_segment_is_invalid() {
    // every candidate fails the grammar here: "a..b" has an empty segment,
    // and the fallback "a." ends in one
    match parse("a..b") {
        Err(ResolveError::InvalidReference) => {}
        other => panic!("expected InvalidReference, got {:?}", other.is_ok()),
    }
}

#[test]
fn parse_one_rejects_empty_segment() {
    assert!(parse_one("a..b").is_none());
    let r = parse_one("src#x.y").expect("grammar should accept");
    assert_eq!(r.source.as_deref(), Some("src"));
    assert_eq!(r.attr_path, vec!["x".to_string(), "y".to_string()]);
}

#[test]
fn parse_leading_separator_has_no_fallback() {
    // ".b" splits to an empty first segment, failing the grammar; its last
    // separator sits at the front, so the empty prefix gives no fallback
    // candidate either, and the whole parse fails
    assert!(matches!(parse(".b"), Err(ResolveError::InvalidReference)));
}
