use flox_installables::complete::complete_installable;
use flox_installables::model::ResolvedMatch;
use flox_installables::text::nix_str_safe;

fn m(flakeref: &str, prefix: &str, key: &[&str]) -> ResolvedMatch {
    ResolvedMatch {
        flakeref: flakeref.to_string(),
        prefix: prefix.to_string(),
        key: key.iter().map(|s| s.to_string()).collect(),
        explicit_system: false,
        system: None,
    }
}

fn m_sys(flakeref: &str, prefix: &str, key: &[&str], system: &str) -> ResolvedMatch {
    ResolvedMatch {
        flakeref: flakeref.to_string(),
        prefix: prefix.to_string(),
        key: key.iter().map(|s| s.to_string()).collect(),
        explicit_system: true,
        system: Some(system.to_string()),
    }
}

#[test]
fn single_match_all_short_forms() {
    let matches = vec![m("flox", "packages", &["hello"])];
    let out = complete_installable(&matches, "");
    assert_eq!(
        out,
        vec![
            "flox#hello".to_string(),
            "flox#packages.hello".to_string(),
            "hello".to_string(),
            "packages.hello".to_string(),
        ]
    );
}

#[test]
fn output_filtered_by_original_input() {
    let matches = vec![m("flox", "packages", &["hello"])];
    let out = complete_installable(&matches, "pack");
    assert_eq!(out, vec!["packages.hello".to_string()]);
    for c in &out {
        assert!(c.starts_with("pack"));
    }
}

#[test]
fn output_sorted_and_deduplicated() {
    // two identical matches contribute identical candidates; the output
    // holds each string once, in strictly ascending order
    let matches = vec![m("flox", "packages", &["hello"]), m("flox", "packages", &["hello"])];
    let out = complete_installable(&matches, "");
    assert_eq!(out.len(), 4);
    for w in out.windows(2) {
        assert!(w[0] < w[1]);
    }
}

#[test]
fn bare_key_present_when_unambiguous() {
    let matches = vec![m("flox", "packages", &["hello"]), m("flox", "packages", &["world"])];
    let out = complete_installable(&matches, "");
    assert!(out.contains(&"hello".to_string()));
    assert!(out.contains(&"world".to_string()));
}

#[test]
fn several_flakerefs_suppress_short_forms() {
    let matches = vec![m("a", "packages", &["tool"]), m("b", "packages", &["tool"])];
    let out = complete_installable(&matches, "");
    assert_eq!(
        out,
        vec![
            "a#packages.tool".to_string(),
            "a#tool".to_string(),
            "b#packages.tool".to_string(),
            "b#tool".to_string(),
        ]
    );
}

#[test]
fn explicit_system_adds_system_forms() {
    let matches = vec![m_sys("flox", "packages", &["hello"], "x86_64-linux")];
    let out = complete_installable(&matches, "");
    assert!(out.contains(&"flox#packages.x86_64-linux.hello".to_string()));
    assert!(out.contains(&"packages.x86_64-linux.hello".to_string()));
    assert!(out.contains(&"flox#packages.hello".to_string()));
    assert!(out.contains(&"hello".to_string()));
}

#[test]
fn key_segments_escaped_in_candidates() {
    let matches = vec![m("flox", "packages", &["he llo"])];
    let out = complete_installable(&matches, "");
    assert!(out.contains(&"\"he llo\"".to_string()));
    assert!(out.contains(&"flox#packages.\"he llo\"".to_string()));
}

#[test]
fn empty_batch_no_completions() {
    let matches: Vec<ResolvedMatch> = vec![];
    let out = complete_installable(&matches, "x");
    assert!(out.is_empty());
}

#[test]
fn escape_safe_identifier_unchanged() {
    assert_eq!(nix_str_safe("hello-world_2"), "hello-world_2");
    assert_eq!(nix_str_safe("Abc09"), "Abc09");
}

#[test]
fn escape_space_quotes_literal() {
    assert_eq!(nix_str_safe("he llo"), "\"he llo\"");
}

#[test]
fn escape_quote_and_backslash() {
    assert_eq!(nix_str_safe("a\"b\\c"), "\"a\\\"b\\\\c\"");
    assert_eq!(nix_str_safe(""), "\"\"");
}

#[test]
fn escape_control_characters() {
    assert_eq!(nix_str_safe("a\nb"), "\"a\\nb\"");
    assert_eq!(nix_str_safe("a\tb"), "\"a\\tb\"");
    assert_eq!(nix_str_safe("a\rb"), "\"a\\rb\"");
}

#[test]
fn newline_key_stays_on_one_line() {
    // a key segment holding a newline must not put a raw newline inside a
    // completion string: completions go out one per line
    let matches = vec![m("flox", "packages", &["a\nb"])];
    let out = complete_installable(&matches, "");
    for c in &out {
        assert!(!c.contains('\n'));
    }
    assert!(out.contains(&"\"a\\nb\"".to_string()));
}
