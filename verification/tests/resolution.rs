use flox_installables::model::{ResolveError, ResolvedMatch};
use flox_installables::resolve::{
    Resolution, build_labels, resolve_installable_from_matches, select_match,
};

fn m(flakeref: &str, prefix: &str, key: &[&str]) -> ResolvedMatch {
    ResolvedMatch {
        flakeref: flakeref.to_string(),
        prefix: prefix.to_string(),
        key: key.iter().map(|s| s.to_string()).collect(),
        explicit_system: false,
        system: None,
    }
}

#[test]
fn no_matches_is_not_found() {
    let matches: Vec<ResolvedMatch> = vec![];
    let r = resolve_installable_from_matches("install", "package", &matches, true);
    assert!(matches!(r, Err(ResolveError::NotFound)));
}

#[test]
fn not_found_text() {
    assert_eq!(ResolveError::NotFound.describe(), "No matching installables found");
}

#[test]
fn single_match_resolves_without_prompt() {
    // raw input "flox#packages.hello" resolved to one match: the installable
    // comes straight back, interactive or not
    let matches = vec![m("flox", "packages", &["hello"])];
    for interactive in [false, true] {
        let r = resolve_installable_from_matches("install", "package", &matches, interactive);
        match r {
            Ok(Resolution::Resolved(inst)) => {
                assert_eq!(inst.flakeref, "flox");
                assert_eq!(inst.attr_path, "packages.hello");
            }
            _ => panic!("expected a direct resolution"),
        }
    }
}

#[test]
fn two_flakerefs_non_interactive_enumerates_choices() {
    // two matches differing only by flakeref, no terminal: the failure
    // lists "a#tool" and "b#tool", in match order
    let matches = vec![m("a", "packages", &["tool"]), m("b", "packages", &["tool"])];
    let r = resolve_installable_from_matches("install", "package", &matches, false);
    match r {
        Err(ResolveError::AmbiguousNonInteractive(msg)) => {
            let expected = "You must address a specific package. For example with:\n\n    \
                            $ flox install a#tool,\n\nThe available packages are:\n  - a#tool\n  - b#tool\n";
            assert_eq!(msg, expected);
        }
        _ => panic!("expected the non-interactive ambiguity failure"),
    }
}

#[test]
fn multi_match_interactive_prompts_in_match_order() {
    let matches = vec![m("b", "packages", &["tool"]), m("a", "packages", &["tool"])];
    let r = resolve_installable_from_matches("run", "package", &matches, true);
    match r {
        Ok(Resolution::Prompt { question, labels }) => {
            assert_eq!(question, "Select a package for flox run");
            // label order follows match order, not a sorted order
            assert_eq!(labels, vec!["b#tool".to_string(), "a#tool".to_string()]);
        }
        _ => panic!("expected a prompt request"),
    }
}

#[test]
fn labels_verbosity_by_ambiguity() {
    // one flakeref, one prefix: bare keys
    let one = vec![m("flox", "packages", &["x"]), m("flox", "packages", &["y"])];
    assert_eq!(build_labels(&one), vec!["x".to_string(), "y".to_string()]);
    // several prefixes, one flakeref: prefix.key
    let pf = vec![m("flox", "packages", &["x"]), m("flox", "apps", &["x"])];
    assert_eq!(build_labels(&pf), vec!["packages.x".to_string(), "apps.x".to_string()]);
    // several of both: flakeref#prefix.key
    let both = vec![m("a", "packages", &["x"]), m("b", "apps", &["x"])];
    assert_eq!(build_labels(&both), vec!["a#packages.x".to_string(), "b#apps.x".to_string()]);
}

#[test]
fn selection_yields_installable_and_hint() {
    let matches = vec![m("a", "packages", &["tool"]), m("b", "packages", &["tool"])];
    let labels = build_labels(&matches);
    let sel = select_match(&matches, &labels, 1, "install", "package");
    assert_eq!(sel.installable.flakeref, "b");
    assert_eq!(sel.installable.attr_path, "packages.tool");
    assert_eq!(sel.hint_heading, "HINT: avoid selecting a package next time with:");
    // `#` is not on the shell whitelist, so the label is single-quoted
    assert_eq!(sel.hint_command, "$ flox install 'b#tool'");
}

#[test]
fn selection_hint_shell_escapes_label() {
    // a label with a space must come out single-quoted; one with a quote
    // must have it broken out of the quotes
    let matches = vec![m("flox", "packages", &["we ird"]), m("flox", "packages", &["it's"])];
    let labels = vec!["we ird".to_string(), "it's".to_string()];
    let sel = select_match(&matches, &labels, 0, "run", "package");
    assert_eq!(sel.hint_command, "$ flox run 'we ird'");
    let sel = select_match(&matches, &labels, 1, "run", "package");
    assert_eq!(sel.hint_command, "$ flox run 'it'\\''s'");
}

#[test]
fn newline_key_label_single_line() {
    // a key segment holding a newline must not break the bulleted list: the
    // label carries the escaped form on one line
    let matches = vec![m("flox", "packages", &["x\ny"]), m("flox", "packages", &["z"])];
    let labels = build_labels(&matches);
    assert_eq!(labels, vec!["\"x\\ny\"".to_string(), "z".to_string()]);
    assert!(!labels[0].contains('\n'));
}

#[test]
fn resolution_failed_passes_text_through() {
    let e = ResolveError::ResolutionFailed("resolver exploded".to_string());
    assert_eq!(e.describe(), "resolver exploded");
}
