//! The disambiguator: a batch of resolver matches becomes one installable,
//! either directly, by prompting, or by failing with an enumerated error.

use vstd::prelude::*;
use vstd::string::StringExecFns;

use crate::complete::{all_flakerefs_eq, all_flakerefs_equal, all_prefixes_eq, all_prefixes_equal};
use crate::model::{
    Installable, MatchModel, ResolveError, ResolvedMatch, installable_of, joined_key, join_key,
    match_views,
};
use crate::text::{nix_str_safe, rendered_ident};

verus! {

/// A character that `shell_escape::unix::escape` passes through unquoted.
pub open spec fn shell_safe_char(c: char) -> bool {
    let u = c as int;
    (97 <= u && u <= 122) || (65 <= u && u <= 90) || (48 <= u && u <= 57) || u == 45 || u == 95
        || u == 61 || u == 47 || u == 44 || u == 46 || u == 43
}

/// One character of a single-quoted shell word: an embedded `'` or `!`
/// renders as `'\` + the character + `'`.
pub open spec fn shell_quoted_char(c: char) -> Seq<char> {
    if c == '\'' || c == '!' {
        seq!['\'', '\\', c, '\'']
    } else {
        seq![c]
    }
}

pub open spec fn shell_quoted_body(s: Seq<char>) -> Seq<char>
    decreases s.len(),
{
    if s.len() == 0 {
        Seq::empty()
    } else {
        shell_quoted_body(s.drop_last()) + shell_quoted_char(s.last())
    }
}

/// How a word renders for the shell: a non-empty word of safe characters
/// passes unchanged, anything else is wrapped in single quotes.
pub open spec fn shell_escaped(s: Seq<char>) -> Seq<char> {
    if s.len() > 0 && (forall|i: int| 0 <= i < s.len() ==> shell_safe_char(#[trigger] s[i])) {
        s
    } else {
        seq!['\''] + shell_quoted_body(s) + seq!['\'']
    }
}

/// Relies on `shell_escape::unix::escape`: a non-empty string made only of
/// its whitelisted characters (letters, digits, `-_=/,.+`) is returned
/// unchanged; any other string is wrapped in single quotes, each embedded
/// `'` or `!` rendered as `'\` + the character + `'`.
#[verifier::external_body]
fn shell_escape_str(s: &str) -> (r: String)
    ensures
        r@ == shell_escaped(s@),
{
    shell_escape::unix::escape(std::borrow::Cow::from(s)).into_owned()
}

/// The label one match gets in a disambiguation listing, at the minimum
/// verbosity that the batch allows: the flake reference appears only when
/// several are in use, the prefix only when several are in use.
pub open spec fn label_of(m: MatchModel, multi_fr: bool, multi_pf: bool) -> Seq<char> {
    let k = joined_key(m.key);
    if multi_fr && multi_pf {
        m.flakeref + seq!['#'] + rendered_ident(m.prefix) + seq!['.'] + k
    } else if multi_fr {
        m.flakeref + seq!['#'] + k
    } else if multi_pf {
        rendered_ident(m.prefix) + seq!['.'] + k
    } else {
        k
    }
}

/// The labels of a batch, one per match, in the batch's own order.
pub open spec fn labels_of(ms: Seq<MatchModel>) -> Seq<Seq<char>> {
    Seq::new(ms.len(), |i: int| label_of(ms[i], !all_flakerefs_eq(ms), !all_prefixes_eq(ms)))
}

/// The ordered bulleted list of labels: one line `  - label` per label,
/// joined with newlines.
pub open spec fn bulleted_labels(labels: Seq<Seq<char>>) -> Seq<char>
    decreases labels.len(),
{
    if labels.len() == 0 {
        Seq::empty()
    } else if labels.len() == 1 {
        "  - "@ + labels[0]
    } else {
        bulleted_labels(labels.drop_last()) + "\n"@ + "  - "@ + labels.last()
    }
}

/// The fixed-shape message of the non-interactive ambiguity failure: an
/// example invocation using the first label, then the bulleted label list.
pub open spec fn ambiguous_message(
    derivation_type: Seq<char>,
    subcommand: Seq<char>,
    labels: Seq<Seq<char>>,
) -> Seq<char> {
    "You must address a specific "@ + derivation_type + ". For example with:\n\n    $ flox "@
        + subcommand + " "@ + labels[0] + ",\n\nThe available packages are:\n"@ + bulleted_labels(
        labels,
    ) + "\n"@
}

/// The question shown above an interactive selection.
pub open spec fn prompt_message(derivation_type: Seq<char>, subcommand: Seq<char>) -> Seq<char> {
    "Select a "@ + derivation_type + " for flox "@ + subcommand
}

/// The first hint line shown after an interactive selection.
pub open spec fn hint_heading(derivation_type: Seq<char>) -> Seq<char> {
    "HINT: avoid selecting a "@ + derivation_type + " next time with:"@
}

/// The second hint line: the exact invocation that would avoid the prompt.
pub open spec fn hint_command(subcommand: Seq<char>, label: Seq<char>) -> Seq<char> {
    "$ flox "@ + subcommand + " "@ + shell_escaped(label)
}

/// What disambiguation decides without doing any terminal work: either the
/// one installable, or the question and ordered labels a prompt must show.
pub enum Resolution {
    Resolved(Installable),
    Prompt { question: String, labels: Vec<String> },
}

/// Builds one match's label.
fn label_for(m: &ResolvedMatch, multi_fr: bool, multi_pf: bool) -> (r: String)
    ensures
        r@ == label_of(m@, multi_fr, multi_pf),
{
    let k = join_key(&m.key);
    if multi_fr && multi_pf {
        let mut r = m.flakeref.clone();
        r.push('#');
        let pf = nix_str_safe(m.prefix.as_str());
        r.append(pf.as_str());
        r.push('.');
        r.append(k.as_str());
        proof {
            assert(r@ =~= label_of(m@, multi_fr, multi_pf));
        }
        r
    } else if multi_fr {
        let mut r = m.flakeref.clone();
        r.push('#');
        r.append(k.as_str());
        proof {
            assert(r@ =~= label_of(m@, multi_fr, multi_pf));
        }
        r
    } else if multi_pf {
        let mut r = nix_str_safe(m.prefix.as_str());
        r.push('.');
        r.append(k.as_str());
        proof {
            assert(r@ =~= label_of(m@, multi_fr, multi_pf));
        }
        r
    } else {
        k
    }
}

/// Builds the batch's labels, one per match, in the batch's own order.
pub fn build_labels(matches: &Vec<ResolvedMatch>) -> (r: Vec<String>)
    ensures
        r.deep_view() == labels_of(match_views(matches@)),
{
    let ghost ms = match_views(matches@);
    let multi_fr = !all_flakerefs_equal(matches);
    let multi_pf = !all_prefixes_equal(matches);
    let mut out: Vec<String> = Vec::new();
    let mut i: usize = 0;
    while i < matches.len()
        invariant
            ms == match_views(matches@),
            multi_fr == !all_flakerefs_eq(ms),
            multi_pf == !all_prefixes_eq(ms),
            0 <= i <= matches@.len(),
            out.deep_view().len() == i,
            forall|j: int|
                0 <= j < i ==> (#[trigger] out.deep_view()[j]) == label_of(
                    ms[j],
                    multi_fr,
                    multi_pf,
                ),
        decreases matches@.len() - i,
    {
        let lab = label_for(&matches[i], multi_fr, multi_pf);
        let ghost prev_dv = out.deep_view();
        proof {
            assert(ms[i as int] == matches@[i as int]@);
        }
        out.push(lab);
        proof {
            assert(out.deep_view() =~= prev_dv.push(lab@));
        }
        i += 1;
    }
    proof {
        assert(out.deep_view() =~= labels_of(ms));
    }
    out
}

/// Builds the non-interactive ambiguity message over the given labels.
fn build_ambiguous_message(
    derivation_type: &str,
    subcommand: &str,
    labels: &Vec<String>,
) -> (r: String)
    requires
        labels@.len() >= 1,
    ensures
        r@ == ambiguous_message(derivation_type@, subcommand@, labels.deep_view()),
{
    let ghost lv = labels.deep_view();
    let mut r = String::from_str("You must address a specific ");
    r.append(derivation_type);
    r.append(". For example with:\n\n    $ flox ");
    r.append(subcommand);
    r.append(" ");
    r.append(labels[0].as_str());
    r.append(",\n\nThe available packages are:\n");
    let ghost head = r@;
    let mut i: usize = 0;
    proof {
        assert(lv.take(0) =~= Seq::<Seq<char>>::empty());
        assert(r@ =~= head + bulleted_labels(lv.take(0)));
    }
    while i < labels.len()
        invariant
            lv == labels.deep_view(),
            0 <= i <= labels@.len(),
            r@ == head + bulleted_labels(lv.take(i as int)),
        decreases labels@.len() - i,
    {
        if i > 0 {
            r.append("\n");
        }
        r.append("  - ");
        r.append(labels[i].as_str());
        proof {
            assert(lv.take(i + 1).drop_last() =~= lv.take(i as int));
            assert(lv.take(i + 1).last() == lv[i as int]);
            assert(lv[i as int] == labels@[i as int]@);
            if i == 0 {
                assert(r@ =~= head + ("  - "@ + lv[0]));
            } else {
                assert(r@ =~= head + (bulleted_labels(lv.take(i as int)) + "\n"@ + "  - "@
                    + lv[i as int]));
            }
        }
        i += 1;
    }
    r.append("\n");
    proof {
        assert(lv.take(labels@.len() as int) =~= lv);
        assert(r@ =~= ambiguous_message(derivation_type@, subcommand@, lv));
    }
    r
}

/// Builds the interactive selection question.
fn build_prompt(derivation_type: &str, subcommand: &str) -> (r: String)
    ensures
        r@ == prompt_message(derivation_type@, subcommand@),
{
    let mut r = String::from_str("Select a ");
    r.append(derivation_type);
    r.append(" for flox ");
    r.append(subcommand);
    r
}

/// Disambiguates a resolver-match batch without touching the terminal.
/// No match is a `NotFound` failure. One match resolves directly, prompting
/// nobody, whether or not a terminal is there. Several matches either
/// become a prompt request — the ordered labels to show — when interactive,
/// or the enumerated `AmbiguousNonInteractive` failure when not.
pub fn resolve_installable_from_matches(
    subcommand: &str,
    derivation_type: &str,
    matches: &Vec<ResolvedMatch>,
    interactive: bool,
) -> (r: Result<Resolution, ResolveError>)
    ensures
        matches@.len() == 0 ==> r is Err,
        matches@.len() == 1 ==> r is Ok,
        matches@.len() > 1 && interactive ==> r is Ok,
        matches@.len() > 1 && !interactive ==> r is Err,
        match r {
            Ok(res) => match res {
                Resolution::Resolved(inst) => matches@.len() == 1 && inst@ == installable_of(
                    match_views(matches@)[0],
                ),
                Resolution::Prompt { question, labels } => matches@.len() > 1 && interactive
                    && question@ == prompt_message(derivation_type@, subcommand@)
                    && labels.deep_view() == labels_of(match_views(matches@)),
            },
            Err(e) => match e {
                ResolveError::NotFound => matches@.len() == 0,
                ResolveError::AmbiguousNonInteractive(msg) => matches@.len() > 1 && !interactive
                    && msg@ == ambiguous_message(
                    derivation_type@,
                    subcommand@,
                    labels_of(match_views(matches@)),
                ),
                _ => false,
            },
        },
{
    if matches.len() == 0 {
        return Err(ResolveError::NotFound);
    }
    if matches.len() == 1 {
        let inst = matches[0].installable();
        proof {
            assert(match_views(matches@)[0] == matches@[0]@);
        }
        return Ok(Resolution::Resolved(inst));
    }
    let labels = build_labels(matches);
    if !interactive {
        proof {
            assert(labels.deep_view().len() == matches@.len());
        }
        let msg = build_ambiguous_message(derivation_type, subcommand, &labels);
        return Err(ResolveError::AmbiguousNonInteractive(msg));
    }
    let question = build_prompt(derivation_type, subcommand);
    Ok(Resolution::Prompt { question, labels })
}

/// What a completed interactive selection yields: the chosen installable
/// and the two hint lines suggesting the prompt-free invocation.
pub struct Selection {
    pub installable: Installable,
    pub hint_heading: String,
    pub hint_command: String,
}

/// Turns the user's choice — an index into the prompt's label list — into
/// the corresponding installable, with the hint lines to show.
pub fn select_match(
    matches: &Vec<ResolvedMatch>,
    labels: &Vec<String>,
    index: usize,
    subcommand: &str,
    derivation_type: &str,
) -> (r: Selection)
    requires
        (index as int) < matches@.len(),
        (index as int) < labels@.len(),
    ensures
        r.installable@ == installable_of(match_views(matches@)[index as int]),
        r.hint_heading@ == hint_heading(derivation_type@),
        r.hint_command@ == hint_command(subcommand@, labels.deep_view()[index as int]),
{
    let installable = matches[index].installable();
    proof {
        assert(match_views(matches@)[index as int] == matches@[index as int]@);
    }
    let mut heading = String::from_str("HINT: avoid selecting a ");
    heading.append(derivation_type);
    heading.append(" next time with:");
    let mut command = String::from_str("$ flox ");
    command.append(subcommand);
    command.append(" ");
    let escaped = shell_escape_str(labels[index].as_str());
    command.append(escaped.as_str());
    proof {
        assert(labels.deep_view()[index as int] == labels@[index as int]@);
    }
    Selection { installable, hint_heading: heading, hint_command: command }
}

} // verus!
