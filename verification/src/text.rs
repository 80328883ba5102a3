//! Character-level groundwork: the identifier character class, quoting of
//! unsafe identifiers, lexicographic order on strings, and prefix tests.

use vstd::prelude::*;
use vstd::string::StrSliceExecFns;
use vstd::string::StringExecFns;

verus! {

/// `String::push` appends one character; the standard library documents it
/// as "Appends the given char to the end of this String".
pub assume_specification[ String::push ](s: &mut String, c: char)
    ensures
        final(s)@ == old(s)@.push(c),
;

/// A character that may appear unquoted in an attribute identifier:
/// ASCII letters, digits, `_` and `-`.
pub open spec fn safe_ident_char(c: char) -> bool {
    let u = c as int;
    (97 <= u && u <= 122) || (65 <= u && u <= 90) || (48 <= u && u <= 57) || u == 45 || u == 95
}

/// A non-empty identifier made only of safe characters renders unquoted.
pub open spec fn is_safe_ident(s: Seq<char>) -> bool {
    s.len() > 0 && (forall|i: int| 0 <= i < s.len() ==> safe_ident_char(#[trigger] s[i]))
}

/// The double-quoted, backslash-escaped literal of `s`, exactly as the
/// standard library's `Debug` formatting of a string renders it: `"` and
/// `\` get a backslash, control and other non-printable characters come out
/// as `\n`, `\t`, `\r` or `\u{..}`. That rendering depends on the
/// characters alone, but spelling it out would mean transcribing the
/// Unicode printability tables, so it is named rather than defined.
pub uninterp spec fn debug_quoted(s: Seq<char>) -> Seq<char>;

/// Relies on the standard library's `Debug` formatting for `str` (through
/// `format!("{:?}", ..)`): the double-quoted, backslash-escaped literal of
/// `s`, a function of the characters alone. Its source writes one `"`,
/// then the escaped body, then one `"`, so the result begins and ends with
/// a quote and is at least two characters long.
#[verifier::external_body]
fn debug_quote(s: &str) -> (r: String)
    ensures
        r@ == debug_quoted(s@),
        r@.len() >= 2,
        r@.first() == '"',
        r@.last() == '"',
{
    format!("{:?}", s)
}

/// How an identifier renders: unchanged when it is a safe identifier,
/// otherwise as its double-quoted, backslash-escaped literal.
pub open spec fn rendered_ident(s: Seq<char>) -> Seq<char> {
    if is_safe_ident(s) {
        s
    } else {
        debug_quoted(s)
    }
}

fn safe_ident_char_exec(c: char) -> (r: bool)
    ensures
        r == safe_ident_char(c),
{
    let u = c as u32;
    (97 <= u && u <= 122) || (65 <= u && u <= 90) || (48 <= u && u <= 57) || u == 45 || u == 95
}

/// Renders one attribute-path segment: a safe identifier passes unchanged,
/// anything else becomes its double-quoted, backslash-escaped literal.
pub fn nix_str_safe(s: &str) -> (r: String)
    ensures
        r@ == rendered_ident(s@),
{
    let n = s.unicode_len();
    let mut safe = n > 0;
    let mut i: usize = 0;
    while i < n
        invariant
            n == s@.len(),
            0 <= i <= n,
            safe == (n > 0 && (forall|j: int| 0 <= j < i ==> safe_ident_char(#[trigger] s@[j]))),
        decreases n - i,
    {
        if !safe_ident_char_exec(s.get_char(i)) {
            safe = false;
        }
        i += 1;
    }
    if safe {
        String::from_str(s)
    } else {
        debug_quote(s)
    }
}

/// A safe identifier renders unchanged; an identifier containing a space
/// is not safe, so it renders as the double-quoted, backslash-escaped
/// literal of itself.
pub proof fn lemma_rendered_ident_forms(s: Seq<char>)
    ensures
        is_safe_ident(s) ==> rendered_ident(s) == s,
        s.contains(' ') ==> rendered_ident(s) == debug_quoted(s),
{
    if s.contains(' ') {
        let i = choose|i: int| 0 <= i < s.len() && s[i] == ' ';
        assert(!safe_ident_char(s[i]));
        assert(!is_safe_ident(s));
    }
}

/// Strict lexicographic order on character sequences, by code point; a
/// proper prefix comes before its extensions.
pub open spec fn lex_lt(a: Seq<char>, b: Seq<char>) -> bool
    decreases a.len(),
{
    if b.len() == 0 {
        false
    } else if a.len() == 0 {
        true
    } else if (a[0] as int) < (b[0] as int) {
        true
    } else if (a[0] as int) > (b[0] as int) {
        false
    } else {
        lex_lt(a.drop_first(), b.drop_first())
    }
}

/// `lex_lt` is a strict total order: of `a < b`, `a == b`, `b < a`
/// exactly one holds.
pub proof fn lemma_lex_total(a: Seq<char>, b: Seq<char>)
    ensures
        lex_lt(a, b) || lex_lt(b, a) || a == b,
        lex_lt(a, b) ==> !lex_lt(b, a) && a != b,
        lex_lt(b, a) ==> !lex_lt(a, b) && a != b,
    decreases a.len(),
{
    if a.len() == 0 && b.len() == 0 {
        assert(a =~= b);
    } else if a.len() > 0 && b.len() > 0 {
        if (a[0] as int) == (b[0] as int) {
            assert(a[0] == b[0]);
            lemma_lex_total(a.drop_first(), b.drop_first());
            if a.drop_first() == b.drop_first() {
                assert forall|i: int| 0 <= i < a.len() implies a[i] == b[i] by {
                    if i > 0 {
                        assert(a[i] == a.drop_first()[i - 1]);
                        assert(b[i] == b.drop_first()[i - 1]);
                    }
                }
                assert(a =~= b);
            }
            if a == b {
                assert(a.drop_first() =~= b.drop_first());
            }
        } else {
            if a == b {
                assert(a[0] == b[0]);
            }
        }
    } else {
        if a == b {
            assert(a.len() == b.len());
        }
    }
}

/// `lex_lt` is transitive.
pub proof fn lemma_lex_trans(a: Seq<char>, b: Seq<char>, c: Seq<char>)
    requires
        lex_lt(a, b),
        lex_lt(b, c),
    ensures
        lex_lt(a, c),
    decreases a.len(),
{
    if a.len() > 0 && b.len() > 0 && c.len() > 0 {
        if (a[0] as int) == (b[0] as int) && (b[0] as int) == (c[0] as int) {
            lemma_lex_trans(a.drop_first(), b.drop_first(), c.drop_first());
        }
    }
}

/// Compares two strings in the `lex_lt` order.
pub fn str_lex_lt(a: &str, b: &str) -> (r: bool)
    ensures
        r == lex_lt(a@, b@),
{
    let an = a.unicode_len();
    let bn = b.unicode_len();
    let mut i: usize = 0;
    proof {
        assert(a@.skip(0) =~= a@);
        assert(b@.skip(0) =~= b@);
    }
    loop
        invariant
            an == a@.len(),
            bn == b@.len(),
            0 <= i <= an,
            0 <= i <= bn,
            lex_lt(a@, b@) == lex_lt(a@.skip(i as int), b@.skip(i as int)),
        decreases an - i,
    {
        if i == an || i == bn {
            proof {
                assert(i == an ==> a@.skip(i as int) =~= Seq::<char>::empty());
                assert(i == bn ==> b@.skip(i as int) =~= Seq::<char>::empty());
            }
            return an < bn && i == an;
        }
        let ca = a.get_char(i);
        let cb = b.get_char(i);
        if (ca as u32) < (cb as u32) {
            return true;
        }
        if (ca as u32) > (cb as u32) {
            return false;
        }
        proof {
            assert(a@.skip(i as int).drop_first() =~= a@.skip(i + 1));
            assert(b@.skip(i as int).drop_first() =~= b@.skip(i + 1));
        }
        i += 1;
    }
}

/// Compares two strings for equality of their character sequences.
pub fn str_eq(a: &str, b: &str) -> (r: bool)
    ensures
        r == (a@ == b@),
{
    let an = a.unicode_len();
    let bn = b.unicode_len();
    if an != bn {
        return false;
    }
    let mut i: usize = 0;
    while i < an
        invariant
            an == a@.len(),
            bn == b@.len(),
            an == bn,
            0 <= i <= an,
            forall|j: int| 0 <= j < i ==> a@[j] == b@[j],
        decreases an - i,
    {
        if a.get_char(i) != b.get_char(i) {
            return false;
        }
        i += 1;
    }
    proof {
        assert(a@ =~= b@);
    }
    true
}

/// Tests whether `p` is a literal prefix of `s`.
pub fn str_starts_with(s: &str, p: &str) -> (r: bool)
    ensures
        r == p@.is_prefix_of(s@),
{
    let sn = s.unicode_len();
    let pn = p.unicode_len();
    if pn > sn {
        assert(!p@.is_prefix_of(s@));
        return false;
    }
    let mut i: usize = 0;
    while i < pn
        invariant
            sn == s@.len(),
            pn == p@.len(),
            pn <= sn,
            0 <= i <= pn,
            forall|j: int| 0 <= j < i ==> p@[j] == s@[j],
        decreases pn - i,
    {
        if p.get_char(i) != s.get_char(i) {
            assert(!p@.is_prefix_of(s@));
            return false;
        }
        i += 1;
    }
    proof {
        assert(p@ =~= s@.subrange(0, p@.len() as int));
    }
    true
}

} // verus!
