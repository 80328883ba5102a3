//! The reference parser: one raw, possibly partial installable string becomes
//! an ordered batch of candidate structured references.

use vstd::prelude::*;
use vstd::string::StrSliceExecFns;
use vstd::string::StringExecFns;

use crate::model::{RawRefModel, RawReference, ResolveError};
use crate::text::str_eq;

verus! {

/// A trailing-run separator: the characters stripped from the end of raw
/// input before parsing.
pub open spec fn trailing_sep(c: char) -> bool {
    c == '.' || c == '#'
}

/// The raw string with its trailing run of `.` and `#` removed.
pub open spec fn trim_trailing(s: Seq<char>) -> Seq<char>
    decreases s.len(),
{
    if s.len() > 0 && trailing_sep(s.last()) {
        trim_trailing(s.drop_last())
    } else {
        s
    }
}

/// Trimming keeps a prefix of the input and removes exactly the maximal
/// trailing run of `.`/`#`: everything after the kept prefix is such a
/// separator, and the kept prefix does not end in one.
pub proof fn lemma_trim_trailing_exact(s: Seq<char>)
    ensures
        trim_trailing(s).len() <= s.len(),
        trim_trailing(s) == s.take(trim_trailing(s).len() as int),
        forall|j: int| trim_trailing(s).len() <= j < s.len() ==> trailing_sep(#[trigger] s[j]),
        trim_trailing(s).len() > 0 ==> !trailing_sep(s[trim_trailing(s).len() - 1]),
    decreases s.len(),
{
    if s.len() > 0 && trailing_sep(s.last()) {
        lemma_trim_trailing_exact(s.drop_last());
        assert(s.drop_last().take(trim_trailing(s).len() as int) =~= s.take(
            trim_trailing(s).len() as int,
        ));
        assert forall|j: int| trim_trailing(s).len() <= j < s.len() implies trailing_sep(
            #[trigger] s[j],
        ) by {
            if j < s.len() - 1 {
                assert(s[j] == s.drop_last()[j]);
            }
        }
    } else {
        assert(s.take(s.len() as int) =~= s);
    }
}

/// The index of the first `#` in `s`, or `s.len()` if there is none.
pub open spec fn first_hash(s: Seq<char>) -> int
    decreases s.len(),
{
    if s.len() == 0 {
        0
    } else if s[0] == '#' {
        0
    } else {
        1 + first_hash(s.drop_first())
    }
}

pub proof fn lemma_first_hash(s: Seq<char>)
    ensures
        0 <= first_hash(s) <= s.len(),
        first_hash(s) < s.len() ==> s[first_hash(s)] == '#',
        forall|j: int| 0 <= j < first_hash(s) ==> s[j] != '#',
    decreases s.len(),
{
    if s.len() > 0 && s[0] != '#' {
        lemma_first_hash(s.drop_first());
        assert forall|j: int| 0 <= j < first_hash(s) implies s[j] != '#' by {
            if j > 0 {
                assert(s[j] == s.drop_first()[j - 1]);
            }
        }
    }
}

/// The index of the last `.` or `#` in `s`, or `-1` if there is none.
pub open spec fn last_sep(s: Seq<char>) -> int
    decreases s.len(),
{
    if s.len() == 0 {
        -1
    } else if trailing_sep(s.last()) {
        s.len() - 1
    } else {
        last_sep(s.drop_last())
    }
}

/// `s` split on every `.`: the list of segments, empty segments included.
/// Splitting the empty string gives one empty segment.
pub open spec fn split_dots(s: Seq<char>) -> Seq<Seq<char>>
    decreases s.len(),
{
    if s.len() == 0 {
        seq![Seq::<char>::empty()]
    } else if s.last() == '.' {
        split_dots(s.drop_last()).push(Seq::<char>::empty())
    } else {
        let r = split_dots(s.drop_last());
        r.update(r.len() - 1, r.last().push(s.last()))
    }
}

/// The source/path grammar of one candidate: split at the first `#` into
/// source and remainder (no `#`: no source), split the remainder on `.`.
/// An empty remainder is an empty path; an empty segment fails the grammar.
pub open spec fn all_nonempty(segs: Seq<Seq<char>>) -> bool {
    forall|i: int| 0 <= i < segs.len() ==> (#[trigger] segs[i]).len() > 0
}

pub open spec fn parse_one_spec(s: Seq<char>) -> Option<RawRefModel> {
    let fh = first_hash(s);
    let source = if fh < s.len() {
        Some(s.take(fh))
    } else {
        None
    };
    let rest = if fh < s.len() {
        s.subrange(fh + 1, s.len() as int)
    } else {
        s
    };
    if rest.len() == 0 {
        Some(RawRefModel { source, attr_path: Seq::empty() })
    } else {
        let segs = split_dots(rest);
        if all_nonempty(segs) {
            Some(RawRefModel { source, attr_path: segs })
        } else {
            None
        }
    }
}

pub open spec fn opt_cand(o: Option<RawRefModel>) -> Seq<RawRefModel> {
    match o {
        Some(m) => seq![m],
        None => Seq::empty(),
    }
}

/// The candidate batch one raw string parses to. A raw `"."` is exactly one
/// candidate with source `"."` and an empty path. Anything else is trimmed,
/// then: the whole trimmed string as first candidate if it parses, and a
/// fallback — the part before the last `.`/`#` if that part is non-empty,
/// or the empty string when the trimmed string has no separator at all —
/// as second candidate if it parses.
pub open spec fn parse_candidates(raw: Seq<char>) -> Seq<RawRefModel> {
    if raw.len() == 1 && raw[0] == '.' {
        seq![RawRefModel { source: Some(seq!['.']), attr_path: Seq::empty() }]
    } else {
        let t = trim_trailing(raw);
        let ls = last_sep(t);
        let second = if ls == -1 {
            opt_cand(parse_one_spec(Seq::empty()))
        } else if ls > 0 {
            opt_cand(parse_one_spec(t.take(ls)))
        } else {
            Seq::empty()
        };
        opt_cand(parse_one_spec(t)) + second
    }
}

/// Parsing `"."` yields exactly one candidate, with source `"."` and an
/// empty attribute path.
pub proof fn lemma_parse_dot(raw: Seq<char>)
    requires
        raw == seq!['.'],
    ensures
        parse_candidates(raw).len() == 1,
        parse_candidates(raw)[0].source == Some(seq!['.']),
        parse_candidates(raw)[0].attr_path.len() == 0,
{
}

/// The views of a candidate batch, in order.
pub open spec fn ref_views(v: Seq<RawReference>) -> Seq<RawRefModel> {
    v.map_values(|rr: RawReference| rr@)
}

/// Returns `s` with its trailing run of `.` and `#` removed.
fn trimmed_end<'a>(s: &'a str) -> (r: &'a str)
    ensures
        r@ == trim_trailing(s@),
{
    let mut n = s.unicode_len();
    proof {
        assert(s@.take(s@.len() as int) =~= s@);
    }
    loop
        invariant
            0 <= n <= s@.len(),
            trim_trailing(s@) == trim_trailing(s@.take(n as int)),
        ensures
            0 <= n <= s@.len(),
            trim_trailing(s@) == s@.take(n as int),
        decreases n,
    {
        if n == 0 {
            proof {
                assert(s@.take(0) =~= Seq::<char>::empty());
            }
            break ;
        }
        let c = s.get_char(n - 1);
        if c == '.' || c == '#' {
            proof {
                assert(s@.take(n as int).drop_last() =~= s@.take(n - 1));
            }
            n -= 1;
        } else {
            proof {
                assert(s@.take(n as int).last() == s@[n - 1]);
            }
            break ;
        }
    }
    s.substring_char(0, n)
}

/// Returns the index of the last `.` or `#` in `s`, if any.
fn last_sep_idx(s: &str) -> (r: Option<usize>)
    ensures
        match r {
            Some(h) => last_sep(s@) == h as int && (h as int) < s@.len(),
            None => last_sep(s@) == -1,
        },
{
    let mut n = s.unicode_len();
    proof {
        assert(s@.take(s@.len() as int) =~= s@);
    }
    loop
        invariant
            0 <= n <= s@.len(),
            last_sep(s@) == last_sep(s@.take(n as int)),
        decreases n,
    {
        if n == 0 {
            proof {
                assert(s@.take(0) =~= Seq::<char>::empty());
            }
            return None;
        }
        let c = s.get_char(n - 1);
        if c == '.' || c == '#' {
            proof {
                assert(s@.take(n as int).last() == s@[n - 1]);
            }
            return Some(n - 1);
        }
        proof {
            assert(s@.take(n as int).last() == s@[n - 1]);
            assert(s@.take(n as int).drop_last() =~= s@.take(n - 1));
        }
        n -= 1;
    }
}

/// Returns the index of the first `#` in `s`, if any.
fn find_hash(s: &str) -> (r: Option<usize>)
    ensures
        match r {
            Some(h) => (h as int) < s@.len() && s@[h as int] == '#' && (forall|j: int|
                0 <= j < h ==> s@[j] != '#'),
            None => forall|j: int| 0 <= j < s@.len() ==> s@[j] != '#',
        },
{
    let n = s.unicode_len();
    let mut i: usize = 0;
    while i < n
        invariant
            n == s@.len(),
            0 <= i <= n,
            forall|j: int| 0 <= j < i ==> s@[j] != '#',
        decreases n - i,
    {
        if s.get_char(i) == '#' {
            return Some(i);
        }
        i += 1;
    }
    None
}

/// Parses one candidate against the source/path grammar.
#[verifier::loop_isolation(false)]
pub fn parse_one(s: &str) -> (r: Option<RawReference>)
    ensures
        match r {
            Some(rr) => parse_one_spec(s@) == Some(rr@) && rr.wf(),
            None => parse_one_spec(s@) is None,
        },
{
    let n = s.unicode_len();
    let hash_at = find_hash(s);
    proof {
        lemma_first_hash(s@);
        match hash_at {
            Some(h) => {
                assert(first_hash(s@) == h as int) by {
                    if first_hash(s@) < h as int {
                        assert(s@[first_hash(s@)] != '#');
                    }
                }
            },
            None => {
                assert(first_hash(s@) == n as int);
            },
        }
    }
    let (source, rest): (Option<String>, &str) = match hash_at {
        Some(h) => (Some(String::from_str(s.substring_char(0, h))), s.substring_char(h + 1, n)),
        None => (None, s),
    };
    proof {
        assert(rest@ =~= (if first_hash(s@) < s@.len() {
            s@.subrange(first_hash(s@) + 1, s@.len() as int)
        } else {
            s@
        }));
        assert(source.deep_view() =~~= (if first_hash(s@) < s@.len() {
            Some(s@.take(first_hash(s@)))
        } else {
            None
        }));
    }
    let rn = rest.unicode_len();
    if rn == 0 {
        let rr = RawReference { source, attr_path: Vec::new() };
        proof {
            assert(rr@.attr_path =~= Seq::<Seq<char>>::empty());
            assert(parse_one_spec(s@) == Some(rr@));
        }
        return Some(rr);
    }
    let mut segs: Vec<String> = Vec::new();
    let mut cur = String::new();
    let mut i: usize = 0;
    proof {
        assert(rest@.take(0) =~= Seq::<char>::empty());
        assert(segs.deep_view().push(cur@) =~= split_dots(rest@.take(0)));
    }
    while i < rn
        invariant
            rn == rest@.len(),
            0 <= i <= rn,
            segs.deep_view().push(cur@) =~= split_dots(rest@.take(i as int)),
        decreases rn - i,
    {
        let ghost prev = segs.deep_view().push(cur@);
        let c = rest.get_char(i);
        if c == '.' {
            segs.push(cur);
            cur = String::new();
        } else {
            cur.push(c);
        }
        proof {
            assert(rest@.take(i + 1).drop_last() =~= rest@.take(i as int));
            assert(rest@.take(i + 1).last() == rest@[i as int]);
            if c == '.' {
                assert(segs.deep_view().push(cur@) =~= prev.push(Seq::<char>::empty()));
            } else {
                assert(segs.deep_view().push(cur@) =~= prev.update(
                    prev.len() - 1,
                    prev.last().push(c),
                ));
            }
        }
        i += 1;
    }
    segs.push(cur);
    proof {
        assert(rest@.take(rn as int) =~= rest@);
        assert(segs.deep_view() =~= split_dots(rest@));
    }
    let ghost segs_dv = segs.deep_view();
    let mut i: usize = 0;
    while i < segs.len()
        invariant
            segs_dv == segs.deep_view(),
            0 <= i <= segs@.len(),
            forall|j: int| 0 <= j < i ==> (#[trigger] segs_dv[j]).len() > 0,
        decreases segs@.len() - i,
    {
        if segs[i].as_str().is_empty() {
            proof {
                let fh = first_hash(s@);
                let spec_rest = if fh < s@.len() {
                    s@.subrange(fh + 1, s@.len() as int)
                } else {
                    s@
                };
                assert(rest@ =~= spec_rest);
                assert(spec_rest.len() > 0);
                assert((i as int) < split_dots(spec_rest).len());
                assert(split_dots(spec_rest)[i as int].len() == 0);
                assert(!all_nonempty(split_dots(spec_rest)));
                assert(parse_one_spec(s@) is None);
            }
            return None;
        }
        i += 1;
    }
    let rr = RawReference { source, attr_path: segs };
    proof {
        let fh = first_hash(s@);
        let spec_rest = if fh < s@.len() {
            s@.subrange(fh + 1, s@.len() as int)
        } else {
            s@
        };
        assert(rest@ =~= spec_rest);
        assert(all_nonempty(segs_dv));
        assert(parse_one_spec(s@) == Some(rr@));
    }
    Some(rr)
}

/// Parses a raw installable string into its ordered candidate batch.
/// A candidate that fails the grammar is dropped silently; the parse fails,
/// with `InvalidReference`, only when every candidate fails.
pub fn parse(raw: &str) -> (r: Result<Vec<RawReference>, ResolveError>)
    ensures
        match r {
            Ok(v) => ref_views(v@) == parse_candidates(raw@) && v@.len() >= 1 && (forall|i: int|
                0 <= i < v@.len() ==> (#[trigger] v@[i]).wf()),
            Err(e) => e is InvalidReference && parse_candidates(raw@).len() == 0,
        },
{
    proof {
        reveal_strlit(".");
    }
    if str_eq(raw, ".") {
        let mut v: Vec<RawReference> = Vec::new();
        v.push(RawReference { source: Some(String::from_str(".")), attr_path: Vec::new() });
        proof {
            assert(raw@ =~= seq!['.']);
            assert(v@[0]@.attr_path =~= Seq::<Seq<char>>::empty());
            assert(v@[0]@.source == Some(seq!['.']));
            assert(ref_views(v@) =~= parse_candidates(raw@));
        }
        return Ok(v);
    }
    proof {
        assert("."@ =~= seq!['.']);
        assert(!(raw@.len() == 1 && raw@[0] == '.')) by {
            if raw@.len() == 1 && raw@[0] == '.' {
                assert(raw@ =~= "."@);
            }
        }
    }
    let t = trimmed_end(raw);
    let mut v: Vec<RawReference> = Vec::new();
    let first = parse_one(t);
    match first {
        Some(rr) => {
            v.push(rr);
        },
        None => {},
    }
    let ghost after_first = v@;
    proof {
        assert(ref_views(after_first) =~= opt_cand(parse_one_spec(t@)));
    }
    match last_sep_idx(t) {
        None => {
            // no separator at all: the empty-string candidate, which always
            // parses to no source and an empty path
            let rr = RawReference { source: None, attr_path: Vec::new() };
            proof {
                assert(rr@.attr_path =~= Seq::<Seq<char>>::empty());
                assert(parse_one_spec(Seq::<char>::empty()) == Some(rr@));
            }
            v.push(rr);
            proof {
                assert(v@ == after_first.push(rr));
                assert(ref_views(v@) =~= ref_views(after_first) + seq![rr@]);
                assert(ref_views(v@) =~= parse_candidates(raw@));
            }
        },
        Some(h) => {
            if h > 0 {
                let prefix = t.substring_char(0, h);
                match parse_one(prefix) {
                    Some(rr) => {
                        v.push(rr);
                        proof {
                            assert(v@ == after_first.push(rr));
                            assert(ref_views(v@) =~= ref_views(after_first) + seq![rr@]);
                            assert(ref_views(v@) =~= parse_candidates(raw@));
                        }
                    },
                    None => {
                        proof {
                            assert(ref_views(v@) =~= ref_views(after_first) + Seq::<
                                RawRefModel,
                            >::empty());
                            assert(ref_views(v@) =~= parse_candidates(raw@));
                        }
                    },
                }
            } else {
                proof {
                    assert(ref_views(v@) =~= ref_views(after_first) + Seq::<
                        RawRefModel,
                    >::empty());
                    assert(ref_views(v@) =~= parse_candidates(raw@));
                }
            }
        },
    }
    if v.len() == 0 {
        proof {
            assert(parse_candidates(raw@).len() == 0);
        }
        Err(ResolveError::InvalidReference)
    } else {
        Ok(v)
    }
}

} // verus!
