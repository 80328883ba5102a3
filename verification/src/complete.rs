//! The completion generator: a batch of resolver matches becomes a sorted,
//! deduplicated list of completion strings filtered by the original input.

use vstd::prelude::*;
use vstd::string::StrSliceExecFns;
use vstd::string::StringExecFns;

use crate::model::{MatchModel, ResolvedMatch, joined_key, join_key, match_views};
use crate::text::{
    lemma_lex_total, lemma_lex_trans, lex_lt, nix_str_safe, rendered_ident, str_eq, str_lex_lt,
    str_starts_with,
};

verus! {

/// Whether every match in the batch names the same flake reference, that is,
/// at most one distinct flake reference is in use.
pub open spec fn all_flakerefs_eq(ms: Seq<MatchModel>) -> bool {
    forall|i: int, j: int|
        0 <= i < ms.len() && 0 <= j < ms.len() ==> (#[trigger] ms[i].flakeref) == (
        #[trigger] ms[j].flakeref)
}

/// Whether every match in the batch names the same prefix.
pub open spec fn all_prefixes_eq(ms: Seq<MatchModel>) -> bool {
    forall|i: int, j: int|
        0 <= i < ms.len() && 0 <= j < ms.len() ==> (#[trigger] ms[i].prefix) == (
        #[trigger] ms[j].prefix)
}

/// The completion candidates one match contributes, in emission order.
/// `uniq_fr` / `uniq_pf` say whether the whole batch uses at most one
/// distinct flake reference / prefix: the fewer are in use, the shorter the
/// forms that may be offered as well.
pub open spec fn completions_of(m: MatchModel, uniq_fr: bool, uniq_pf: bool) -> Seq<Seq<char>> {
    let k = joined_key(m.key);
    let pf = rendered_ident(m.prefix);
    let fr = m.flakeref;
    let base = seq![fr + seq!['#'] + pf + seq!['.'] + k];
    let sys_part = match m.system {
        Some(sysname) => {
            if m.explicit_system {
                let sys = rendered_ident(sysname);
                seq![fr + seq!['#'] + pf + seq!['.'] + sys + seq!['.'] + k] + (if uniq_fr {
                    seq![pf + seq!['.'] + sys + seq!['.'] + k]
                } else {
                    Seq::empty()
                })
            } else {
                Seq::empty()
            }
        },
        None => Seq::empty(),
    };
    let bare = if uniq_fr && uniq_pf {
        seq![k]
    } else {
        Seq::empty()
    };
    let fr_key = if uniq_pf {
        seq![fr + seq!['#'] + k]
    } else {
        Seq::empty()
    };
    let pf_key = if uniq_fr {
        seq![pf + seq!['.'] + k]
    } else {
        Seq::empty()
    };
    base + sys_part + bare + fr_key + pf_key
}

/// The candidates of a whole batch, in batch order.
pub open spec fn all_completions(ms: Seq<MatchModel>, uniq_fr: bool, uniq_pf: bool) -> Seq<
    Seq<char>,
>
    decreases ms.len(),
{
    if ms.len() == 0 {
        Seq::empty()
    } else {
        all_completions(ms.drop_last(), uniq_fr, uniq_pf) + completions_of(
            ms.last(),
            uniq_fr,
            uniq_pf,
        )
    }
}

/// A string is among a batch's candidates exactly when some match
/// contributes it.
pub proof fn lemma_all_completions_contains(
    ms: Seq<MatchModel>,
    uniq_fr: bool,
    uniq_pf: bool,
    t: Seq<char>,
)
    ensures
        all_completions(ms, uniq_fr, uniq_pf).contains(t) <==> exists|i: int|
            0 <= i < ms.len() && (#[trigger] completions_of(ms[i], uniq_fr, uniq_pf)).contains(t),
    decreases ms.len(),
{
    if ms.len() > 0 {
        lemma_all_completions_contains(ms.drop_last(), uniq_fr, uniq_pf, t);
        let whole = all_completions(ms, uniq_fr, uniq_pf);
        let front = all_completions(ms.drop_last(), uniq_fr, uniq_pf);
        let back = completions_of(ms.last(), uniq_fr, uniq_pf);
        if whole.contains(t) {
            let idx = choose|idx: int| 0 <= idx < whole.len() && whole[idx] == t;
            if idx < front.len() {
                assert(front[idx] == t);
                assert(front.contains(t));
                let i = choose|i: int|
                    0 <= i < ms.drop_last().len() && (#[trigger] completions_of(
                        ms.drop_last()[i],
                        uniq_fr,
                        uniq_pf,
                    )).contains(t);
                assert(ms.drop_last()[i] == ms[i]);
                assert(completions_of(ms[i], uniq_fr, uniq_pf).contains(t));
            } else {
                assert(back[idx - front.len()] == t);
                assert(back.contains(t));
                assert(ms.last() == ms[ms.len() - 1]);
                assert(completions_of(ms[ms.len() - 1], uniq_fr, uniq_pf).contains(t));
            }
        }
        if exists|i: int|
            0 <= i < ms.len() && (#[trigger] completions_of(ms[i], uniq_fr, uniq_pf)).contains(t) {
            let i = choose|i: int|
                0 <= i < ms.len() && (#[trigger] completions_of(ms[i], uniq_fr, uniq_pf)).contains(
                    t,
                );
            if i < ms.len() - 1 {
                assert(ms.drop_last()[i] == ms[i]);
                assert(front.contains(t));
                let idx = choose|idx: int| 0 <= idx < front.len() && front[idx] == t;
                assert(whole[idx] == t);
            } else {
                let idx = choose|idx: int| 0 <= idx < back.len() && back[idx] == t;
                assert(whole[front.len() + idx] == t);
            }
            assert(whole.contains(t));
        }
    }
}

/// Whether a list of strings is strictly ascending in the lexicographic
/// order: sorted, with no duplicates.
pub open spec fn strictly_sorted(v: Seq<Seq<char>>) -> bool {
    forall|i: int, j: int| 0 <= i < j < v.len() ==> lex_lt(#[trigger] v[i], #[trigger] v[j])
}

/// Whether every match in the batch names the same flake reference.
pub fn all_flakerefs_equal(matches: &Vec<ResolvedMatch>) -> (r: bool)
    ensures
        r == all_flakerefs_eq(match_views(matches@)),
{
    let ghost ms = match_views(matches@);
    let mut i: usize = 1;
    if matches.len() == 0 {
        return true;
    }
    while i < matches.len()
        invariant
            ms == match_views(matches@),
            matches@.len() >= 1,
            1 <= i <= matches@.len(),
            forall|j: int| 0 <= j < i ==> (#[trigger] ms[j].flakeref) == ms[0].flakeref,
        decreases matches@.len() - i,
    {
        if !str_eq(matches[i].flakeref.as_str(), matches[0].flakeref.as_str()) {
            proof {
                assert(ms[i as int].flakeref != ms[0].flakeref);
            }
            return false;
        }
        proof {
            assert(ms[i as int].flakeref == matches@[i as int].flakeref@);
        }
        i += 1;
    }
    proof {
        assert forall|p: int, q: int|
            0 <= p < ms.len() && 0 <= q < ms.len() implies (#[trigger] ms[p].flakeref) == (
        #[trigger] ms[q].flakeref) by {
            assert(ms[p].flakeref == ms[0].flakeref);
            assert(ms[q].flakeref == ms[0].flakeref);
        }
    }
    true
}

/// Whether every match in the batch names the same prefix.
pub fn all_prefixes_equal(matches: &Vec<ResolvedMatch>) -> (r: bool)
    ensures
        r == all_prefixes_eq(match_views(matches@)),
{
    let ghost ms = match_views(matches@);
    let mut i: usize = 1;
    if matches.len() == 0 {
        return true;
    }
    while i < matches.len()
        invariant
            ms == match_views(matches@),
            matches@.len() >= 1,
            1 <= i <= matches@.len(),
            forall|j: int| 0 <= j < i ==> (#[trigger] ms[j].prefix) == ms[0].prefix,
        decreases matches@.len() - i,
    {
        if !str_eq(matches[i].prefix.as_str(), matches[0].prefix.as_str()) {
            proof {
                assert(ms[i as int].prefix != ms[0].prefix);
            }
            return false;
        }
        proof {
            assert(ms[i as int].prefix == matches@[i as int].prefix@);
        }
        i += 1;
    }
    proof {
        assert forall|p: int, q: int|
            0 <= p < ms.len() && 0 <= q < ms.len() implies (#[trigger] ms[p].prefix) == (
        #[trigger] ms[q].prefix) by {
            assert(ms[p].prefix == ms[0].prefix);
            assert(ms[q].prefix == ms[0].prefix);
        }
    }
    true
}

/// The completion candidates one match contributes, in emission order.
fn candidates_for(m: &ResolvedMatch, uniq_fr: bool, uniq_pf: bool) -> (r: Vec<String>)
    ensures
        r.deep_view() == completions_of(m@, uniq_fr, uniq_pf),
{
    let k = join_key(&m.key);
    let pf = nix_str_safe(m.prefix.as_str());
    let mut t: Vec<String> = Vec::new();

    let mut base = m.flakeref.clone();
    base.push('#');
    base.append(pf.as_str());
    base.push('.');
    base.append(k.as_str());
    proof {
        assert(base@ =~= m@.flakeref + seq!['#'] + rendered_ident(m@.prefix) + seq!['.']
            + joined_key(m@.key));
    }
    t.push(base);

    if m.explicit_system {
        match &m.system {
            Some(sysname) => {
                let sys = nix_str_safe(sysname.as_str());
                let mut a = m.flakeref.clone();
                a.push('#');
                a.append(pf.as_str());
                a.push('.');
                a.append(sys.as_str());
                a.push('.');
                a.append(k.as_str());
                proof {
                    assert(a@ =~= m@.flakeref + seq!['#'] + rendered_ident(m@.prefix) + seq!['.']
                        + rendered_ident(sysname@) + seq!['.'] + joined_key(m@.key));
                }
                t.push(a);
                if uniq_fr {
                    let mut b = nix_str_safe(m.prefix.as_str());
                    b.push('.');
                    b.append(sys.as_str());
                    b.push('.');
                    b.append(k.as_str());
                    proof {
                        assert(b@ =~= rendered_ident(m@.prefix) + seq!['.'] + rendered_ident(
                            sysname@,
                        ) + seq!['.'] + joined_key(m@.key));
                    }
                    t.push(b);
                }
            },
            None => {},
        }
    }
    if uniq_fr && uniq_pf {
        t.push(k.clone());
    }
    if uniq_pf {
        let mut c = m.flakeref.clone();
        c.push('#');
        c.append(k.as_str());
        proof {
            assert(c@ =~= m@.flakeref + seq!['#'] + joined_key(m@.key));
        }
        t.push(c);
    }
    if uniq_fr {
        let mut d = nix_str_safe(m.prefix.as_str());
        d.push('.');
        d.append(k.as_str());
        proof {
            assert(d@ =~= rendered_ident(m@.prefix) + seq!['.'] + joined_key(m@.key));
        }
        t.push(d);
    }
    proof {
        assert(t.deep_view() =~= completions_of(m@, uniq_fr, uniq_pf));
    }
    t
}

/// Inserts `s` into a strictly sorted list, keeping it strictly sorted:
/// a string already present is not inserted twice.
fn insert_sorted_unique(out: &mut Vec<String>, s: String)
    requires
        strictly_sorted(old(out).deep_view()),
    ensures
        strictly_sorted(final(out).deep_view()),
        forall|t: Seq<char>|
            final(out).deep_view().contains(t) <==> (old(out).deep_view().contains(t) || t == s@),
{
    let ghost dv0 = old(out).deep_view();
    let n = out.len();
    let mut i: usize = 0;
    loop
        invariant
            out.deep_view() == dv0,
            *out == *old(out),
            n == out@.len(),
            0 <= i <= n,
            forall|j: int| 0 <= j < i ==> lex_lt(#[trigger] dv0[j], s@),
        ensures
            out.deep_view() == dv0,
            *out == *old(out),
            0 <= i <= n,
            forall|j: int| 0 <= j < i ==> lex_lt(#[trigger] dv0[j], s@),
            i < n ==> !lex_lt(dv0[i as int], s@),
        decreases n - i,
    {
        if i == n {
            break ;
        }
        if !str_lex_lt(out[i].as_str(), s.as_str()) {
            break ;
        }
        i += 1;
    }
    if i < n {
        if str_eq(out[i].as_str(), s.as_str()) {
            proof {
                assert(dv0[i as int] == s@);
                assert(dv0.contains(s@));
            }
            return ;
        }
    }
    out.insert(i, s);
    proof {
        let dvf = out.deep_view();
        assert(out@ == old(out)@.insert(i as int, s));
        assert(dvf =~= dv0.insert(i as int, s@)) by {
            assert forall|k: int| 0 <= k < dvf.len() implies dvf[k] == dv0.insert(i as int, s@)[k]
            by {
                if k < i {
                    assert(out@[k] == old(out)@[k]);
                } else if k == i {
                    assert(out@[k] == s);
                } else {
                    assert(out@[k] == old(out)@[k - 1]);
                }
            }
        }
        if i < n {
            lemma_lex_total(s@, dv0[i as int]);
        }
        assert forall|p: int, q: int| 0 <= p < q < dvf.len() implies lex_lt(
            #[trigger] dvf[p],
            #[trigger] dvf[q],
        ) by {
            if q < i {
                assert(lex_lt(dv0[p], dv0[q]));
            } else if q == i {
                assert(lex_lt(dv0[p], s@));
            } else if p < i {
                assert(lex_lt(dv0[p], dv0[q - 1]));
            } else if p == i {
                assert(lex_lt(s@, dv0[i as int]));
                if q - 1 > i {
                    assert(lex_lt(dv0[i as int], dv0[q - 1]));
                    lemma_lex_trans(s@, dv0[i as int], dv0[q - 1]);
                }
            } else {
                assert(lex_lt(dv0[p - 1], dv0[q - 1]));
            }
        }
        assert forall|t: Seq<char>| dvf.contains(t) implies (dv0.contains(t) || t == s@) by {
            let idx = choose|idx: int| 0 <= idx < dvf.len() && dvf[idx] == t;
            if idx < i {
                assert(dv0[idx] == t);
            } else if idx > i {
                assert(dv0[idx - 1] == t);
            }
        }
        assert forall|t: Seq<char>| (dv0.contains(t) || t == s@) implies dvf.contains(t) by {
            if dv0.contains(t) {
                let idx = choose|idx: int| 0 <= idx < dv0.len() && dv0[idx] == t;
                if idx < i {
                    assert(dvf[idx] == t);
                } else {
                    assert(dvf[idx + 1] == t);
                }
            } else {
                assert(dvf[i as int] == t);
            }
        }
    }
}

/// Renders a resolver-match batch into the deduplicated, sorted list of
/// completion strings that start with the original input. The output holds
/// a string exactly when some match contributes it and the original input
/// is a literal prefix of it; it is strictly ascending, so duplicate-free.
pub fn complete_installable(matches: &Vec<ResolvedMatch>, installable_str: &str) -> (r: Vec<String>)
    ensures
        strictly_sorted(r.deep_view()),
        forall|t: Seq<char>|
            r.deep_view().contains(t) <==> (installable_str@.is_prefix_of(t) && all_completions(
                match_views(matches@),
                all_flakerefs_eq(match_views(matches@)),
                all_prefixes_eq(match_views(matches@)),
            ).contains(t)),
        forall|i: int|
            0 <= i < r.deep_view().len() ==> installable_str@.is_prefix_of(
                #[trigger] r.deep_view()[i],
            ),
{
    let ghost ms = match_views(matches@);
    let uniq_fr = all_flakerefs_equal(matches);
    let uniq_pf = all_prefixes_equal(matches);

    let mut all: Vec<String> = Vec::new();
    let mut mi: usize = 0;
    proof {
        assert(ms.take(0) =~= Seq::<MatchModel>::empty());
        assert(all.deep_view() =~= all_completions(ms.take(0), uniq_fr, uniq_pf));
    }
    while mi < matches.len()
        invariant
            ms == match_views(matches@),
            uniq_fr == all_flakerefs_eq(ms),
            uniq_pf == all_prefixes_eq(ms),
            0 <= mi <= matches@.len(),
            all.deep_view() == all_completions(ms.take(mi as int), uniq_fr, uniq_pf),
        decreases matches@.len() - mi,
    {
        let ghost all_before = all.deep_view();
        let mut cands = candidates_for(&matches[mi], uniq_fr, uniq_pf);
        let ghost cands_dv = cands.deep_view();
        all.append(&mut cands);
        proof {
            assert(ms.take(mi + 1).drop_last() =~= ms.take(mi as int));
            assert(ms.take(mi + 1).last() == ms[mi as int]);
            assert(ms[mi as int] == matches@[mi as int]@);
            assert(all.deep_view() =~= all_before + cands_dv);
            assert(all.deep_view() =~= all_completions(ms.take(mi + 1), uniq_fr, uniq_pf));
        }
        mi += 1;
    }
    proof {
        assert(ms.take(matches@.len() as int) =~= ms);
    }
    let ghost all_dv = all.deep_view();

    let mut out: Vec<String> = Vec::new();
    let mut j: usize = 0;
    while j < all.len()
        invariant
            all_dv == all.deep_view(),
            0 <= j <= all@.len(),
            strictly_sorted(out.deep_view()),
            forall|t: Seq<char>|
                out.deep_view().contains(t) <==> (installable_str@.is_prefix_of(t) && exists|jj: int|
                    0 <= jj < j && all_dv[jj] == t),
        decreases all@.len() - j,
    {
        let keep = str_starts_with(all[j].as_str(), installable_str);
        if keep {
            let item = all[j].clone();
            proof {
                assert(item@ == all_dv[j as int]);
            }
            insert_sorted_unique(&mut out, item);
        }
        proof {
            assert forall|t: Seq<char>|
                out.deep_view().contains(t) <==> (installable_str@.is_prefix_of(t) && exists|
                jj: int|
                    0 <= jj < j + 1 && all_dv[jj] == t) by {
                if out.deep_view().contains(t) {
                    if !(installable_str@.is_prefix_of(t) && exists|jj: int|
                        0 <= jj < j && all_dv[jj] == t) {
                        assert(keep && t == all_dv[j as int]);
                    }
                } else {
                    if installable_str@.is_prefix_of(t) && exists|jj: int|
                        0 <= jj < j + 1 && all_dv[jj] == t {
                        let jj = choose|jj: int| 0 <= jj < j + 1 && all_dv[jj] == t;
                        assert(jj == j);
                        assert(false);
                    }
                }
            }
        }
        j += 1;
    }
    proof {
        assert forall|t: Seq<char>|
            out.deep_view().contains(t) <==> (installable_str@.is_prefix_of(t) && all_completions(
                ms,
                all_flakerefs_eq(ms),
                all_prefixes_eq(ms),
            ).contains(t)) by {
            if out.deep_view().contains(t) {
                let jj = choose|jj: int| 0 <= jj < all_dv.len() && all_dv[jj] == t;
                assert(all_dv.contains(t));
            }
            if installable_str@.is_prefix_of(t) && all_completions(
                ms,
                all_flakerefs_eq(ms),
                all_prefixes_eq(ms),
            ).contains(t) {
                let jj = choose|jj: int| 0 <= jj < all_dv.len() && all_dv[jj] == t;
                assert(0 <= jj < all@.len() && all_dv[jj] == t);
            }
        }
        assert forall|i: int|
            0 <= i < out.deep_view().len() implies installable_str@.is_prefix_of(
            #[trigger] out.deep_view()[i],
        ) by {
            assert(out.deep_view().contains(out.deep_view()[i]));
        }
    }
    out
}

/// With a single flake reference and a single prefix across the batch,
/// every match's bare key that passes the input filter is in the output.
pub proof fn lemma_bare_key_present(
    ms: Seq<MatchModel>,
    out: Seq<Seq<char>>,
    input: Seq<char>,
    i: int,
)
    requires
        all_flakerefs_eq(ms),
        all_prefixes_eq(ms),
        0 <= i < ms.len(),
        forall|t: Seq<char>|
            out.contains(t) <==> (input.is_prefix_of(t) && all_completions(
                ms,
                all_flakerefs_eq(ms),
                all_prefixes_eq(ms),
            ).contains(t)),
        input.is_prefix_of(joined_key(ms[i].key)),
    ensures
        out.contains(joined_key(ms[i].key)),
{
    let k = joined_key(ms[i].key);
    let cs = completions_of(ms[i], true, true);
    let sys_len: int = match ms[i].system {
        Some(_) => if ms[i].explicit_system {
            2
        } else {
            0
        },
        None => 0,
    };
    assert(cs[1 + sys_len] == k);
    assert(cs.contains(k));
    lemma_all_completions_contains(ms, true, true, k);
    assert(all_completions(ms, true, true).contains(k));
}

} // verus!
