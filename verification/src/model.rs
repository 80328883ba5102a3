//! The data model: candidate references produced by the parser, resolved
//! matches handed back by the external resolver, the fully qualified
//! installable handed to execution, and the error kinds of this layer.

use vstd::prelude::*;
use vstd::string::StringExecFns;

use crate::text::rendered_ident;

verus! {

/// A candidate structured reference parsed from one raw string: an optional
/// source (a flake reference, or `.` for the current project) and an ordered
/// attribute path. No path segment is ever empty.
pub struct RawReference {
    pub source: Option<String>,
    pub attr_path: Vec<String>,
}

/// Mathematical image of a `RawReference`.
pub struct RawRefModel {
    pub source: Option<Seq<char>>,
    pub attr_path: Seq<Seq<char>>,
}

impl View for RawReference {
    type V = RawRefModel;

    open spec fn view(&self) -> RawRefModel {
        RawRefModel { source: self.source.deep_view(), attr_path: self.attr_path.deep_view() }
    }
}

impl RawReference {
    /// The parser's invariant: every attribute-path segment is non-empty.
    pub open spec fn wf(&self) -> bool {
        forall|i: int| 0 <= i < self@.attr_path.len() ==> (#[trigger] self@.attr_path[i]).len() > 0
    }
}

/// One match returned by the external resolver: where it was found
/// (flake reference), under which attribute category (prefix), the
/// remaining key segments, and whether a system was named explicitly.
pub struct ResolvedMatch {
    pub flakeref: String,
    pub prefix: String,
    pub key: Vec<String>,
    pub explicit_system: bool,
    pub system: Option<String>,
}

/// Mathematical image of a `ResolvedMatch`.
pub struct MatchModel {
    pub flakeref: Seq<char>,
    pub prefix: Seq<char>,
    pub key: Seq<Seq<char>>,
    pub explicit_system: bool,
    pub system: Option<Seq<char>>,
}

impl View for ResolvedMatch {
    type V = MatchModel;

    open spec fn view(&self) -> MatchModel {
        MatchModel {
            flakeref: self.flakeref@,
            prefix: self.prefix@,
            key: self.key.deep_view(),
            explicit_system: self.explicit_system,
            system: self.system.deep_view(),
        }
    }
}

/// The views of a batch of matches, in order.
pub open spec fn match_views(ms: Seq<ResolvedMatch>) -> Seq<MatchModel> {
    ms.map_values(|m: ResolvedMatch| m@)
}

/// A fully qualified target: flake reference plus full attribute path.
pub struct Installable {
    pub flakeref: String,
    pub attr_path: String,
}

/// Mathematical image of an `Installable`.
pub struct InstallableModel {
    pub flakeref: Seq<char>,
    pub attr_path: Seq<char>,
}

impl View for Installable {
    type V = InstallableModel;

    open spec fn view(&self) -> InstallableModel {
        InstallableModel { flakeref: self.flakeref@, attr_path: self.attr_path@ }
    }
}

/// The rendering of a match's key: its segments, each escaped where needed,
/// joined with `.`.
pub open spec fn joined_key(key: Seq<Seq<char>>) -> Seq<char>
    decreases key.len(),
{
    if key.len() == 0 {
        Seq::empty()
    } else if key.len() == 1 {
        rendered_ident(key[0])
    } else {
        joined_key(key.drop_last()) + seq!['.'] + rendered_ident(key.last())
    }
}

/// Renders a key: each segment escaped where needed, joined with `.`.
pub fn join_key(key: &Vec<String>) -> (r: String)
    ensures
        r@ == joined_key(key.deep_view()),
{
    let ghost kv = key.deep_view();
    let mut r = String::new();
    let mut i: usize = 0;
    proof {
        assert(kv.take(0) =~= Seq::<Seq<char>>::empty());
    }
    while i < key.len()
        invariant
            0 <= i <= key@.len(),
            kv == key.deep_view(),
            r@ == joined_key(kv.take(i as int)),
        decreases key@.len() - i,
    {
        if i > 0 {
            r.push('.');
        }
        let piece = crate::text::nix_str_safe(key[i].as_str());
        r.append(piece.as_str());
        proof {
            assert(kv[i as int] == key@[i as int]@);
            assert(kv.take(i + 1).drop_last() =~= kv.take(i as int));
            assert(kv.take(i + 1).last() == kv[i as int]);
            if i == 0 {
                assert(r@ =~= rendered_ident(kv[0]));
            } else {
                assert(r@ =~= joined_key(kv.take(i as int)) + seq!['.'] + rendered_ident(
                    kv[i as int],
                ));
            }
        }
        i += 1;
    }
    proof {
        assert(kv.take(key@.len() as int) =~= kv);
    }
    r
}

/// The installable a match stands for: its flake reference, and an attribute
/// path made of the escaped prefix followed by the escaped key segments.
pub open spec fn installable_of(m: MatchModel) -> InstallableModel {
    InstallableModel {
        flakeref: m.flakeref,
        attr_path: if m.key.len() == 0 {
            rendered_ident(m.prefix)
        } else {
            rendered_ident(m.prefix) + seq!['.'] + joined_key(m.key)
        },
    }
}

impl ResolvedMatch {
    /// Turns this match into the installable it stands for.
    pub fn installable(&self) -> (r: Installable)
        ensures
            r@ == installable_of(self@),
    {
        let mut attr_path = crate::text::nix_str_safe(self.prefix.as_str());
        if self.key.len() > 0 {
            attr_path.push('.');
            let k = join_key(&self.key);
            attr_path.append(k.as_str());
        }
        let r = Installable { flakeref: self.flakeref.clone(), attr_path };
        proof {
            assert(r@.attr_path =~= installable_of(self@).attr_path);
        }
        r
    }
}

/// Everything that can go wrong in this layer. The string carried by
/// `ResolutionFailed` is the external resolver's own message, passed through
/// unchanged; the one carried by `AmbiguousNonInteractive` is the full
/// enumerated-choices message.
#[derive(Debug)]
pub enum ResolveError {
    InvalidReference,
    ResolutionFailed(String),
    NotFound,
    AmbiguousNonInteractive(String),
    SelectionCancelled,
}

impl ResolveError {
    /// The text a caller should show for this error.
    pub fn describe(self) -> (r: String)
        ensures
            r@ == match self {
                ResolveError::InvalidReference => "invalid installable reference"@,
                ResolveError::ResolutionFailed(s) => s@,
                ResolveError::NotFound => "No matching installables found"@,
                ResolveError::AmbiguousNonInteractive(s) => s@,
                ResolveError::SelectionCancelled => "selection prompt was cancelled"@,
            },
    {
        match self {
            ResolveError::InvalidReference => String::from_str("invalid installable reference"),
            ResolveError::ResolutionFailed(s) => s,
            ResolveError::NotFound => String::from_str("No matching installables found"),
            ResolveError::AmbiguousNonInteractive(s) => s,
            ResolveError::SelectionCancelled => String::from_str("selection prompt was cancelled"),
        }
    }
}

} // verus!
