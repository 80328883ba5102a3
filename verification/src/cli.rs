//! Small command-line records: verbosity, the top-level argument record, the
//! `--prefix` and `--bash-passthru` probes, and the help filter. Parsing the
//! actual process arguments into these records is the surrounding binary's
//! business; the decisions made over the parsed records live here.

use vstd::prelude::*;
use vstd::string::StringExecFns;

use crate::text::str_eq;

verus! {

/// How much detail to print: counted `-v` flags, or quiet.
#[derive(Clone, Debug)]
pub enum Verbosity {
    Verbose(usize),
    Quiet,
}

impl Default for Verbosity {
    /// The default is verbose at level zero.
    fn default() -> (r: Self)
        ensures
            r == Verbosity::Verbose(0usize),
    {
        Verbosity::Verbose(0)
    }
}

/// The top-level argument record.
pub struct FloxArgs {
    pub verbosity: Verbosity,
    pub debug: bool,
}

/// The `--prefix` probe: print the installation prefix and quit early.
#[derive(Debug)]
pub struct Prefix {
    pub prefix: bool,
    pub catchall: Vec<String>,
}

impl Prefix {
    /// Whether the probe fired: the decision made once the flags are parsed.
    pub fn check(&self) -> (r: bool)
        ensures
            r == self.prefix,
    {
        self.prefix
    }
}

/// The `--bash-passthru` probe: hand every remaining argument through.
#[derive(Debug)]
pub struct BashPassthru {
    pub do_passthru: bool,
    pub flox_args: Vec<String>,
}

impl BashPassthru {
    /// The remaining arguments when the flag was given, nothing otherwise.
    pub fn check(self) -> (r: Option<Vec<String>>)
        ensures
            r == if self.do_passthru {
                Some(self.flox_args)
            } else {
                None::<Vec<String>>
            },
    {
        if self.do_passthru {
            Some(self.flox_args)
        } else {
            None
        }
    }
}

/// Filters the help flags out of a completion word: `--help` and `-h`
/// produce nothing, anything else passes through.
pub fn not_help(s: String) -> (r: Option<String>)
    ensures
        r == if s@ == "--help"@ || s@ == "-h"@ {
            None::<String>
        } else {
            Some(s)
        },
{
    if str_eq(s.as_str(), "--help") || str_eq(s.as_str(), "-h") {
        None
    } else {
        Some(s)
    }
}

pub struct Flake {}

impl Flake {
    /// Accepts a path string naming a prospective default flake; nothing is
    /// decided from it here.
    pub fn determine_default_flake(path_str: String) {
        let _ = path_str;
    }
}

} // verus!
