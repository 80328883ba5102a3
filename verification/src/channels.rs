//! The channel set registered at start-up: each entry pairs a channel name
//! with the flake reference it stands for. The registry that consumes these
//! pairs belongs to the surrounding binary; the set itself is fixed here.

use vstd::prelude::*;
use vstd::string::StringExecFns;

verus! {

/// The six default channels, in registration order.
pub fn default_channels() -> (r: Vec<(String, String)>)
    ensures
        r@.len() == 6,
        r@[0].0@ == "flox"@ && r@[0].1@ == "github:flox/floxpkgs"@,
        r@[1].0@ == "nixpkgs"@ && r@[1].1@ == "github:flox/nixpkgs/stable"@,
        r@[2].0@ == "nixpkgs-flox"@ && r@[2].1@ == "github:flox/nixpkgs-flox/master"@,
        r@[3].0@ == "nixpkgs-stable"@ && r@[3].1@ == "github:flox/nixpkgs/stable"@,
        r@[4].0@ == "nixpkgs-staging"@ && r@[4].1@ == "github:flox/nixpkgs/staging"@,
        r@[5].0@ == "nixpkgs-unstable"@ && r@[5].1@ == "github:flox/nixpkgs/unstable"@,
{
    let mut r: Vec<(String, String)> = Vec::new();
    r.push((String::from_str("flox"), String::from_str("github:flox/floxpkgs")));
    r.push((String::from_str("nixpkgs"), String::from_str("github:flox/nixpkgs/stable")));
    r.push((String::from_str("nixpkgs-flox"), String::from_str("github:flox/nixpkgs-flox/master")));
    r.push((String::from_str("nixpkgs-stable"), String::from_str("github:flox/nixpkgs/stable")));
    r.push((String::from_str("nixpkgs-staging"), String::from_str("github:flox/nixpkgs/staging")));
    r.push(
        (String::from_str("nixpkgs-unstable"), String::from_str("github:flox/nixpkgs/unstable")),
    );
    r
}

} // verus!
