//! The per-command installable registry: one immutable configuration record
//! per command kind, defined once and never mutated. The records say which
//! derivation kinds a command accepts, which default prefixes and flake
//! references resolution starts from, and how an invocation is phrased.

use vstd::prelude::*;
use vstd::string::StringExecFns;

verus! {

/// What a resolved target may represent, per command.
#[derive(Clone, Copy, Debug, PartialEq, Eq, Structural)]
pub enum DerivationKind {
    Package,
    Shell,
    App,
    Template,
    Bundler,
}

/// One command's immutable configuration.
pub struct InstallableConfig {
    pub arg_flag: Option<String>,
    pub derivation_kinds: Vec<DerivationKind>,
    pub default_prefixes: Vec<(String, bool)>,
    pub default_flakerefs: Vec<String>,
    pub subcommand: String,
    pub processor: Option<String>,
}

/// The package-style default prefixes: `packages` and `legacyPackages`,
/// both taking the default system.
pub open spec fn standard_prefixes_spec(ps: Seq<(String, bool)>) -> bool {
    ps.len() == 2 && ps[0].0@ == "packages"@ && ps[0].1 == true && ps[1].0@ == "legacyPackages"@
        && ps[1].1 == true
}

/// The default flake references: the current project, then the `flox`
/// channel.
pub open spec fn standard_flakerefs_spec(fs: Seq<String>) -> bool {
    fs.len() == 2 && fs[0]@ == "."@ && fs[1]@ == "flox"@
}

fn standard_prefixes() -> (r: Vec<(String, bool)>)
    ensures
        standard_prefixes_spec(r@),
{
    let mut r: Vec<(String, bool)> = Vec::new();
    r.push((String::from_str("packages"), true));
    r.push((String::from_str("legacyPackages"), true));
    r
}

fn named_prefix(name: &str, applies_default_system: bool) -> (r: Vec<(String, bool)>)
    ensures
        r@.len() == 1,
        r@[0].0@ == name@,
        r@[0].1 == applies_default_system,
{
    let mut r: Vec<(String, bool)> = Vec::new();
    r.push((String::from_str(name), applies_default_system));
    r
}

fn standard_flakerefs() -> (r: Vec<String>)
    ensures
        standard_flakerefs_spec(r@),
{
    let mut r: Vec<String> = Vec::new();
    r.push(String::from_str("."));
    r.push(String::from_str("flox"));
    r
}

/// The command kind that selects a template when initializing a project.
#[derive(Default, Debug, Clone)]
pub struct TemplateInstallable;

impl TemplateInstallable {
    pub fn config() -> (r: InstallableConfig)
        ensures
            r.arg_flag matches Some(f) && f@ == "--template"@,
            r.derivation_kinds@ == seq![DerivationKind::Template],
            r.default_prefixes@.len() == 1 && r.default_prefixes@[0].0@ == "templates"@
                && r.default_prefixes@[0].1 == false,
            standard_flakerefs_spec(r.default_flakerefs@),
            r.subcommand@ == "init"@,
            r.processor matches Some(p) && p@
                == "if builtins.length key < 1 || builtins.elemAt key 0 != \"_init\" then { description = item.description; } else null"@,
    {
        let mut kinds: Vec<DerivationKind> = Vec::new();
        kinds.push(DerivationKind::Template);
        InstallableConfig {
            arg_flag: Some(String::from_str("--template")),
            derivation_kinds: kinds,
            default_prefixes: named_prefix("templates", false),
            default_flakerefs: standard_flakerefs(),
            subcommand: String::from_str("init"),
            processor: Some(
                String::from_str(
                    "if builtins.length key < 1 || builtins.elemAt key 0 != \"_init\" then { description = item.description; } else null",
                ),
            ),
        }
    }
}

/// The command kind behind `flox build`.
#[derive(Default, Debug, Clone)]
pub struct BuildInstallable;

impl BuildInstallable {
    pub fn config() -> (r: InstallableConfig)
        ensures
            r.arg_flag is None,
            r.derivation_kinds@ == seq![DerivationKind::Package],
            standard_prefixes_spec(r.default_prefixes@),
            standard_flakerefs_spec(r.default_flakerefs@),
            r.subcommand@ == "build"@,
            r.processor is None,
    {
        let mut kinds: Vec<DerivationKind> = Vec::new();
        kinds.push(DerivationKind::Package);
        InstallableConfig {
            arg_flag: None,
            derivation_kinds: kinds,
            default_prefixes: standard_prefixes(),
            default_flakerefs: standard_flakerefs(),
            subcommand: String::from_str("build"),
            processor: None,
        }
    }
}

/// The command kind behind `flox develop`: packages and shells alike.
#[derive(Default, Debug, Clone)]
pub struct DevelopInstallable;

impl DevelopInstallable {
    pub fn config() -> (r: InstallableConfig)
        ensures
            r.arg_flag is None,
            r.derivation_kinds@ == seq![DerivationKind::Package, DerivationKind::Shell],
            standard_prefixes_spec(r.default_prefixes@),
            standard_flakerefs_spec(r.default_flakerefs@),
            r.subcommand@ == "develop"@,
            r.processor is None,
    {
        let mut kinds: Vec<DerivationKind> = Vec::new();
        kinds.push(DerivationKind::Package);
        kinds.push(DerivationKind::Shell);
        InstallableConfig {
            arg_flag: None,
            derivation_kinds: kinds,
            default_prefixes: standard_prefixes(),
            default_flakerefs: standard_flakerefs(),
            subcommand: String::from_str("develop"),
            processor: None,
        }
    }
}

/// The command kind behind `flox publish`.
#[derive(Default, Debug, Clone)]
pub struct PublishInstallable;

impl PublishInstallable {
    pub fn config() -> (r: InstallableConfig)
        ensures
            r.arg_flag is None,
            r.derivation_kinds@ == seq![DerivationKind::Package],
            standard_prefixes_spec(r.default_prefixes@),
            standard_flakerefs_spec(r.default_flakerefs@),
            r.subcommand@ == "publish"@,
            r.processor is None,
    {
        let mut kinds: Vec<DerivationKind> = Vec::new();
        kinds.push(DerivationKind::Package);
        InstallableConfig {
            arg_flag: None,
            derivation_kinds: kinds,
            default_prefixes: standard_prefixes(),
            default_flakerefs: standard_flakerefs(),
            subcommand: String::from_str("publish"),
            processor: None,
        }
    }
}

/// The command kind behind `flox run`: packages and apps alike.
#[derive(Default, Debug, Clone)]
pub struct RunInstallable;

impl RunInstallable {
    pub fn config() -> (r: InstallableConfig)
        ensures
            r.arg_flag is None,
            r.derivation_kinds@ == seq![DerivationKind::Package, DerivationKind::App],
            standard_prefixes_spec(r.default_prefixes@),
            standard_flakerefs_spec(r.default_flakerefs@),
            r.subcommand@ == "run"@,
            r.processor is None,
    {
        let mut kinds: Vec<DerivationKind> = Vec::new();
        kinds.push(DerivationKind::Package);
        kinds.push(DerivationKind::App);
        InstallableConfig {
            arg_flag: None,
            derivation_kinds: kinds,
            default_prefixes: standard_prefixes(),
            default_flakerefs: standard_flakerefs(),
            subcommand: String::from_str("run"),
            processor: None,
        }
    }
}

/// The command kind behind `flox shell`.
#[derive(Default, Debug, Clone)]
pub struct ShellInstallable;

impl ShellInstallable {
    pub fn config() -> (r: InstallableConfig)
        ensures
            r.arg_flag is None,
            r.derivation_kinds@ == seq![DerivationKind::Package],
            standard_prefixes_spec(r.default_prefixes@),
            standard_flakerefs_spec(r.default_flakerefs@),
            r.subcommand@ == "shell"@,
            r.processor is None,
    {
        let mut kinds: Vec<DerivationKind> = Vec::new();
        kinds.push(DerivationKind::Package);
        InstallableConfig {
            arg_flag: None,
            derivation_kinds: kinds,
            default_prefixes: standard_prefixes(),
            default_flakerefs: standard_flakerefs(),
            subcommand: String::from_str("shell"),
            processor: None,
        }
    }
}

/// The target being bundled by `flox bundle`.
#[derive(Default, Debug, Clone)]
pub struct BundleInstallable;

impl BundleInstallable {
    pub fn config() -> (r: InstallableConfig)
        ensures
            r.arg_flag is None,
            r.derivation_kinds@ == seq![DerivationKind::Package],
            standard_prefixes_spec(r.default_prefixes@),
            standard_flakerefs_spec(r.default_flakerefs@),
            r.subcommand@ == "bundle"@,
            r.processor is None,
    {
        let mut kinds: Vec<DerivationKind> = Vec::new();
        kinds.push(DerivationKind::Package);
        InstallableConfig {
            arg_flag: None,
            derivation_kinds: kinds,
            default_prefixes: standard_prefixes(),
            default_flakerefs: standard_flakerefs(),
            subcommand: String::from_str("bundle"),
            processor: None,
        }
    }
}

/// The bundler applied by `flox bundle`, selected with `--bundler`.
#[derive(Default, Debug, Clone)]
pub struct BundlerInstallable;

impl BundlerInstallable {
    pub fn config() -> (r: InstallableConfig)
        ensures
            r.arg_flag matches Some(f) && f@ == "--bundler"@,
            r.derivation_kinds@ == seq![DerivationKind::Bundler],
            r.default_prefixes@.len() == 1 && r.default_prefixes@[0].0@ == "bundlers"@
                && r.default_prefixes@[0].1 == false,
            standard_flakerefs_spec(r.default_flakerefs@),
            r.subcommand@ == "bundle"@,
            r.processor is None,
    {
        let mut kinds: Vec<DerivationKind> = Vec::new();
        kinds.push(DerivationKind::Bundler);
        InstallableConfig {
            arg_flag: Some(String::from_str("--bundler")),
            derivation_kinds: kinds,
            default_prefixes: named_prefix("bundlers", false),
            default_flakerefs: standard_flakerefs(),
            subcommand: String::from_str("bundle"),
            processor: None,
        }
    }
}

} // verus!
