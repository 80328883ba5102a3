use flox_installables::cli::{BashPassthru, Flake, Prefix, Verbosity, not_help};
use flox_installables::installables::{
    BuildInstallable, BundleInstallable, BundlerInstallable, DerivationKind, DevelopInstallable,
    PublishInstallable, RunInstallable, ShellInstallable, TemplateInstallable,
};
use flox_installables::{vec_len, vec_not_empty};

#[test]
fn standard_command_configs() {
    for (config, subcommand) in [
        (BuildInstallable::config(), "build"),
        (PublishInstallable::config(), "publish"),
        (ShellInstallable::config(), "shell"),
        (BundleInstallable::config(), "bundle"),
    ] {
        assert_eq!(config.subcommand, subcommand);
        assert_eq!(config.derivation_kinds, vec![DerivationKind::Package]);
        assert_eq!(
            config.default_prefixes,
            vec![("packages".to_string(), true), ("legacyPackages".to_string(), true)]
        );
        assert_eq!(config.default_flakerefs, vec![".".to_string(), "flox".to_string()]);
        assert!(config.arg_flag.is_none());
        assert!(config.processor.is_none());
    }
}

#[test]
fn develop_and_run_accept_more_kinds() {
    assert_eq!(
        DevelopInstallable::config().derivation_kinds,
        vec![DerivationKind::Package, DerivationKind::Shell]
    );
    assert_eq!(
        RunInstallable::config().derivation_kinds,
        vec![DerivationKind::Package, DerivationKind::App]
    );
}

#[test]
fn template_config_carries_flag_and_processor() {
    let c = TemplateInstallable::config();
    assert_eq!(c.arg_flag.as_deref(), Some("--template"));
    assert_eq!(c.subcommand, "init");
    assert_eq!(c.derivation_kinds, vec![DerivationKind::Template]);
    assert_eq!(c.default_prefixes, vec![("templates".to_string(), false)]);
    assert!(c.processor.as_deref().unwrap().contains("_init"));
}

#[test]
fn bundler_config_carries_flag() {
    let c = BundlerInstallable::config();
    assert_eq!(c.arg_flag.as_deref(), Some("--bundler"));
    assert_eq!(c.subcommand, "bundle");
    assert_eq!(c.derivation_kinds, vec![DerivationKind::Bundler]);
    assert_eq!(c.default_prefixes, vec![("bundlers".to_string(), false)]);
}

#[test]
fn verbosity_defaults_to_zero() {
    assert!(matches!(Verbosity::default(), Verbosity::Verbose(0)));
}

#[test]
fn not_help_filters_help_flags() {
    assert_eq!(not_help("--help".to_string()), None);
    assert_eq!(not_help("-h".to_string()), None);
    assert_eq!(not_help("install".to_string()), Some("install".to_string()));
}

#[test]
fn bash_passthru_check() {
    let on = BashPassthru { do_passthru: true, flox_args: vec!["x".to_string()] };
    assert_eq!(on.check(), Some(vec!["x".to_string()]));
    let off = BashPassthru { do_passthru: false, flox_args: vec!["x".to_string()] };
    assert_eq!(off.check(), None);
}

#[test]
fn prefix_check() {
    let p = Prefix { prefix: true, catchall: vec![] };
    assert!(p.check());
    let q = Prefix { prefix: false, catchall: vec!["rest".to_string()] };
    assert!(!q.check());
}

#[test]
fn flake_accepts_path() {
    Flake::determine_default_flake("/some/project".to_string());
}

#[test]
fn vec_helpers() {
    assert_eq!(vec_len(vec![1, 2, 3]), 3);
    assert!(vec_not_empty(vec![0]));
    assert!(!vec_not_empty(Vec::<i32>::new()));
}

#[test]
fn default_channel_set() {
    let chans = flox_installables::channels::default_channels();
    assert_eq!(chans.len(), 6);
    assert_eq!(chans[0], ("flox".to_string(), "github:flox/floxpkgs".to_string()));
    assert_eq!(chans[2], ("nixpkgs-flox".to_string(), "github:flox/nixpkgs-flox/master".to_string()));
    assert_eq!(chans[5], ("nixpkgs-unstable".to_string(), "github:flox/nixpkgs/unstable".to_string()));
}
