//! Configuration values, the alias table, and path handling.

use tmz::cli::{ColorOption, CommonOpts};
use tmz::errors::{AuthenticationError, CoreError};
use tmz::config::{AppConfig, LogLevel, LoggingConfig, PathsConfig, RuntimeConfig};
use tmz::paths::{default_config_header, expand_path, AppPaths};

fn opts() -> CommonOpts {
    CommonOpts {
        config: None,
        quiet: false,
        verbose: 0,
        debug: false,
        trace: false,
        json: false,
        no_color: false,
        color: ColorOption::Auto,
        dry_run: false,
        assume_yes: false,
    }
}

#[test]
fn defaults_follow_the_design() {
    let config = AppConfig::default();
    assert_eq!(config.profile, "default");
    assert!(config.schema.is_none());
    assert_eq!(config.people.len(), 0);
    assert!(matches!(config.logging.level, LogLevel::Info));
    let runtime = RuntimeConfig::default();
    assert_eq!(runtime.timeout, Some(60));
    assert!(runtime.fail_fast);
    assert!(runtime.parallelism.is_none());
    let logging = LoggingConfig::default();
    assert!(logging.file.is_none());
    let paths = PathsConfig::default();
    assert!(paths.data_dir.is_none() && paths.state_dir.is_none());
}

#[test]
fn profile_override_applies_only_when_given() {
    let config = AppConfig::default();
    let same = config.clone().with_profile_override(None);
    assert_eq!(same.profile, "default");
    let changed = config.with_profile_override(Some("work".to_string()));
    assert_eq!(changed.profile, "work");
}

#[test]
fn alias_lookup_is_exact_then_case_insensitive() {
    let mut config = AppConfig::default();
    config.add_alias("Alex", "19:abc");
    config.add_alias("alex", "19:lower");
    // Exact match wins over the case-insensitive one.
    assert_eq!(config.resolve_alias("alex"), Some("19:lower"));
    assert_eq!(config.resolve_alias("Alex"), Some("19:abc"));
    // A case-insensitive match takes the first entry in table order.
    assert_eq!(config.resolve_alias("ALEX"), Some("19:abc"));
    assert_eq!(config.resolve_alias("missing"), None);
}

#[test]
fn alias_lookup_folds_beyond_ascii() {
    let mut config = AppConfig::default();
    config.add_alias("\u{dc}ber", "19:u");
    assert_eq!(config.resolve_alias("\u{fc}ber"), Some("19:u"));
    assert_eq!(config.resolve_alias("\u{dc}BER"), Some("19:u"));
}

#[test]
fn add_alias_overwrites_one_key() {
    let mut config = AppConfig::default();
    config.add_alias("alex", "19:old");
    config.add_alias("kim", "19:kim");
    config.add_alias("alex", "19:new");
    assert_eq!(config.people.len(), 2);
    assert_eq!(config.resolve_alias("alex"), Some("19:new"));
    assert_eq!(config.resolve_alias("kim"), Some("19:kim"));
}

#[test]
fn log_levels_name_themselves() {
    assert_eq!(LogLevel::Error.name(), "error");
    assert_eq!(LogLevel::Trace.name(), "trace");
    assert_eq!(LogLevel::default().name(), "info");
}

#[test]
fn verbosity_flags_pick_the_level() {
    let mut o = opts();
    assert!(matches!(o.effective_log_level(), LogLevel::Warn));
    o.verbose = 1;
    assert!(matches!(o.effective_log_level(), LogLevel::Info));
    o.verbose = 3;
    assert!(matches!(o.effective_log_level(), LogLevel::Trace));
    o.debug = true;
    assert!(matches!(o.effective_log_level(), LogLevel::Debug));
    o.trace = true;
    assert!(matches!(o.effective_log_level(), LogLevel::Trace));
}

#[test]
fn paths_compose_their_messages() {
    let paths = AppPaths {
        config_file: "/etc/app/config.toml".to_string(),
        data_dir: "/var/data".to_string(),
        state_dir: "/var/state".to_string(),
    };
    assert_eq!(
        paths.describe(),
        "config: /etc/app/config.toml, data: /var/data, state: /var/state"
    );
    assert_eq!(
        paths.log_dry_run(),
        "dry-run: would ensure data dir /var/data and state dir /var/state"
    );
    assert_eq!(
        default_config_header("/etc/app/config.toml"),
        "# Configuration for tmz\n# File: /etc/app/config.toml\n\n"
    );
}

#[test]
fn overrides_replace_only_configured_directories() {
    let paths = AppPaths {
        config_file: "/c".to_string(),
        data_dir: "/d".to_string(),
        state_dir: "/s".to_string(),
    };
    let mut config = AppConfig::default();
    config.paths.data_dir = Some("/override/data".to_string());
    let applied = paths.apply_overrides(&config).unwrap();
    assert_eq!(applied.data_dir, "/override/data");
    assert_eq!(applied.state_dir, "/s");
    assert_eq!(applied.config_file, "/c");
}

#[test]
fn plain_paths_expand_to_themselves() {
    assert_eq!(expand_path("/plain/path").unwrap(), "/plain/path");
}

#[test]
fn failed_expansion_is_a_path_error() {
    let r = expand_path("${tmz_surely_undefined_variable_for_tests}");
    assert!(matches!(r, Err(CoreError::Path(_))));
}

#[test]
fn error_messages_carry_their_kind() {
    assert_eq!(CoreError::Config("bad value".to_string()).message(), "configuration error: bad value");
    assert_eq!(CoreError::Api("410".to_string()).message(), "API error: 410");
    assert_eq!(
        AuthenticationError::JwtError("missing exp claim".to_string()).message(),
        "JWT parsing error: missing exp claim"
    );
    assert_eq!(
        AuthenticationError::StorageError(CoreError::SecretNotFound("none".to_string())).message(),
        "token storage error: secret not found: none"
    );
}
