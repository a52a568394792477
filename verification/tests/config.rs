use globset::GlobSet;
use structloglint::config::{
    default_excludes, discovery_step, Config, ConfigError, DiscoveryStep, Overrides, RawConfig,
    RuleSeverities,
};
use structloglint::models::{LogLevel, RuleSeverity};
use structloglint::rules::case_style::CaseStyle;

fn is_excluded(set: &GlobSet, path: &str) -> bool {
    let candidate = globset::Candidate::new(path);
    set.is_match_candidate(&candidate)
}

#[test]
fn default_config_values() {
    let config = Config::default();
    assert_eq!(config.case_style, CaseStyle::SnakeCase);
    assert_eq!(config.max_event_length, 30);
    assert_eq!(config.min_loop_log_level, LogLevel::Info);
}

#[test]
fn default_excludes_venv_directories() {
    let config = Config::default();
    let ov = config.build_exclude_globset().unwrap();

    assert!(is_excluded(&ov, ".venv/app.py"));
    assert!(is_excluded(&ov, "venv/app.py"));
    assert!(is_excluded(&ov, "some/deep/path/.venv/lib/module.py"));
    assert!(is_excluded(&ov, "another/venv/something.py"));
}

#[test]
fn default_excludes_node_modules_and_cache() {
    let config = Config::default();
    let ov = config.build_exclude_globset().unwrap();

    assert!(is_excluded(&ov, "node_modules/some_lib/file.py"));
    assert!(is_excluded(&ov, "project/node_modules/pkg/index.py"));
    assert!(is_excluded(&ov, "__pycache__/cached.py"));
    assert!(is_excluded(&ov, "migrations/001_init.py"));
}

#[test]
fn default_excludes_dot_directories() {
    let config = Config::default();
    let ov = config.build_exclude_globset().unwrap();

    assert!(is_excluded(&ov, ".git/index.py"));
    assert!(is_excluded(&ov, ".tox/some.py"));
    assert!(is_excluded(&ov, ".nox/some.py"));
    assert!(is_excluded(&ov, ".mypy_cache/something.py"));
    assert!(is_excluded(&ov, ".pytest_cache/v/cache/lastfailed"));
    assert!(is_excluded(&ov, ".ruff_cache/0.0.0/1234567890.py"));
}

#[test]
fn default_excludes_pyc_and_pyo_files() {
    let config = Config::default();
    let ov = config.build_exclude_globset().unwrap();

    assert!(is_excluded(&ov, "foo.pyc"));
    assert!(is_excluded(&ov, "bar.pyo"));
    assert!(is_excluded(&ov, "some/deep/path.pyc"));
}

#[test]
fn default_excludes_allows_normal_python_files() {
    let config = Config::default();
    let ov = config.build_exclude_globset().unwrap();

    assert!(!is_excluded(&ov, "src/main.py"));
    assert!(!is_excluded(&ov, "app.py"));
    assert!(!is_excluded(&ov, "tests/test_app.py"));
    assert!(!is_excluded(&ov, "my_module/utils.py"));
    assert!(!is_excluded(&ov, "some_venv/app.py"));
    assert!(!is_excluded(&ov, "environment/app.py"));
}

#[test]
fn extend_exclude_adds_patterns() {
    let mut config = Config::default();
    config.extend_exclude = Some(vec!["my_internal/**".to_string()]);

    let ov = config.build_exclude_globset().unwrap();

    assert!(is_excluded(&ov, ".venv/app.py"));
    assert!(is_excluded(&ov, "my_internal/secret.py"));
    assert!(!is_excluded(&ov, "src/main.py"));
}

#[test]
fn exclude_overrides_defaults() {
    let mut config = Config::default();
    config.exclude = Some(vec!["src/**".to_string(), "tests/test_*.py".to_string()]);

    let ov = config.build_exclude_globset().unwrap();

    assert!(is_excluded(&ov, "src/main.py"));
    assert!(is_excluded(&ov, "tests/test_app.py"));
    assert!(is_excluded(&ov, "tests/test_utils.py"));
    assert!(
        !is_excluded(&ov, ".venv/app.py"),
        ".venv should NOT be excluded when explicitly overriding excludes"
    );
    assert!(!is_excluded(&ov, "app.py"));
}

#[test]
fn empty_exclude_disables_all_excludes() {
    let mut config = Config::default();
    config.exclude = Some(vec![]);

    let ov = config.build_exclude_globset().unwrap();

    assert!(!is_excluded(&ov, ".venv/app.py"));
    assert!(!is_excluded(&ov, "node_modules/pkg.py"));
    assert!(!is_excluded(&ov, "src/main.py"));
}

#[test]
fn empty_extend_exclude_does_not_affect_defaults() {
    let mut config = Config::default();
    config.extend_exclude = Some(vec![]);

    let ov = config.build_exclude_globset().unwrap();

    assert!(is_excluded(&ov, ".venv/app.py"));
    assert!(is_excluded(&ov, "node_modules/pkg.py"));
    assert!(!is_excluded(&ov, "src/main.py"));
}

#[test]
fn star_does_not_cross_directories() {
    let mut config = Config::default();
    config.exclude = Some(vec!["tests/test_*.py".to_string()]);
    let ov = config.build_exclude_globset().unwrap();
    assert!(is_excluded(&ov, "tests/test_app.py"));
    assert!(!is_excluded(&ov, "tests/test_dir/app.py"));
}

#[test]
fn invalid_exclude_pattern_is_an_error() {
    let mut config = Config::default();
    config.exclude = Some(vec!["src/**".to_string(), "a[".to_string()]);
    assert!(config.build_exclude_globset().is_err());
}

#[test]
fn exclude_patterns_follow_the_configuration() {
    let mut config = Config::default();
    let defaults = default_excludes();
    assert_eq!(defaults.len(), 19);
    assert_eq!(defaults[0], "**/.venv/**");
    assert_eq!(defaults[18], "**/migrations/**");
    assert_eq!(config.exclude_patterns(), defaults);

    config.extend_exclude = Some(vec!["extra/**".to_string()]);
    let mut expected = default_excludes();
    expected.push("extra/**".to_string());
    assert_eq!(config.exclude_patterns(), expected);

    config.exclude = Some(vec!["only/**".to_string()]);
    assert_eq!(config.exclude_patterns(), vec!["only/**".to_string()]);
}

fn raw() -> RawConfig {
    RawConfig {
        event_case_style: None,
        max_event_length: None,
        loop_log_level: None,
        check_imports: None,
        select: None,
        ignore: None,
        rules: None,
        exclude: None,
        extend_exclude: None,
        include_patterns: None,
    }
}

#[test]
fn raw_config_without_values_gives_the_defaults() {
    let config = raw().into_config().unwrap();
    assert_eq!(config.case_style, CaseStyle::SnakeCase);
    assert_eq!(config.max_event_length, 30);
    assert_eq!(config.min_loop_log_level, LogLevel::Info);
    assert!(config.check_imports);
    assert!(config.select.is_none());
    assert!(config.ignore.is_none());
    assert!(config.rules.is_empty());
    assert!(config.exclude.is_none());
    assert!(config.extend_exclude.is_none());
    assert!(config.include_patterns.is_none());
}

#[test]
fn raw_config_values_are_carried_over() {
    let mut r = raw();
    r.event_case_style = Some("kebab-case".to_string());
    r.max_event_length = Some(50);
    r.loop_log_level = Some("warning".to_string());
    r.check_imports = Some(false);
    r.select = Some(vec!["SL001".to_string()]);
    r.ignore = Some(vec!["SL009".to_string()]);
    r.rules = Some(vec![
        ("SL008".to_string(), "warning".to_string()),
        ("SL007".to_string(), "off".to_string()),
        ("SL008".to_string(), "error".to_string()),
    ]);
    r.exclude = Some(vec!["a/**".to_string()]);
    r.extend_exclude = Some(vec!["b/**".to_string()]);
    r.include_patterns = Some(vec!["src/**".to_string()]);
    let config = r.into_config().unwrap();
    assert_eq!(config.case_style, CaseStyle::KebabCase);
    assert_eq!(config.max_event_length, 50);
    assert_eq!(config.min_loop_log_level, LogLevel::Warning);
    assert!(!config.check_imports);
    assert_eq!(config.select, Some(vec!["SL001".to_string()]));
    assert_eq!(config.ignore, Some(vec!["SL009".to_string()]));
    assert_eq!(config.rules.len(), 2);
    assert_eq!(config.rules.get("SL008"), Some(&RuleSeverity::Error));
    assert_eq!(config.rules.get("SL007"), Some(&RuleSeverity::Off));
    assert_eq!(config.rules.get("SL001"), None);
    assert_eq!(config.exclude, Some(vec!["a/**".to_string()]));
    assert_eq!(config.extend_exclude, Some(vec!["b/**".to_string()]));
    assert_eq!(config.include_patterns, Some(vec!["src/**".to_string()]));
}

#[test]
fn raw_config_invalid_case_style_is_reported_first() {
    let mut r = raw();
    r.event_case_style = Some("weird".to_string());
    r.loop_log_level = Some("loud".to_string());
    match r.into_config() {
        Err(ConfigError::InvalidCaseStyle(s)) => assert_eq!(s, "weird"),
        other => panic!("unexpected: {other:?}"),
    }
}

#[test]
fn raw_config_invalid_log_level_is_an_error() {
    let mut r = raw();
    r.loop_log_level = Some("loud".to_string());
    r.rules = Some(vec![("SL001".to_string(), "bogus".to_string())]);
    match r.into_config() {
        Err(ConfigError::InvalidLogLevel(s)) => assert_eq!(s, "loud"),
        other => panic!("unexpected: {other:?}"),
    }
}

#[test]
fn raw_config_reports_the_first_invalid_severity() {
    let mut r = raw();
    r.rules = Some(vec![
        ("SL001".to_string(), "error".to_string()),
        ("SL002".to_string(), "fatal".to_string()),
        ("SL003".to_string(), "bogus".to_string()),
    ]);
    match r.into_config() {
        Err(ConfigError::InvalidRuleSeverity(s)) => assert_eq!(s, "fatal"),
        other => panic!("unexpected: {other:?}"),
    }
}

#[test]
fn config_error_messages() {
    assert_eq!(ConfigError::Io("gone".to_string()).message(), "failed to read config file: gone");
    assert_eq!(ConfigError::Toml("bad".to_string()).message(), "failed to parse config file: bad");
    assert_eq!(
        ConfigError::InvalidCaseStyle("x".to_string()).message(),
        "invalid case style: x"
    );
    assert_eq!(ConfigError::InvalidLogLevel("y".to_string()).message(), "invalid log level: y");
    assert_eq!(
        ConfigError::InvalidRuleSeverity("z".to_string()).message(),
        "invalid rule severity: z"
    );
}

#[test]
fn rule_severities_insert_replaces_and_reports_the_old_value() {
    let mut m = RuleSeverities::new();
    assert!(m.is_empty());
    assert_eq!(m.insert("SL001".to_string(), RuleSeverity::Warning), None);
    assert_eq!(m.insert("SL002".to_string(), RuleSeverity::Off), None);
    assert_eq!(m.insert("SL001".to_string(), RuleSeverity::Error), Some(RuleSeverity::Warning));
    assert_eq!(m.len(), 2);
    assert_eq!(m.get("SL001"), Some(&RuleSeverity::Error));
    let copy = m.duplicate();
    assert_eq!(copy.get("SL002"), Some(&RuleSeverity::Off));
    assert_eq!(copy.len(), 2);
}

fn overrides() -> Overrides {
    Overrides {
        event_case_style: None,
        max_event_length: None,
        loop_log_level: None,
        select: None,
        ignore: None,
        exclude: None,
        extend_exclude: None,
        check_imports: false,
        no_check_imports: false,
    }
}

#[test]
fn overrides_replace_the_given_settings() {
    let mut config = Config::default();
    let mut o = overrides();
    o.event_case_style = Some("camelCase".to_string());
    o.max_event_length = Some(12);
    o.loop_log_level = Some("error".to_string());
    o.select = Some(vec!["SL001".to_string()]);
    o.extend_exclude = Some(vec!["gen/**".to_string()]);
    o.no_check_imports = true;
    assert_eq!(config.apply_overrides(o), Ok(()));
    assert_eq!(config.case_style, CaseStyle::CamelCase);
    assert_eq!(config.max_event_length, 12);
    assert_eq!(config.min_loop_log_level, LogLevel::Error);
    assert_eq!(config.select, Some(vec!["SL001".to_string()]));
    assert!(config.ignore.is_none());
    assert!(config.exclude.is_none());
    assert_eq!(config.extend_exclude, Some(vec!["gen/**".to_string()]));
    assert!(!config.check_imports);
}

#[test]
fn overrides_without_settings_change_nothing() {
    let mut config = Config::default();
    config.check_imports = false;
    assert_eq!(config.apply_overrides(overrides()), Ok(()));
    assert_eq!(config.case_style, CaseStyle::SnakeCase);
    assert_eq!(config.max_event_length, 30);
    assert!(!config.check_imports);
}

#[test]
fn check_imports_flag_wins_over_no_check_imports() {
    let mut config = Config::default();
    config.check_imports = false;
    let mut o = overrides();
    o.check_imports = true;
    o.no_check_imports = true;
    assert_eq!(config.apply_overrides(o), Ok(()));
    assert!(config.check_imports);
}

#[test]
fn override_with_unknown_case_style_is_an_error() {
    let mut config = Config::default();
    let mut o = overrides();
    o.event_case_style = Some("shouty".to_string());
    o.max_event_length = Some(5);
    assert_eq!(config.apply_overrides(o), Err("invalid case style: shouty".to_string()));
    assert_eq!(config.max_event_length, 30);
}

#[test]
fn override_with_unknown_log_level_is_an_error() {
    let mut config = Config::default();
    let mut o = overrides();
    o.max_event_length = Some(5);
    o.loop_log_level = Some("verbose".to_string());
    o.select = Some(vec!["SL001".to_string()]);
    assert_eq!(config.apply_overrides(o), Err("invalid log level: verbose".to_string()));
    assert_eq!(config.max_event_length, 5);
    assert!(config.select.is_none());
}

#[test]
fn discovery_prefers_standalone_then_pyproject_then_parent() {
    assert_eq!(discovery_step(true, true, true), DiscoveryStep::UseStandalone);
    assert_eq!(discovery_step(false, true, true), DiscoveryStep::UsePyproject);
    assert_eq!(discovery_step(false, false, true), DiscoveryStep::GoUp);
    assert_eq!(discovery_step(false, false, false), DiscoveryStep::UseDefault);
}
