use codeln::cli::Args;
use codeln::config::{default_exclude_dirs, strip_leading_dots, Config, ConfigError};

fn base_args() -> Args {
    Args {
        path: None,
        config: None,
        include_ext: None,
        exclude_ext: None,
        exclude_dirs: None,
        exclude_files: None,
        no_count_blank: false,
        no_count_comments: false,
        follow_links: false,
        max_depth: None,
        show_details: false,
        show_excluded: false,
        format: None,
        init: false,
    }
}

fn load(args: &Args) -> Result<Config, ConfigError> {
    let merged = Config::default().apply_args(args);
    let exists = std::path::Path::new(&merged.path).exists();
    merged.validate(exists)
}

#[test]
fn default_config_matches_documented_defaults() {
    let config = Config::default();
    assert!(config.count_blank);
    assert!(config.count_comments);
    assert!(!config.show_details);
    assert!(!config.show_excluded);
    assert_eq!(config.format, "text");
    assert!(config.exclude_dirs.contains(&"node_modules".to_string()));
}

#[test]
fn missing_path_is_an_error() {
    let mut args = base_args();
    args.path = Some("/this/path/does/not/exist/hopefully".to_string());
    assert!(load(&args).is_err());
}

#[test]
fn cli_path_overrides_default() {
    let mut args = base_args();
    args.path = Some("src".to_string());
    let config = load(&args).unwrap();
    assert_eq!(config.path, "src");
}

#[test]
fn no_count_flags_turn_off_defaults() {
    let mut args = base_args();
    args.no_count_blank = true;
    args.no_count_comments = true;
    let config = load(&args).unwrap();
    assert!(!config.count_blank);
    assert!(!config.count_comments);
}

#[test]
fn include_ext_strips_leading_dot() {
    let mut args = base_args();
    args.include_ext = Some(vec![".rs".to_string(), "py".to_string()]);
    let config = load(&args).unwrap();
    assert_eq!(config.include_ext, vec!["rs".to_string(), "py".to_string()]);
}

#[test]
fn cli_excludes_are_additive_not_replacing() {
    let mut args = base_args();
    args.exclude_dirs = Some(vec!["custom_dir".to_string()]);
    let config = load(&args).unwrap();
    assert!(config.exclude_dirs.contains(&"target".to_string()));
    assert!(config.exclude_dirs.contains(&"custom_dir".to_string()));
}

#[test]
fn cli_format_overrides_default() {
    let mut args = base_args();
    args.format = Some("json".to_string());
    let config = load(&args).unwrap();
    assert_eq!(config.format, "json");
}

#[test]
fn format_defaults_to_text_without_cli_override() {
    let args = base_args();
    let config = load(&args).unwrap();
    assert_eq!(config.format, "text");
}

#[test]
fn file_settings_also_strip_leading_dots_and_keep_their_excludes() {
    let file = Config {
        include_ext: vec![".rs".to_string(), "py".to_string()],
        exclude_ext: vec![".log".to_string()],
        ..Config::default()
    };
    let mut args = base_args();
    args.exclude_ext = Some(vec!["..tmp".to_string()]);
    let config = file.apply_args(&args);
    assert_eq!(config.include_ext, vec!["rs".to_string(), "py".to_string()]);
    assert_eq!(config.exclude_ext, vec!["log".to_string(), "tmp".to_string()]);
}

#[test]
fn invalid_format_is_rejected_after_the_path_check() {
    let file = Config { format: "yaml".to_string(), ..Config::default() };
    let merged = file.apply_args(&base_args());
    match merged.clone().validate(true) {
        Err(ConfigError::InvalidFormat(f)) => assert_eq!(f, "yaml"),
        other => panic!("unexpected {:?}", other),
    }
    match merged.validate(false) {
        Err(e) => assert_eq!(e.message(), "Path not found: ."),
        Ok(_) => panic!("missing path accepted"),
    }
}

#[test]
fn error_messages_name_the_offending_value() {
    let e = ConfigError::InvalidFormat("xml".to_string());
    assert_eq!(e.message(), "Invalid format 'xml' in config file (expected one of: text, json, csv)");
}

#[test]
fn strip_leading_dots_removes_every_leading_dot_only() {
    let v = strip_leading_dots(&["..a.b".to_string(), "c".to_string(), ".".to_string()]);
    assert_eq!(v, vec!["a.b".to_string(), "c".to_string(), "".to_string()]);
}

#[test]
fn default_excluded_directories_are_the_documented_ones() {
    assert_eq!(
        default_exclude_dirs(),
        vec![".git", ".svn", ".hg", "target", "node_modules", "dist", "build", ".idea", ".vscode",
            "__pycache__", ".pytest_cache", "vendor"]
    );
}

#[test]
fn command_line_flags_only_turn_settings_on_or_off() {
    let file = Config { show_details: true, follow_links: true, max_depth: Some(3), ..Config::default() };
    let mut args = base_args();
    args.show_excluded = true;
    let c = file.apply_args(&args);
    assert!(c.show_details && c.show_excluded && c.follow_links);
    assert_eq!(c.max_depth, Some(3));
    let mut args = base_args();
    args.max_depth = Some(1);
    let c = Config::default().apply_args(&args);
    assert_eq!(c.max_depth, Some(1));
}

#[test]
fn command_line_format_replaces_an_invalid_file_format() {
    let file = Config { format: "yaml".to_string(), ..Config::default() };
    let args = Args { format: Some("json".to_string()), ..base_args() };
    let merged = file.apply_args(&args);
    assert_eq!(merged.clone().validate(true).unwrap().format, "json");
    let file = Config { format: "csv".to_string(), ..Config::default() };
    let args = Args { format: Some("yaml".to_string()), ..base_args() };
    match file.apply_args(&args).validate(true) {
        Err(ConfigError::InvalidFormat(f)) => assert_eq!(f, "yaml"),
        other => panic!("unexpected {:?}", other),
    }
}
