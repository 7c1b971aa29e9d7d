use codeln::config::Config;
use codeln::init::generate_default_config_content;

#[test]
fn template_parses_into_config_and_matches_defaults() {
    let content = generate_default_config_content();
    let parsed: toml::Table = content.parse().expect("template must be valid TOML");
    let defaults = Config::default();

    assert_eq!(parsed["show_details"].as_bool(), Some(defaults.show_details));
    assert_eq!(parsed["show_excluded"].as_bool(), Some(defaults.show_excluded));
    assert_eq!(parsed["count_blank"].as_bool(), Some(defaults.count_blank));
    assert_eq!(parsed["count_comments"].as_bool(), Some(defaults.count_comments));
    assert_eq!(parsed["follow_links"].as_bool(), Some(defaults.follow_links));
    assert_eq!(parsed["format"].as_str(), Some(defaults.format.as_str()));
    let exclude_ext: Vec<&str> = parsed["exclude_ext"]
        .as_array()
        .unwrap()
        .iter()
        .map(|v| v.as_str().unwrap())
        .collect();
    assert_eq!(exclude_ext, vec!["lock", "log", "tmp", "cache"]);
}

#[test]
fn template_excludes_every_default_directory() {
    let parsed: toml::Table = generate_default_config_content().parse().unwrap();
    let dirs: Vec<&str> = parsed["exclude_dirs"]
        .as_array()
        .unwrap()
        .iter()
        .map(|v| v.as_str().unwrap())
        .collect();
    for d in Config::default().exclude_dirs {
        assert!(dirs.contains(&d.as_str()), "{d}");
    }
    assert_eq!(parsed["path"].as_str(), Some("."));
}
