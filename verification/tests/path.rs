use codeln::path::{name_extension, path_extension, relative_display};

#[test]
fn relative_display_strips_the_root() {
    assert_eq!(relative_display("/repo/src/main.rs", "/repo"), "src/main.rs");
    assert_eq!(relative_display("/repo/main.rs", "/repo/main.rs"), "main.rs");
    assert_eq!(relative_display("/other/x.rs", "/repo"), "/other/x.rs");
}

#[test]
fn extensions_follow_the_final_dot() {
    assert_eq!(name_extension("a.tar.gz"), Some("gz".to_string()));
    assert_eq!(name_extension("a."), Some("".to_string()));
    assert_eq!(name_extension(".bashrc"), None);
    assert_eq!(name_extension("..x"), Some("x".to_string()));
    assert_eq!(name_extension("Makefile"), None);
    assert_eq!(path_extension("dir.d/Makefile"), None);
    assert_eq!(path_extension("dir/x.RS"), Some("RS".to_string()));
}

#[test]
fn shown_path_prefers_what_is_left_then_the_file_name() {
    assert_eq!(codeln::path::shown_path("/r/a/b.rs", Some("a/b.rs".to_string()), Some("b.rs".to_string())), "a/b.rs");
    assert_eq!(codeln::path::shown_path("/r/b.rs", Some(String::new()), Some("b.rs".to_string())), "b.rs");
    assert_eq!(codeln::path::shown_path("/", Some(String::new()), None), "/");
    assert_eq!(codeln::path::shown_path("/x", None, Some("x".to_string())), "/x");
}
