use codeln::config::Config;
use codeln::filter::FileFilter;

fn filter_with(
    include_ext: Vec<&str>,
    exclude_ext: Vec<&str>,
    exclude_dirs: Vec<&str>,
    exclude_files: Vec<&str>,
) -> FileFilter {
    let config = Config {
        include_ext: include_ext.into_iter().map(String::from).collect(),
        exclude_ext: exclude_ext.into_iter().map(String::from).collect(),
        exclude_dirs: exclude_dirs.into_iter().map(String::from).collect(),
        exclude_files: exclude_files.into_iter().map(String::from).collect(),
        ..Config::default()
    };
    FileFilter::new(&config)
}

#[test]
fn exclude_ext_rejects_matching_files() {
    let filter = filter_with(vec![], vec!["log"], vec![], vec![]);
    assert!(!filter.should_process_file("app.log"));
    assert!(filter.should_process_file("app.rs"));
}

#[test]
fn include_ext_is_an_allow_list_that_overrides_exclude_ext() {
    let filter = filter_with(vec!["rs"], vec!["rs"], vec![], vec![]);
    assert!(filter.should_process_file("app.rs"));
    assert!(!filter.should_process_file("app.py"));
}

#[test]
fn exclude_files_matches_by_exact_name_not_extension() {
    let filter = filter_with(vec![], vec![], vec![], vec!["Cargo.lock"]);
    assert!(!filter.should_process_file("Cargo.lock"));
    assert!(filter.should_process_file("other.lock"));
}

#[test]
fn exclude_dirs_matches_by_directory_name() {
    let filter = filter_with(vec![], vec![], vec!["node_modules"], vec![]);
    assert!(!filter.should_process_dir("/repo/node_modules"));
    assert!(filter.should_process_dir("/repo/src"));
}

#[test]
fn extensionless_files_are_processed_when_not_explicitly_excluded() {
    let filter = filter_with(vec![], vec![], vec![], vec![]);
    assert!(filter.should_process_file("Makefile"));
}

#[test]
fn empty_extension_entry_matches_extensionless_files() {
    let filter = filter_with(vec![""], vec![], vec![], vec![]);
    assert!(filter.should_process_file("Makefile"));
    assert!(!filter.should_process_file("main.rs"));
}

#[test]
fn dotfiles_have_no_extension() {
    let filter = filter_with(vec![], vec!["bashrc"], vec![], vec![]);
    assert!(filter.should_process_file(".bashrc"));
    let filter = filter_with(vec![], vec!["gz"], vec![], vec![]);
    assert!(!filter.should_process_file("dir/archive.tar.gz"));
}

#[test]
fn paths_without_a_file_name_are_not_files_and_not_pruned() {
    let filter = filter_with(vec![], vec![], vec![".."], vec![]);
    assert!(!filter.should_process_file("/"));
    assert!(filter.should_process_dir("/"));
    assert!(filter.should_process_dir("a/.."));
}

#[test]
fn file_names_are_judged_by_name_and_extension() {
    let filter = filter_with(vec![], vec!["log"], vec![], vec!["Cargo.lock"]);
    assert!(!filter.should_process_name("Cargo.lock"));
    assert!(!filter.should_process_name("x.log"));
    assert!(filter.should_process_name("x.rs"));
    assert!(filter.should_process_name("log"));
}
