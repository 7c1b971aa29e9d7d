use codeln::config::Config;
use codeln::counter::{count_file_lines, FileCount, Walk};
use codeln::filter::FileFilter;

#[test]
fn classifies_blank_comment_and_code_lines() {
    let content = "// header comment\nfn main() {\n\n    code();\n}\n";
    let counts = count_file_lines(content, &Config::default());
    assert_eq!(counts.total, 5);
    assert_eq!(counts.comments, 1);
    assert_eq!(counts.blank, 1);
    assert_eq!(counts.code, 3);
}

#[test]
fn block_comments_span_multiple_lines() {
    let content = "/*\nstill a comment\n*/\ncode();\n";
    let counts = count_file_lines(content, &Config::default());
    assert_eq!(counts.comments, 3);
    assert_eq!(counts.code, 1);
}

#[test]
fn disabling_comment_counting_reclassifies_comments_as_code() {
    let config = Config {
        count_comments: false,
        ..Config::default()
    };
    let content = "// not counted as a comment\ncode();\n";
    let counts = count_file_lines(content, &config);
    assert_eq!(counts.comments, 0);
    assert_eq!(counts.code, 2);
}

#[test]
fn disabling_blank_counting_reclassifies_blanks_as_code() {
    let config = Config {
        count_blank: false,
        ..Config::default()
    };
    let content = "code();\n\n\ncode();\n";
    let counts = count_file_lines(content, &config);
    assert_eq!(counts.blank, 0);
    assert_eq!(counts.code, 4);
}

#[test]
fn empty_text_has_no_lines() {
    let counts = count_file_lines("", &Config::default());
    assert_eq!(counts, FileCount { total: 0, blank: 0, comments: 0, code: 0 });
}

#[test]
fn final_line_without_newline_is_counted() {
    let counts = count_file_lines("a\nb", &Config::default());
    assert_eq!(counts.total, 2);
    assert_eq!(counts.code, 2);
}

#[test]
fn crlf_line_endings_and_unicode_whitespace_are_trimmed() {
    let counts = count_file_lines("  // c\r\n\u{3000}\r\nx\r\n", &Config::default());
    assert_eq!(counts, FileCount { total: 3, blank: 1, comments: 1, code: 1 });
}

#[test]
fn single_line_block_comment_does_not_open_a_block() {
    let counts = count_file_lines("/* one */\ncode();\n/** doc\n still */\nx\n", &Config::default());
    assert_eq!(counts, FileCount { total: 5, blank: 0, comments: 3, code: 2 });
}

#[test]
fn hash_dash_and_markup_comments_are_recognized() {
    let counts = count_file_lines("# a\n-- b\n<!-- c -->\n- d\n<p>\n", &Config::default());
    assert_eq!(counts, FileCount { total: 5, blank: 0, comments: 3, code: 2 });
}

#[test]
fn blank_lines_inside_a_block_comment_stay_blank() {
    let counts = count_file_lines("/*\n\n*/\n", &Config::default());
    assert_eq!(counts, FileCount { total: 3, blank: 1, comments: 2, code: 0 });
}

#[test]
fn counts_always_partition_the_lines() {
    for (cb, cc) in [(true, true), (true, false), (false, true), (false, false)] {
        let config = Config { count_blank: cb, count_comments: cc, ..Config::default() };
        let c = count_file_lines("// x\n\n/*\ny\n*/\nz\n", &config);
        assert_eq!(c.total, 6);
        assert_eq!(c.total, c.blank + c.comments + c.code);
        if !cb {
            assert_eq!(c.blank, 0);
        }
        if !cc {
            assert_eq!(c.comments, 0);
        }
    }
}

fn details_config() -> Config {
    Config { show_details: true, ..Config::default() }
}

fn add(walk: &mut Walk, config: &Config, path: &str, root: &str, content: &str) {
    let filter = FileFilter::new(config);
    if walk.visit_file(&filter, config, path, root) {
        let c = count_file_lines(content, config);
        assert!(walk.can_add(&c));
        let added = walk.add_file(config, path, root, content);
        assert_eq!(added, c);
    }
}

#[test]
fn walk_groups_extensionless_files_under_other() {
    let config = details_config();
    let mut walk = Walk::new();
    add(&mut walk, &config, "/t/a.rs", "/t", "fn main() {}\n");
    add(&mut walk, &config, "/t/Makefile", "/t", "all:\n\techo hi\n");
    let r = walk.finish();
    assert_eq!(r.total_files, 2);
    let langs: Vec<&str> = r.language_stats.iter().map(|(k, _)| k.as_str()).collect();
    assert_eq!(langs, vec!["Other", "Rust"]);
    let code: usize = r.language_stats.iter().map(|(_, s)| s.code_lines).sum();
    assert_eq!(code, r.code_lines);
    let files: usize = r.language_stats.iter().map(|(_, s)| s.files).sum();
    assert_eq!(files, r.total_files);
}

#[test]
fn walk_prunes_excluded_directories_and_reports_them() {
    let config = Config { show_excluded: true, ..details_config() };
    let filter = FileFilter::new(&config);
    let mut walk = Walk::new();
    assert!(walk.visit_entry(&filter, &config, "/t", "/t", 0, true));
    assert!(walk.visit_entry(&filter, &config, "/t/a.rs", "/t", 1, false));
    assert!(!walk.visit_entry(&filter, &config, "/t/node_modules", "/t", 1, true));
    add(&mut walk, &config, "/t/a.rs", "/t", "fn main() {}\n");
    let r = walk.finish();
    assert_eq!(r.total_files, 1);
    assert_eq!(r.excluded_files, vec!["node_modules".to_string()]);
}

#[test]
fn walk_root_named_like_an_excluded_directory_is_still_entered() {
    let config = details_config();
    let filter = FileFilter::new(&config);
    let mut walk = Walk::new();
    assert!(walk.visit_entry(&filter, &config, "/t/vendor", "/t/vendor", 0, true));
}

#[test]
fn walk_single_file_root_keeps_its_file_name() {
    let config = details_config();
    let mut walk = Walk::new();
    add(&mut walk, &config, "/t/top.rs", "/t/top.rs", "fn main() {}\n");
    let r = walk.finish();
    assert_eq!(r.file_counts.len(), 1);
    assert_eq!(r.file_counts[0].0, "top.rs");
}

#[test]
fn walk_sorts_files_and_exclusions() {
    let config = Config {
        show_excluded: true,
        exclude_ext: vec!["log".to_string()],
        ..details_config()
    };
    let filter = FileFilter::new(&config);
    let mut walk = Walk::new();
    add(&mut walk, &config, "/t/z.rs", "/t", "a\n");
    add(&mut walk, &config, "/t/b.py", "/t", "a\nb\n");
    add(&mut walk, &config, "/t/y.log", "/t", "x\n");
    assert!(!walk.visit_entry(&filter, &config, "/t/target", "/t", 1, true));
    add(&mut walk, &config, "/t/a.log", "/t", "x\n");
    let r = walk.finish();
    let names: Vec<&str> = r.file_counts.iter().map(|(k, _)| k.as_str()).collect();
    assert_eq!(names, vec!["b.py", "z.rs"]);
    assert_eq!(r.excluded_files, vec!["a.log".to_string(), "target".to_string(), "y.log".to_string()]);
    assert_eq!(r.total_lines, 3);
}

#[test]
fn turning_blank_counting_off_moves_blanks_into_code() {
    let text = "a\n\n  \n// c\n/*\n\n*/\n";
    let on = count_file_lines(text, &Config::default());
    let off = count_file_lines(text, &Config { count_blank: false, ..Config::default() });
    assert_eq!(off.total, on.total);
    assert_eq!(off.blank, 0);
    assert_eq!(off.comments, on.comments);
    assert_eq!(off.code, on.code + on.blank);
}

#[test]
fn turning_comment_counting_off_moves_comments_into_code() {
    let text = "a\n\n# x\n/*\nb\n\n*/\n";
    let on = count_file_lines(text, &Config::default());
    let off = count_file_lines(text, &Config { count_comments: false, ..Config::default() });
    assert_eq!(off.total, on.total);
    assert_eq!(off.blank, on.blank);
    assert_eq!(off.comments, 0);
    assert_eq!(off.code, on.code + on.comments);
}

#[test]
fn walk_without_details_or_exclusions_keeps_neither() {
    let config = Config { exclude_ext: vec!["log".to_string()], ..Config::default() };
    let filter = FileFilter::new(&config);
    let mut walk = Walk::new();
    assert!(!walk.visit_entry(&filter, &config, "/t/target", "/t", 1, true));
    add(&mut walk, &config, "/t/a.log", "/t", "x\n");
    add(&mut walk, &config, "/t/a.rs", "/t", "x\n\n// y\n");
    let r = walk.finish();
    assert!(r.file_counts.is_empty());
    assert!(r.excluded_files.is_empty());
    assert_eq!((r.total_files, r.total_lines, r.blank_lines, r.comment_lines, r.code_lines), (1, 3, 1, 1, 1));
    assert_eq!(r.language_stats.len(), 1);
    assert_eq!(r.language_stats[0].0, "Rust");
    assert_eq!((r.language_stats[0].1.files, r.language_stats[0].1.lines, r.language_stats[0].1.code_lines), (1, 3, 1));
}

#[test]
fn can_add_refuses_totals_that_would_overflow() {
    let config = Config::default();
    let mut walk = Walk::new();
    add(&mut walk, &config, "/t/a.rs", "/t", "x\n");
    let big = usize::MAX - 1;
    assert!(walk.can_add(&FileCount { total: big, blank: 0, comments: 0, code: big }));
    assert!(!walk.can_add(&FileCount { total: usize::MAX, blank: 0, comments: 0, code: 0 }));
    assert!(!walk.can_add(&FileCount { total: 0, blank: 0, comments: 0, code: usize::MAX }));
    assert!(walk.can_add(&FileCount { total: 0, blank: 0, comments: 0, code: 0 }));
}

#[test]
fn accepted_file_that_is_never_read_is_not_counted() {
    let config = details_config();
    let filter = FileFilter::new(&config);
    let mut walk = Walk::new();
    assert!(walk.visit_file(&filter, &config, "/t/unreadable.rs", "/t"));
    add(&mut walk, &config, "/t/b.py", "/t", "# c\nx = 1\n\n");
    let r = walk.finish();
    assert_eq!((r.total_files, r.total_lines, r.blank_lines, r.comment_lines, r.code_lines), (1, 3, 1, 1, 1));
    assert_eq!(r.file_counts.len(), 1);
    assert_eq!(r.file_counts[0].0, "b.py");
    assert_eq!(r.language_stats.len(), 1);
    assert_eq!(r.language_stats[0].0, "Python");
    assert_eq!(r.language_stats[0].1.files, 1);
}

#[test]
fn walk_totals_sum_the_counted_files_per_language() {
    let config = Config::default();
    let mut walk = Walk::new();
    add(&mut walk, &config, "/t/a.rs", "/t", "a\n\n// c\n");
    add(&mut walk, &config, "/t/b.rs", "/t", "b\nc\n");
    add(&mut walk, &config, "/t/c.py", "/t", "# x\n");
    let r = walk.finish();
    assert_eq!((r.total_files, r.total_lines, r.blank_lines, r.comment_lines, r.code_lines), (3, 6, 1, 2, 3));
    let langs: Vec<(&str, usize, usize, usize)> = r
        .language_stats
        .iter()
        .map(|(k, s)| (k.as_str(), s.files, s.lines, s.code_lines))
        .collect();
    assert_eq!(langs, vec![("Python", 1, 1, 0), ("Rust", 2, 5, 3)]);
}
