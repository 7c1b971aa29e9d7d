use codeln::config::Config;
use codeln::counter::{CountResults, FileCount, LanguageStats};
use codeln::output::{decimal_string, files_by_total, languages_by_code, output_format, write_csv, OutputFormat};

fn sample_results() -> CountResults {
    let mut results = CountResults {
        total_files: 1,
        total_lines: 4,
        blank_lines: 1,
        comment_lines: 1,
        code_lines: 2,
        ..CountResults::default()
    };
    results.file_counts.push((
        "a.rs".to_string(),
        FileCount {
            total: 4,
            blank: 1,
            comments: 1,
            code: 2,
        },
    ));
    results
}

#[test]
fn csv_includes_file_rows_when_show_details_is_set() {
    let results = sample_results();
    let config = Config {
        show_details: true,
        ..Config::default()
    };

    let output = String::from_utf8(write_csv(&results, &config).unwrap()).unwrap();

    assert!(output.contains("a.rs,4,1,1,2"));
    assert!(output.contains("TOTAL,4,1,1,2"));
}

#[test]
fn csv_omits_file_rows_when_show_details_is_unset() {
    let results = sample_results();
    let config = Config::default();

    let output = String::from_utf8(write_csv(&results, &config).unwrap()).unwrap();

    assert!(!output.contains("a.rs"));
    assert!(output.contains("TOTAL,4,1,1,2"));
}

#[test]
fn csv_report_is_header_rows_and_total_in_order() {
    let mut results = sample_results();
    results.file_counts.push(("b,c.rs".to_string(), FileCount { total: 10, blank: 0, comments: 0, code: 10 }));
    let config = Config { show_details: true, ..Config::default() };
    let output = String::from_utf8(write_csv(&results, &config).unwrap()).unwrap();
    assert_eq!(
        output,
        "file,total,blank,comments,code\na.rs,4,1,1,2\n\"b,c.rs\",10,0,0,10\nTOTAL,4,1,1,2\n"
    );
}

#[test]
fn output_format_dispatches_on_the_configured_name() {
    let mut config = Config::default();
    assert_eq!(output_format(&config), OutputFormat::Text);
    config.format = "json".to_string();
    assert_eq!(output_format(&config), OutputFormat::Json);
    config.format = "csv".to_string();
    assert_eq!(output_format(&config), OutputFormat::Csv);
    config.format = "yaml".to_string();
    assert_eq!(output_format(&config), OutputFormat::Text);
}

#[test]
fn text_rows_are_ranked_largest_first_then_by_name() {
    let mut results = CountResults::default();
    for (name, total) in [("a.rs", 3), ("b.rs", 9), ("c.rs", 3), ("d.rs", 1)] {
        results.file_counts.push((name.to_string(), FileCount { total, blank: 0, comments: 0, code: total }));
    }
    let names: Vec<String> = files_by_total(&results).into_iter().map(|(k, _)| k).collect();
    assert_eq!(names, vec!["b.rs", "a.rs", "c.rs", "d.rs"]);
    for (name, code) in [("Go", 5), ("Rust", 7), ("Zig", 5)] {
        results.language_stats.push((name.to_string(), LanguageStats { files: 1, lines: code, code_lines: code }));
    }
    let langs: Vec<String> = languages_by_code(&results).into_iter().map(|(k, _)| k).collect();
    assert_eq!(langs, vec!["Rust", "Go", "Zig"]);
}

#[test]
fn decimal_string_writes_numbers_as_to_string_does() {
    assert_eq!(decimal_string(0), "0");
    assert_eq!(decimal_string(7), "7");
    assert_eq!(decimal_string(10), "10");
    assert_eq!(decimal_string(1234567890), "1234567890");
    assert_eq!(decimal_string(usize::MAX), usize::MAX.to_string());
}

#[test]
fn csv_quotes_fields_with_quotes_and_line_breaks() {
    let mut results = sample_results();
    results.file_counts.clear();
    results.file_counts.push(("say \"hi\".rs".to_string(), FileCount { total: 1, blank: 0, comments: 0, code: 1 }));
    results.file_counts.push(("two\nlines.rs".to_string(), FileCount { total: 2, blank: 0, comments: 0, code: 2 }));
    let config = Config { show_details: true, ..Config::default() };
    let output = String::from_utf8(write_csv(&results, &config).unwrap()).unwrap();
    assert_eq!(
        output,
        "file,total,blank,comments,code\n\"say \"\"hi\"\".rs\",1,0,0,1\n\"two\nlines.rs\",2,0,0,2\nTOTAL,4,1,1,2\n"
    );
}
