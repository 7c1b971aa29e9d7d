//! The command-line options of one run, as plain values. The program that
//! parses the command line fills this struct.

use vstd::prelude::*;

verus! {

/// Options given on the command line; `None` and `false` mean "not given".
pub struct Args {
    /// Directory or file to analyze.
    pub path: Option<String>,
    /// TOML configuration file.
    pub config: Option<String>,
    /// Only include files with these extensions.
    pub include_ext: Option<Vec<String>>,
    /// Exclude files with these extensions.
    pub exclude_ext: Option<Vec<String>>,
    /// Directories to exclude.
    pub exclude_dirs: Option<Vec<String>>,
    /// Files to exclude by exact name.
    pub exclude_files: Option<Vec<String>>,
    /// Fold blank lines into the code count.
    pub no_count_blank: bool,
    /// Fold comment lines into the code count.
    pub no_count_comments: bool,
    /// Follow symbolic links during traversal.
    pub follow_links: bool,
    /// Maximum directory depth to traverse.
    pub max_depth: Option<usize>,
    /// Show per-file line counts.
    pub show_details: bool,
    /// Show files and directories that the filters excluded.
    pub show_excluded: bool,
    /// Output format (text, json, csv).
    pub format: Option<String>,
    /// Generate a default configuration file instead of counting.
    pub init: bool,
}

} // verus!
