//! Resolved run configuration: the defaults, the settings of a configuration
//! file, and the command-line overrides merged on top of them.

use vstd::prelude::*;
use crate::cli::Args;
use crate::text::{law_strip_dots, str_eq, strip_dots, trim_leading_dots};

verus! {

/// Effective settings for one run, after merging config file and CLI args.
#[derive(Debug, Clone)]
pub struct Config {
    pub path: String,
    pub include_ext: Vec<String>,
    pub exclude_ext: Vec<String>,
    pub exclude_dirs: Vec<String>,
    pub exclude_files: Vec<String>,
    pub show_details: bool,
    pub show_excluded: bool,
    pub count_blank: bool,
    pub count_comments: bool,
    pub follow_links: bool,
    pub max_depth: Option<usize>,
    pub format: String,
}

/// Why a configuration cannot be used.
#[derive(Debug, Clone)]
pub enum ConfigError {
    /// The path to analyze does not exist.
    PathNotFound(String),
    /// The output format is not one of text, json, csv.
    InvalidFormat(String),
}

/// The characters of each string of `v`.
pub open spec fn views(v: Seq<String>) -> Seq<Seq<char>> {
    v.map_values(|s: String| s@)
}

/// Each extension of `v` without its leading dots.
pub open spec fn stripped(v: Seq<Seq<char>>) -> Seq<Seq<char>> {
    v.map_values(|e: Seq<char>| strip_dots(e))
}

/// The directories excluded when nothing else is configured.
pub open spec fn default_dirs() -> Seq<Seq<char>> {
    seq![
        ".git"@,
        ".svn"@,
        ".hg"@,
        "target"@,
        "node_modules"@,
        "dist"@,
        "build"@,
        ".idea"@,
        ".vscode"@,
        "__pycache__"@,
        ".pytest_cache"@,
        "vendor"@,
    ]
}

/// The output formats a run accepts.
pub open spec fn valid_format(f: Seq<char>) -> bool {
    f == "text"@ || f == "json"@ || f == "csv"@
}

/// The path analyzed when none is configured.
pub fn default_path() -> (p: String)
    ensures
        p@ == "."@,
{
    ".".to_owned()
}

/// The value of a boolean setting that defaults to on.
pub fn default_true() -> (b: bool)
    ensures
        b,
{
    true
}

/// The output format used when none is configured.
pub fn default_format() -> (f: String)
    ensures
        f@ == "text"@,
{
    "text".to_owned()
}

/// The extensions excluded when nothing else is configured: none.
pub fn default_exclude_ext() -> (v: Vec<String>)
    ensures
        v@.len() == 0,
{
    Vec::new()
}

/// The directories excluded when nothing else is configured: common
/// version-control, build, dependency and editor directories.
pub fn default_exclude_dirs() -> (v: Vec<String>)
    ensures
        views(v@) == default_dirs(),
{
    let mut v: Vec<String> = Vec::new();
    v.push(".git".to_owned());
    v.push(".svn".to_owned());
    v.push(".hg".to_owned());
    v.push("target".to_owned());
    v.push("node_modules".to_owned());
    v.push("dist".to_owned());
    v.push("build".to_owned());
    v.push(".idea".to_owned());
    v.push(".vscode".to_owned());
    v.push("__pycache__".to_owned());
    v.push(".pytest_cache".to_owned());
    v.push("vendor".to_owned());
    assert(views(v@) =~= default_dirs());
    v
}

/// Strips the leading dots of each extension, so that `".rs"` and `"rs"`
/// mean the same.
pub fn strip_leading_dots(extensions: &[String]) -> (r: Vec<String>)
    ensures
        views(r@) == stripped(views(extensions@)),
{
    let mut r: Vec<String> = Vec::new();
    let mut i: usize = 0;
    while i < extensions.len()
        invariant
            0 <= i <= extensions@.len(),
            r@.len() == i,
            forall|j: int| 0 <= j < i ==> #[trigger] r@[j]@ == strip_dots(extensions@[j]@),
        decreases extensions.len() - i,
    {
        r.push(trim_leading_dots(extensions[i].as_str()));
        i = i + 1;
    }
    assert(views(r@) =~= stripped(views(extensions@)));
    r
}

/// Whether `format` names one of the supported output formats.
pub fn is_valid_format(format: &str) -> (b: bool)
    ensures
        b == valid_format(format@),
{
    str_eq(format, "text") || str_eq(format, "json") || str_eq(format, "csv")
}

/// Whether `c` holds the documented defaults.
pub open spec fn is_default(c: Config) -> bool {
    &&& c.path@ == "."@
    &&& c.include_ext@.len() == 0
    &&& c.exclude_ext@.len() == 0
    &&& views(c.exclude_dirs@) == default_dirs()
    &&& c.exclude_files@.len() == 0
    &&& !c.show_details
    &&& !c.show_excluded
    &&& c.count_blank
    &&& c.count_comments
    &&& !c.follow_links
    &&& c.max_depth is None
    &&& c.format@ == "text"@
}

/// The strings of an optional list given on the command line; none when
/// the option was not given.
pub open spec fn given(o: Option<Vec<String>>) -> Seq<Seq<char>> {
    match o {
        Some(v) => views(v@),
        None => Seq::empty(),
    }
}

/// What merging the command line `args` into `base` yields: excludes are
/// additive, every other setting given on the command line wins, and all
/// extensions lose their leading dots.
pub open spec fn merged(base: Config, args: Args, r: Config) -> bool {
    &&& r.path@ == (match args.path {
        Some(p) => p@,
        None => base.path@,
    })
    &&& views(r.include_ext@) == (match args.include_ext {
        Some(v) => stripped(views(v@)),
        None => stripped(views(base.include_ext@)),
    })
    &&& views(r.exclude_ext@) == stripped(views(base.exclude_ext@)) + stripped(
        given(args.exclude_ext),
    )
    &&& views(r.exclude_dirs@) == views(base.exclude_dirs@) + given(args.exclude_dirs)
    &&& views(r.exclude_files@) == views(base.exclude_files@) + given(args.exclude_files)
    &&& r.show_details == (base.show_details || args.show_details)
    &&& r.show_excluded == (base.show_excluded || args.show_excluded)
    &&& r.count_blank == (base.count_blank && !args.no_count_blank)
    &&& r.count_comments == (base.count_comments && !args.no_count_comments)
    &&& r.follow_links == (base.follow_links || args.follow_links)
    &&& r.max_depth == (if args.max_depth is Some {
        args.max_depth
    } else {
        base.max_depth
    })
    &&& r.format@ == (match args.format {
        Some(f) => f@,
        None => base.format@,
    })
}

/// A setting of the base configuration (the file's, or the defaults)
/// stands unless the command line changes it: `--show-details`,
/// `--show-excluded` and `--follow-links` can only turn their setting on,
/// `--no-count-blank` and `--no-count-comments` can only turn theirs off,
/// the path, the format and the maximum depth are replaced only when
/// given, and the excluded directories and file names of the base come
/// first, in order, followed by those given on the command line.
pub proof fn law_base_settings_stand_unless_overridden(base: Config, args: Args, r: Config)
    requires
        merged(base, args, r),
    ensures
        args.show_details ==> r.show_details,
        !args.show_details ==> r.show_details == base.show_details,
        args.show_excluded ==> r.show_excluded,
        !args.show_excluded ==> r.show_excluded == base.show_excluded,
        args.follow_links ==> r.follow_links,
        !args.follow_links ==> r.follow_links == base.follow_links,
        args.no_count_blank ==> !r.count_blank,
        !args.no_count_blank ==> r.count_blank == base.count_blank,
        args.no_count_comments ==> !r.count_comments,
        !args.no_count_comments ==> r.count_comments == base.count_comments,
        args.path is None ==> r.path@ == base.path@,
        args.path matches Some(p) ==> r.path@ == p@,
        args.format is None ==> r.format@ == base.format@,
        args.format matches Some(f) ==> r.format@ == f@,
        args.max_depth is None ==> r.max_depth == base.max_depth,
        args.max_depth matches Some(d) ==> r.max_depth == Some(d),
        r.exclude_dirs@.len() >= base.exclude_dirs@.len(),
        forall|i: int|
            0 <= i < base.exclude_dirs@.len() ==> (#[trigger] r.exclude_dirs@[i])@
                == base.exclude_dirs@[i]@,
        args.exclude_dirs is None ==> r.exclude_dirs@.len() == base.exclude_dirs@.len(),
        r.exclude_files@.len() >= base.exclude_files@.len(),
        forall|i: int|
            0 <= i < base.exclude_files@.len() ==> (#[trigger] r.exclude_files@[i])@
                == base.exclude_files@[i]@,
        args.exclude_files is None ==> r.exclude_files@.len() == base.exclude_files@.len(),
{
    assert(views(r.exclude_dirs@).len() == r.exclude_dirs@.len());
    assert(views(r.exclude_files@).len() == r.exclude_files@.len());
    assert forall|i: int| 0 <= i < base.exclude_dirs@.len() implies (
    #[trigger] r.exclude_dirs@[i])@ == base.exclude_dirs@[i]@ by {
        assert(views(r.exclude_dirs@)[i] == r.exclude_dirs@[i]@);
        assert(views(base.exclude_dirs@)[i] == base.exclude_dirs@[i]@);
    }
    assert forall|i: int| 0 <= i < base.exclude_files@.len() implies (
    #[trigger] r.exclude_files@[i])@ == base.exclude_files@[i]@ by {
        assert(views(r.exclude_files@)[i] == r.exclude_files@[i]@);
        assert(views(base.exclude_files@)[i] == base.exclude_files@[i]@);
    }
}

/// What loading checks is decided by the merged settings: the path that
/// must exist is the one from the command line when given, else the
/// file's, and the format that must be `text`, `json` or `csv` is the one
/// from the command line when given, else the file's; so a file that asks
/// for `yaml` loads with `--format json`, and `--format yaml` fails
/// whatever the file asks for.
pub proof fn law_command_line_decides_what_loading_checks(base: Config, args: Args, r: Config)
    requires
        merged(base, args, r),
    ensures
        r.path@ == (match args.path {
            Some(p) => p@,
            None => base.path@,
        }),
        valid_format(r.format@) <==> valid_format(
            match args.format {
                Some(f) => f@,
                None => base.format@,
            },
        ),
{
}

/// After merging, no configured extension begins with a dot, whether it
/// came from the command line or from the base configuration: `".rs"` and
/// `"rs"` select the same files.
pub proof fn law_merged_extensions_have_no_leading_dot(base: Config, args: Args, r: Config)
    requires
        merged(base, args, r),
    ensures
        forall|i: int|
            0 <= i < r.include_ext@.len() ==> (#[trigger] r.include_ext@[i])@.len() == 0
                || r.include_ext@[i]@[0] != '.',
        forall|i: int|
            0 <= i < r.exclude_ext@.len() ==> (#[trigger] r.exclude_ext@[i])@.len() == 0
                || r.exclude_ext@[i]@[0] != '.',
{
    let inc = match args.include_ext {
        Some(v) => views(v@),
        None => views(base.include_ext@),
    };
    assert(views(r.include_ext@).len() == r.include_ext@.len());
    assert forall|i: int| 0 <= i < r.include_ext@.len() implies (#[trigger] r.include_ext@[i])@.len()
        == 0 || r.include_ext@[i]@[0] != '.' by {
        assert(views(r.include_ext@)[i] == r.include_ext@[i]@);
        assert(stripped(inc)[i] == strip_dots(inc[i]));
        law_strip_dots(inc[i]);
    }
    let a = views(base.exclude_ext@);
    let b = given(args.exclude_ext);
    assert(views(r.exclude_ext@).len() == r.exclude_ext@.len());
    assert forall|i: int| 0 <= i < r.exclude_ext@.len() implies (#[trigger] r.exclude_ext@[i])@.len()
        == 0 || r.exclude_ext@[i]@[0] != '.' by {
        assert(views(r.exclude_ext@)[i] == r.exclude_ext@[i]@);
        if i < a.len() {
            assert(stripped(a)[i] == strip_dots(a[i]));
            law_strip_dots(a[i]);
        } else {
            assert(stripped(b)[i - a.len()] == strip_dots(b[i - a.len()]));
            law_strip_dots(b[i - a.len()]);
        }
    }
}

/// A copy of `v`.
pub(crate) fn clone_strings(v: &Vec<String>) -> (r: Vec<String>)
    ensures
        views(r@) == views(v@),
{
    let mut r: Vec<String> = Vec::new();
    let mut i: usize = 0;
    while i < v.len()
        invariant
            0 <= i <= v@.len(),
            r@.len() == i,
            forall|j: int| 0 <= j < i ==> #[trigger] r@[j]@ == v@[j]@,
        decreases v.len() - i,
    {
        r.push(v[i].clone());
        i = i + 1;
    }
    assert(views(r@) =~= views(v@));
    r
}

/// `base` followed by the strings of `extra`, if given; with `strip` the
/// added strings lose their leading dots.
fn extended(base: Vec<String>, extra: &Option<Vec<String>>, strip: bool) -> (r: Vec<String>)
    ensures
        views(r@) == views(base@) + (if strip {
            stripped(given(*extra))
        } else {
            given(*extra)
        }),
{
    let mut r = base;
    match extra {
        Some(v) => {
            let mut added = if strip {
                strip_leading_dots(v.as_slice())
            } else {
                clone_strings(v)
            };
            let ghost before = r@;
            let ghost add = added@;
            r.append(&mut added);
            assert(views(r@) =~= views(before) + views(add));
        },
        None => {
            assert(views(r@) =~= views(base@) + Seq::<Seq<char>>::empty());
            assert(stripped(Seq::<Seq<char>>::empty()) =~= Seq::<Seq<char>>::empty());
        },
    }
    r
}

impl Default for Config {
    fn default() -> (c: Self)
        ensures
            is_default(c),
    {
        Config {
            path: default_path(),
            include_ext: Vec::new(),
            exclude_ext: default_exclude_ext(),
            exclude_dirs: default_exclude_dirs(),
            exclude_files: Vec::new(),
            show_details: false,
            show_excluded: false,
            count_blank: default_true(),
            count_comments: default_true(),
            follow_links: false,
            max_depth: None,
            format: default_format(),
        }
    }
}

impl Config {
    /// Applies the command-line overrides on top of this configuration (the
    /// defaults or a configuration file): excludes are additive, every other
    /// setting given on the command line wins, and extensions from both
    /// sources lose their leading dots.
    pub fn apply_args(self, args: &Args) -> (r: Config)
        ensures
            merged(self, *args, r),
    {
        let path = match &args.path {
            Some(p) => p.clone(),
            None => self.path,
        };
        let format = match &args.format {
            Some(f) => f.clone(),
            None => self.format,
        };
        let include_ext = match &args.include_ext {
            Some(ext) => strip_leading_dots(ext.as_slice()),
            None => strip_leading_dots(self.include_ext.as_slice()),
        };
        let exclude_ext = extended(
            strip_leading_dots(self.exclude_ext.as_slice()),
            &args.exclude_ext,
            true,
        );
        let exclude_dirs = extended(self.exclude_dirs, &args.exclude_dirs, false);
        let exclude_files = extended(self.exclude_files, &args.exclude_files, false);
        Config {
            path,
            include_ext,
            exclude_ext,
            exclude_dirs,
            exclude_files,
            show_details: self.show_details || args.show_details,
            show_excluded: self.show_excluded || args.show_excluded,
            count_blank: self.count_blank && !args.no_count_blank,
            count_comments: self.count_comments && !args.no_count_comments,
            follow_links: self.follow_links || args.follow_links,
            max_depth: if args.max_depth.is_some() {
                args.max_depth
            } else {
                self.max_depth
            },
            format,
        }
    }

    /// Accepts this configuration when the path to analyze exists
    /// (`path_exists`) and the output format is supported; the missing path
    /// is reported first.
    pub fn validate(self, path_exists: bool) -> (r: Result<Config, ConfigError>)
        ensures
            r == (if !path_exists {
                Err(ConfigError::PathNotFound(self.path))
            } else if !valid_format(self.format@) {
                Err(ConfigError::InvalidFormat(self.format))
            } else {
                Ok(self)
            }),
    {
        if !path_exists {
            return Err(ConfigError::PathNotFound(self.path));
        }
        if !is_valid_format(self.format.as_str()) {
            return Err(ConfigError::InvalidFormat(self.format));
        }
        Ok(self)
    }
}

impl ConfigError {
    /// The message shown to the user for this error.
    pub fn message(&self) -> (m: String)
        ensures
            m@ == (match self {
                ConfigError::PathNotFound(p) => "Path not found: "@ + p@,
                ConfigError::InvalidFormat(f) => "Invalid format '"@ + f@
                    + "' in config file (expected one of: text, json, csv)"@,
            }),
    {
        match self {
            ConfigError::PathNotFound(p) => {
                let mut m = "Path not found: ".to_owned();
                m.append(p.as_str());
                m
            },
            ConfigError::InvalidFormat(f) => {
                let mut m = "Invalid format '".to_owned();
                m.append(f.as_str());
                m.append("' in config file (expected one of: text, json, csv)");
                m
            },
        }
    }
}

} // verus!
