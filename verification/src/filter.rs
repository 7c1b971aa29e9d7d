//! Decides which files and directories a walk should visit, based on the
//! extension and name rules resolved into `Config`.

use vstd::prelude::*;
use crate::config::{clone_strings, views, Config};
use crate::path::{extension_of, file_name_of, name_extension, path_file_name};
use crate::text::contains_str;

verus! {

/// Extension and name based include/exclude rules, resolved once from `Config`.
pub struct FileFilter {
    include_ext: Vec<String>,
    exclude_ext: Vec<String>,
    exclude_dirs: Vec<String>,
    exclude_files: Vec<String>,
}

/// The rules of a `FileFilter`, as text.
pub struct FilterRules {
    pub include_ext: Seq<Seq<char>>,
    pub exclude_ext: Seq<Seq<char>>,
    pub exclude_dirs: Seq<Seq<char>>,
    pub exclude_files: Seq<Seq<char>>,
}

impl View for FileFilter {
    type V = FilterRules;

    closed spec fn view(&self) -> FilterRules {
        FilterRules {
            include_ext: views(self.include_ext@),
            exclude_ext: views(self.exclude_ext@),
            exclude_dirs: views(self.exclude_dirs@),
            exclude_files: views(self.exclude_files@),
        }
    }
}

/// Whether the file named `name` passes `rules`: it is not excluded by
/// name, and its extension (empty when it has none) is on the allow-list
/// when there is one, else not on the exclude list.
pub open spec fn accepts_name(rules: FilterRules, name: Seq<char>) -> bool {
    let ext = match extension_of(name) {
        Some(e) => e,
        None => Seq::empty(),
    };
    if rules.exclude_files.contains(name) {
        false
    } else if rules.include_ext.len() > 0 {
        rules.include_ext.contains(ext)
    } else {
        !rules.exclude_ext.contains(ext)
    }
}

/// Whether the file at `path` is counted under `rules`; a path without a
/// file name never is.
pub open spec fn accepts_file(rules: FilterRules, path: Seq<char>) -> bool {
    match file_name_of(path) {
        Some(name) => accepts_name(rules, name),
        None => false,
    }
}

/// Whether the walk descends into the directory at `path` under `rules`: it
/// does unless its name is excluded; a path without a name is kept.
pub open spec fn accepts_dir(rules: FilterRules, path: Seq<char>) -> bool {
    match file_name_of(path) {
        Some(name) => !rules.exclude_dirs.contains(name),
        None => true,
    }
}

/// A non-empty allow-list of extensions decides alone: two rule sets with
/// the same allow-list and the same excluded file names accept the same
/// files, whatever their excluded extensions.
pub proof fn law_allow_list_overrides_exclude_ext(a: FilterRules, b: FilterRules, path: Seq<char>)
    requires
        a.include_ext.len() > 0,
        a.include_ext == b.include_ext,
        a.exclude_files == b.exclude_files,
    ensures
        accepts_file(a, path) == accepts_file(b, path),
{
}

/// A file whose name is excluded is never counted, and an empty rule set
/// counts every file that has a name.
pub proof fn law_excluded_names_are_never_counted(rules: FilterRules, path: Seq<char>)
    ensures
        file_name_of(path) matches Some(n) && rules.exclude_files.contains(n) ==> !accepts_file(
            rules,
            path,
        ),
        rules.include_ext.len() == 0 && rules.exclude_ext.len() == 0 && rules.exclude_files.len()
            == 0 ==> (accepts_file(rules, path) <==> file_name_of(path) is Some),
{
}

/// Which files a rule set counts, stated over the positions of its lists:
/// a file whose name equals some excluded name is never counted; otherwise,
/// with a non-empty allow-list, it is counted exactly when its extension
/// (empty when it has none) equals some listed extension, at whatever
/// place in the list, and without one exactly when its extension equals
/// no excluded extension.
pub proof fn law_lists_decide_by_membership(rules: FilterRules, path: Seq<char>, name: Seq<char>)
    requires
        file_name_of(path) == Some(name),
    ensures
        (exists|j: int| 0 <= j < rules.exclude_files.len() && #[trigger] rules.exclude_files[j] == name)
            ==> !accepts_file(rules, path),
        (forall|j: int| 0 <= j < rules.exclude_files.len() ==> #[trigger] rules.exclude_files[j] != name)
            ==> {
            let ext = match extension_of(name) {
                Some(e) => e,
                None => Seq::<char>::empty(),
            };
            &&& rules.include_ext.len() > 0 ==> (accepts_file(rules, path) <==> exists|i: int|
                0 <= i < rules.include_ext.len() && #[trigger] rules.include_ext[i] == ext)
            &&& rules.include_ext.len() == 0 ==> (accepts_file(rules, path) <==> forall|i: int|
                0 <= i < rules.exclude_ext.len() ==> #[trigger] rules.exclude_ext[i] != ext)
        },
{
    if exists|j: int| 0 <= j < rules.exclude_files.len() && #[trigger] rules.exclude_files[j] == name {
        let j = choose|j: int| 0 <= j < rules.exclude_files.len() && #[trigger] rules.exclude_files[j] == name;
        assert(rules.exclude_files.contains(name));
    }
    if forall|j: int| 0 <= j < rules.exclude_files.len() ==> #[trigger] rules.exclude_files[j] != name {
        assert(!rules.exclude_files.contains(name));
    }
}

/// The walk descends into a directory exactly when its name equals none of
/// the excluded directory names, at whatever place in the list; a path
/// without a name (a root) is always entered.
pub proof fn law_excluded_directories_by_membership(rules: FilterRules, path: Seq<char>)
    ensures
        file_name_of(path) matches Some(name) ==> (accepts_dir(rules, path) <==> forall|j: int|
            0 <= j < rules.exclude_dirs.len() ==> #[trigger] rules.exclude_dirs[j] != name),
        file_name_of(path) is None ==> accepts_dir(rules, path),
{
    if let Some(name) = file_name_of(path) {
        if !accepts_dir(rules, path) {
            let j = choose|j: int| 0 <= j < rules.exclude_dirs.len() && rules.exclude_dirs[j] == name;
            assert(rules.exclude_dirs[j] == name);
        }
    }
}

/// Whether `v` holds a string equal to `s`.
fn holds(v: &Vec<String>, s: &str) -> (b: bool)
    ensures
        b == views(v@).contains(s@),
{
    let b = contains_str(v, s);
    proof {
        if b {
            let i = choose|i: int| 0 <= i < v@.len() && #[trigger] v@[i]@ == s@;
            assert(views(v@)[i] == s@);
        }
    }
    b
}

impl FileFilter {
    /// The rules of `config`.
    pub fn new(config: &Config) -> (f: Self)
        ensures
            f@.include_ext == views(config.include_ext@),
            f@.exclude_ext == views(config.exclude_ext@),
            f@.exclude_dirs == views(config.exclude_dirs@),
            f@.exclude_files == views(config.exclude_files@),
    {
        FileFilter {
            include_ext: clone_strings(&config.include_ext),
            exclude_ext: clone_strings(&config.exclude_ext),
            exclude_dirs: clone_strings(&config.exclude_dirs),
            exclude_files: clone_strings(&config.exclude_files),
        }
    }

    /// Whether a file named `name` should be counted: it is not excluded by
    /// name, and its extension passes.
    pub fn should_process_name(&self, name: &str) -> (b: bool)
        ensures
            b == accepts_name(self@, name@),
    {
        if holds(&self.exclude_files, name) {
            return false;
        }
        let ext = match name_extension(name) {
            Some(e) => e,
            None => String::new(),
        };
        if self.include_ext.len() > 0 {
            return holds(&self.include_ext, ext.as_str());
        }
        !holds(&self.exclude_ext, ext.as_str())
    }

    /// Whether a file should be counted. `include_ext`, when non-empty, is
    /// an allow-list that takes priority over `exclude_ext`.
    pub fn should_process_file(&self, path: &str) -> (b: bool)
        ensures
            b == accepts_file(self@, path@),
    {
        match path_file_name(path) {
            Some(name) => self.should_process_name(name.as_str()),
            None => false,
        }
    }

    /// Whether the walker should descend into this directory at all.
    pub fn should_process_dir(&self, path: &str) -> (b: bool)
        ensures
            b == accepts_dir(self@, path@),
    {
        match path_file_name(path) {
            Some(name) => !holds(&self.exclude_dirs, name.as_str()),
            None => true,
        }
    }
}

} // verus!
