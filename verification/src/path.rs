//! Paths as text: the file name and prefix stripping of `std::path::Path`,
//! the extension of a file name, and the display of a path relative to the
//! root of a run.

use vstd::prelude::*;
use crate::text::char_vec;

verus! {

/// Name for the last component of the path `p`, as `Path::file_name`
/// computes it (`None` for a path that ends in `..` or is a root).
pub uninterp spec fn file_name_of(p: Seq<char>) -> Option<Seq<char>>;

/// Name for what `Path::strip_prefix` leaves of `path` once the leading
/// components equal to those of `root` are removed (`None` when `root` is
/// not a prefix of `path`).
pub uninterp spec fn prefix_stripped(path: Seq<char>, root: Seq<char>) -> Option<Seq<char>>;

/// The characters of an optional string.
pub open spec fn opt_view(o: Option<String>) -> Option<Seq<char>> {
    match o {
        Some(s) => Some(s@),
        None => None,
    }
}

/// `Path::file_name` of `path`, as text.
#[verifier::external_body]
pub(crate) fn path_file_name(path: &str) -> (r: Option<String>)
    ensures
        opt_view(r) == file_name_of(path@),
{
    match std::path::Path::new(path).file_name() {
        Some(n) => Some(n.to_string_lossy().into_owned()),
        None => None,
    }
}

/// `Path::strip_prefix` of `path` by `root`, as text; `None` when `root` is
/// not a prefix of `path`.
#[verifier::external_body]
fn path_strip_prefix(path: &str, root: &str) -> (r: Option<String>)
    ensures
        opt_view(r) == prefix_stripped(path@, root@),
{
    match std::path::Path::new(path).strip_prefix(root) {
        Ok(p) => Some(p.to_string_lossy().into_owned()),
        Err(_) => None,
    }
}

/// The index of the last `'.'` in `s`, or -1 when there is none.
pub open spec fn last_dot(s: Seq<char>) -> int
    decreases s.len(),
{
    if s.len() == 0 {
        -1
    } else if s.last() == '.' {
        s.len() - 1
    } else {
        last_dot(s.drop_last())
    }
}

/// The extension of the file name `name`, as `Path::extension` defines it:
/// the text after the final `'.'`; none when there is no `'.'`, or when the
/// only one is the first character.
pub open spec fn extension_of(name: Seq<char>) -> Option<Seq<char>> {
    let k = last_dot(name);
    if k <= 0 {
        None
    } else {
        Some(name.subrange(k + 1, name.len() as int))
    }
}

/// `last_dot` is the last position of a dot, or -1 when there is none.
proof fn lemma_last_dot(s: Seq<char>)
    ensures
        -1 <= last_dot(s) < s.len(),
        last_dot(s) >= 0 ==> s[last_dot(s)] == '.',
        forall|j: int| last_dot(s) < j < s.len() ==> s[j] != '.',
    decreases s.len(),
{
    if s.len() > 0 && s.last() != '.' {
        lemma_last_dot(s.drop_last());
        assert forall|j: int| last_dot(s) < j < s.len() implies s[j] != '.' by {
            if j < s.len() - 1 {
                assert(s[j] == s.drop_last()[j]);
            }
        }
    }
}

/// The extension of a file name is the text after its last dot, when
/// that dot is not the first character: a non-empty stem, a dot and a
/// text without dots have that text as extension; a name whose dots are
/// all at its start (or that has none) has no extension; and any
/// extension found holds no dot and ends the name after a dot that is not
/// its first character.
pub proof fn law_extension_is_after_the_last_dot(name: Seq<char>)
    ensures
        forall|stem: Seq<char>, e: Seq<char>|
            stem.len() > 0 && (forall|j: int| 0 <= j < e.len() ==> #[trigger] e[j] != '.')
                && name == stem + seq!['.'] + e ==> extension_of(name) == Some(e),
        (forall|j: int| 0 < j < name.len() ==> #[trigger] name[j] != '.') ==> extension_of(name) is None,
        extension_of(name) matches Some(e) ==> {
            &&& e.len() < name.len() - 1
            &&& name[name.len() - e.len() - 1] == '.'
            &&& name.subrange(name.len() - e.len(), name.len() as int) == e
            &&& forall|j: int| 0 <= j < e.len() ==> #[trigger] e[j] != '.'
        },
{
    lemma_last_dot(name);
    let k = last_dot(name);
    assert forall|stem: Seq<char>, e: Seq<char>|
        stem.len() > 0 && (forall|j: int| 0 <= j < e.len() ==> #[trigger] e[j] != '.') && name == stem
            + seq!['.'] + e implies extension_of(name) == Some(e) by {
        let d = stem.len() as int;
        assert(name[d] == '.');
        if k > d {
            assert(name[k] == e[k - d - 1]);
        }
        assert(name.subrange(d + 1, name.len() as int) =~= e);
    }
    if k > 0 {
        let e = name.subrange(k + 1, name.len() as int);
        assert forall|j: int| 0 <= j < e.len() implies #[trigger] e[j] != '.' by {
            assert(e[j] == name[k + 1 + j]);
        }
    }
}

/// The extension of the file that `path` names.
pub open spec fn path_extension_of(path: Seq<char>) -> Option<Seq<char>> {
    match file_name_of(path) {
        Some(name) => extension_of(name),
        None => None,
    }
}

/// How `path` is shown once its root is stripped: what is left of it, or,
/// when nothing is left (the root is the file itself), its file name, and
/// the whole path when the root is not a prefix or there is no file name.
pub open spec fn shown(path: Seq<char>, stripped: Option<Seq<char>>, name: Option<Seq<char>>) -> Seq<char> {
    let rest = match stripped {
        Some(s) => s,
        None => path,
    };
    if rest.len() == 0 {
        match name {
            Some(n) => n,
            None => path,
        }
    } else {
        rest
    }
}

/// How `path` is shown relative to `root`.
pub open spec fn relative_display_of(path: Seq<char>, root: Seq<char>) -> Seq<char> {
    shown(path, prefix_stripped(path, root), file_name_of(path))
}

/// The extension of the file name `name`.
pub fn name_extension(name: &str) -> (r: Option<String>)
    ensures
        opt_view(r) == extension_of(name@),
{
    let v = char_vec(name);
    let mut k = v.len();
    assert(name@.take(k as int) =~= name@);
    while k > 0 && v[k - 1] != '.'
        invariant
            v@ == name@,
            0 <= k <= v@.len(),
            last_dot(name@) == last_dot(name@.take(k as int)),
        decreases k,
    {
        assert(name@.take(k as int).drop_last() =~= name@.take(k - 1));
        k = k - 1;
    }
    if k > 0 {
        assert(name@.take(k as int).drop_last() =~= name@.take(k - 1));
    } else {
        assert(name@.take(0) =~= Seq::<char>::empty());
    }
    if k <= 1 {
        None
    } else {
        Some(name.substring_char(k, v.len()).to_owned())
    }
}

/// The extension of the file that `path` names.
pub fn path_extension(path: &str) -> (r: Option<String>)
    ensures
        opt_view(r) == path_extension_of(path@),
{
    match path_file_name(path) {
        Some(name) => name_extension(name.as_str()),
        None => None,
    }
}

/// How `path` is shown, given what stripping the root left of it
/// (`stripped`) and its file name (`name`).
pub fn shown_path(path: &str, stripped: Option<String>, name: Option<String>) -> (r: String)
    ensures
        r@ == shown(path@, opt_view(stripped), opt_view(name)),
{
    let rest = match stripped {
        Some(s) => s,
        None => path.to_owned(),
    };
    if rest.as_str().is_empty() {
        match name {
            Some(n) => n,
            None => path.to_owned(),
        }
    } else {
        rest
    }
}

/// Renders `path` relative to `root`, falling back to the file name when
/// they're equal (the root is a single file).
pub fn relative_display(path: &str, root: &str) -> (r: String)
    ensures
        r@ == relative_display_of(path@, root@),
{
    let stripped = path_strip_prefix(path, root);
    let name = path_file_name(path);
    shown_path(path, stripped, name)
}

} // verus!
