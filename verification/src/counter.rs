//! Line and language statistics: classification of one file's lines as
//! blank, comment or code (prefix-based, not a real lexer), and the
//! decisions of a walk over a directory tree, which counts every file that
//! passes the `FileFilter` and groups the counts by language.

use vstd::prelude::*;
use crate::config::Config;
use crate::filter::{accepts_dir, accepts_file, FileFilter, FilterRules};
use crate::languages::{get_language_name, language_name, lowercase};
use crate::path::{path_extension, path_extension_of, relative_display, relative_display_of};
use crate::table::{has_key, keys_sorted, sum_of, table, upsert, value_of, lemma_key_unique,
    lemma_term_le_sum, find_slot};
use crate::text::{char_vec, is_whitespace, sort_strings, sorted_seqs, starts_with, string_views,
    trim};

verus! {

/// Line counts for a single file.
#[derive(Debug, Clone, Copy, PartialEq, Eq, Structural)]
pub struct FileCount {
    pub total: usize,
    pub blank: usize,
    pub comments: usize,
    pub code: usize,
}

/// The category a line falls into.
#[derive(Debug, Clone, Copy, PartialEq, Eq, Structural)]
pub enum LineKind {
    Blank,
    Comment,
    Code,
}

/// Counts of the lines seen so far, and whether a block comment is open.
pub struct Progress {
    pub total: nat,
    pub blank: nat,
    pub comments: nat,
    pub code: nat,
    pub in_block: bool,
}

/// Whether `t` holds the `*/` that closes a block comment.
pub open spec fn has_block_end(t: Seq<char>) -> bool {
    exists|j: int| 0 <= j && j + 1 < t.len() && #[trigger] t[j] == '*' && t[j + 1] == '/'
}

/// Whether a trimmed line opens a block comment.
pub open spec fn opens_block(t: Seq<char>) -> bool {
    starts_with(t, seq!['/', '*'])
}

/// Whether a trimmed line is a single-line comment: it starts with `//`,
/// `#`, `--` or `<!--`.
pub open spec fn is_line_comment(t: Seq<char>) -> bool {
    ||| starts_with(t, seq!['/', '/'])
    ||| starts_with(t, seq!['#'])
    ||| starts_with(t, seq!['-', '-'])
    ||| starts_with(t, seq!['<', '!', '-', '-'])
}

/// The kind of the line whose trimmed text is `t`, and whether a block
/// comment is open after it, given whether one was open before it. With
/// `count_blank` off blank lines are code; with `count_comments` off no
/// comment is recognized and every non-blank line is code.
pub open spec fn classify(t: Seq<char>, in_block: bool, count_blank: bool, count_comments: bool) -> (
    LineKind,
    bool,
) {
    if t.len() == 0 {
        (if count_blank {
            LineKind::Blank
        } else {
            LineKind::Code
        }, in_block)
    } else if count_comments && opens_block(t) {
        (LineKind::Comment, !has_block_end(t))
    } else if count_comments && in_block {
        (LineKind::Comment, !has_block_end(t))
    } else if count_comments && is_line_comment(t) {
        (LineKind::Comment, in_block)
    } else {
        (LineKind::Code, in_block)
    }
}

/// `s` begins with the two characters `a`, `b`.
proof fn lemma_starts_with_two(s: Seq<char>, a: char, b: char)
    ensures
        starts_with(s, seq![a, b]) <==> (s.len() >= 2 && s[0] == a && s[1] == b),
{
    if s.len() >= 2 && s[0] == a && s[1] == b {
        assert(s.subrange(0, 2) =~= seq![a, b]);
    }
    if starts_with(s, seq![a, b]) {
        assert(s.subrange(0, 2)[0] == a && s.subrange(0, 2)[1] == b);
    }
}

/// How a trimmed line `t` is classified, stated over its characters. An
/// empty line is blank (code when blank lines are not counted) and leaves
/// a block comment as it was. With comment counting off every other line
/// is code and no block comment is ever open. With it on: a line that
/// begins with `/*` is a comment and leaves a block comment open exactly
/// when it holds no `*/`; inside an open block comment every line is a
/// comment, and the line that holds `*/` closes it; any other line is a
/// comment exactly when it begins with `//`, `#`, `--` or `<!--`, and is
/// code otherwise.
pub proof fn law_line_kinds(t: Seq<char>, in_block: bool, count_blank: bool, count_comments: bool)
    ensures
        ({
            let (kind, open) = classify(t, in_block, count_blank, count_comments);
            let closes = exists|j: int| 0 <= j && j + 1 < t.len() && #[trigger] t[j] == '*' && t[j + 1] == '/';
            let opener = t.len() >= 2 && t[0] == '/' && t[1] == '*';
            let marked = (t.len() >= 2 && t[0] == '/' && t[1] == '/') || (t.len() >= 1 && t[0] == '#')
                || (t.len() >= 2 && t[0] == '-' && t[1] == '-') || (t.len() >= 4 && t[0] == '<' && t[1]
                == '!' && t[2] == '-' && t[3] == '-');
            &&& t.len() == 0 ==> kind == (if count_blank {
                LineKind::Blank
            } else {
                LineKind::Code
            }) && open == in_block
            &&& t.len() > 0 && !count_comments ==> kind == LineKind::Code && open == in_block
            &&& t.len() > 0 && count_comments && (opener || in_block) ==> kind == LineKind::Comment
                && open == !closes
            &&& t.len() > 0 && count_comments && !opener && !in_block ==> (kind == LineKind::Comment
                <==> marked) && !open
        }),
{
    lemma_starts_with_two(t, '/', '*');
    lemma_starts_with_two(t, '/', '/');
    lemma_starts_with_two(t, '-', '-');
    if t.len() >= 1 && t[0] == '#' {
        assert(t.subrange(0, 1) =~= seq!['#']);
    }
    if starts_with(t, seq!['#']) {
        assert(t.subrange(0, 1)[0] == '#');
    }
    if t.len() >= 4 && t[0] == '<' && t[1] == '!' && t[2] == '-' && t[3] == '-' {
        assert(t.subrange(0, 4) =~= seq!['<', '!', '-', '-']);
    }
    if starts_with(t, seq!['<', '!', '-', '-']) {
        let h = t.subrange(0, 4);
        assert(h[0] == '<' && h[1] == '!' && h[2] == '-' && h[3] == '-');
    }
}

/// The lines completed so far in `s`, and the partial line after the last
/// `'\n'`.
pub open spec fn split_lines(s: Seq<char>) -> (Seq<Seq<char>>, Seq<char>)
    decreases s.len(),
{
    if s.len() == 0 {
        (Seq::empty(), Seq::empty())
    } else {
        let (done, cur) = split_lines(s.drop_last());
        if s.last() == '\n' {
            (done.push(cur), Seq::empty())
        } else {
            (done, cur.push(s.last()))
        }
    }
}

/// The lines of `s`: the text is cut at each `'\n'`, which is not part of
/// any line, and a final line ending is optional. (`str::lines` also drops
/// a `'\r'` before the `'\n'`, which trimming removes anyway.)
pub open spec fn lines_of(s: Seq<char>) -> Seq<Seq<char>> {
    let (done, cur) = split_lines(s);
    if cur.len() == 0 {
        done
    } else {
        done.push(cur)
    }
}

/// After a text that is empty or ends with a line ending, the characters
/// of one more line (without line ending) make up the partial line.
proof fn lemma_split_lines_append(s: Seq<char>, line: Seq<char>)
    requires
        split_lines(s).1.len() == 0,
        forall|i: int| 0 <= i < line.len() ==> #[trigger] line[i] != '\n',
    ensures
        split_lines(s + line) == (split_lines(s).0, line),
    decreases line.len(),
{
    if line.len() == 0 {
        assert(s + line =~= s);
    } else {
        let init = line.drop_last();
        assert forall|i: int| 0 <= i < init.len() implies #[trigger] init[i] != '\n' by {
            assert(init[i] == line[i]);
        }
        lemma_split_lines_append(s, init);
        assert((s + line).drop_last() =~= s + init);
        assert((s + line).last() == line.last());
        assert(init.push(line.last()) =~= line);
    }
}

/// A text is counted line by line: after a text that is empty or ends with
/// a line ending, one more line and its line ending add that line once,
/// with the kind its trimmed text has given whether a block comment was
/// open after the lines before it; and a last non-empty line without a
/// line ending is counted as if it had one.
pub proof fn law_counts_grow_line_by_line(s: Seq<char>, line: Seq<char>, count_blank: bool, count_comments: bool)
    requires
        s.len() == 0 || s.last() == '\n',
        forall|i: int| 0 <= i < line.len() ==> #[trigger] line[i] != '\n',
    ensures
        ({
            let p = counts_of(s, count_blank, count_comments);
            let (k, b) = classify(trim(line), p.in_block, count_blank, count_comments);
            counts_of(s + line + seq!['\n'], count_blank, count_comments) == advance(p, k, b)
        }),
        line.len() > 0 ==> counts_of(s + line, count_blank, count_comments) == counts_of(
            s + line + seq!['\n'],
            count_blank,
            count_comments,
        ),
{
    if s.len() > 0 {
        assert(s.drop_last().push(s.last()) =~= s);
    }
    assert(split_lines(s).1.len() == 0);
    lemma_split_lines_append(s, line);
    let t = s + line + seq!['\n'];
    assert(t.drop_last() =~= s + line);
    assert(t.last() == '\n');
    assert(split_lines(t) == (split_lines(s).0.push(line), Seq::<char>::empty()));
    assert(lines_of(s) == split_lines(s).0);
    assert(lines_of(t) == split_lines(s).0.push(line));
    assert(lines_of(t).drop_last() =~= lines_of(s));
    if line.len() > 0 {
        assert(lines_of(s + line) == split_lines(s).0.push(line));
    }
}

/// `p` after one more line of kind `k`, with `in_block` open after it.
pub open spec fn advance(p: Progress, k: LineKind, in_block: bool) -> Progress {
    Progress {
        total: p.total + 1,
        blank: p.blank + if k == LineKind::Blank {
            1nat
        } else {
            0nat
        },
        comments: p.comments + if k == LineKind::Comment {
            1nat
        } else {
            0nat
        },
        code: p.code + if k == LineKind::Code {
            1nat
        } else {
            0nat
        },
        in_block,
    }
}

/// The counts after classifying `lines` in order, starting with no block
/// comment open.
pub open spec fn tally(lines: Seq<Seq<char>>, count_blank: bool, count_comments: bool) -> Progress
    decreases lines.len(),
{
    if lines.len() == 0 {
        Progress { total: 0, blank: 0, comments: 0, code: 0, in_block: false }
    } else {
        let p = tally(lines.drop_last(), count_blank, count_comments);
        let (k, b) = classify(trim(lines.last()), p.in_block, count_blank, count_comments);
        advance(p, k, b)
    }
}

/// The line counts of a file whose text is `s`.
pub open spec fn counts_of(s: Seq<char>, count_blank: bool, count_comments: bool) -> Progress {
    tally(lines_of(s), count_blank, count_comments)
}

/// Every line is counted in exactly one category, and a category whose
/// counting is off stays empty.
pub proof fn lemma_tally_partitions(lines: Seq<Seq<char>>, count_blank: bool, count_comments: bool)
    ensures
        ({
            let p = tally(lines, count_blank, count_comments);
            &&& p.total == lines.len()
            &&& p.total == p.blank + p.comments + p.code
            &&& !count_blank ==> p.blank == 0
            &&& !count_comments ==> p.comments == 0
            &&& !count_comments ==> !p.in_block
        }),
    decreases lines.len(),
{
    if lines.len() > 0 {
        lemma_tally_partitions(lines.drop_last(), count_blank, count_comments);
    }
}

/// Turning blank-line counting off folds the blank lines into the code
/// lines and changes nothing else.
pub proof fn lemma_blank_folds_into_code(lines: Seq<Seq<char>>, count_comments: bool)
    ensures
        ({
            let on = tally(lines, true, count_comments);
            let off = tally(lines, false, count_comments);
            &&& off.total == on.total
            &&& off.blank == 0
            &&& off.comments == on.comments
            &&& off.code == on.code + on.blank
            &&& off.in_block == on.in_block
        }),
    decreases lines.len(),
{
    if lines.len() > 0 {
        lemma_blank_folds_into_code(lines.drop_last(), count_comments);
    }
}

/// Turning comment counting off folds the comment lines into the code
/// lines and changes nothing else.
pub proof fn lemma_comments_fold_into_code(lines: Seq<Seq<char>>, count_blank: bool)
    ensures
        ({
            let on = tally(lines, count_blank, true);
            let off = tally(lines, count_blank, false);
            &&& off.total == on.total
            &&& off.blank == on.blank
            &&& off.comments == 0
            &&& off.code == on.code + on.comments
        }),
    decreases lines.len(),
{
    if lines.len() > 0 {
        lemma_comments_fold_into_code(lines.drop_last(), count_blank);
    }
}

/// For the text of any file, counting with `count_blank` off gives the
/// same counts as with it on, except that the blank lines are counted as
/// code.
pub proof fn law_blank_lines_fold_into_code(content: Seq<char>, count_comments: bool)
    ensures
        counts_of(content, false, count_comments).total == counts_of(content, true, count_comments).total,
        counts_of(content, false, count_comments).blank == 0,
        counts_of(content, false, count_comments).comments == counts_of(content, true, count_comments).comments,
        counts_of(content, false, count_comments).code == counts_of(content, true, count_comments).code
            + counts_of(content, true, count_comments).blank,
{
    lemma_blank_folds_into_code(lines_of(content), count_comments);
}

/// For the text of any file, counting with `count_comments` off gives the
/// same counts as with it on, except that the comment lines are counted as
/// code.
pub proof fn law_comment_lines_fold_into_code(content: Seq<char>, count_blank: bool)
    ensures
        counts_of(content, count_blank, false).total == counts_of(content, count_blank, true).total,
        counts_of(content, count_blank, false).blank == counts_of(content, count_blank, true).blank,
        counts_of(content, count_blank, false).comments == 0,
        counts_of(content, count_blank, false).code == counts_of(content, count_blank, true).code
            + counts_of(content, count_blank, true).comments,
{
    lemma_comments_fold_into_code(lines_of(content), count_blank);
}

/// The trimmed text of `v[start..end]`, as the index range `lo..hi`.
fn trim_range(v: &Vec<char>, start: usize, end: usize) -> (r: (usize, usize))
    requires
        start <= end <= v@.len(),
    ensures
        start <= r.0 <= r.1 <= end,
        trim(v@.subrange(start as int, end as int)) == v@.subrange(r.0 as int, r.1 as int),
{
    let mut lo = start;
    assert(v@.subrange(start as int, end as int) == v@.subrange(lo as int, end as int));
    while lo < end && is_whitespace(v[lo])
        invariant
            start <= lo <= end <= v@.len(),
            crate::text::trim_start(v@.subrange(start as int, end as int)) == crate::text::trim_start(
                v@.subrange(lo as int, end as int),
            ),
        decreases end - lo,
    {
        assert(v@.subrange(lo as int, end as int).drop_first() =~= v@.subrange(
            lo + 1,
            end as int,
        ));
        lo = lo + 1;
    }
    assert(crate::text::trim_start(v@.subrange(lo as int, end as int)) == v@.subrange(
        lo as int,
        end as int,
    ));
    let mut hi = end;
    while hi > lo && is_whitespace(v[hi - 1])
        invariant
            start <= lo <= hi <= end <= v@.len(),
            crate::text::trim_end(v@.subrange(lo as int, end as int)) == crate::text::trim_end(
                v@.subrange(lo as int, hi as int),
            ),
        decreases hi - lo,
    {
        assert(v@.subrange(lo as int, hi as int).drop_last() =~= v@.subrange(
            lo as int,
            hi - 1,
        ));
        hi = hi - 1;
    }
    assert(crate::text::trim_end(v@.subrange(lo as int, hi as int)) == v@.subrange(
        lo as int,
        hi as int,
    ));
    (lo, hi)
}

/// Whether `v[lo..hi]` starts with `p`.
fn range_starts_with(v: &Vec<char>, lo: usize, hi: usize, p: &[char]) -> (b: bool)
    requires
        lo <= hi <= v@.len(),
    ensures
        b == starts_with(v@.subrange(lo as int, hi as int), p@),
{
    if p.len() > hi - lo {
        return false;
    }
    let mut i: usize = 0;
    while i < p.len()
        invariant
            lo <= hi <= v@.len(),
            p@.len() <= hi - lo,
            0 <= i <= p@.len(),
            forall|j: int| 0 <= j < i ==> v@[lo + j] == p@[j],
        decreases p.len() - i,
    {
        if v[lo + i] != p[i] {
            assert(v@.subrange(lo as int, hi as int).subrange(0, p@.len() as int)[i as int]
                != p@[i as int]);
            return false;
        }
        i = i + 1;
    }
    assert(v@.subrange(lo as int, hi as int).subrange(0, p@.len() as int) =~= p@);
    true
}

/// Whether `v[lo..hi]` holds `*/`.
fn range_has_block_end(v: &Vec<char>, lo: usize, hi: usize) -> (b: bool)
    requires
        lo <= hi <= v@.len(),
    ensures
        b == has_block_end(v@.subrange(lo as int, hi as int)),
{
    let ghost t = v@.subrange(lo as int, hi as int);
    let mut i = lo;
    while hi - i > 1
        invariant
            lo <= i <= hi <= v@.len(),
            t == v@.subrange(lo as int, hi as int),
            forall|j: int| 0 <= j && j < i - lo && j + 1 < t.len() ==> !(#[trigger] t[j] == '*' && t[j + 1]
                == '/'),
        decreases hi - i,
    {
        if v[i] == '*' && v[i + 1] == '/' {
            assert(t[i - lo] == '*' && t[i - lo + 1] == '/');
            return true;
        }
        i = i + 1;
    }
    false
}

/// The kind of the line `v[start..end]` and whether a block comment is open
/// after it.
fn classify_range(
    v: &Vec<char>,
    start: usize,
    end: usize,
    in_block: bool,
    count_blank: bool,
    count_comments: bool,
) -> (r: (LineKind, bool))
    requires
        start <= end <= v@.len(),
    ensures
        r == classify(
            trim(v@.subrange(start as int, end as int)),
            in_block,
            count_blank,
            count_comments,
        ),
{
    let (lo, hi) = trim_range(v, start, end);
    if lo == hi {
        let k = if count_blank {
            LineKind::Blank
        } else {
            LineKind::Code
        };
        return (k, in_block);
    }
    if count_comments {
        let block_open: [char; 2] = ['/', '*'];
        let slashes: [char; 2] = ['/', '/'];
        let hash: [char; 1] = ['#'];
        let dashes: [char; 2] = ['-', '-'];
        let markup: [char; 4] = ['<', '!', '-', '-'];
        assert(block_open@ =~= seq!['/', '*']);
        assert(slashes@ =~= seq!['/', '/']);
        assert(hash@ =~= seq!['#']);
        assert(dashes@ =~= seq!['-', '-']);
        assert(markup@ =~= seq!['<', '!', '-', '-']);
        if range_starts_with(v, lo, hi, &block_open) {
            return (LineKind::Comment, !range_has_block_end(v, lo, hi));
        }
        if in_block {
            return (LineKind::Comment, !range_has_block_end(v, lo, hi));
        }
        if range_starts_with(v, lo, hi, &slashes) || range_starts_with(v, lo, hi, &hash)
            || range_starts_with(v, lo, hi, &dashes) || range_starts_with(v, lo, hi, &markup) {
            return (LineKind::Comment, in_block);
        }
    }
    (LineKind::Code, in_block)
}

/// Whether `c` holds exactly the counts of `p`.
pub open spec fn matches_progress(c: FileCount, p: Progress) -> bool {
    &&& c.total == p.total
    &&& c.blank == p.blank
    &&& c.comments == p.comments
    &&& c.code == p.code
}

/// Classifies each line of `content` as blank, comment or code. Disabling
/// `count_blank` / `count_comments` folds that category into `code`
/// instead of tracking it separately.
pub fn count_file_lines(content: &str, config: &Config) -> (r: FileCount)
    ensures
        matches_progress(r, counts_of(content@, config.count_blank, config.count_comments)),
        r.total == lines_of(content@).len(),
        r.total == r.blank + r.comments + r.code,
        !config.count_blank ==> r.blank == 0,
        !config.count_comments ==> r.comments == 0,
{
    let count_blank = config.count_blank;
    let count_comments = config.count_comments;
    let v = char_vec(content);
    let n = v.len();
    let mut c = FileCount { total: 0, blank: 0, comments: 0, code: 0 };
    let mut in_block = false;
    let mut start: usize = 0;
    let mut i: usize = 0;
    assert(v@.take(0) =~= Seq::<char>::empty());
    assert(v@.subrange(0, 0) =~= Seq::<char>::empty());
    while i < n
        invariant
            v@ == content@,
            n == v@.len(),
            start <= i <= n,
            c.total <= start,
            c.total == c.blank + c.comments + c.code,
            split_lines(v@.take(i as int)).1 == v@.subrange(start as int, i as int),
            matches_progress(c, tally(split_lines(v@.take(i as int)).0, count_blank, count_comments)),
            in_block == tally(split_lines(v@.take(i as int)).0, count_blank, count_comments).in_block,
        decreases n - i,
    {
        let ghost before = split_lines(v@.take(i as int));
        assert(v@.take(i + 1).drop_last() =~= v@.take(i as int));
        if v[i] == '\n' {
            let (k, b) = classify_range(&v, start, i, in_block, count_blank, count_comments);
            c.total = c.total + 1;
            match k {
                LineKind::Blank => c.blank = c.blank + 1,
                LineKind::Comment => c.comments = c.comments + 1,
                LineKind::Code => c.code = c.code + 1,
            }
            in_block = b;
            start = i + 1;
            assert(before.0.push(before.1).drop_last() =~= before.0);
            assert(v@.subrange(start as int, i + 1) =~= Seq::<char>::empty());
        } else {
            assert(v@.subrange(start as int, i + 1) =~= v@.subrange(start as int, i as int).push(
                v@[i as int],
            ));
        }
        i = i + 1;
    }
    assert(v@.take(n as int) =~= v@);
    let ghost done = split_lines(v@).0;
    if start < n {
        let (k, b) = classify_range(&v, start, n, in_block, count_blank, count_comments);
        c.total = c.total + 1;
        match k {
            LineKind::Blank => c.blank = c.blank + 1,
            LineKind::Comment => c.comments = c.comments + 1,
            LineKind::Code => c.code = c.code + 1,
        }
        assert(done.push(v@.subrange(start as int, n as int)).drop_last() =~= done);
    }
    proof {
        lemma_tally_partitions(lines_of(content@), count_blank, count_comments);
    }
    c
}

/// Aggregate stats for one detected language.
#[derive(Debug, Clone, Copy, PartialEq, Eq, Structural)]
pub struct LanguageStats {
    pub files: usize,
    pub lines: usize,
    pub code_lines: usize,
}

/// Aggregate line counts and per-file/per-language breakdowns for one run.
pub struct CountResults {
    pub total_files: usize,
    pub total_lines: usize,
    pub blank_lines: usize,
    pub comment_lines: usize,
    pub code_lines: usize,
    /// Per-file counts, keyed by relative path, in key order. Only
    /// populated when `show_details` is set.
    pub file_counts: Vec<(String, FileCount)>,
    /// Files and pruned directories skipped by the filter, relative to the
    /// root. Only populated when `show_excluded` is set.
    pub excluded_files: Vec<String>,
    /// Per-language stats, keyed by language name, in key order.
    pub language_stats: Vec<(String, LanguageStats)>,
}

/// The number of files of a language.
pub open spec fn stat_files() -> spec_fn(LanguageStats) -> int {
    |s: LanguageStats| s.files as int
}

/// The number of lines of a language.
pub open spec fn stat_lines() -> spec_fn(LanguageStats) -> int {
    |s: LanguageStats| s.lines as int
}

/// The number of code lines of a language.
pub open spec fn stat_code() -> spec_fn(LanguageStats) -> int {
    |s: LanguageStats| s.code_lines as int
}

impl CountResults {
    /// Both tables are in strictly increasing key order, the language
    /// breakdown accounts for every counted file, line and code line, and
    /// every language listed has at least one file.
    pub open spec fn wf(&self) -> bool {
        &&& keys_sorted(self.file_counts@)
        &&& keys_sorted(self.language_stats@)
        &&& sum_of(self.language_stats@, stat_files()) == self.total_files
        &&& sum_of(self.language_stats@, stat_lines()) == self.total_lines
        &&& sum_of(self.language_stats@, stat_code()) == self.code_lines
        &&& forall|i: int|
            0 <= i < self.language_stats@.len() ==> #[trigger] self.language_stats@[i].1.files >= 1
    }

    /// Per-file counts are only kept with `show_details`, and exclusions
    /// only with `show_excluded`.
    pub open spec fn respects(&self, config: Config) -> bool {
        &&& !config.show_details ==> self.file_counts@.len() == 0
        &&& !config.show_excluded ==> self.excluded_files@.len() == 0
    }

    /// Every line counted falls in exactly one category.
    pub open spec fn partitioned(&self) -> bool {
        self.total_lines == self.blank_lines + self.comment_lines + self.code_lines
    }
}

impl Default for CountResults {
    fn default() -> (r: Self)
        ensures
            r.total_files == 0,
            r.total_lines == 0,
            r.blank_lines == 0,
            r.comment_lines == 0,
            r.code_lines == 0,
            r.file_counts@.len() == 0,
            r.excluded_files@.len() == 0,
            r.language_stats@.len() == 0,
            r.wf(),
            r.partitioned(),
    {
        CountResults {
            total_files: 0,
            total_lines: 0,
            blank_lines: 0,
            comment_lines: 0,
            code_lines: 0,
            file_counts: Vec::new(),
            excluded_files: Vec::new(),
            language_stats: Vec::new(),
        }
    }
}

/// The language a counted file at `path` is grouped under: the display
/// name of its extension, or `Other` when it has none.
pub open spec fn language_of_path(path: Seq<char>) -> Seq<char> {
    match path_extension_of(path) {
        Some(e) => language_name(lowercase(e), e),
        None => "Other"@,
    }
}

/// The stats of `lang` in `langs` after one more file with `c`'s counts.
pub open spec fn bumped(langs: Seq<(String, LanguageStats)>, lang: Seq<char>, c: FileCount) -> LanguageStats {
    let before = if has_key(langs, lang) {
        value_of(langs, lang)
    } else {
        LanguageStats { files: 0, lines: 0, code_lines: 0 }
    };
    LanguageStats {
        files: (before.files + 1) as usize,
        lines: (before.lines + c.total) as usize,
        code_lines: (before.code_lines + c.code) as usize,
    }
}

/// One decision taken during a walk, as the walk's log records it.
pub enum WalkStep {
    /// A directory below the root that the filter pruned; `reported` when
    /// it was listed among the exclusions.
    Pruned { path: Seq<char>, root: Seq<char>, rules: FilterRules, reported: bool },
    /// A regular file that the filter rejected; `reported` when it was
    /// listed among the exclusions.
    Rejected { path: Seq<char>, root: Seq<char>, rules: FilterRules, reported: bool },
    /// A regular file that the filter accepted.
    Accepted { path: Seq<char>, rules: FilterRules },
    /// The file accepted just before, counted from the text it holds.
    Counted { path: Seq<char>, root: Seq<char>, text: Seq<char>, counts: FileCount, config: Config },
}

/// The lines of a file.
pub open spec fn lines_total() -> spec_fn(FileCount) -> nat {
    |c: FileCount| c.total as nat
}

/// The blank lines of a file.
pub open spec fn lines_blank() -> spec_fn(FileCount) -> nat {
    |c: FileCount| c.blank as nat
}

/// The comment lines of a file.
pub open spec fn lines_comments() -> spec_fn(FileCount) -> nat {
    |c: FileCount| c.comments as nat
}

/// The code lines of a file.
pub open spec fn lines_code() -> spec_fn(FileCount) -> nat {
    |c: FileCount| c.code as nat
}

/// The number of files counted in `log`.
pub open spec fn counted_files(log: Seq<WalkStep>) -> nat
    decreases log.len(),
{
    if log.len() == 0 {
        0
    } else {
        counted_files(log.drop_last()) + if log.last() is Counted {
            1nat
        } else {
            0nat
        }
    }
}

/// The sum of `f` over the counts of the files counted in `log`.
pub open spec fn counted_sum(log: Seq<WalkStep>, f: spec_fn(FileCount) -> nat) -> nat
    decreases log.len(),
{
    if log.len() == 0 {
        0
    } else {
        counted_sum(log.drop_last(), f) + match log.last() {
            WalkStep::Counted { counts, .. } => f(counts),
            _ => 0nat,
        }
    }
}

/// The per-file counts that `log` records: each file counted with
/// `show_details`, under its path relative to the root (a later file with
/// the same relative path replaces an earlier one).
pub open spec fn details_of(log: Seq<WalkStep>) -> Map<Seq<char>, FileCount>
    decreases log.len(),
{
    if log.len() == 0 {
        Map::empty()
    } else {
        let before = details_of(log.drop_last());
        match log.last() {
            WalkStep::Counted { path, root, counts, config, .. } => if config.show_details {
                before.insert(relative_display_of(path, root), counts)
            } else {
                before
            },
            _ => before,
        }
    }
}

/// Per language, the number of files counted in `log`, their lines and
/// their code lines.
pub open spec fn languages_of(log: Seq<WalkStep>) -> Map<Seq<char>, (nat, nat, nat)>
    decreases log.len(),
{
    if log.len() == 0 {
        Map::empty()
    } else {
        let before = languages_of(log.drop_last());
        match log.last() {
            WalkStep::Counted { path, counts, .. } => {
                let lang = language_of_path(path);
                let b = if before.contains_key(lang) {
                    before[lang]
                } else {
                    (0nat, 0nat, 0nat)
                };
                before.insert(lang, (b.0 + 1, b.1 + counts.total as nat, b.2 + counts.code as nat))
            },
            _ => before,
        }
    }
}

/// The files of `log` that the filter rejected and that were reported,
/// relative to the root, in the order met.
pub open spec fn rejected_of(log: Seq<WalkStep>) -> Seq<Seq<char>>
    decreases log.len(),
{
    if log.len() == 0 {
        Seq::empty()
    } else {
        let before = rejected_of(log.drop_last());
        match log.last() {
            WalkStep::Rejected { path, root, reported, .. } => if reported {
                before.push(relative_display_of(path, root))
            } else {
                before
            },
            _ => before,
        }
    }
}

/// The directories of `log` that the filter pruned and that were reported,
/// relative to the root, in the order met.
pub open spec fn pruned_of(log: Seq<WalkStep>) -> Seq<Seq<char>>
    decreases log.len(),
{
    if log.len() == 0 {
        Seq::empty()
    } else {
        let before = pruned_of(log.drop_last());
        match log.last() {
            WalkStep::Pruned { path, root, reported, .. } => if reported {
                before.push(relative_display_of(path, root))
            } else {
                before
            },
            _ => before,
        }
    }
}

/// Whether step `i` of `log` is the filter's own decision: a pruned
/// directory is one the filter refuses, a rejected file one it refuses, an
/// accepted file one it keeps; a counted file is the one accepted in the
/// step just before it, and its counts are those of its text.
pub open spec fn step_valid(log: Seq<WalkStep>, i: int) -> bool {
    match log[i] {
        WalkStep::Pruned { path, rules, .. } => !accepts_dir(rules, path),
        WalkStep::Rejected { path, rules, .. } => !accepts_file(rules, path),
        WalkStep::Accepted { path, rules } => accepts_file(rules, path),
        WalkStep::Counted { path, text, counts, config, .. } => {
            &&& 0 < i
            &&& (match log[i - 1] {
                WalkStep::Accepted { path: p, .. } => p == path,
                _ => false,
            })
            &&& matches_progress(counts, counts_of(text, config.count_blank, config.count_comments))
        },
    }
}

/// Whether every step of `log` is the filter's own decision.
pub open spec fn log_valid(log: Seq<WalkStep>) -> bool {
    forall|i: int| 0 <= i < log.len() ==> #[trigger] step_valid(log, i)
}

/// Whether the language table `t` holds, for each language, the files,
/// lines and code lines that `m` gives.
pub open spec fn stats_match(t: Map<Seq<char>, LanguageStats>, m: Map<Seq<char>, (nat, nat, nat)>) -> bool {
    &&& t.dom() == m.dom()
    &&& forall|k: Seq<char>| #[trigger] t.contains_key(k) ==> {
        &&& t[k].files == m[k].0
        &&& t[k].lines == m[k].1
        &&& t[k].code_lines == m[k].2
    }
}

/// What one more step adds to each summary of a log.
proof fn lemma_log_push(log: Seq<WalkStep>, x: WalkStep)
    ensures
        counted_files(log.push(x)) == counted_files(log) + if x is Counted {
            1nat
        } else {
            0nat
        },
        forall|f: spec_fn(FileCount) -> nat| #[trigger]
            counted_sum(log.push(x), f) == counted_sum(log, f) + match x {
                WalkStep::Counted { counts, .. } => f(counts),
                _ => 0nat,
            },
        !(x is Counted) ==> details_of(log.push(x)) == details_of(log),
        !(x is Counted) ==> languages_of(log.push(x)) == languages_of(log),
        !(x is Rejected) ==> rejected_of(log.push(x)) == rejected_of(log),
        !(x is Pruned) ==> pruned_of(log.push(x)) == pruned_of(log),
        x matches WalkStep::Counted { path, root, counts, config, .. } ==> details_of(log.push(x))
            == if config.show_details {
            details_of(log).insert(relative_display_of(path, root), counts)
        } else {
            details_of(log)
        },
        x matches WalkStep::Counted { path, counts, .. } ==> languages_of(log.push(x)) == {
            let lang = language_of_path(path);
            let b = if languages_of(log).contains_key(lang) {
                languages_of(log)[lang]
            } else {
                (0nat, 0nat, 0nat)
            };
            languages_of(log).insert(lang, (b.0 + 1, b.1 + counts.total as nat, b.2 + counts.code as nat))
        },
        x matches WalkStep::Rejected { path, root, reported, .. } ==> rejected_of(log.push(x))
            == if reported {
            rejected_of(log).push(relative_display_of(path, root))
        } else {
            rejected_of(log)
        },
        x matches WalkStep::Pruned { path, root, reported, .. } ==> pruned_of(log.push(x))
            == if reported {
            pruned_of(log).push(relative_display_of(path, root))
        } else {
            pruned_of(log)
        },
{
    assert(log.push(x).drop_last() =~= log);
}

/// A valid log stays valid after a step that is valid in its place.
proof fn lemma_valid_push(log: Seq<WalkStep>, x: WalkStep)
    requires
        log_valid(log),
        step_valid(log.push(x), log.len() as int),
    ensures
        log_valid(log.push(x)),
{
    let t = log.push(x);
    assert forall|i: int| 0 <= i < t.len() implies #[trigger] step_valid(t, i) by {
        if i < log.len() {
            assert(step_valid(log, i));
            assert(t[i] == log[i]);
            if i > 0 {
                assert(t[i - 1] == log[i - 1]);
            }
        }
    }
}

/// The state of a walk over a directory tree: what has been counted and
/// excluded so far, and the log of every decision taken. The results
/// always agree with the log.
pub struct Walk {
    results: CountResults,
    /// Directories pruned from the walk and reported, relative to the root.
    excluded_dirs: Vec<String>,
    /// Every decision taken so far, in order.
    log: Ghost<Seq<WalkStep>>,
}

impl Walk {
    /// The decisions taken so far, in order.
    pub closed spec fn steps(&self) -> Seq<WalkStep> {
        self.log@
    }

    /// The results gathered so far; the pruned directories are kept apart
    /// until the walk finishes.
    pub closed spec fn current(&self) -> CountResults {
        self.results
    }

    /// The directories pruned so far and reported, relative to the root.
    pub closed spec fn pruned_dirs(&self) -> Seq<String> {
        self.excluded_dirs@
    }

    /// The results agree with the log: every line counted falls in one
    /// category, the totals are the sums over the counted files, the tables are those the log gives, the exclusions
    /// are the reported rejections and prunings, and every step is the
    /// filter's own decision.
    #[verifier::type_invariant]
    spec fn agrees_with_log(&self) -> bool {
        let log = self.log@;
        &&& self.results.wf()
        &&& self.results.partitioned()
        &&& log_valid(log)
        &&& self.results.total_files == counted_files(log)
        &&& self.results.total_lines == counted_sum(log, lines_total())
        &&& self.results.blank_lines == counted_sum(log, lines_blank())
        &&& self.results.comment_lines == counted_sum(log, lines_comments())
        &&& self.results.code_lines == counted_sum(log, lines_code())
        &&& table(self.results.file_counts@) == details_of(log)
        &&& stats_match(table(self.results.language_stats@), languages_of(log))
        &&& string_views(self.results.excluded_files@) == rejected_of(log)
        &&& string_views(self.excluded_dirs@) == pruned_of(log)
    }

    /// Per-file counts are only kept with `show_details`, and exclusions
    /// only with `show_excluded`.
    pub open spec fn respects(&self, config: Config) -> bool {
        &&& self.current().respects(config)
        &&& !config.show_excluded ==> self.pruned_dirs().len() == 0
    }

    /// A walk that has seen nothing yet.
    pub fn new() -> (w: Walk)
        ensures
            w.steps().len() == 0,
            w.current().partitioned(),
            w.current().total_files == 0,
            w.current().total_lines == 0,
            w.current().blank_lines == 0,
            w.current().comment_lines == 0,
            w.current().code_lines == 0,
            w.current().file_counts@.len() == 0,
            w.current().excluded_files@.len() == 0,
            w.current().language_stats@.len() == 0,
            w.pruned_dirs().len() == 0,
            forall|config: Config| #[trigger] w.respects(config),
    {
        let results = CountResults::default();
        let excluded_dirs: Vec<String> = Vec::new();
        assert(table(results.file_counts@) =~= Map::empty());
        assert(table(results.language_stats@) =~= Map::empty());
        assert(string_views(results.excluded_files@) =~= Seq::empty());
        assert(string_views(excluded_dirs@) =~= Seq::empty());
        Walk { results, excluded_dirs, log: Ghost(Seq::empty()) }
    }

    /// Whether the walk enters the entry at `path`, `depth` levels below
    /// the root: the root itself and everything that is not a directory
    /// always, a directory when the filter keeps it. A directory that is
    /// pruned is logged, and recorded when `show_excluded` is set.
    pub fn visit_entry(
        &mut self,
        filter: &FileFilter,
        config: &Config,
        path: &str,
        root: &str,
        depth: usize,
        is_dir: bool,
    ) -> (keep: bool)
        ensures
            keep == (depth == 0 || !is_dir || accepts_dir(filter@, path@)),
            final(self).steps() == if keep {
                old(self).steps()
            } else {
                old(self).steps().push(
                    WalkStep::Pruned {
                        path: path@,
                        root: root@,
                        rules: filter@,
                        reported: config.show_excluded,
                    },
                )
            },
            final(self).current() == old(self).current(),
            old(self).respects(*config) ==> final(self).respects(*config),
            string_views(final(self).pruned_dirs()) == if !keep && config.show_excluded {
                string_views(old(self).pruned_dirs()).push(relative_display_of(path@, root@))
            } else {
                string_views(old(self).pruned_dirs())
            },
    {
        if depth == 0 || !is_dir {
            return true;
        }
        let keep = filter.should_process_dir(path);
        if !keep {
            let mut w = Walk::new();
            std::mem::swap(self, &mut w);
            proof {
                use_type_invariant(&w);
            }
            let Walk { results, excluded_dirs, log } = w;
            let mut dirs = excluded_dirs;
            let ghost step = WalkStep::Pruned {
                path: path@,
                root: root@,
                rules: filter@,
                reported: config.show_excluded,
            };
            proof {
                lemma_log_push(log@, step);
                lemma_valid_push(log@, step);
            }
            if config.show_excluded {
                let ghost before = dirs@;
                dirs.push(relative_display(path, root));
                assert(string_views(dirs@) =~= string_views(before).push(
                    relative_display_of(path@, root@),
                ));
            }
            *self = Walk { results, excluded_dirs: dirs, log: Ghost(log@.push(step)) };
        }
        keep
    }

    /// Whether the regular file at `path` is to be counted. The decision is
    /// logged, and a file that the filter rejects is recorded when
    /// `show_excluded` is set.
    pub fn visit_file(&mut self, filter: &FileFilter, config: &Config, path: &str, root: &str) -> (counted: bool)
        ensures
            counted == accepts_file(filter@, path@),
            final(self).steps() == old(self).steps().push(
                if counted {
                    WalkStep::Accepted { path: path@, rules: filter@ }
                } else {
                    WalkStep::Rejected {
                        path: path@,
                        root: root@,
                        rules: filter@,
                        reported: config.show_excluded,
                    }
                },
            ),
            old(self).respects(*config) ==> final(self).respects(*config),
            final(self).pruned_dirs() == old(self).pruned_dirs(),
            final(self).current().total_files == old(self).current().total_files,
            final(self).current().total_lines == old(self).current().total_lines,
            final(self).current().blank_lines == old(self).current().blank_lines,
            final(self).current().comment_lines == old(self).current().comment_lines,
            final(self).current().code_lines == old(self).current().code_lines,
            final(self).current().file_counts == old(self).current().file_counts,
            final(self).current().language_stats == old(self).current().language_stats,
            string_views(final(self).current().excluded_files@) == if !counted
                && config.show_excluded {
                string_views(old(self).current().excluded_files@).push(
                    relative_display_of(path@, root@),
                )
            } else {
                string_views(old(self).current().excluded_files@)
            },
    {
        let counted = filter.should_process_file(path);
        let mut w = Walk::new();
        std::mem::swap(self, &mut w);
        proof {
            use_type_invariant(&w);
        }
        let Walk { results, excluded_dirs, log } = w;
        let mut results = results;
        let ghost step = if counted {
            WalkStep::Accepted { path: path@, rules: filter@ }
        } else {
            WalkStep::Rejected {
                path: path@,
                root: root@,
                rules: filter@,
                reported: config.show_excluded,
            }
        };
        proof {
            lemma_log_push(log@, step);
            lemma_valid_push(log@, step);
        }
        if !counted && config.show_excluded {
            let ghost before = results.excluded_files@;
            results.excluded_files.push(relative_display(path, root));
            assert(string_views(results.excluded_files@) =~= string_views(before).push(
                relative_display_of(path@, root@),
            ));
        }
        *self = Walk { results, excluded_dirs, log: Ghost(log@.push(step)) };
        counted
    }

    /// Whether one more file with counts `c` fits in the totals.
    pub open spec fn fits(&self, c: FileCount) -> bool {
        &&& self.current().total_files + 1 <= usize::MAX
        &&& self.current().total_lines + c.total <= usize::MAX
        &&& self.current().blank_lines + c.blank <= usize::MAX
        &&& self.current().comment_lines + c.comments <= usize::MAX
        &&& self.current().code_lines + c.code <= usize::MAX
    }

    /// Whether one more file with line counts `p` fits in the totals.
    pub open spec fn fits_counts(&self, p: Progress) -> bool {
        &&& self.current().total_files + 1 <= usize::MAX
        &&& self.current().total_lines + p.total <= usize::MAX
        &&& self.current().blank_lines + p.blank <= usize::MAX
        &&& self.current().comment_lines + p.comments <= usize::MAX
        &&& self.current().code_lines + p.code <= usize::MAX
    }

    /// Whether one more file with counts `c` fits in the totals.
    pub fn can_add(&self, c: &FileCount) -> (b: bool)
        ensures
            b == self.fits(*c),
    {
        self.results.total_files < usize::MAX
            && c.total <= usize::MAX - self.results.total_lines
            && c.blank <= usize::MAX - self.results.blank_lines
            && c.comments <= usize::MAX - self.results.comment_lines
            && c.code <= usize::MAX - self.results.code_lines
    }

    /// Counts the file at `path` that the walk accepted last, whose text is
    /// `content`: the totals grow by its counts, its language gains one
    /// file and its lines and code lines, with `show_details` its counts
    /// are recorded under its path relative to `root`, and the log records
    /// the count.
    pub fn add_file(&mut self, config: &Config, path: &str, root: &str, content: &str) -> (c: FileCount)
        requires
            old(self).steps().len() > 0,
            old(self).steps().last() matches WalkStep::Accepted { path: p, .. } && p == path@,
            old(self).fits_counts(counts_of(content@, config.count_blank, config.count_comments)),
        ensures
            matches_progress(c, counts_of(content@, config.count_blank, config.count_comments)),
            final(self).steps() == old(self).steps().push(
                WalkStep::Counted { path: path@, root: root@, text: content@, counts: c, config: *config },
            ),
            final(self).current().total_files == old(self).current().total_files + 1,
            final(self).current().total_lines == old(self).current().total_lines + c.total,
            final(self).current().blank_lines == old(self).current().blank_lines + c.blank,
            final(self).current().comment_lines == old(self).current().comment_lines + c.comments,
            final(self).current().code_lines == old(self).current().code_lines + c.code,
            table(final(self).current().language_stats@) == table(
                old(self).current().language_stats@,
            ).insert(
                language_of_path(path@),
                bumped(old(self).current().language_stats@, language_of_path(path@), c),
            ),
            config.show_details ==> table(final(self).current().file_counts@) == table(
                old(self).current().file_counts@,
            ).insert(relative_display_of(path@, root@), c),
            !config.show_details ==> final(self).current().file_counts == old(
                self,
            ).current().file_counts,
            final(self).current().excluded_files == old(self).current().excluded_files,
            final(self).pruned_dirs() == old(self).pruned_dirs(),
            old(self).respects(*config) ==> final(self).respects(*config),
            final(self).current().partitioned(),
    {
        let c = count_file_lines(content, config);
        let lang: String = match path_extension(path) {
            Some(ext) => get_language_name(ext.as_str()).to_owned(),
            None => "Other".to_owned(),
        };
        let mut w = Walk::new();
        std::mem::swap(self, &mut w);
        proof {
            use_type_invariant(&w);
        }
        let Walk { results, excluded_dirs, log } = w;
        let mut results = results;
        let ghost langs = results.language_stats@;
        let (found, j) = find_slot(&results.language_stats, lang.as_str());
        let before = if found {
            results.language_stats[j].1
        } else {
            LanguageStats { files: 0, lines: 0, code_lines: 0 }
        };
        proof {
            if found {
                lemma_key_unique(langs, j as int, lang@);
                assert forall|i: int| 0 <= i < langs.len() implies stat_files()(
                    #[trigger] langs[i].1,
                ) >= 0 && stat_lines()(langs[i].1) >= 0 && stat_code()(langs[i].1) >= 0 by {}
                lemma_term_le_sum(langs, j as int, stat_files());
                lemma_term_le_sum(langs, j as int, stat_lines());
                lemma_term_le_sum(langs, j as int, stat_code());
            }
        }
        let after = LanguageStats {
            files: before.files + 1,
            lines: before.lines + c.total,
            code_lines: before.code_lines + c.code,
        };
        assert(after == bumped(langs, lang@, c));
        upsert(&mut results.language_stats, lang, after);
        proof {
            assert(sum_of(results.language_stats@, stat_files()) == sum_of(langs, stat_files())
                - (if has_key(langs, lang@) {
                stat_files()(value_of(langs, lang@))
            } else {
                0
            }) + stat_files()(after));
            assert(sum_of(results.language_stats@, stat_lines()) == sum_of(langs, stat_lines())
                - (if has_key(langs, lang@) {
                stat_lines()(value_of(langs, lang@))
            } else {
                0
            }) + stat_lines()(after));
            assert(sum_of(results.language_stats@, stat_code()) == sum_of(langs, stat_code())
                - (if has_key(langs, lang@) {
                stat_code()(value_of(langs, lang@))
            } else {
                0
            }) + stat_code()(after));
            lemma_files_positive(langs, results.language_stats@, lang@, after);
        }
        results.total_files = results.total_files + 1;
        results.total_lines = results.total_lines + c.total;
        results.blank_lines = results.blank_lines + c.blank;
        results.comment_lines = results.comment_lines + c.comments;
        results.code_lines = results.code_lines + c.code;
        if config.show_details {
            upsert(&mut results.file_counts, relative_display(path, root), c);
        }
        let ghost step = WalkStep::Counted { path: path@, root: root@, text: content@, counts: c, config: *config };
        proof {
            lemma_log_push(log@, step);
            lemma_valid_push(log@, step);
            lemma_stats_bump(table(langs), languages_of(log@), lang@, c);
        }
        *self = Walk { results, excluded_dirs, log: Ghost(log@.push(step)) };
        c
    }

    /// The results of the finished walk: what its log gives, with the
    /// excluded files and the pruned directories together, in sorted order.
    /// Every step of the log is the filter's own decision.
    pub fn finish(self) -> (r: CountResults)
        ensures
            r.wf(),
            log_valid(self.steps()),
            r.total_files == counted_files(self.steps()),
            r.total_lines == counted_sum(self.steps(), lines_total()),
            r.blank_lines == counted_sum(self.steps(), lines_blank()),
            r.comment_lines == counted_sum(self.steps(), lines_comments()),
            r.code_lines == counted_sum(self.steps(), lines_code()),
            table(r.file_counts@) == details_of(self.steps()),
            stats_match(table(r.language_stats@), languages_of(self.steps())),
            sorted_seqs(string_views(r.excluded_files@)),
            string_views(r.excluded_files@).to_multiset() == (rejected_of(self.steps()) + pruned_of(
                self.steps(),
            )).to_multiset(),
            r.total_files == self.current().total_files,
            r.total_lines == self.current().total_lines,
            r.blank_lines == self.current().blank_lines,
            r.comment_lines == self.current().comment_lines,
            r.code_lines == self.current().code_lines,
            r.file_counts == self.current().file_counts,
            r.language_stats == self.current().language_stats,
            r.excluded_files@.to_multiset() == (self.current().excluded_files@
                + self.pruned_dirs()).to_multiset(),
            r.partitioned(),
            forall|config: Config| #[trigger] self.respects(config) ==> r.respects(config),
    {
        proof {
            use_type_invariant(&self);
        }
        let Walk { results, excluded_dirs, log } = self;
        let mut results = results;
        let mut dirs = excluded_dirs;
        let mut all = results.excluded_files;
        let ghost files = all@;
        let ghost pruned = dirs@;
        all.append(&mut dirs);
        assert(all@ == files + pruned);
        assert(string_views(all@) =~= string_views(files) + string_views(pruned));
        results.excluded_files = sort_strings(all);
        proof {
            vstd::seq_lib::to_multiset_len(results.excluded_files@);
            vstd::seq_lib::to_multiset_len(files + pruned);
        }
        results
    }
}

/// Every file that a walk counts is one that the filter accepted in the
/// step just before, so no accepted file is counted twice, and its counts
/// are those of its text.
pub proof fn law_walk_counts_only_accepted_files(log: Seq<WalkStep>, i: int)
    requires
        log_valid(log),
        0 <= i < log.len(),
        log[i] is Counted,
    ensures
        0 < i,
        log[i - 1] is Accepted,
        log[i - 1]->Accepted_path == log[i]->Counted_path,
        accepts_file(log[i - 1]->Accepted_rules, log[i]->Counted_path),
        matches_progress(
            log[i]->Counted_counts,
            counts_of(
                log[i]->Counted_text,
                log[i]->Counted_config.count_blank,
                log[i]->Counted_config.count_comments,
            ),
        ),
{
    assert(step_valid(log, i));
    assert(step_valid(log, i - 1));
}

/// After one more file of language `lang` with counts `c`, a language
/// table that matched `m` matches `m` with that language bumped.
proof fn lemma_stats_bump(
    t: Map<Seq<char>, LanguageStats>,
    m: Map<Seq<char>, (nat, nat, nat)>,
    lang: Seq<char>,
    c: FileCount,
)
    requires
        stats_match(t, m),
    ensures
        ({
            let before = if t.contains_key(lang) {
                t[lang]
            } else {
                LanguageStats { files: 0, lines: 0, code_lines: 0 }
            };
            let b = if m.contains_key(lang) {
                m[lang]
            } else {
                (0nat, 0nat, 0nat)
            };
            (before.files + 1 <= usize::MAX && before.lines + c.total <= usize::MAX
                && before.code_lines + c.code <= usize::MAX) ==> stats_match(
                t.insert(
                    lang,
                    LanguageStats {
                        files: (before.files + 1) as usize,
                        lines: (before.lines + c.total) as usize,
                        code_lines: (before.code_lines + c.code) as usize,
                    },
                ),
                m.insert(lang, (b.0 + 1, b.1 + c.total as nat, b.2 + c.code as nat)),
            )
        }),
{
    assert(t.dom().contains(lang) == m.dom().contains(lang));
}

/// Every language of a table keeps at least one file when one language is
/// set to stats with at least one file.
proof fn lemma_files_positive(
    langs: Seq<(String, LanguageStats)>,
    after: Seq<(String, LanguageStats)>,
    lang: Seq<char>,
    v: LanguageStats,
)
    requires
        keys_sorted(langs),
        keys_sorted(after),
        forall|i: int| 0 <= i < langs.len() ==> #[trigger] langs[i].1.files >= 1,
        table(after) == table(langs).insert(lang, v),
        v.files >= 1,
    ensures
        forall|i: int| 0 <= i < after.len() ==> #[trigger] after[i].1.files >= 1,
{
    assert forall|i: int| 0 <= i < after.len() implies #[trigger] after[i].1.files >= 1 by {
        let k = after[i].0@;
        lemma_key_unique(after, i, k);
        assert(table(after).contains_key(k));
        assert(table(after)[k] == after[i].1);
        if k != lang {
            assert(table(langs).contains_key(k));
            let j = choose|j: int| 0 <= j < langs.len() && #[trigger] langs[j].0@ == k;
            lemma_key_unique(langs, j, k);
            assert(table(after)[k] == table(langs)[k]);
            assert(table(langs)[k] == langs[j].1);
        } else {
            assert(table(after)[k] == v);
        }
    }
}

} // verus!
