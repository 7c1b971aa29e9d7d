//! What a report shows: the output format named in the configuration and
//! the CSV rendering of a `CountResults` (a header, one row per file when
//! `show_details` is set, and a trailing TOTAL row).

use vstd::prelude::*;
use crate::config::{views, Config};
use crate::counter::{CountResults, FileCount, LanguageStats};
use crate::table::keys_sorted;
use crate::text::seq_less_eq;

verus! {

/// A CSV writer over a byte buffer. Verus does not accept a declaration of
/// `csv::Writer`, whose parameter is bound by `std::io::Write`, so the
/// writer is held here, opaque.
#[verifier::external_body]
pub struct CsvBuffer {
    writer: csv::Writer<Vec<u8>>,
}

#[verifier::external_type_specification]
#[verifier::external_body]
pub struct ExCsvError(csv::Error);


/// Name for the records that a CSV writer over a byte buffer holds, in the
/// order they were written.
pub uninterp spec fn csv_records(w: CsvBuffer) -> Seq<Seq<Seq<char>>>;

/// Whether a character obliges the CSV writer to quote the field that
/// holds it: the delimiter `,`, the quote `"`, or a line break.
pub open spec fn is_csv_special(c: char) -> bool {
    c == ',' || c == '"' || c == '\r' || c == '\n'
}

/// Whether the CSV writer quotes the field `f`.
pub open spec fn needs_quotes(f: Seq<char>) -> bool {
    exists|i: int| 0 <= i < f.len() && is_csv_special(#[trigger] f[i])
}

/// `f` with every quote doubled.
pub open spec fn quotes_doubled(f: Seq<char>) -> Seq<char>
    decreases f.len(),
{
    if f.len() == 0 {
        Seq::empty()
    } else {
        quotes_doubled(f.drop_last()) + if f.last() == '"' {
            seq!['"', '"']
        } else {
            seq![f.last()]
        }
    }
}

/// How the CSV writer writes the field `f`: as it is, or, where it must be
/// quoted, between quotes with its own quotes doubled.
pub open spec fn csv_field(f: Seq<char>) -> Seq<char> {
    if needs_quotes(f) {
        seq!['"'] + quotes_doubled(f) + seq!['"']
    } else {
        f
    }
}

/// The fields of `r`, each as the writer writes it, separated by `,`.
pub open spec fn joined_fields(r: Seq<Seq<char>>) -> Seq<char>
    decreases r.len(),
{
    if r.len() == 0 {
        Seq::empty()
    } else if r.len() == 1 {
        csv_field(r[0])
    } else {
        joined_fields(r.drop_last()) + seq![','] + csv_field(r.last())
    }
}

/// How the CSV writer writes the record `r`: its joined fields (a record
/// that would write nothing, such as one empty field, is written as `""`),
/// ended by `\n`.
pub open spec fn csv_line(r: Seq<Seq<char>>) -> Seq<char> {
    let body = joined_fields(r);
    (if body.len() == 0 {
        seq!['"', '"']
    } else {
        body
    }) + seq!['\n']
}

/// The text of `records` as the CSV writer writes them, one line each.
pub open spec fn csv_text(records: Seq<Seq<Seq<char>>>) -> Seq<char>
    decreases records.len(),
{
    if records.len() == 0 {
        Seq::empty()
    } else {
        csv_text(records.drop_last()) + csv_line(records.last())
    }
}

/// The bytes that a CSV writer with the default settings produces for
/// `records`: the UTF-8 encoding of their text.
pub open spec fn csv_encoding(records: Seq<Seq<Seq<char>>>) -> Seq<u8> {
    vstd::utf8::encode_utf8(csv_text(records))
}

/// `csv::Writer::from_writer` over an empty byte buffer: a writer that
/// holds no records.
#[verifier::external_body]
fn csv_writer() -> (w: CsvBuffer)
    ensures
        csv_records(w) == Seq::<Seq<Seq<char>>>::empty(),
{
    CsvBuffer { writer: csv::Writer::from_writer(Vec::new()) }
}

/// `csv::Writer::write_record`, which consumes the writer and hands it back
/// on success, holding one more record made of `fields`. The write
/// succeeds when `fields` is not empty and has as many fields as the first
/// record the writer holds (the writer checks that all records have the
/// same length, and writing into a byte buffer does not fail); a writer
/// whose write failed is not handed back.
#[verifier::external_body]
fn csv_write_record(w: CsvBuffer, fields: &Vec<String>) -> (r: Result<CsvBuffer, csv::Error>)
    ensures
        r matches Ok(w2) ==> csv_records(w2) == csv_records(w).push(views(fields@)),
        fields@.len() > 0 && (csv_records(w).len() == 0 || csv_records(w)[0].len()
            == fields@.len()) ==> r is Ok,
{
    let mut w = w;
    match w.writer.write_record(fields) {
        Ok(()) => Ok(w),
        Err(e) => Err(e),
    }
}

/// `csv::Writer::into_inner`: the encoding of the records that the writer
/// holds. Flushing into a byte buffer does not fail, so the buffer is
/// always handed back; `None` would stand for a failed flush (whose error,
/// which holds the writer itself, is dropped).
#[verifier::external_body]
fn csv_into_inner(w: CsvBuffer) -> (r: Option<Vec<u8>>)
    ensures
        r is Some,
        r matches Some(b) ==> b@ == csv_encoding(csv_records(w)),
{
    match w.writer.into_inner() {
        Ok(b) => Some(b),
        Err(_) => None,
    }
}

/// The decimal digit with value `d`.
pub open spec fn digit(d: nat) -> char {
    (48 + d) as char
}

/// The decimal representation of `n`, without leading zeros.
pub open spec fn decimal(n: nat) -> Seq<char>
    decreases n,
{
    if n < 10 {
        seq![digit(n)]
    } else {
        decimal(n / 10).push(digit(n % 10))
    }
}

/// The number that the decimal digits `s` stand for.
pub open spec fn digits_value(s: Seq<char>) -> int
    decreases s.len(),
{
    if s.len() == 0 {
        0
    } else {
        digits_value(s.drop_last()) * 10 + ((s.last() as int) - ('0' as int))
    }
}

/// The decimal representation of `n` is made of the digits `0` to `9`,
/// stands for `n`, and has no leading zero unless `n` is zero.
pub proof fn law_decimal_represents(n: nat)
    ensures
        decimal(n).len() > 0,
        forall|i: int| 0 <= i < decimal(n).len() ==> '0' <= #[trigger] decimal(n)[i] <= '9',
        digits_value(decimal(n)) == n,
        decimal(n)[0] == '0' ==> n == 0,
    decreases n,
{
    assert((digit(n % 10) as int) == 48 + n % 10);
    if n < 10 {
        assert(seq![digit(n)].drop_last() =~= Seq::<char>::empty());
        assert(digits_value(Seq::<char>::empty()) == 0);
        assert(decimal(n).last() == digit(n));
        assert(n % 10 == n);
        assert(digits_value(decimal(n)) == n);
    } else {
        law_decimal_represents(n / 10);
        let s = decimal(n);
        assert(s.drop_last() =~= decimal(n / 10));
        assert(n == (n / 10) * 10 + n % 10);
        assert(digits_value(s) == digits_value(decimal(n / 10)) * 10 + (digit(n % 10) as int) - 48);
        assert(digits_value(decimal(n / 10)) == n / 10);
        assert(digits_value(s) == (n / 10) * 10 + n % 10);
        assert forall|i: int| 0 <= i < s.len() implies '0' <= #[trigger] s[i] <= '9' by {
            if i < s.len() - 1 {
                assert(s[i] == decimal(n / 10)[i]);
            }
        }
        assert(s[0] == decimal(n / 10)[0]);
    }
}

/// The one-character text of the decimal digit `d`.
fn digit_text(d: usize) -> (s: &'static str)
    requires
        d < 10,
    ensures
        s@ == seq![digit(d as nat)],
{
    proof {
        reveal_strlit("0");
        reveal_strlit("1");
        reveal_strlit("2");
        reveal_strlit("3");
        reveal_strlit("4");
        reveal_strlit("5");
        reveal_strlit("6");
        reveal_strlit("7");
        reveal_strlit("8");
        reveal_strlit("9");
    }
    if d == 0 {
        "0"
    } else if d == 1 {
        "1"
    } else if d == 2 {
        "2"
    } else if d == 3 {
        "3"
    } else if d == 4 {
        "4"
    } else if d == 5 {
        "5"
    } else if d == 6 {
        "6"
    } else if d == 7 {
        "7"
    } else if d == 8 {
        "8"
    } else {
        "9"
    }
}

/// The decimal representation of `n`, as `usize::to_string` writes it.
pub fn decimal_string(n: usize) -> (s: String)
    ensures
        s@ == decimal(n as nat),
    decreases n,
{
    if n < 10 {
        digit_text(n).to_owned()
    } else {
        let mut s = decimal_string(n / 10);
        s.append(digit_text(n % 10));
        s
    }
}

/// The formats a report can be rendered in.
#[derive(Debug, Clone, Copy, PartialEq, Eq, Structural)]
pub enum OutputFormat {
    Text,
    Json,
    Csv,
}

/// The renderer for the configured format: `json` and `csv` name theirs,
/// anything else is rendered as text.
pub open spec fn format_of(f: Seq<char>) -> OutputFormat {
    if f == "json"@ {
        OutputFormat::Json
    } else if f == "csv"@ {
        OutputFormat::Csv
    } else {
        OutputFormat::Text
    }
}

/// Which renderer `config.format` selects.
pub fn output_format(config: &Config) -> (r: OutputFormat)
    ensures
        r == format_of(config.format@),
{
    if crate::text::str_eq(config.format.as_str(), "json") {
        OutputFormat::Json
    } else if crate::text::str_eq(config.format.as_str(), "csv") {
        OutputFormat::Csv
    } else {
        OutputFormat::Text
    }
}

/// The header record of the CSV report.
pub open spec fn csv_header() -> Seq<Seq<char>> {
    seq!["file"@, "total"@, "blank"@, "comments"@, "code"@]
}

/// The CSV record of one file.
pub open spec fn file_row(name: Seq<char>, c: FileCount) -> Seq<Seq<char>> {
    seq![name, decimal(c.total as nat), decimal(c.blank as nat), decimal(c.comments as nat), decimal(c.code as nat)]
}

/// The CSV record of the totals.
pub open spec fn total_row(r: CountResults) -> Seq<Seq<char>> {
    seq![
        "TOTAL"@,
        decimal(r.total_lines as nat),
        decimal(r.blank_lines as nat),
        decimal(r.comment_lines as nat),
        decimal(r.code_lines as nat),
    ]
}

/// The records of the CSV report: the header, one row per file (in key
/// order) when `show_details` is set, and the TOTAL row.
pub open spec fn csv_rows(r: CountResults, show_details: bool) -> Seq<Seq<Seq<char>>> {
    let files = if show_details {
        r.file_counts@.map_values(|e: (String, FileCount)| file_row(e.0@, e.1))
    } else {
        Seq::empty()
    };
    seq![csv_header()] + files + seq![total_row(r)]
}

/// The records of the CSV report line up with its header
/// `file,total,blank,comments,code`: after the header come the files in
/// key order (when `show_details` is set) and then the TOTAL row, and in
/// each of them the field under `total`, `blank`, `comments` and `code` is
/// the decimal of that count, the file's own for a file row and the
/// overall one for the TOTAL row.
pub proof fn law_csv_columns_line_up(r: CountResults, show_details: bool)
    ensures
        ({
            let rows = csv_rows(r, show_details);
            let n = if show_details {
                r.file_counts@.len() as int
            } else {
                0
            };
            &&& rows.len() == n + 2
            &&& rows[0] == seq!["file"@, "total"@, "blank"@, "comments"@, "code"@]
            &&& forall|i: int|
                1 <= i <= n ==> {
                    let c = r.file_counts@[i - 1].1;
                    &&& (#[trigger] rows[i]).len() == 5
                    &&& rows[i][0] == r.file_counts@[i - 1].0@
                    &&& rows[i][1] == decimal(c.total as nat)
                    &&& rows[i][2] == decimal(c.blank as nat)
                    &&& rows[i][3] == decimal(c.comments as nat)
                    &&& rows[i][4] == decimal(c.code as nat)
                }
            &&& rows[n + 1].len() == 5
            &&& rows[n + 1][0] == "TOTAL"@
            &&& rows[n + 1][1] == decimal(r.total_lines as nat)
            &&& rows[n + 1][2] == decimal(r.blank_lines as nat)
            &&& rows[n + 1][3] == decimal(r.comment_lines as nat)
            &&& rows[n + 1][4] == decimal(r.code_lines as nat)
        }),
{
    let rows = csv_rows(r, show_details);
    let n = if show_details {
        r.file_counts@.len() as int
    } else {
        0
    };
    assert forall|i: int| 1 <= i <= n implies (#[trigger] rows[i]).len() == 5 && rows[i]
        =~= seq![
        r.file_counts@[i - 1].0@,
        decimal(r.file_counts@[i - 1].1.total as nat),
        decimal(r.file_counts@[i - 1].1.blank as nat),
        decimal(r.file_counts@[i - 1].1.comments as nat),
        decimal(r.file_counts@[i - 1].1.code as nat),
    ] by {}
}

/// Why a report could not be rendered.
#[derive(Debug)]
pub enum OutputError {
    /// The CSV writer refused a record.
    Csv(csv::Error),
    /// The CSV writer could not hand back its buffer.
    CsvBuffer,
}

/// The five strings of a CSV record.
fn record(a: String, b: String, c: String, d: String, e: String) -> (r: Vec<String>)
    ensures
        r@.len() == 5,
        views(r@) == seq![a@, b@, c@, d@, e@],
{
    let mut r: Vec<String> = Vec::new();
    r.push(a);
    r.push(b);
    r.push(c);
    r.push(d);
    r.push(e);
    assert(views(r@) =~= seq![a@, b@, c@, d@, e@]);
    r
}

/// The CSV report of `results`: one row per file (if `show_details`) plus a
/// trailing TOTAL row, after the header. Every record has five fields, so
/// the report is always produced.
pub fn write_csv(results: &CountResults, config: &Config) -> (r: Result<Vec<u8>, OutputError>)
    ensures
        r is Ok,
        r matches Ok(b) ==> b@ == csv_encoding(csv_rows(*results, config.show_details)),
{
    let w = csv_writer();
    let header = record(
        "file".to_owned(),
        "total".to_owned(),
        "blank".to_owned(),
        "comments".to_owned(),
        "code".to_owned(),
    );
    let mut w = match csv_write_record(w, &header) {
        Ok(w2) => w2,
        Err(e) => return Err(OutputError::Csv(e)),
    };
    let ghost rows = csv_rows(*results, config.show_details);
    let ghost files = if config.show_details {
        results.file_counts@.map_values(|e: (String, FileCount)| file_row(e.0@, e.1))
    } else {
        Seq::empty()
    };
    assert(csv_records(w) =~= seq![csv_header()]);
    if config.show_details {
        let mut i: usize = 0;
        while i < results.file_counts.len()
            invariant
                config.show_details,
                0 <= i <= results.file_counts@.len(),
                files == results.file_counts@.map_values(
                    |e: (String, FileCount)| file_row(e.0@, e.1),
                ),
                csv_records(w) == seq![csv_header()] + files.take(i as int),
            decreases results.file_counts.len() - i,
        {
            let name = &results.file_counts[i].0;
            let c = results.file_counts[i].1;
            let row = record(
                name.clone(),
                decimal_string(c.total),
                decimal_string(c.blank),
                decimal_string(c.comments),
                decimal_string(c.code),
            );
            assert(csv_records(w)[0] == csv_header());
            assert(csv_header().len() == 5);
            w = match csv_write_record(w, &row) {
                Ok(w2) => w2,
                Err(e) => return Err(OutputError::Csv(e)),
            };
            assert(files.take(i + 1) =~= files.take(i as int).push(files[i as int]));
            i = i + 1;
        }
        assert(files.take(i as int) =~= files);
    }
    let total = record(
        "TOTAL".to_owned(),
        decimal_string(results.total_lines),
        decimal_string(results.blank_lines),
        decimal_string(results.comment_lines),
        decimal_string(results.code_lines),
    );
    assert(csv_records(w)[0] == csv_header());
    assert(csv_header().len() == 5);
    let w = match csv_write_record(w, &total) {
        Ok(w2) => w2,
        Err(e) => return Err(OutputError::Csv(e)),
    };
    assert(csv_records(w) =~= rows);
    match csv_into_inner(w) {
        Some(b) => Ok(b),
        None => Err(OutputError::CsvBuffer),
    }
}

/// Whether `s` is ordered by decreasing weight `w`, entries of equal weight
/// in key order.
pub open spec fn ranked<T>(s: Seq<(String, T)>, w: spec_fn(T) -> int) -> bool {
    forall|i: int, j: int|
        0 <= i < j < s.len() ==> w(#[trigger] s[i].1) > w(#[trigger] s[j].1) || (w(s[i].1) == w(
            s[j].1,
        ) && seq_less_eq(s[i].0@, s[j].0@))
}

/// The entries of `v` (in strictly increasing key order) by decreasing
/// weight, as a stable sort by decreasing weight orders them.
fn rank_by_weight<T: Copy>(
    v: &Vec<(String, T)>,
    weigh: impl Fn(&T) -> usize,
    Ghost(w): Ghost<spec_fn(T) -> int>,
) -> (r: Vec<(String, T)>)
    requires
        keys_sorted(v@),
        forall|t: &T| #[trigger] weigh.requires((t,)),
        forall|t: &T, n: usize| weigh.ensures((t,), n) ==> n == w(*t),
    ensures
        ranked(r@, w),
        r@.to_multiset() == v@.to_multiset(),
{
    broadcast use vstd::seq_lib::group_to_multiset_ensures, vstd::multiset::group_multiset_axioms;

    let mut r: Vec<(String, T)> = Vec::new();
    let mut i: usize = 0;
    assert(v@.take(0) =~= Seq::<(String, T)>::empty());
    while i < v.len()
        invariant
            keys_sorted(v@),
            forall|t: &T| #[trigger] weigh.requires((t,)),
            forall|t: &T, n: usize| weigh.ensures((t,), n) ==> n == w(*t),
            0 <= i <= v@.len(),
            ranked(r@, w),
            r@.to_multiset() == v@.take(i as int).to_multiset(),
        decreases v.len() - i,
    {
        let x = (v[i].0.clone(), v[i].1);
        assert(x == v@[i as int]);
        let wx = weigh(&v[i].1);
        let mut j: usize = 0;
        while j < r.len() && weigh(&r[j].1) >= wx
            invariant
                forall|t: &T| #[trigger] weigh.requires((t,)),
                forall|t: &T, n: usize| weigh.ensures((t,), n) ==> n == w(*t),
                wx == w(x.1),
                0 <= j <= r@.len(),
                forall|k: int| 0 <= k < j ==> w(#[trigger] r@[k].1) >= w(x.1),
            decreases r.len() - j,
        {
            j = j + 1;
        }
        proof {
            assert forall|k: int| 0 <= k < r@.len() implies seq_less_eq(#[trigger] r@[k].0@, x.0@)
                && r@[k].0@ != x.0@ by {
                assert(r@.contains(r@[k]));
                vstd::seq_lib::to_multiset_contains(r@, r@[k]);
                vstd::seq_lib::to_multiset_contains(v@.take(i as int), r@[k]);
                assert(v@.take(i as int).contains(r@[k]));
                let m = choose|m: int| 0 <= m < i && v@.take(i as int)[m] == r@[k];
                assert(v@[m] == r@[k]);
            }
            assert forall|k: int| j <= k < r@.len() implies w(#[trigger] r@[k].1) < w(x.1) by {
                if k > j {
                    assert(w(r@[j as int].1) < w(x.1));
                    assert(w(r@[j as int].1) > w(r@[k].1) || w(r@[j as int].1) == w(r@[k].1));
                }
            }
        }
        let ghost old_r = r@;
        r.insert(j, x);
        proof {
            assert forall|a: int, b: int| 0 <= a < b < r@.len() implies w(#[trigger] r@[a].1) > w(
                #[trigger] r@[b].1,
            ) || (w(r@[a].1) == w(r@[b].1) && seq_less_eq(r@[a].0@, r@[b].0@)) by {
                if a < j && b < j {
                    assert(w(old_r[a].1) > w(old_r[b].1) || (w(old_r[a].1) == w(old_r[b].1)
                        && seq_less_eq(old_r[a].0@, old_r[b].0@)));
                } else if a < j && b == j {
                } else if a < j && b > j {
                    assert(w(old_r[b - 1].1) < w(x.1));
                } else if a == j {
                    assert(w(old_r[b - 1].1) < w(x.1));
                } else {
                    assert(w(old_r[a - 1].1) > w(old_r[b - 1].1) || (w(old_r[a - 1].1) == w(
                        old_r[b - 1].1,
                    ) && seq_less_eq(old_r[a - 1].0@, old_r[b - 1].0@)));
                }
            }
            vstd::seq_lib::to_multiset_insert(old_r, j as int, x);
            assert(v@.take(i + 1) =~= v@.take(i as int).push(x));
            vstd::seq_lib::to_multiset_build(v@.take(i as int), x);
        }
        i = i + 1;
    }
    assert(v@.take(v@.len() as int) =~= v@);
    r
}

/// The weight of a file: its total line count.
pub open spec fn file_total() -> spec_fn(FileCount) -> int {
    |c: FileCount| c.total as int
}

/// The weight of a language: its code line count.
pub open spec fn language_code() -> spec_fn(LanguageStats) -> int {
    |s: LanguageStats| s.code_lines as int
}

/// The total line count of a file.
fn file_total_of(c: &FileCount) -> (n: usize)
    ensures
        n == c.total,
{
    c.total
}

/// The code line count of a language.
fn language_code_of(s: &LanguageStats) -> (n: usize)
    ensures
        n == s.code_lines,
{
    s.code_lines
}

/// The per-file rows of the text report: largest files first, files of
/// equal size in path order.
pub fn files_by_total(results: &CountResults) -> (r: Vec<(String, FileCount)>)
    requires
        keys_sorted(results.file_counts@),
    ensures
        ranked(r@, file_total()),
        r@.to_multiset() == results.file_counts@.to_multiset(),
{
    rank_by_weight(
        &results.file_counts,
        file_total_of,
        Ghost(file_total()),
    )
}

/// The language rows of the text report: most code lines first, languages
/// with as many in name order.
pub fn languages_by_code(results: &CountResults) -> (r: Vec<(String, LanguageStats)>)
    requires
        keys_sorted(results.language_stats@),
    ensures
        ranked(r@, language_code()),
        r@.to_multiset() == results.language_stats@.to_multiset(),
{
    rank_by_weight(
        &results.language_stats,
        language_code_of,
        Ghost(language_code()),
    )
}

} // verus!
