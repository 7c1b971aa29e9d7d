//! Character-level string helpers shared by the counter, the filter and the
//! configuration code: Unicode whitespace, trimming, prefix tests, equality
//! and lexicographic order over `char` sequences.

use vstd::prelude::*;

verus! {

/// The Unicode `White_Space` property, which is what `char::is_whitespace`
/// (and therefore `str::trim`) tests.
pub open spec fn is_white_space(c: char) -> bool {
    let v = c as u32;
    ||| 0x9 <= v <= 0xd
    ||| v == 0x20
    ||| v == 0x85
    ||| v == 0xa0
    ||| v == 0x1680
    ||| 0x2000 <= v <= 0x200a
    ||| v == 0x2028
    ||| v == 0x2029
    ||| v == 0x202f
    ||| v == 0x205f
    ||| v == 0x3000
}

/// `s` without its leading whitespace.
pub open spec fn trim_start(s: Seq<char>) -> Seq<char>
    decreases s.len(),
{
    if s.len() > 0 && is_white_space(s[0]) {
        trim_start(s.drop_first())
    } else {
        s
    }
}

/// `s` without its trailing whitespace.
pub open spec fn trim_end(s: Seq<char>) -> Seq<char>
    decreases s.len(),
{
    if s.len() > 0 && is_white_space(s.last()) {
        trim_end(s.drop_last())
    } else {
        s
    }
}

/// `s` without leading and trailing whitespace, as `str::trim` computes it.
pub open spec fn trim(s: Seq<char>) -> Seq<char> {
    trim_end(trim_start(s))
}

/// Whether every character of `s` is a space or a tab.
pub open spec fn spaces_and_tabs(s: Seq<char>) -> bool {
    forall|i: int| 0 <= i < s.len() ==> #[trigger] s[i] == ' ' || s[i] == '\t'
}

/// The whitespace that trimming removes is the Unicode `White_Space` set:
/// tab, line feed, vertical tab, form feed, carriage return, space, next
/// line, no-break space, ogham space mark, the spaces U+2000 to U+200A,
/// line separator, paragraph separator, narrow no-break space, medium
/// mathematical space and ideographic space, and nothing else.
pub proof fn law_white_space_is_unicode_white_space(c: char)
    ensures
        is_white_space(c) <==> {
            ||| c == '\t'
            ||| c == '\n'
            ||| c == '\u{0B}'
            ||| c == '\u{0C}'
            ||| c == '\r'
            ||| c == ' '
            ||| c == '\u{85}'
            ||| c == '\u{A0}'
            ||| c == '\u{1680}'
            ||| (0x2000u32 <= (c as u32) && (c as u32) <= 0x200Au32)
            ||| c == '\u{2028}'
            ||| c == '\u{2029}'
            ||| c == '\u{202F}'
            ||| c == '\u{205F}'
            ||| c == '\u{3000}'
        },
{
}

/// Whitespace before a text does not survive the trim of its start.
proof fn lemma_trim_start_skips(pre: Seq<char>, x: Seq<char>)
    requires
        forall|i: int| 0 <= i < pre.len() ==> is_white_space(#[trigger] pre[i]),
    ensures
        trim_start(pre + x) == trim_start(x),
    decreases pre.len(),
{
    if pre.len() > 0 {
        assert((pre + x).drop_first() =~= pre.drop_first() + x);
        assert(is_white_space(pre[0]));
        lemma_trim_start_skips(pre.drop_first(), x);
    } else {
        assert(pre + x =~= x);
    }
}

/// Whitespace after a text does not survive the trim of its end.
proof fn lemma_trim_end_skips(x: Seq<char>, post: Seq<char>)
    requires
        forall|i: int| 0 <= i < post.len() ==> is_white_space(#[trigger] post[i]),
    ensures
        trim_end(x + post) == trim_end(x),
    decreases post.len(),
{
    if post.len() > 0 {
        assert((x + post).drop_last() =~= x + post.drop_last());
        assert(is_white_space(post.last()));
        lemma_trim_end_skips(x, post.drop_last());
    } else {
        assert(x + post =~= x);
    }
}

/// Trimming the start of `t + post` trims the start of `t`, or, when `t`
/// is all whitespace, of `post`.
proof fn lemma_trim_start_concat(t: Seq<char>, post: Seq<char>)
    ensures
        trim_start(t + post) == if trim_start(t).len() > 0 {
            trim_start(t) + post
        } else {
            trim_start(post)
        },
    decreases t.len(),
{
    if t.len() > 0 {
        assert((t + post)[0] == t[0]);
        if is_white_space(t[0]) {
            assert((t + post).drop_first() =~= t.drop_first() + post);
            lemma_trim_start_concat(t.drop_first(), post);
        }
    } else {
        assert(t + post =~= post);
    }
}

/// Spaces and tabs around a line do not change it once trimmed: a line
/// indented with tabs or spaces, or followed by them, trims to what its
/// text trims to, so it is blank, a comment or code exactly as that text
/// is.
pub proof fn law_trim_ignores_spaces_and_tabs(pre: Seq<char>, t: Seq<char>, post: Seq<char>)
    requires
        spaces_and_tabs(pre),
        spaces_and_tabs(post),
    ensures
        trim(pre + t + post) == trim(t),
{
    assert forall|i: int| 0 <= i < pre.len() implies is_white_space(#[trigger] pre[i]) by {
        assert(pre[i] == ' ' || pre[i] == '\t');
    }
    assert forall|i: int| 0 <= i < post.len() implies is_white_space(#[trigger] post[i]) by {
        assert(post[i] == ' ' || post[i] == '\t');
    }
    assert(pre + t + post =~= pre + (t + post));
    lemma_trim_start_skips(pre, t + post);
    lemma_trim_start_concat(t, post);
    if trim_start(t).len() > 0 {
        lemma_trim_end_skips(trim_start(t), post);
    } else {
        lemma_trim_start_skips(post, Seq::empty());
        assert(post + Seq::<char>::empty() =~= post);
        assert(trim_start(post) == trim_start(Seq::<char>::empty()));
    }
}

/// Whether `s` begins with `p`.
pub open spec fn starts_with(s: Seq<char>, p: Seq<char>) -> bool {
    p.len() <= s.len() && s.subrange(0, p.len() as int) == p
}

/// `s` with every leading `'.'` removed, as `trim_start_matches('.')` does.
pub open spec fn strip_dots(s: Seq<char>) -> Seq<char>
    decreases s.len(),
{
    if s.len() > 0 && s[0] == '.' {
        strip_dots(s.drop_first())
    } else {
        s
    }
}

/// Leading dots do not matter: stripping them twice is stripping them once,
/// one more leading dot strips to the same text, and nothing stripped
/// begins with a dot.
pub proof fn law_strip_dots(s: Seq<char>)
    ensures
        strip_dots(strip_dots(s)) == strip_dots(s),
        strip_dots(seq!['.'] + s) == strip_dots(s),
        strip_dots(s).len() == 0 || strip_dots(s)[0] != '.',
    decreases s.len(),
{
    assert((seq!['.'] + s).drop_first() =~= s);
    if s.len() > 0 && s[0] == '.' {
        law_strip_dots(s.drop_first());
    }
}

/// Lexicographic order on character sequences, by code point; for UTF-8
/// strings this is the byte order that `String`'s `Ord` uses.
pub open spec fn seq_less_eq(a: Seq<char>, b: Seq<char>) -> bool
    decreases a.len(),
{
    if a.len() == 0 {
        true
    } else if b.len() == 0 {
        false
    } else if a[0] != b[0] {
        (a[0] as int) < (b[0] as int)
    } else {
        seq_less_eq(a.drop_first(), b.drop_first())
    }
}

/// Whether the character is Unicode whitespace.
pub fn is_whitespace(c: char) -> (b: bool)
    ensures
        b == is_white_space(c),
{
    let v: u32 = c as u32;
    (0x9 <= v && v <= 0xd) || v == 0x20 || v == 0x85 || v == 0xa0 || v == 0x1680 || (0x2000 <= v
        && v <= 0x200a) || v == 0x2028 || v == 0x2029 || v == 0x202f || v == 0x205f || v == 0x3000
}

/// The characters of `s`, in order.
pub fn char_vec(s: &str) -> (v: Vec<char>)
    ensures
        v@ == s@,
{
    let mut v: Vec<char> = Vec::new();
    for c in it: s.chars()
        invariant
            v@ == it.seq().take(it.index() as int),
            it.seq() == s@,
    {
        v.push(c);
    }
    v
}

/// Whether two strings hold the same characters.
pub fn str_eq(a: &str, b: &str) -> (r: bool)
    ensures
        r == (a@ == b@),
{
    let av = char_vec(a);
    let bv = char_vec(b);
    if av.len() != bv.len() {
        return false;
    }
    let mut i: usize = 0;
    while i < av.len()
        invariant
            av@ == a@,
            bv@ == b@,
            av.len() == bv.len(),
            0 <= i <= av.len(),
            forall|j: int| 0 <= j < i ==> av@[j] == bv@[j],
        decreases av.len() - i,
    {
        if av[i] != bv[i] {
            return false;
        }
        i = i + 1;
    }
    assert(av@ =~= bv@);
    true
}

/// Whether `needle` equals one of the strings in `haystack`.
pub fn contains_str(haystack: &Vec<String>, needle: &str) -> (r: bool)
    ensures
        r == exists|i: int| 0 <= i < haystack@.len() && #[trigger] haystack@[i]@ == needle@,
{
    let mut i: usize = 0;
    while i < haystack.len()
        invariant
            0 <= i <= haystack@.len(),
            forall|j: int| 0 <= j < i ==> #[trigger] haystack@[j]@ != needle@,
        decreases haystack.len() - i,
    {
        if str_eq(haystack[i].as_str(), needle) {
            return true;
        }
        i = i + 1;
    }
    false
}

/// Whether `a` comes before or equals `b` in lexicographic code point order.
pub fn str_less_eq(a: &str, b: &str) -> (r: bool)
    ensures
        r == seq_less_eq(a@, b@),
{
    let av = char_vec(a);
    let bv = char_vec(b);
    let mut i: usize = 0;
    assert(av@.skip(0) =~= av@);
    assert(bv@.skip(0) =~= bv@);
    while i < av.len() && i < bv.len() && av[i] == bv[i]
        invariant
            av@ == a@,
            bv@ == b@,
            0 <= i <= av.len(),
            i <= bv.len(),
            seq_less_eq(a@, b@) == seq_less_eq(av@.skip(i as int), bv@.skip(i as int)),
        decreases av.len() - i,
    {
        assert(av@.skip(i as int).drop_first() =~= av@.skip(i + 1));
        assert(bv@.skip(i as int).drop_first() =~= bv@.skip(i + 1));
        i = i + 1;
    }
    if i == av.len() {
        true
    } else if i == bv.len() {
        false
    } else {
        av[i] < bv[i]
    }
}

/// `s` with its leading dots removed.
pub fn trim_leading_dots(s: &str) -> (r: String)
    ensures
        r@ == strip_dots(s@),
{
    let v = char_vec(s);
    let mut k: usize = 0;
    assert(s@.skip(0) =~= s@);
    while k < v.len() && v[k] == '.'
        invariant
            v@ == s@,
            0 <= k <= v.len(),
            strip_dots(s@) == strip_dots(s@.skip(k as int)),
        decreases v.len() - k,
    {
        assert(s@.skip(k as int).drop_first() =~= s@.skip(k + 1));
        k = k + 1;
    }
    assert(s@.skip(k as int) =~= s@.subrange(k as int, s@.len() as int));
    s.substring_char(k, v.len()).to_owned()
}

/// Whether `s` is in lexicographic order.
pub open spec fn sorted_seqs(s: Seq<Seq<char>>) -> bool {
    forall|i: int, j: int| 0 <= i < j < s.len() ==> seq_less_eq(#[trigger] s[i], #[trigger] s[j])
}

/// Any two character sequences are ordered one way or the other.
pub proof fn lemma_less_eq_total(a: Seq<char>, b: Seq<char>)
    ensures
        seq_less_eq(a, b) || seq_less_eq(b, a),
    decreases a.len(),
{
    if a.len() > 0 && b.len() > 0 {
        if a[0] == b[0] {
            lemma_less_eq_total(a.drop_first(), b.drop_first());
        }
    }
}

/// The order is transitive.
pub proof fn lemma_less_eq_trans(a: Seq<char>, b: Seq<char>, c: Seq<char>)
    requires
        seq_less_eq(a, b),
        seq_less_eq(b, c),
    ensures
        seq_less_eq(a, c),
    decreases a.len(),
{
    if a.len() > 0 && b.len() > 0 && c.len() > 0 && a[0] == b[0] && b[0] == c[0] {
        lemma_less_eq_trans(a.drop_first(), b.drop_first(), c.drop_first());
    }
}

/// Two sequences ordered both ways are equal.
pub proof fn lemma_less_eq_antisym(a: Seq<char>, b: Seq<char>)
    requires
        seq_less_eq(a, b),
        seq_less_eq(b, a),
    ensures
        a == b,
    decreases a.len(),
{
    if a.len() > 0 && b.len() > 0 {
        lemma_less_eq_antisym(a.drop_first(), b.drop_first());
        assert(a =~= seq![a[0]] + a.drop_first());
        assert(b =~= seq![b[0]] + b.drop_first());
    }
}

/// The characters of each string of `v`.
pub open spec fn string_views(v: Seq<String>) -> Seq<Seq<char>> {
    v.map_values(|s: String| s@)
}

/// `v` in lexicographic order, as `sort` orders strings (by UTF-8 bytes,
/// which is the order of code points).
pub fn sort_strings(v: Vec<String>) -> (r: Vec<String>)
    ensures
        sorted_seqs(string_views(r@)),
        r@.to_multiset() == v@.to_multiset(),
        string_views(r@).to_multiset() == string_views(v@).to_multiset(),
{
    broadcast use vstd::seq_lib::group_to_multiset_ensures, vstd::multiset::group_multiset_axioms;

    let mut rest = v;
    let mut r: Vec<String> = Vec::new();
    while rest.len() > 0
        invariant
            sorted_seqs(string_views(r@)),
            r@.to_multiset().add(rest@.to_multiset()) == v@.to_multiset(),
            string_views(r@).to_multiset().add(string_views(rest@).to_multiset()) == string_views(
                v@,
            ).to_multiset(),
        decreases rest.len(),
    {
        let ghost before = rest@;
        let x = rest.pop().unwrap();
        assert(before =~= rest@.push(x));
        let mut j: usize = 0;
        while j < r.len() && str_less_eq(r[j].as_str(), x.as_str())
            invariant
                0 <= j <= r@.len(),
                forall|k: int| 0 <= k < j ==> seq_less_eq(#[trigger] r@[k]@, x@),
            decreases r.len() - j,
        {
            j = j + 1;
        }
        proof {
            if j < r@.len() {
                lemma_less_eq_total(r@[j as int]@, x@);
            }
            assert forall|k: int| j <= k < r@.len() implies seq_less_eq(x@, #[trigger] r@[k]@) by {
                if k > j {
                    assert(seq_less_eq(string_views(r@)[j as int], string_views(r@)[k]));
                    lemma_less_eq_trans(x@, r@[j as int]@, r@[k]@);
                }
            }
        }
        let ghost old_r = r@;
        r.insert(j, x);
        proof {
            assert forall|a: int, b: int| 0 <= a < b < r@.len() implies seq_less_eq(
                #[trigger] string_views(r@)[a],
                #[trigger] string_views(r@)[b],
            ) by {
                if a < j && b < j {
                    assert(seq_less_eq(string_views(old_r)[a], string_views(old_r)[b]));
                } else if a < j && b == j {
                } else if a < j && b > j {
                    assert(seq_less_eq(old_r[a]@, x@));
                    assert(seq_less_eq(x@, old_r[b - 1]@));
                    lemma_less_eq_trans(old_r[a]@, x@, old_r[b - 1]@);
                } else if a == j {
                } else {
                    assert(seq_less_eq(string_views(old_r)[a - 1], string_views(old_r)[b - 1]));
                }
            }
            assert(r@ == old_r.insert(j as int, x));
            vstd::seq_lib::to_multiset_insert(old_r, j as int, x);
            vstd::seq_lib::to_multiset_build(rest@, x);
            assert(r@.to_multiset().add(rest@.to_multiset()) =~= old_r.to_multiset().add(
                before.to_multiset(),
            ));
            assert(string_views(r@) =~= string_views(old_r).insert(j as int, x@));
            assert(string_views(before) =~= string_views(rest@).push(x@));
            vstd::seq_lib::to_multiset_insert(string_views(old_r), j as int, x@);
            vstd::seq_lib::to_multiset_build(string_views(rest@), x@);
            assert(string_views(r@).to_multiset().add(string_views(rest@).to_multiset())
                =~= string_views(old_r).to_multiset().add(string_views(before).to_multiset()));
        }
    }
    proof {
        assert(rest@.to_multiset() =~= vstd::multiset::Multiset::<String>::empty());
        assert(r@.to_multiset().add(rest@.to_multiset()) =~= r@.to_multiset());
        assert(string_views(rest@).to_multiset() =~= vstd::multiset::Multiset::<Seq<char>>::empty());
        assert(string_views(r@).to_multiset().add(string_views(rest@).to_multiset())
            =~= string_views(r@).to_multiset());
    }
    r
}

} // verus!
