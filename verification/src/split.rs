//! Splitting text into lines and into whitespace-separated words, as
//! `str::lines` and `str::split_whitespace` do.
use vstd::prelude::*;
use crate::task::copy_chars;
use crate::text::{chars_of, string_from_chars};

verus! {

/// `char::is_whitespace`: the characters with the Unicode `White_Space`
/// property.
pub open spec fn is_white_space(c: char) -> bool {
    ||| ('\u{9}' <= c && c <= '\u{d}')
    ||| c == ' '
    ||| c == '\u{85}'
    ||| c == '\u{a0}'
    ||| c == '\u{1680}'
    ||| ('\u{2000}' <= c && c <= '\u{200a}')
    ||| c == '\u{2028}'
    ||| c == '\u{2029}'
    ||| c == '\u{202f}'
    ||| c == '\u{205f}'
    ||| c == '\u{3000}'
}

/// Whether `c` is whitespace.
pub fn is_white_space_exec(c: char) -> (r: bool)
    ensures
        r == is_white_space(c),
{
    ('\u{9}' <= c && c <= '\u{d}') || c == ' ' || c == '\u{85}' || c == '\u{a0}' || c == '\u{1680}'
        || ('\u{2000}' <= c && c <= '\u{200a}') || c == '\u{2028}' || c == '\u{2029}' || c == '\u{202f}'
        || c == '\u{205f}' || c == '\u{3000}'
}

/// A line without the carriage return that ends it, if any.
pub open spec fn strip_cr(line: Seq<char>) -> Seq<char> {
    if line.len() > 0 && line.last() == '\r' {
        line.drop_last()
    } else {
        line
    }
}

/// The lines of `s` from position `k` on, the current line having started
/// at `start`: each `\n` ends a line (and a `\r` before it is dropped); a
/// last line without `\n` counts when it is not empty.
pub open spec fn lines_acc(s: Seq<char>, k: int, start: int) -> Seq<Seq<char>>
    decreases s.len() - k,
{
    if k >= s.len() {
        if start < s.len() {
            seq![s.subrange(start, s.len() as int)]
        } else {
            Seq::empty()
        }
    } else if s[k] == '\n' {
        seq![strip_cr(s.subrange(start, k))] + lines_acc(s, k + 1, k + 1)
    } else {
        lines_acc(s, k + 1, start)
    }
}

/// `str::lines`.
pub open spec fn lines_of(s: Seq<char>) -> Seq<Seq<char>> {
    lines_acc(s, 0, 0)
}

/// The words of `s` from position `k` on, the current word having started
/// at `start` (-1 between words): maximal runs of non-whitespace.
pub open spec fn words_acc(s: Seq<char>, k: int, start: int) -> Seq<Seq<char>>
    decreases s.len() - k,
{
    if k >= s.len() {
        if start >= 0 {
            seq![s.subrange(start, s.len() as int)]
        } else {
            Seq::empty()
        }
    } else if is_white_space(s[k]) {
        (if start >= 0 { seq![s.subrange(start, k)] } else { Seq::empty() }) + words_acc(s, k + 1, -1)
    } else {
        words_acc(s, k + 1, if start >= 0 { start } else { k })
    }
}

/// `str::split_whitespace`.
pub open spec fn words_of(s: Seq<char>) -> Seq<Seq<char>> {
    words_acc(s, 0, -1)
}

/// The views of a sequence of character vectors.
pub open spec fn char_vec_views(v: Seq<Vec<char>>) -> Seq<Seq<char>> {
    v.map_values(|x: Vec<char>| x@)
}

/// The lines of `s`.
pub fn lines(s: &[char]) -> (r: Vec<Vec<char>>)
    ensures
        char_vec_views(r@) == lines_of(s@),
{
    let mut out: Vec<Vec<char>> = Vec::new();
    let mut start: usize = 0;
    let mut k: usize = 0;
    while k < s.len()
        invariant
            start <= k <= s.len(),
            char_vec_views(out@) + lines_acc(s@, k as int, start as int) == lines_of(s@),
        decreases s.len() - k,
    {
        if s[k] == '\n' {
            let mut end = k;
            if end > start && s[end - 1] == '\r' {
                end = end - 1;
            }
            let line = copy_chars(s, start, end);
            assert(line@ =~= strip_cr(s@.subrange(start as int, k as int)));
            let ghost before = out@;
            out.push(line);
            proof {
                assert(char_vec_views(out@) =~= char_vec_views(before).push(line@));
                assert(char_vec_views(before).push(line@) + lines_acc(s@, k + 1, k + 1)
                    =~= char_vec_views(before) + (seq![line@] + lines_acc(s@, k + 1, k + 1)));
            }
            start = k + 1;
        }
        k += 1;
    }
    if start < s.len() {
        let line = copy_chars(s, start, s.len());
        let ghost before = out@;
        out.push(line);
        assert(char_vec_views(out@) =~= char_vec_views(before) + seq![line@]);
    } else {
        assert(char_vec_views(out@) + Seq::<Seq<char>>::empty() =~= char_vec_views(out@));
    }
    out
}

/// The whitespace-separated words of `s`.
pub fn words(s: &[char]) -> (r: Vec<Vec<char>>)
    ensures
        char_vec_views(r@) == words_of(s@),
{
    let mut out: Vec<Vec<char>> = Vec::new();
    let mut in_word = false;
    let mut start: usize = 0;
    let mut k: usize = 0;
    while k < s.len()
        invariant
            k <= s.len(),
            in_word ==> start < k,
            char_vec_views(out@) + words_acc(s@, k as int, if in_word { start as int } else { -1 }) == words_of(s@),
        decreases s.len() - k,
    {
        if is_white_space_exec(s[k]) {
            if in_word {
                let w = copy_chars(s, start, k);
                let ghost before = out@;
                out.push(w);
                proof {
                    assert(char_vec_views(out@) =~= char_vec_views(before).push(w@));
                    assert(char_vec_views(before).push(w@) + words_acc(s@, k + 1, -1)
                        =~= char_vec_views(before) + (seq![w@] + words_acc(s@, k + 1, -1)));
                }
            } else {
                assert(Seq::<Seq<char>>::empty() + words_acc(s@, k + 1, -1) =~= words_acc(s@, k + 1, -1));
            }
            in_word = false;
        } else if !in_word {
            in_word = true;
            start = k;
        }
        k += 1;
    }
    if in_word {
        let w = copy_chars(s, start, s.len());
        let ghost before = out@;
        out.push(w);
        assert(char_vec_views(out@) =~= char_vec_views(before) + seq![w@]);
    } else {
        assert(char_vec_views(out@) + Seq::<Seq<char>>::empty() =~= char_vec_views(out@));
    }
    out
}

/// `needle` occurs in `s`.
pub open spec fn contains_seq(s: Seq<char>, needle: Seq<char>) -> bool {
    exists|k: int| 0 <= k && k + needle.len() <= s.len() && #[trigger] s.subrange(k, k + needle.len()) == needle
}

/// Whether `needle` occurs in `s`.
pub fn contains_chars(s: &[char], needle: &[char]) -> (r: bool)
    ensures
        r == contains_seq(s@, needle@),
{
    if needle.len() > s.len() {
        return false;
    }
    let mut k: usize = 0;
    while k <= s.len() - needle.len()
        invariant
            needle.len() <= s.len(),
            k <= s.len() - needle.len() + 1,
            forall|j: int| 0 <= j < k ==> #[trigger] s@.subrange(j, j + needle.len()) != needle@,
        decreases s.len() - needle.len() + 1 - k,
    {
        let mut i: usize = 0;
        let mut same = true;
        while i < needle.len()
            invariant
                i <= needle.len(),
                k + needle.len() <= s.len(),
                same == forall|m: int| 0 <= m < i ==> s@[k + m] == needle@[m],
            decreases needle.len() - i,
        {
            if s[k + i] != needle[i] {
                same = false;
            }
            i += 1;
        }
        if same {
            assert(s@.subrange(k as int, k + needle.len()) =~= needle@);
            return true;
        }
        proof {
            let m = choose|m: int| 0 <= m < needle.len() && s@[k + m] != needle@[m];
            assert(s@.subrange(k as int, k + needle.len())[m] != needle@[m]);
        }
        k += 1;
    }
    false
}

/// Whether two character slices are equal.
pub fn chars_eq(a: &[char], b: &[char]) -> (r: bool)
    ensures
        r == (a@ == b@),
{
    if a.len() != b.len() {
        return false;
    }
    let mut i: usize = 0;
    while i < a.len()
        invariant
            i <= a.len(),
            a.len() == b.len(),
            forall|m: int| 0 <= m < i ==> a@[m] == b@[m],
        decreases a.len() - i,
    {
        if a[i] != b[i] {
            return false;
        }
        i += 1;
    }
    assert(a@ =~= b@);
    true
}

/// `s` without its leading whitespace.
pub open spec fn trim_start_spec(s: Seq<char>) -> Seq<char>
    decreases s.len(),
{
    if s.len() > 0 && is_white_space(s[0]) {
        trim_start_spec(s.skip(1))
    } else {
        s
    }
}

/// `s` without its trailing whitespace.
pub open spec fn trim_end_spec(s: Seq<char>) -> Seq<char>
    decreases s.len(),
{
    if s.len() > 0 && is_white_space(s.last()) {
        trim_end_spec(s.drop_last())
    } else {
        s
    }
}

/// `str::trim`: `s` without leading and trailing whitespace.
pub open spec fn trim_spec(s: Seq<char>) -> Seq<char> {
    trim_end_spec(trim_start_spec(s))
}

/// `s` without leading and trailing whitespace.
pub fn trim_chars(s: &[char]) -> (r: Vec<char>)
    ensures
        r@ == trim_spec(s@),
{
    let mut a: usize = 0;
    assert(s@.skip(0) =~= s@);
    while a < s.len() && is_white_space_exec(s[a])
        invariant
            a <= s.len(),
            trim_start_spec(s@) == trim_start_spec(s@.skip(a as int)),
        decreases s.len() - a,
    {
        assert(s@.skip(a as int).skip(1) =~= s@.skip(a + 1));
        a += 1;
    }
    let t = copy_chars(s, a, s.len());
    assert(t@ =~= s@.skip(a as int));
    let mut b: usize = t.len();
    assert(t@.take(b as int) =~= t@);
    while b > 0 && is_white_space_exec(t[b - 1])
        invariant
            b <= t.len(),
            trim_end_spec(t@) == trim_end_spec(t@.take(b as int)),
        decreases b,
    {
        assert(t@.take(b as int).drop_last() =~= t@.take(b - 1));
        b -= 1;
    }
    let r = copy_chars(t.as_slice(), 0, b);
    assert(r@ =~= t@.take(b as int));
    r
}

/// `s` without leading and trailing whitespace.
pub fn trim_str(s: &str) -> (r: String)
    ensures
        r@ == trim_spec(s@),
{
    let cs = chars_of(s);
    let t = trim_chars(cs.as_slice());
    string_from_chars(t.as_slice())
}

/// The fields of `s` from position `k` on, the current field having
/// started at `start`: `str::split` at a separator character.
pub open spec fn fields_acc(s: Seq<char>, sep: char, k: int, start: int) -> Seq<Seq<char>>
    decreases s.len() - k,
{
    if k >= s.len() {
        seq![s.subrange(start, s.len() as int)]
    } else if s[k] == sep {
        seq![s.subrange(start, k)] + fields_acc(s, sep, k + 1, k + 1)
    } else {
        fields_acc(s, sep, k + 1, start)
    }
}

/// `str::split(sep)`: the text between separators, empty fields included.
pub open spec fn fields_of(s: Seq<char>, sep: char) -> Seq<Seq<char>> {
    fields_acc(s, sep, 0, 0)
}

/// The fields of `s` between the separator `sep`.
pub fn split_fields(s: &[char], sep: char) -> (r: Vec<Vec<char>>)
    ensures
        char_vec_views(r@) == fields_of(s@, sep),
{
    let mut out: Vec<Vec<char>> = Vec::new();
    let mut start: usize = 0;
    let mut k: usize = 0;
    while k < s.len()
        invariant
            start <= k <= s.len(),
            char_vec_views(out@) + fields_acc(s@, sep, k as int, start as int) == fields_of(s@, sep),
        decreases s.len() - k,
    {
        if s[k] == sep {
            let f = copy_chars(s, start, k);
            let ghost before = out@;
            out.push(f);
            proof {
                assert(char_vec_views(out@) =~= char_vec_views(before).push(f@));
                assert(char_vec_views(before).push(f@) + fields_acc(s@, sep, k + 1, k + 1)
                    =~= char_vec_views(before) + (seq![f@] + fields_acc(s@, sep, k + 1, k + 1)));
            }
            start = k + 1;
        }
        k += 1;
    }
    let f = copy_chars(s, start, s.len());
    let ghost before = out@;
    out.push(f);
    assert(char_vec_views(out@) =~= char_vec_views(before) + seq![f@]);
    out
}

/// `s` without the copies of `c` it starts with.
pub open spec fn strip_leading(s: Seq<char>, c: char) -> Seq<char>
    decreases s.len(),
{
    if s.len() > 0 && s[0] == c {
        strip_leading(s.skip(1), c)
    } else {
        s
    }
}

/// `s` without the copies of `c` it starts with.
pub fn strip_leading_chars(s: &[char], c: char) -> (r: Vec<char>)
    ensures
        r@ == strip_leading(s@, c),
{
    let mut a: usize = 0;
    assert(s@.skip(0) =~= s@);
    while a < s.len() && s[a] == c
        invariant
            a <= s.len(),
            strip_leading(s@, c) == strip_leading(s@.skip(a as int), c),
        decreases s.len() - a,
    {
        assert(s@.skip(a as int).skip(1) =~= s@.skip(a + 1));
        a += 1;
    }
    let r = copy_chars(s, a, s.len());
    assert(r@ =~= s@.skip(a as int));
    r
}

} // verus!
