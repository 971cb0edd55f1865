//! Tasks: their identity, file naming, slugs, front matter and lookup.
use vstd::prelude::*;
use crate::config::{agency_subdir, AgencyConfig, AgencyPaths};
use crate::split::{trim_spec, trim_str};
use crate::paths::{file_name, file_name_spec};
use crate::text::{lemma_decimal_digits, all_ascii_digits, chars_of, decimal, is_ascii_alpha, is_ascii_digit, parse_u64, parse_u64_spec, join_path, parse_u32, parse_u32_spec, path_join, push_decimal, push_str_chars, string_from_chars};

verus! {

/// A task: its numeric id and its slug.
#[derive(Debug, PartialEq, Eq, Hash)]
pub struct TaskRef {
    pub id: u32,
    pub slug: String,
}

impl Clone for TaskRef {
    fn clone(&self) -> (r: Self)
        ensures
            r == *self,
    {
        TaskRef { id: self.id, slug: self.slug.clone() }
    }
}

/// The views of a sequence of strings.
pub open spec fn str_views(v: Seq<String>) -> Seq<Seq<char>> {
    v.map_values(|s: String| s@)
}

// ---------------------------------------------------------------------------
// Task file names: `<id>-<slug>.md`
// ---------------------------------------------------------------------------

/// Number of leading ASCII digits of `s` from position `k` on.
pub open spec fn digit_run(s: Seq<char>, k: int) -> int
    decreases s.len() - k,
{
    if k < 0 || k >= s.len() || !is_ascii_digit(s[k]) {
        0
    } else {
        1 + digit_run(s, k + 1)
    }
}

pub proof fn lemma_digit_run(s: Seq<char>, k: int)
    requires
        0 <= k <= s.len(),
    ensures
        0 <= digit_run(s, k) <= s.len() - k,
        forall|i: int| k <= i < k + digit_run(s, k) ==> is_ascii_digit(#[trigger] s[i]),
        k + digit_run(s, k) < s.len() ==> !is_ascii_digit(s[k + digit_run(s, k)]),
    decreases s.len() - k,
{
    if k < s.len() && is_ascii_digit(s[k]) {
        lemma_digit_run(s, k + 1);
    }
}

/// `s` ends with `suffix`.
pub open spec fn ends_with(s: Seq<char>, suffix: Seq<char>) -> bool {
    s.len() >= suffix.len() && s.skip(s.len() - suffix.len()) == suffix
}

/// `s` contains no line feed.
pub open spec fn no_newline(s: Seq<char>) -> bool {
    forall|i: int| 0 <= i < s.len() ==> s[i] != '\n'
}

/// Splits `<digits>-<rest>` (the pattern `^(\d+)-(.+)$` followed by a `u32`
/// parse of the digits) into the id and the rest; `rest` must be non-empty
/// and hold no line feed.
pub open spec fn parse_id_dash(name: Seq<char>) -> Option<(u32, Seq<char>)> {
    let d = digit_run(name, 0);
    if d > 0 && d < name.len() && name[d] == '-' && name.len() > d + 1 && no_newline(name.skip(d + 1))
        && parse_u32_spec(name.take(d)) is Some {
        Some((parse_u32_spec(name.take(d))->0, name.skip(d + 1)))
    } else {
        None
    }
}

/// A task file name `<id>-<slug>.md` read as its id and slug.
pub open spec fn parse_task_file_name(name: Seq<char>) -> Option<(u32, Seq<char>)> {
    let md = seq!['.', 'm', 'd'];
    if ends_with(name, md) && name.len() > 3 {
        match parse_id_dash(name.take(name.len() - 3)) {
            Some((id, slug)) => Some((id, slug)),
            None => None,
        }
    } else {
        None
    }
}

pub fn parse_id_dash_exec(name: &[char]) -> (r: Option<(u32, Vec<char>)>)
    ensures
        match r {
            Some((id, rest)) => parse_id_dash(name@) == Some((id, rest@)),
            None => parse_id_dash(name@) is None,
        },
{
    proof {
        lemma_digit_run(name@, 0);
    }
    let mut d: usize = 0;
    while d < name.len() && 48 <= (name[d] as u32) && (name[d] as u32) <= 57
        invariant
            d <= name.len(),
            digit_run(name@, d as int) + d == digit_run(name@, 0),
        decreases name.len() - d,
    {
        d += 1;
    }
    assert(digit_run(name@, d as int) == 0);
    assert(d == digit_run(name@, 0));
    if d == 0 || d >= name.len() || name[d] != '-' || name.len() <= d + 1 {
        return None;
    }
    let mut k = d + 1;
    while k < name.len()
        invariant
            d + 1 <= k <= name.len(),
            d == digit_run(name@, 0),
            forall|i: int| d + 1 <= i < k ==> name@[i] != '\n',
        decreases name.len() - k,
    {
        if name[k] == '\n' {
            assert(name@.skip(d + 1)[k - d - 1] == '\n');
            return None;
        }
        k += 1;
    }
    assert(no_newline(name@.skip(d + 1)));
    let digits = copy_chars(name, 0, d);
    assert(digits@ =~= name@.take(d as int));
    match parse_u32(digits.as_slice()) {
        Some(id) => {
            let rest = copy_chars(name, d + 1, name.len());
            assert(rest@ =~= name@.skip(d + 1));
            Some((id, rest))
        },
        None => None,
    }
}

/// A copy of `s[lo..hi]`.
pub fn copy_chars(s: &[char], lo: usize, hi: usize) -> (v: Vec<char>)
    requires
        lo <= hi <= s.len(),
    ensures
        v@ == s@.subrange(lo as int, hi as int),
{
    let mut v: Vec<char> = Vec::new();
    let mut k = lo;
    while k < hi
        invariant
            lo <= k <= hi,
            hi <= s.len(),
            v@ == s@.subrange(lo as int, k as int),
        decreases hi - k,
    {
        v.push(s[k]);
        assert(s@.subrange(lo as int, k + 1) =~= s@.subrange(lo as int, k as int).push(s@[k as int]));
        k += 1;
    }
    v
}

/// Reads a task file name `<id>-<slug>.md`.
pub fn parse_task_file_name_exec(name: &str) -> (r: Option<TaskRef>)
    ensures
        match r {
            Some(t) => parse_task_file_name(name@) == Some((t.id, t.slug@)),
            None => parse_task_file_name(name@) is None,
        },
{
    let cs = chars_of(name);
    let n = cs.len();
    if n <= 3 || cs[n - 3] != '.' || cs[n - 2] != 'm' || cs[n - 1] != 'd' {
        proof {
            if ends_with(name@, seq!['.', 'm', 'd']) && name@.len() > 3 {
                assert(name@.skip(name@.len() - 3)[0] == '.');
                assert(name@.skip(name@.len() - 3)[1] == 'm');
                assert(name@.skip(name@.len() - 3)[2] == 'd');
            }
        }
        return None;
    }
    assert(cs@.skip(n - 3) =~= seq!['.', 'm', 'd']);
    let stem = copy_chars(cs.as_slice(), 0, n - 3);
    assert(stem@ =~= name@.take(name@.len() - 3));
    match parse_id_dash_exec(stem.as_slice()) {
        Some((id, slug)) => Some(TaskRef { id, slug: string_from_chars(slug.as_slice()) }),
        None => None,
    }
}

/// The task a task file path names: its file name read as
/// `<id>-<slug>.md`.
pub open spec fn task_of_path(path: Seq<char>) -> Option<(u32, Seq<char>)> {
    match file_name_spec(path) {
        Some(n) => parse_task_file_name(n),
        None => None,
    }
}

impl TaskRef {
    /// Reads the task named by a task file path (`.../<id>-<slug>.md`).
    pub fn from_task_file(path: &str) -> (r: Option<TaskRef>)
        ensures
            match r {
                Some(t) => task_of_path(path@) == Some((t.id, t.slug@)),
                None => task_of_path(path@) is None,
            },
    {
        match file_name(path) {
            Some(n) => parse_task_file_name_exec(n.as_str()),
            None => None,
        }
    }
}

// ---------------------------------------------------------------------------
// Names derived from a task
// ---------------------------------------------------------------------------

/// `<id>-<slug>`.
pub open spec fn worktree_name_spec(id: u32, slug: Seq<char>) -> Seq<char> {
    decimal(id as nat) + seq!['-'] + slug
}

/// The git branch of a task: `agency/<id>-<slug>`.
pub open spec fn branch_name_spec(id: u32, slug: Seq<char>) -> Seq<char> {
    seq!['a', 'g', 'e', 'n', 'c', 'y', '/'] + worktree_name_spec(id, slug)
}

/// The worktree directory name of a task: `<id>-<slug>`.
pub fn worktree_name(task: &TaskRef) -> (r: String)
    ensures
        r@ == worktree_name_spec(task.id, task.slug@),
{
    let mut out: Vec<char> = Vec::new();
    push_decimal(&mut out, task.id as u64);
    out.push('-');
    let ghost mid = out@;
    push_str_chars(&mut out, task.slug.as_str());
    assert(out@ =~= worktree_name_spec(task.id, task.slug@));
    string_from_chars(out.as_slice())
}

/// Task file names read back as the task they were made for: the file of
/// task `id` with a non-empty slug without line feeds is parsed as that id
/// and slug.
pub proof fn lemma_task_file_name_roundtrip(id: u32, slug: Seq<char>)
    requires
        slug.len() > 0,
        no_newline(slug),
    ensures
        parse_task_file_name(worktree_name_spec(id, slug) + seq!['.', 'm', 'd']) == Some((id, slug)),
{
    let stem = worktree_name_spec(id, slug);
    let name = stem + seq!['.', 'm', 'd'];
    assert(stem == crate::files::stored_name_spec(id, slug));
    crate::files::lemma_file_name_roundtrip(id, slug);
    assert(name.skip(name.len() - 3) =~= seq!['.', 'm', 'd']);
    assert(name.take(name.len() - 3) =~= stem);
}

/// The path of a task's file reads back as that task: for a non-empty slug
/// without `/` or line feeds, `TaskRef::from_task_file` of the path that
/// `task_file` gives is the task's id and slug.
pub proof fn lemma_task_file_roundtrip(root: Seq<char>, id: u32, slug: Seq<char>)
    requires
        slug.len() > 0,
        no_newline(slug),
        !slug.contains('/'),
    ensures
        task_of_path(path_join(
            crate::config::agency_subdir(root, seq!['t', 'a', 's', 'k', 's']),
            worktree_name_spec(id, slug) + seq!['.', 'm', 'd'],
        )) == Some((id, slug)),
{
    let name = worktree_name_spec(id, slug) + seq!['.', 'm', 'd'];
    let d = decimal(id as nat);
    lemma_decimal_digits(id as nat);
    assert forall|j: int| 0 <= j < name.len() implies name[j] != '/' by {
        if j < d.len() {
            assert(name[j] == d[j]);
            assert(is_ascii_digit(d[j]));
        } else if j == d.len() {
            assert(name[j] == '-');
        } else if j < d.len() + 1 + slug.len() {
            assert(name[j] == slug[j - d.len() - 1]);
            if name[j] == '/' {
                assert(slug.contains('/'));
            }
        } else {
            assert(name[j] == seq!['.', 'm', 'd'][j - d.len() - 1 - slug.len()]);
        }
    }
    assert(name.len() >= 4);
    crate::paths::lemma_file_name_of_join(crate::config::agency_subdir(root, seq!['t', 'a', 's', 'k', 's']), name);
    lemma_task_file_name_roundtrip(id, slug);
}

/// The git branch of a task: `agency/<id>-<slug>`.
pub fn branch_name(task: &TaskRef) -> (r: String)
    ensures
        r@ == branch_name_spec(task.id, task.slug@),
{
    let mut out: Vec<char> = Vec::new();
    push_str_chars(&mut out, "agency/");
    proof {
        reveal_strlit("agency/");
    }
    let w = worktree_name(task);
    let ghost mid = out@;
    push_str_chars(&mut out, w.as_str());
    assert(out@ =~= branch_name_spec(task.id, task.slug@));
    string_from_chars(out.as_slice())
}

/// The worktree directory of a task: `<worktrees_dir>/<id>-<slug>`.
pub fn worktree_dir(paths: &AgencyPaths, task: &TaskRef) -> (r: String)
    ensures
        r@ == path_join(crate::config::agency_subdir(paths.root@, seq!['w', 'o', 'r', 'k', 't', 'r', 'e', 'e', 's']), worktree_name_spec(task.id, task.slug@)),
{
    let dir = paths.worktrees_dir();
    let name = worktree_name(task);
    join_path(dir.as_str(), name.as_str())
}

/// The file of a task: `<tasks_dir>/<id>-<slug>.md`.
pub fn task_file(paths: &AgencyPaths, task: &TaskRef) -> (r: String)
    ensures
        r@ == path_join(crate::config::agency_subdir(paths.root@, seq!['t', 'a', 's', 'k', 's']), worktree_name_spec(task.id, task.slug@) + seq!['.', 'm', 'd']),
{
    let dir = paths.tasks_dir();
    let mut out: Vec<char> = Vec::new();
    let name = worktree_name(task);
    push_str_chars(&mut out, name.as_str());
    out.push('.');
    out.push('m');
    out.push('d');
    assert(out@ =~= worktree_name_spec(task.id, task.slug@) + seq!['.', 'm', 'd']);
    let file = string_from_chars(out.as_slice());
    join_path(dir.as_str(), file.as_str())
}

// ---------------------------------------------------------------------------
// Slugs
// ---------------------------------------------------------------------------

/// What `str::to_lowercase` returns for a string (Unicode lowercase mapping).
pub uninterp spec fn lowercase(s: Seq<char>) -> Seq<char>;

/// What `char::is_alphanumeric` returns (Unicode Alphabetic or Numeric).
pub uninterp spec fn char_is_alphanumeric(c: char) -> bool;

/// All characters of `s` are ASCII.
pub open spec fn all_ascii(s: Seq<char>) -> bool {
    forall|i: int| 0 <= i < s.len() ==> (#[trigger] s[i] as u32) < 128
}

/// The ASCII lowercase of `c`: `A`..=`Z` become `a`..=`z`, others stay.
pub open spec fn ascii_lower(c: char) -> char {
    if 65 <= (c as u32) <= 90 {
        ((c as u32) + 32) as char
    } else {
        c
    }
}

/// `str::to_lowercase`: the Unicode lowercase mapping of `s`. On ASCII text
/// it lowercases the capitals `A`..=`Z` and keeps every other character.
#[verifier::external_body]
fn to_lowercase(s: &str) -> (r: String)
    ensures
        r@ == lowercase(s@),
        all_ascii(s@) ==> r@ == s@.map_values(|c: char| ascii_lower(c)),
{
    s.to_lowercase()
}

/// `char::is_alphanumeric`. Among ASCII characters exactly the letters and
/// digits have the Alphabetic or Numeric property.
#[verifier::external_body]
fn is_alphanumeric(c: char) -> (r: bool)
    ensures
        r == char_is_alphanumeric(c),
        (c as u32) < 128 ==> r == (is_ascii_alpha(c) || is_ascii_digit(c)),
{
    c.is_alphanumeric()
}

/// Slugify: alphanumerics are kept, every run of other characters becomes a
/// single `-`.
pub open spec fn slugify(s: Seq<char>) -> Seq<char>
    decreases s.len(),
{
    if s.len() == 0 {
        Seq::empty()
    } else {
        let prev = slugify(s.drop_last());
        let c = s.last();
        if char_is_alphanumeric(c) {
            prev.push(c)
        } else if prev.len() > 0 && prev.last() == '-' {
            prev
        } else {
            prev.push('-')
        }
    }
}

/// Number of `-` at the start of `s` from position `k` on.
pub open spec fn dash_run(s: Seq<char>, k: int) -> int
    decreases s.len() - k,
{
    if k < 0 || k >= s.len() || s[k] != '-' {
        0
    } else {
        1 + dash_run(s, k + 1)
    }
}

/// Number of `-` at the end of `s`.
pub open spec fn trailing_dashes(s: Seq<char>) -> int
    decreases s.len(),
{
    if s.len() == 0 || s.last() != '-' {
        0
    } else {
        1 + trailing_dashes(s.drop_last())
    }
}

/// `s` with leading and trailing `-` removed (`str::trim_matches('-')`).
pub open spec fn trim_dashes(s: Seq<char>) -> Seq<char> {
    let a = dash_run(s, 0);
    if a >= s.len() {
        Seq::empty()
    } else {
        s.subrange(a, s.len() - trailing_dashes(s))
    }
}

/// The slug that an input normalizes to, before validation.
pub open spec fn normalized_slug(input: Seq<char>) -> Seq<char> {
    trim_dashes(slugify(lowercase(input)))
}

/// A well-formed slug: non-empty, starts with an ASCII letter, does not end
/// with `-` and has no two `-` in a row.
pub open spec fn well_formed_slug(s: Seq<char>) -> bool {
    &&& s.len() > 0
    &&& is_ascii_alpha(s[0])
    &&& s.last() != '-'
    &&& no_double_dash(s)
}

/// Why a slug was refused.
#[derive(Clone, Copy, Debug, PartialEq, Eq)]
pub enum SlugError {
    /// Nothing remains after slugifying.
    Empty,
    /// The slug does not start with an ASCII letter.
    MustStartWithLetter,
}

impl SlugError {
    /// The error message.
    pub fn message(&self) -> (m: String)
        ensures
            *self == SlugError::Empty ==> m@ == "invalid slug: empty after slugify"@,
            *self == SlugError::MustStartWithLetter ==> m@ == "invalid slug: must start with a letter"@,
    {
        match self {
            SlugError::Empty => "invalid slug: empty after slugify".to_string(),
            SlugError::MustStartWithLetter => "invalid slug: must start with a letter".to_string(),
        }
    }
}

/// No two `-` in a row.
pub open spec fn no_double_dash(s: Seq<char>) -> bool {
    forall|i: int| 0 <= i < s.len() - 1 && #[trigger] s[i] == '-' ==> s[i + 1] != '-'
}

proof fn lemma_dash_run(s: Seq<char>, k: int)
    requires
        0 <= k <= s.len(),
    ensures
        0 <= dash_run(s, k) <= s.len() - k,
        forall|i: int| k <= i < k + dash_run(s, k) ==> s[i] == '-',
        k + dash_run(s, k) < s.len() ==> s[k + dash_run(s, k)] != '-',
    decreases s.len() - k,
{
    if k < s.len() && s[k] == '-' {
        lemma_dash_run(s, k + 1);
    }
}

proof fn lemma_trailing_dashes(s: Seq<char>)
    ensures
        0 <= trailing_dashes(s) <= s.len(),
        forall|i: int| s.len() - trailing_dashes(s) <= i < s.len() ==> s[i] == '-',
        trailing_dashes(s) < s.len() ==> s[s.len() - 1 - trailing_dashes(s)] != '-',
    decreases s.len(),
{
    if s.len() > 0 && s.last() == '-' {
        lemma_trailing_dashes(s.drop_last());
        assert forall|i: int| s.len() - trailing_dashes(s) <= i < s.len() implies s[i] == '-' by {
            if i < s.len() - 1 {
                assert(s.drop_last()[i] == s[i]);
            }
        }
        if trailing_dashes(s) < s.len() {
            assert(s.drop_last()[s.len() - 1 - trailing_dashes(s)] == s[s.len() - 1 - trailing_dashes(s)]);
        }
    }
}

/// Slugifies `input` (lowercase; every run of non-alphanumeric characters
/// becomes one `-`; leading and trailing `-` removed) and checks that the
/// result is non-empty and starts with an ASCII letter.
pub fn normalize_and_validate_slug(input: &str) -> (r: Result<String, SlugError>)
    ensures
        match r {
            Ok(slug) => slug@ == normalized_slug(input@) && well_formed_slug(slug@),
            Err(SlugError::Empty) => normalized_slug(input@).len() == 0,
            Err(SlugError::MustStartWithLetter) => normalized_slug(input@).len() > 0
                && !is_ascii_alpha(normalized_slug(input@)[0]),
        },
{
    let lowered = to_lowercase(input);
    let cs = chars_of(lowered.as_str());
    let mut out: Vec<char> = Vec::new();
    let mut i: usize = 0;
    while i < cs.len()
        invariant
            i <= cs.len(),
            out@ == slugify(cs@.take(i as int)),
            no_double_dash(out@),
        decreases cs.len() - i,
    {
        let c = cs[i];
        let ghost prev = out@;
        assert(cs@.take(i + 1).drop_last() =~= cs@.take(i as int));
        assert(cs@.take(i + 1).last() == c);
        if is_alphanumeric(c) {
            out.push(c);
            assert(no_double_dash(out@)) by {
                assert forall|k: int| 0 <= k < out@.len() - 1 && #[trigger] out@[k] == '-' implies out@[k + 1] != '-' by {
                    if k + 1 < prev.len() {
                        assert(out@[k] == prev[k] && out@[k + 1] == prev[k + 1]);
                    }
                }
            }
        } else if !(out.len() > 0 && out[out.len() - 1] == '-') {
            out.push('-');
            assert(no_double_dash(out@)) by {
                assert forall|k: int| 0 <= k < out@.len() - 1 && #[trigger] out@[k] == '-' implies out@[k + 1] != '-' by {
                    if k + 1 < prev.len() {
                        assert(out@[k] == prev[k] && out@[k + 1] == prev[k + 1]);
                    } else {
                        assert(out@[k] == prev.last());
                    }
                }
            }
        }
        i += 1;
    }
    assert(cs@.take(cs.len() as int) =~= cs@);
    let ghost sl = out@;
    proof {
        lemma_dash_run(sl, 0);
        lemma_trailing_dashes(sl);
    }
    // leading dashes
    let mut a: usize = 0;
    while a < out.len() && out[a] == '-'
        invariant
            a <= out.len(),
            out@ == sl,
            a + dash_run(sl, a as int) == dash_run(sl, 0),
        decreases out.len() - a,
    {
        a += 1;
    }
    if a >= out.len() {
        return Err(SlugError::Empty);
    }
    // trailing dashes
    let mut b: usize = 0;
    assert(sl.take(sl.len() as int) =~= sl);
    while b < out.len() && out[out.len() - 1 - b] == '-'
        invariant
            b <= out.len(),
            out@ == sl,
            b + trailing_dashes(sl.take(sl.len() - b)) == trailing_dashes(sl),
        decreases out.len() - b,
    {
        proof {
            let t = sl.take(sl.len() - b);
            assert(t.drop_last() =~= sl.take(sl.len() - b - 1));
            assert(t.last() == sl[sl.len() - 1 - b]);
        }
        b += 1;
    }
    proof {
        let t = sl.take(sl.len() - b);
        if t.len() > 0 {
            assert(t.last() == sl[sl.len() - 1 - b]);
        }
        assert(trailing_dashes(t) == 0);
    }
    let trimmed = copy_chars(out.as_slice(), a, out.len() - b);
    assert(trimmed@ == normalized_slug(input@));
    let first = trimmed[0] as u32;
    if !((97 <= first && first <= 122) || (65 <= first && first <= 90)) {
        return Err(SlugError::MustStartWithLetter);
    }
    assert(b == trailing_dashes(sl));
    assert(trimmed@.last() == sl[sl.len() - 1 - b]);
    proof {
        assert(no_double_dash(trimmed@)) by {
            assert forall|k: int| 0 <= k < trimmed@.len() - 1 && #[trigger] trimmed@[k] == '-' implies trimmed@[k + 1] != '-' by {
                assert(trimmed@[k] == sl[a + k] && trimmed@[k + 1] == sl[a + k + 1]);
            }
        }
    }
    Ok(string_from_chars(trimmed.as_slice()))
}

// ---------------------------------------------------------------------------
// Unique slugs and ids
// ---------------------------------------------------------------------------

/// What the pattern `^(?P<prefix>.*?)(?P<num>\d+)$` captures in a string:
/// the prefix and the trailing run of digits.
pub uninterp spec fn trailing_number_split(base: Seq<char>) -> Option<(Seq<char>, Seq<char>)>;

/// What the pattern `^<prefix>(?P<num>\d+)?$` (prefix escaped literally)
/// captures in `s`: `None` when it does not match, `Some(None)` when it
/// matches without digits, `Some(Some(num))` otherwise.
pub uninterp spec fn prefix_number_match(prefix: Seq<char>, s: Seq<char>) -> Option<Option<Seq<char>>>;

/// Runs the regex `^(?P<prefix>.*?)(?P<num>\d+)$` on `base`. The pattern is
/// anchored at both ends and its two groups are adjacent, so when it
/// matches, prefix followed by num is the whole string, and num is not empty;
/// the prefix is as short as it can be, so it does not end with a digit
/// (ASCII digits are in `\d`), and num holds only `\d` digits, so its ASCII
/// characters are ASCII digits. `.` does not match a line feed, and neither
/// does `\d`, so a `base` containing one gives `None`. Otherwise it matches
/// exactly when `base` ends with a `\d` digit: an empty `base` gives `None`
/// and one ending in an ASCII digit a match.
#[verifier::external_body]
fn split_trailing_number(base: &str) -> (r: Option<(String, String)>)
    ensures
        match r {
            Some((p, n)) => trailing_number_split(base@) == Some((p@, n@)) && p@ + n@ == base@ && n@.len() > 0
                && (p@.len() == 0 || !is_ascii_digit(p@.last()))
                && forall|i: int| 0 <= i < n@.len() && (#[trigger] n@[i] as u32) < 128 ==> is_ascii_digit(n@[i]),
            None => trailing_number_split(base@) is None,
        },
        base@.len() == 0 ==> r is None,
        base@.contains('\n') ==> r is None,
        base@.len() > 0 && !base@.contains('\n') && is_ascii_digit(base@.last()) ==> r is Some,
{
    let re = regex::Regex::new(r"^(?P<prefix>.*?)(?P<num>\d+)$").expect("valid regex");
    re.captures(base).map(|c| {
        let p = c.name("prefix").map_or("", |m| m.as_str()).to_string();
        let n = c.name("num").map_or("", |m| m.as_str()).to_string();
        (p, n)
    })
}

/// The longest prefix (in characters) whose pattern is built for matching
/// slugs. `Regex::new` fails, and the match panics, when the compiled
/// automaton outgrows the `regex` crate's default size limit of 10 MiB. A
/// literal costs one automaton state of 32 bytes per UTF-8 byte, so at most
/// 128 bytes per character: 81920 characters would fill the limit, and this
/// bound leaves a fifth of it for the rest of the pattern.
pub const MAX_SLUG_PREFIX_CHARS: usize = 65536;

/// The captures of `^<prefix>(?P<num>\d+)?$`, each as a plain value.
pub open spec fn prefix_match_view(r: Option<Option<String>>) -> Option<Option<Seq<char>>> {
    match r {
        Some(Some(n)) => Some(Some(n@)),
        Some(None) => Some(None),
        None => None,
    }
}

/// Runs the regex `^<escaped prefix>(?P<num>\d+)?$` on `s`. From the pattern:
/// a match without the group means `s` is the prefix; a match with it means
/// `s` is the prefix followed by the captured digits; `s` equal to the prefix
/// matches without the group; and the prefix followed by ASCII digits
/// matches with exactly those digits (ASCII digits are in `\d`). Building
/// the pattern panics when it is too large for the crate's size limit, so
/// the prefix is bounded.
#[verifier::external_body]
fn match_prefix_number(prefix: &str, s: &str) -> (r: Option<Option<String>>)
    requires
        prefix@.len() <= MAX_SLUG_PREFIX_CHARS,
    ensures
        prefix_match_view(r) == prefix_number_match(prefix@, s@),
        r matches Some(None) ==> s@ == prefix@,
        r matches Some(Some(n)) ==> s@ == prefix@ + n@ && n@.len() > 0,
        s@ == prefix@ ==> r matches Some(None),
        forall|d: Seq<char>| d.len() > 0 && all_ascii_digits(d) && s@ == prefix@ + d ==> #[trigger] prefix_match_view(r) == Some(Some(d)),
{
    let re = regex::Regex::new(&format!(r"^{}(?P<num>\d+)?$", regex::escape(prefix))).expect("valid regex");
    re.captures(s).map(|c| c.name("num").map(|m| m.as_str().to_string()))
}

/// The slugs of the task files among `names`.
pub open spec fn slug_of_name(name: Seq<char>) -> Option<Seq<char>> {
    match parse_task_file_name(name) {
        Some((_, slug)) => Some(slug),
        None => None,
    }
}

/// Some task file among `names` has slug `slug`.
pub open spec fn slug_taken(names: Seq<Seq<char>>, slug: Seq<char>) -> bool {
    exists|i: int| 0 <= i < names.len() && #[trigger] slug_of_name(names[i]) == Some(slug)
}

/// The number that an existing slug carries for `prefix`: `1` for the bare
/// prefix (or digits that do not parse), the parsed digits otherwise; `None`
/// when the slug is not `prefix` followed by optional digits.
pub open spec fn suffix_number(prefix: Seq<char>, slug: Seq<char>) -> Option<u64> {
    match prefix_number_match(prefix, slug) {
        None => None,
        Some(None) => Some(1),
        Some(Some(n)) => Some(
            match parse_u64_spec(n) {
                Some(v) => v,
                None => 1,
            },
        ),
    }
}

/// The largest suffix number among the task files in `names`, at least `init`.
pub open spec fn max_suffix(names: Seq<Seq<char>>, prefix: Seq<char>, init: u64) -> u64
    decreases names.len(),
{
    if names.len() == 0 {
        init
    } else {
        let m = max_suffix(names.drop_last(), prefix, init);
        match slug_of_name(names.last()) {
            Some(slug) => match suffix_number(prefix, slug) {
                Some(n) => if n > m { n } else { m },
                None => m,
            },
            None => m,
        }
    }
}

/// The prefix and base number of a slug: split at its trailing digits (a
/// number that does not parse counts as 0), or the whole slug and 0.
pub open spec fn slug_base(base: Seq<char>) -> (Seq<char>, u64) {
    slug_base_of(base, trailing_number_split(base))
}

/// The prefix and base number of a slug, given how it splits at its
/// trailing digits (`None`: it has none).
pub open spec fn slug_base_of(base: Seq<char>, split: Option<(Seq<char>, Seq<char>)>) -> (Seq<char>, u64) {
    match split {
        Some((p, n)) => (p, match parse_u64_spec(n) { Some(v) => v, None => 0 }),
        None => (base, 0),
    }
}

/// The slug that `compute_unique_slug` picks for `base` given the file names
/// of the tasks directory.
pub open spec fn unique_slug_spec(names: Seq<Seq<char>>, base: Seq<char>) -> Seq<char> {
    unique_slug_given(names, base, trailing_number_split(base))
}

/// The slug picked for `base`, given how `base` splits at its trailing
/// digits.
pub open spec fn unique_slug_given(names: Seq<Seq<char>>, base: Seq<char>, split: Option<(Seq<char>, Seq<char>)>) -> Seq<char> {
    if !slug_taken(names, base) {
        base
    } else {
        let (prefix, base_n) = slug_base_of(base, split);
        let start: u64 = if base_n == 0 { 1 } else { base_n };
        let mx = max_suffix(names, prefix, start);
        let next: u64 = if mx == u64::MAX { mx } else { (mx + 1) as u64 };
        prefix + decimal(next as nat)
    }
}

fn slug_taken_exec(names: &[String], slug: &str) -> (r: bool)
    ensures
        r == slug_taken(str_views(names@), slug@),
{
    let ghost nv = str_views(names@);
    let mut taken = false;
    let mut i: usize = 0;
    while i < names.len()
        invariant
            i <= names.len(),
            nv == str_views(names@),
            taken == exists|k: int| 0 <= k < i && #[trigger] slug_of_name(nv[k]) == Some(slug@),
        decreases names.len() - i,
    {
        let ghost before = taken;
        assert(nv[i as int] == names@[i as int]@);
        let hit = match parse_task_file_name_exec(names[i].as_str()) {
            Some(t) => crate::text::str_eq(t.slug.as_str(), slug),
            None => false,
        };
        assert(hit == (slug_of_name(nv[i as int]) == Some(slug@)));
        if hit {
            taken = true;
        }
        proof {
            if taken && !before {
                assert(slug_of_name(nv[i as int]) == Some(slug@));
            }
            if !taken {
                assert forall|k: int| 0 <= k < i + 1 implies #[trigger] slug_of_name(nv[k]) != Some(slug@) by {
                    if k < i {
                        assert(!(0 <= k < i && slug_of_name(nv[k]) == Some(slug@)));
                    }
                }
            }
        }
        i += 1;
    }
    taken
}

/// `prefix` followed by the decimal rendering of `v`.
pub open spec fn numbered(prefix: Seq<char>, v: u64) -> Seq<char> {
    prefix + decimal(v as nat)
}

fn max_suffix_exec(names: &[String], prefix: &str, start: u64) -> (r: u64)
    requires
        prefix@.len() <= MAX_SLUG_PREFIX_CHARS,
    ensures
        r == max_suffix(str_views(names@), prefix@, start),
        forall|k: int, v: u64|
            #![trigger slug_of_name(str_views(names@)[k]), numbered(prefix@, v)]
            0 <= k < names.len() && slug_of_name(str_views(names@)[k]) == Some(numbered(prefix@, v)) ==> v <= r,
{
    let ghost nv = str_views(names@);
    let mut max_n: u64 = start;
    let mut j: usize = 0;
    while j < names.len()
        invariant
            j <= names.len(),
            nv == str_views(names@),
            prefix@.len() <= MAX_SLUG_PREFIX_CHARS,
            max_n == max_suffix(nv.take(j as int), prefix@, start),
            forall|k: int, v: u64|
                #![trigger slug_of_name(nv[k]), numbered(prefix@, v)]
                0 <= k < j && slug_of_name(nv[k]) == Some(numbered(prefix@, v)) ==> v <= max_n,
        decreases names.len() - j,
    {
        assert(nv.take(j + 1).drop_last() =~= nv.take(j as int));
        assert(nv.take(j + 1).last() == names@[j as int]@);
        assert(nv[j as int] == names@[j as int]@);
        let ghost old_max = max_n;
        if let Some(t) = parse_task_file_name_exec(names[j].as_str()) {
            let m = match_prefix_number(prefix, t.slug.as_str());
            proof {
                assert forall|v: u64| t.slug@ == #[trigger] numbered(prefix@, v) implies
                    m matches Some(Some(num)) && num@ == decimal(v as nat) by {
                    lemma_decimal_digits(v as nat);
                    assert(prefix_match_view(m) == Some(Some(decimal(v as nat))));
                }
            }
            match m {
                Some(None) => {
                    if 1 > max_n {
                        max_n = 1;
                    }
                },
                Some(Some(num)) => {
                    let nc = chars_of(num.as_str());
                    let n = match parse_u64(nc.as_slice()) {
                        Some(v) => v,
                        None => 1,
                    };
                    proof {
                        assert forall|v: u64| t.slug@ == #[trigger] numbered(prefix@, v) implies v <= n by {
                            lemma_decimal_digits(v as nat);
                        }
                    }
                    if n > max_n {
                        max_n = n;
                    }
                },
                None => {},
            }
        }
        proof {
            assert forall|k: int, v: u64|
                #![trigger slug_of_name(nv[k]), numbered(prefix@, v)]
                0 <= k < j + 1 && slug_of_name(nv[k]) == Some(numbered(prefix@, v)) implies v <= max_n by {
                if k < j {
                    assert(v <= old_max);
                }
            }
        }
        j += 1;
    }
    assert(nv.take(names.len() as int) =~= nv);
    max_n
}

/// A split at the trailing digits, as plain values.
pub open spec fn split_view(split: Option<(String, String)>) -> Option<(Seq<char>, Seq<char>)> {
    match split {
        Some((p, n)) => Some((p@, n@)),
        None => None,
    }
}

/// Computes a unique slug given the file names found in the tasks directory:
/// `base` when no task has it, otherwise the prefix of `base` (before its
/// trailing digits) followed by one more than the highest number in use.
/// `base` is at most `MAX_SLUG_PREFIX_CHARS` characters long.
pub fn compute_unique_slug(names: &[String], base: &str) -> (r: String)
    requires
        base@.len() <= MAX_SLUG_PREFIX_CHARS,
    ensures
        r@ == unique_slug_spec(str_views(names@), base@),
        slug_taken(str_views(names@), r@) ==> r@ == numbered(slug_base(base@).0, u64::MAX),
{
    if !slug_taken_exec(names, base) {
        return base.to_string();
    }
    let split = split_trailing_number(base);
    unique_slug_from_split(names, base, split)
}

/// The unique slug for `base` (see `compute_unique_slug`), given how `base`
/// splits at its trailing digits: the prefix and the digits, or `None`.
pub fn unique_slug_from_split(names: &[String], base: &str, split: Option<(String, String)>) -> (r: String)
    requires
        base@.len() <= MAX_SLUG_PREFIX_CHARS,
        split matches Some((p, _)) ==> p@.len() <= MAX_SLUG_PREFIX_CHARS,
    ensures
        r@ == unique_slug_given(str_views(names@), base@, split_view(split)),
        slug_taken(str_views(names@), r@) ==> r@ == numbered(slug_base_of(base@, split_view(split)).0, u64::MAX),
{
    if !slug_taken_exec(names, base) {
        return base.to_string();
    }
    let ghost sv = split_view(split);
    let (prefix, base_n): (String, u64) = match split {
        Some((p, n)) => {
            let nc = chars_of(n.as_str());
            let v = match parse_u64(nc.as_slice()) {
                Some(v) => v,
                None => 0,
            };
            (p, v)
        },
        None => (base.to_string(), 0),
    };
    assert((prefix@, base_n) == slug_base_of(base@, sv));
    let start: u64 = if base_n == 0 { 1 } else { base_n };
    let max_n = max_suffix_exec(names, prefix.as_str(), start);
    let next: u64 = if max_n == u64::MAX { max_n } else { max_n + 1 };
    let mut out = chars_of(prefix.as_str());
    push_decimal(&mut out, next);
    let r = string_from_chars(out.as_slice());
    proof {
        let nv = str_views(names@);
        assert(r@ == numbered(prefix@, next));
        if slug_taken(nv, r@) && max_n < u64::MAX {
            let k = choose|k: int| 0 <= k < nv.len() && #[trigger] slug_of_name(nv[k]) == Some(r@);
            assert(slug_of_name(nv[k]) == Some(numbered(prefix@, next)));
            assert(next <= max_n);
        }
    }
    r
}

/// The largest task id among `names`, or 0.
pub open spec fn max_task_id(names: Seq<Seq<char>>) -> u32
    decreases names.len(),
{
    if names.len() == 0 {
        0
    } else {
        let m = max_task_id(names.drop_last());
        match parse_task_file_name(names.last()) {
            Some((id, _)) => if id > m { id } else { m },
            None => m,
        }
    }
}

/// The next task id: one more than the largest id among the task files in
/// `names` (saturating at `u32::MAX`).
pub fn next_id(names: &[String]) -> (r: u32)
    ensures
        r == (if max_task_id(str_views(names@)) == u32::MAX { u32::MAX } else { (max_task_id(str_views(names@)) + 1) as u32 }),
{
    let ghost nv = str_views(names@);
    let mut max_id: u32 = 0;
    let mut j: usize = 0;
    while j < names.len()
        invariant
            j <= names.len(),
            nv == str_views(names@),
            max_id == max_task_id(nv.take(j as int)),
        decreases names.len() - j,
    {
        assert(nv.take(j + 1).drop_last() =~= nv.take(j as int));
        assert(nv.take(j + 1).last() == names@[j as int]@);
        if let Some(t) = parse_task_file_name_exec(names[j].as_str()) {
            if t.id > max_id {
                max_id = t.id;
            }
        }
        j += 1;
    }
    assert(nv.take(names.len() as int) =~= nv);
    if max_id == u32::MAX { max_id } else { max_id + 1 }
}

} // verus!

verus! {

// ---------------------------------------------------------------------------
// Listing and resolving tasks
// ---------------------------------------------------------------------------

/// The tasks named by the task files among `names`, in order.
pub open spec fn tasks_of(names: Seq<Seq<char>>) -> Seq<(u32, Seq<char>)>
    decreases names.len(),
{
    if names.len() == 0 {
        Seq::empty()
    } else {
        let prev = tasks_of(names.drop_last());
        match parse_task_file_name(names.last()) {
            Some(t) => prev.push(t),
            None => prev,
        }
    }
}

/// The views of a sequence of tasks.
pub open spec fn task_views(v: Seq<TaskRef>) -> Seq<(u32, Seq<char>)> {
    v.map_values(|t: TaskRef| (t.id, t.slug@))
}

/// The tasks among the file names of the tasks directory, in the order of
/// `names`; names that are not task files are skipped.
pub fn list_tasks(names: &[String]) -> (r: Vec<TaskRef>)
    ensures
        task_views(r@) == tasks_of(str_views(names@)),
{
    let ghost nv = str_views(names@);
    let mut out: Vec<TaskRef> = Vec::new();
    let mut j: usize = 0;
    while j < names.len()
        invariant
            j <= names.len(),
            nv == str_views(names@),
            task_views(out@) == tasks_of(nv.take(j as int)),
        decreases names.len() - j,
    {
        assert(nv.take(j + 1).drop_last() =~= nv.take(j as int));
        assert(nv.take(j + 1).last() == names@[j as int]@);
        let ghost before = out@;
        if let Some(t) = parse_task_file_name_exec(names[j].as_str()) {
            out.push(t);
            assert(task_views(out@) =~= task_views(before).push((t.id, t.slug@)));
        }
        j += 1;
    }
    assert(nv.take(names.len() as int) =~= nv);
    out
}

/// The first task among `names` from position `k` on whose id is `id`.
pub open spec fn find_by_id(names: Seq<Seq<char>>, id: u32, k: int) -> Option<(u32, Seq<char>)>
    decreases names.len() - k,
{
    if k < 0 || k >= names.len() {
        None
    } else {
        match parse_task_file_name(names[k]) {
            Some((i, s)) => if i == id { Some((i, s)) } else { find_by_id(names, id, k + 1) },
            None => find_by_id(names, id, k + 1),
        }
    }
}

/// The first task among `names` from position `k` on whose slug is `slug`.
pub open spec fn find_by_slug(names: Seq<Seq<char>>, slug: Seq<char>, k: int) -> Option<(u32, Seq<char>)>
    decreases names.len() - k,
{
    if k < 0 || k >= names.len() {
        None
    } else {
        match parse_task_file_name(names[k]) {
            Some((i, s)) => if s == slug { Some((i, s)) } else { find_by_slug(names, slug, k + 1) },
            None => find_by_slug(names, slug, k + 1),
        }
    }
}

/// Why a task identifier could not be resolved.
#[derive(Debug, Clone, Copy, PartialEq, Eq, Structural)]
pub enum ResolveError {
    /// The tasks directory does not exist.
    TasksDirMissing,
    /// The identifier is all digits but is not a `u32`.
    InvalidId,
    /// No task has the given id.
    IdNotFound,
    /// No task has the given slug.
    SlugNotFound,
}

/// The message of a resolution error, given the tasks directory and the
/// identifier that was looked up.
pub open spec fn resolve_error_message(e: ResolveError, tasks_dir: Seq<char>, ident: Seq<char>) -> Seq<char> {
    match e {
        ResolveError::TasksDirMissing => "tasks dir not found at "@ + tasks_dir,
        ResolveError::InvalidId => "invalid id"@,
        ResolveError::IdNotFound => "task with id "@ + ident + " not found"@,
        ResolveError::SlugNotFound => "task with slug "@ + ident + " not found"@,
    }
}

impl ResolveError {
    /// The error message, given the tasks directory and the identifier.
    pub fn message(&self, tasks_dir: &str, ident: &str) -> (m: String)
        ensures
            m@ == resolve_error_message(*self, tasks_dir@, ident@),
    {
        let mut out: Vec<char> = Vec::new();
        match self {
            ResolveError::TasksDirMissing => {
                push_str_chars(&mut out, "tasks dir not found at ");
                push_str_chars(&mut out, tasks_dir);
            },
            ResolveError::InvalidId => {
                push_str_chars(&mut out, "invalid id");
            },
            ResolveError::IdNotFound => {
                push_str_chars(&mut out, "task with id ");
                push_str_chars(&mut out, ident);
                push_str_chars(&mut out, " not found");
            },
            ResolveError::SlugNotFound => {
                push_str_chars(&mut out, "task with slug ");
                push_str_chars(&mut out, ident);
                push_str_chars(&mut out, " not found");
            },
        }
        proof {
            reveal_strlit("tasks dir not found at ");
            reveal_strlit("invalid id");
            reveal_strlit("task with id ");
            reveal_strlit("task with slug ");
            reveal_strlit(" not found");
        }
        string_from_chars(out.as_slice())
    }
}

/// How `resolve_id_or_slug` answers: `names` is the listing of the tasks
/// directory, `None` when it does not exist. An identifier made only of ASCII
/// digits (the empty one too) is an id, anything else a slug.
pub open spec fn resolve_spec(names: Option<Seq<Seq<char>>>, ident: Seq<char>) -> Result<(u32, Seq<char>), ResolveError> {
    match names {
        None => Err(ResolveError::TasksDirMissing),
        Some(nv) => if all_ascii_digits(ident) {
            match parse_u32_spec(ident) {
                None => Err(ResolveError::InvalidId),
                Some(id) => match find_by_id(nv, id, 0) {
                    Some(t) => Ok(t),
                    None => Err(ResolveError::IdNotFound),
                },
            }
        } else {
            match find_by_slug(nv, ident, 0) {
                Some(t) => Ok(t),
                None => Err(ResolveError::SlugNotFound),
            }
        },
    }
}

fn all_digits_exec(s: &str) -> (r: bool)
    ensures
        r == all_ascii_digits(s@),
{
    let cs = chars_of(s);
    let mut i: usize = 0;
    while i < cs.len()
        invariant
            i <= cs.len(),
            cs@ == s@,
            forall|k: int| 0 <= k < i ==> is_ascii_digit(#[trigger] cs@[k]),
        decreases cs.len() - i,
    {
        let c = cs[i] as u32;
        if !(48 <= c && c <= 57) {
            assert(!is_ascii_digit(s@[i as int]));
            return false;
        }
        i += 1;
    }
    true
}

fn find_by_id_exec(names: &[String], id: u32) -> (r: Option<TaskRef>)
    ensures
        match r {
            Some(t) => find_by_id(str_views(names@), id, 0) == Some((t.id, t.slug@)),
            None => find_by_id(str_views(names@), id, 0) is None,
        },
{
    let ghost nv = str_views(names@);
    let mut j: usize = 0;
    while j < names.len()
        invariant
            j <= names.len(),
            nv == str_views(names@),
            find_by_id(nv, id, 0) == find_by_id(nv, id, j as int),
        decreases names.len() - j,
    {
        assert(nv[j as int] == names@[j as int]@);
        if let Some(t) = parse_task_file_name_exec(names[j].as_str()) {
            if t.id == id {
                return Some(t);
            }
        }
        j += 1;
    }
    None
}

fn find_by_slug_exec(names: &[String], slug: &str) -> (r: Option<TaskRef>)
    ensures
        match r {
            Some(t) => find_by_slug(str_views(names@), slug@, 0) == Some((t.id, t.slug@)),
            None => find_by_slug(str_views(names@), slug@, 0) is None,
        },
{
    let ghost nv = str_views(names@);
    let mut j: usize = 0;
    while j < names.len()
        invariant
            j <= names.len(),
            nv == str_views(names@),
            find_by_slug(nv, slug@, 0) == find_by_slug(nv, slug@, j as int),
        decreases names.len() - j,
    {
        assert(nv[j as int] == names@[j as int]@);
        if let Some(t) = parse_task_file_name_exec(names[j].as_str()) {
            if crate::text::str_eq(t.slug.as_str(), slug) {
                return Some(t);
            }
        }
        j += 1;
    }
    None
}

/// The views of an optional listing.
pub open spec fn listing_view(names: Option<&[String]>) -> Option<Seq<Seq<char>>> {
    match names {
        Some(v) => Some(str_views(v@)),
        None => None,
    }
}

/// Resolves a task identifier, an id or a slug, against the listing of the
/// tasks directory (`None` when the directory does not exist). The first
/// matching task file in the listing wins.
pub fn resolve_id_or_slug(names: Option<&[String]>, ident: &str) -> (r: Result<TaskRef, ResolveError>)
    ensures
        match r {
            Ok(t) => resolve_spec(listing_view(names), ident@) == Ok::<(u32, Seq<char>), ResolveError>((t.id, t.slug@)),
            Err(e) => resolve_spec(listing_view(names), ident@) == Err::<(u32, Seq<char>), ResolveError>(e),
        },
{
    let names = match names {
        Some(n) => n,
        None => return Err(ResolveError::TasksDirMissing),
    };
    if all_digits_exec(ident) {
        let cs = chars_of(ident);
        match parse_u32(cs.as_slice()) {
            None => Err(ResolveError::InvalidId),
            Some(id) => match find_by_id_exec(names, id) {
                Some(t) => Ok(t),
                None => Err(ResolveError::IdNotFound),
            },
        }
    } else {
        match find_by_slug_exec(names, ident) {
            Some(t) => Ok(t),
            None => Err(ResolveError::SlugNotFound),
        }
    }
}

// ---------------------------------------------------------------------------
// Front matter and content
// ---------------------------------------------------------------------------

/// The front matter of a task file.
#[derive(Debug, PartialEq, Eq)]
pub struct TaskFrontmatter {
    /// The agent that works on the task, if fixed for it.
    pub agent: Option<String>,
    /// The branch the task's branch was created from.
    pub base_branch: Option<String>,
}

impl Clone for TaskFrontmatter {
    fn clone(&self) -> (r: Self)
        ensures
            r == *self,
    {
        TaskFrontmatter {
            agent: match &self.agent {
                Some(a) => Some(a.clone()),
                None => None,
            },
            base_branch: match &self.base_branch {
                Some(b) => Some(b.clone()),
                None => None,
            },
        }
    }
}

/// A task file read as front matter and body.
#[derive(Debug, PartialEq, Eq)]
pub struct TaskContent {
    pub frontmatter: Option<TaskFrontmatter>,
    pub body: String,
}

/// Access to the base branch of an optional front matter.
pub trait TaskFrontmatterExt {
    /// The stored base branch, or the value `fallback` computes.
    fn base_branch_or<F: FnOnce() -> String>(&self, fallback: F) -> String
        requires
            fallback.requires(()),
    ;
}

/// The stored base branch of an optional front matter, if any.
pub open spec fn stored_base_branch(fm: Option<TaskFrontmatter>) -> Option<String> {
    match fm {
        Some(f) => f.base_branch,
        None => None,
    }
}

impl TaskFrontmatterExt for Option<TaskFrontmatter> {
    fn base_branch_or<F: FnOnce() -> String>(&self, fallback: F) -> (r: String)
        ensures
            match stored_base_branch(*self) {
                Some(b) => r == b,
                None => fallback.ensures((), r),
            },
    {
        match self {
            Some(f) => match &f.base_branch {
                Some(b) => b.clone(),
                None => fallback(),
            },
            None => fallback(),
        }
    }
}

/// The agent for a task: the one in its front matter, else the configured
/// default; `None` when neither is set.
pub fn agent_for_task(cfg: &AgencyConfig, fm: Option<&TaskFrontmatter>) -> (r: Option<String>)
    ensures
        r == (match fm {
            Some(f) => match f.agent {
                Some(a) => Some(a),
                None => cfg.agent,
            },
            None => cfg.agent,
        }),
{
    if let Some(f) = fm {
        if let Some(a) = &f.agent {
            return Some(a.clone());
        }
    }
    match &cfg.agent {
        Some(a) => Some(a.clone()),
        None => None,
    }
}

/// Where a task's description is edited: `<state dir>/<id>-<slug>.desc.md`.
pub fn description_draft_path(paths: &AgencyPaths, task: &TaskRef) -> (r: String)
    ensures
        r@ == path_join(
            agency_subdir(paths.root@, seq!['s', 't', 'a', 't', 'e']),
            decimal(task.id as nat) + seq!['-'] + task.slug@ + ".desc.md"@,
        ),
{
    let dir = paths.state_dir();
    let mut name: Vec<char> = Vec::new();
    push_decimal(&mut name, task.id as u64);
    name.push('-');
    push_str_chars(&mut name, task.slug.as_str());
    push_str_chars(&mut name, ".desc.md");
    let n = string_from_chars(name.as_slice());
    assert(n@ =~= decimal(task.id as nat) + seq!['-'] + task.slug@ + ".desc.md"@);
    join_path(dir.as_str(), n.as_str())
}

/// The edited description: none when it is blank, else the text as written.
pub fn edited_description(text: String) -> (r: Option<String>)
    ensures
        trim_spec(text@).len() == 0 ==> r is None,
        trim_spec(text@).len() > 0 ==> r == Some(text),
{
    let t = trim_str(text.as_str());
    if t.as_str().is_empty() {
        None
    } else {
        Some(text)
    }
}

} // verus!
