//! The task file format: optional front matter between `---` lines, then the
//! task body.
//!
//! A task file is `---\n<front matter>\n---\n<body>` or just `<body>`. The
//! front matter text itself is YAML; this module only frames it.
use vstd::prelude::*;
use crate::text::{chars_of, string_from_chars};

verus! {

/// The line that opens a front matter block.
pub open spec fn fm_start() -> Seq<char> {
    seq!['-', '-', '-', '\n']
}

/// The line break and line that close a front matter block.
pub open spec fn fm_end() -> Seq<char> {
    seq!['\n', '-', '-', '-', '\n']
}

/// `needle` occurs in `s` at position `k`.
pub open spec fn occurs_at(s: Seq<char>, needle: Seq<char>, k: int) -> bool {
    0 <= k && k + needle.len() <= s.len() && s.subrange(k, k + needle.len()) == needle
}

/// The first position at or after `k` where `needle` occurs in `s`, or -1.
pub open spec fn first_occurrence(s: Seq<char>, needle: Seq<char>, k: int) -> int
    decreases s.len() + 1 - k,
{
    if k < 0 || k + needle.len() > s.len() {
        -1
    } else if occurs_at(s, needle, k) {
        k
    } else {
        first_occurrence(s, needle, k + 1)
    }
}

pub proof fn lemma_first_occurrence(s: Seq<char>, needle: Seq<char>, k: int)
    requires
        0 <= k,
    ensures
        first_occurrence(s, needle, k) == -1 || (k <= first_occurrence(s, needle, k)
            && occurs_at(s, needle, first_occurrence(s, needle, k))),
        forall|j: int| k <= j && (first_occurrence(s, needle, k) == -1 || j < first_occurrence(s, needle, k))
            ==> !#[trigger] occurs_at(s, needle, j),
    decreases s.len() + 1 - k,
{
    if k + needle.len() <= s.len() && !occurs_at(s, needle, k) {
        lemma_first_occurrence(s, needle, k + 1);
    }
}

/// Splits a task file into its front matter text and its body: the file
/// must start with `---\n`, and the front matter ends at the first `\n---\n`
/// after that. `None` when either delimiter is missing.
pub open spec fn front_matter_split(input: Seq<char>) -> Option<(Seq<char>, Seq<char>)> {
    if input.len() >= 4 && input.take(4) == fm_start() {
        let rest = input.skip(4);
        let p = first_occurrence(rest, fm_end(), 0);
        if p >= 0 {
            Some((rest.take(p), rest.skip(p + 5)))
        } else {
            None
        }
    } else {
        None
    }
}

/// What a reader takes from a task file: the front matter text, if framed,
/// and the body (the whole input when there is no framed front matter).
pub open spec fn read_back(input: Seq<char>) -> (Option<Seq<char>>, Seq<char>) {
    match front_matter_split(input) {
        Some((fm, body)) => (Some(fm), body),
        None => (None, input),
    }
}

/// The body as it is stored: a non-empty body ends with a line feed.
pub open spec fn stored_body(body: Seq<char>) -> Seq<char> {
    if body.len() == 0 || body.last() == '\n' {
        body
    } else {
        body.push('\n')
    }
}

/// The text of a task file with the given front matter text and body.
pub open spec fn rendered(front: Option<Seq<char>>, body: Seq<char>) -> Seq<char> {
    match front {
        Some(f) => fm_start() + f + fm_end() + stored_body(body),
        None => stored_body(body),
    }
}

/// `front` can be framed: the closing delimiter does not start inside it.
pub open spec fn frames_cleanly(front: Seq<char>) -> bool {
    forall|j: int| 0 <= j < front.len() ==> !#[trigger] occurs_at(front + fm_end(), fm_end(), j)
}

fn occurs_at_exec(s: &[char], needle: &[char], k: usize) -> (r: bool)
    ensures
        r == occurs_at(s@, needle@, k as int),
{
    if k > s.len() || needle.len() > s.len() - k {
        return false;
    }
    let mut i: usize = 0;
    while i < needle.len()
        invariant
            i <= needle.len(),
            k + needle.len() <= s.len(),
            forall|m: int| 0 <= m < i ==> s@[k + m] == needle@[m],
        decreases needle.len() - i,
    {
        if s[k + i] != needle[i] {
            assert(s@.subrange(k as int, k + needle.len())[i as int] != needle@[i as int]);
            return false;
        }
        i += 1;
    }
    assert(s@.subrange(k as int, k + needle.len()) =~= needle@);
    true
}

fn first_occurrence_exec(s: &[char], needle: &[char]) -> (r: Option<usize>)
    ensures
        match r {
            Some(p) => first_occurrence(s@, needle@, 0) == p as int,
            None => first_occurrence(s@, needle@, 0) == -1,
        },
{
    if needle.len() == 0 {
        assert(s@.subrange(0, 0) =~= needle@);
        return Some(0);
    }
    let mut k: usize = 0;
    while k <= s.len() && needle.len() <= s.len() - k
        invariant
            needle.len() > 0,
            first_occurrence(s@, needle@, 0) == first_occurrence(s@, needle@, k as int),
        decreases s.len() + 1 - k,
    {
        if occurs_at_exec(s, needle, k) {
            return Some(k);
        }
        k += 1;
    }
    None
}

/// Splits a task file into its front matter text and its body.
pub fn split_front_matter(input: &str) -> (r: Option<(String, String)>)
    ensures
        match r {
            Some((fm, body)) => front_matter_split(input@) == Some((fm@, body@)),
            None => front_matter_split(input@) is None,
        },
{
    let cs = chars_of(input);
    let n = cs.len();
    if n < 4 || cs[0] != '-' || cs[1] != '-' || cs[2] != '-' || cs[3] != '\n' {
        proof {
            if n >= 4 && input@.take(4) == fm_start() {
                assert(input@.take(4)[0] == '-' && input@.take(4)[1] == '-');
                assert(input@.take(4)[2] == '-' && input@.take(4)[3] == '\n');
            }
        }
        return None;
    }
    assert(cs@.take(4) =~= fm_start());
    let rest = crate::task::copy_chars(cs.as_slice(), 4, n);
    assert(rest@ =~= input@.skip(4));
    let end = vec!['\n', '-', '-', '-', '\n'];
    assert(end@ =~= fm_end());
    match first_occurrence_exec(rest.as_slice(), end.as_slice()) {
        Some(p) => {
            proof {
                lemma_first_occurrence(rest@, fm_end(), 0);
            }
            let fm = crate::task::copy_chars(rest.as_slice(), 0, p);
            let body = crate::task::copy_chars(rest.as_slice(), p + 5, rest.len());
            assert(fm@ =~= rest@.take(p as int));
            assert(body@ =~= rest@.skip(p + 5));
            Some((string_from_chars(fm.as_slice()), string_from_chars(body.as_slice())))
        },
        None => None,
    }
}

/// Renders a task file from its front matter text (already serialised and
/// trimmed) and its body; a non-empty body gets a final line feed.
pub fn render_task_markdown(front: Option<&str>, body: &str) -> (r: String)
    ensures
        r@ == rendered(
            match front {
                Some(f) => Some(f@),
                None => None,
            },
            body@,
        ),
{
    let mut out: Vec<char> = Vec::new();
    let ghost fv: Option<Seq<char>> = match front {
        Some(f) => Some(f@),
        None => None,
    };
    match front {
        Some(f) => {
            out.push('-');
            out.push('-');
            out.push('-');
            out.push('\n');
            crate::text::push_str_chars(&mut out, f);
            out.push('\n');
            out.push('-');
            out.push('-');
            out.push('-');
            out.push('\n');
            assert(out@ =~= fm_start() + f@ + fm_end());
        },
        None => {},
    }
    let ghost head = out@;
    let bc = chars_of(body);
    crate::text::push_str_chars(&mut out, body);
    if bc.len() > 0 && bc[bc.len() - 1] != '\n' {
        out.push('\n');
    }
    assert(out@ =~= head + stored_body(body@));
    proof {
        match fv {
            Some(f) => assert(head == fm_start() + f + fm_end()),
            None => assert(head =~= Seq::<char>::empty()),
        }
    }
    string_from_chars(out.as_slice())
}

/// Reading back a rendered task file gives the front matter text that was
/// written and the stored body, whenever the front matter frames cleanly and,
/// without front matter, the body does not itself read as framed front matter.
pub proof fn lemma_read_back_rendered(front: Option<Seq<char>>, body: Seq<char>)
    requires
        front matches Some(f) ==> frames_cleanly(f),
        front is None ==> front_matter_split(stored_body(body)) is None,
    ensures
        read_back(rendered(front, body)) == (front, stored_body(body)),
{
    match front {
        Some(f) => {
            let input = rendered(front, body);
            let rest = f + fm_end() + stored_body(body);
            assert(input.take(4) =~= fm_start());
            assert(input.skip(4) =~= rest);
            lemma_first_occurrence(rest, fm_end(), 0);
            let p = first_occurrence(rest, fm_end(), 0);
            assert(occurs_at(rest, fm_end(), f.len() as int)) by {
                assert(rest.subrange(f.len() as int, f.len() as int + 5) =~= fm_end());
            }
            if p < f.len() {
                assert(p >= 0);
                assert((f + fm_end()).subrange(p, p + 5) =~= rest.subrange(p, p + 5));
                assert(occurs_at(f + fm_end(), fm_end(), p));
                assert(false);
            }
            assert(p == f.len());
            assert(rest.take(p) =~= f);
            assert(rest.skip(p + 5) =~= stored_body(body));
        },
        None => {},
    }
}

/// Rendering what was read back from a rendered file gives the same file:
/// storing a body twice changes nothing.
pub proof fn lemma_stored_body_idempotent(body: Seq<char>)
    ensures
        stored_body(stored_body(body)) == stored_body(body),
{
}

} // verus!
