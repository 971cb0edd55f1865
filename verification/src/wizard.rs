//! Interactive set-up questions: choices, defaults, and how typed replies
//! are read when no full terminal prompt is available.
use vstd::prelude::*;
use crate::split::{trim_spec, trim_str};
use crate::git::joined_args;
use crate::text::{chars_of, parse_u64, parse_u64_spec, push_str_chars, str_eq, string_from_chars};

verus! {

/// One option of a selection question.
#[derive(Debug, PartialEq, Eq)]
pub struct Choice {
    /// What the answer is when this option is picked.
    pub value: String,
    /// What the option is called.
    pub label: String,
    /// Extra text shown after the label.
    pub detail: Option<String>,
}

/// Whether the questions can use a full terminal prompt.
pub struct Wizard {
    pub is_tty: bool,
}

impl Wizard {
    /// A wizard that uses full prompts when `is_tty`.
    pub fn with_tty(is_tty: bool) -> (w: Self)
        ensures
            w.is_tty == is_tty,
    {
        Wizard { is_tty }
    }

    /// The lines that the information block logs: each line as it is, an
    /// empty one as an empty line.
    pub fn info_lines(lines: &[String]) -> (r: Vec<String>)
        ensures
            r@.len() == lines@.len(),
            forall|i: int| 0 <= i < lines@.len() ==> #[trigger] r@[i]@ == lines@[i]@,
    {
        let mut out: Vec<String> = Vec::new();
        let mut i: usize = 0;
        while i < lines.len()
            invariant
                i <= lines.len(),
                out@.len() == i,
                forall|k: int| 0 <= k < i ==> #[trigger] out@[k]@ == lines@[k]@,
            decreases lines.len() - i,
        {
            out.push(lines[i].clone());
            i += 1;
        }
        out
    }
}

/// Why a selection could not be made.
#[derive(Debug, Clone, Copy, PartialEq, Eq, Structural)]
pub enum WizardError {
    /// There is nothing to choose from.
    NoOptions,
    /// The reply names no option.
    InvalidSelection,
    /// A typed command has a quote that is never closed.
    InvalidShellCommand,
}

/// The first option whose value is `value`, from position `k` on.
pub open spec fn position_of_value(options: Seq<Choice>, value: Seq<char>, k: int) -> Option<int>
    decreases options.len() - k,
{
    if k < 0 || k >= options.len() {
        None
    } else if options[k].value@ == value {
        Some(k)
    } else {
        position_of_value(options, value, k + 1)
    }
}

fn position_of_value_exec(options: &[Choice], value: &str) -> (r: Option<usize>)
    ensures
        match r {
            Some(k) => position_of_value(options@, value@, 0) == Some(k as int) && k < options@.len(),
            None => position_of_value(options@, value@, 0) is None,
        },
{
    let mut k: usize = 0;
    while k < options.len()
        invariant
            k <= options.len(),
            position_of_value(options@, value@, 0) == position_of_value(options@, value@, k as int),
        decreases options.len() - k,
    {
        if str_eq(options[k].value.as_str(), value) {
            return Some(k);
        }
        k += 1;
    }
    None
}

/// The option a selection starts on: the one whose value is the default,
/// else the first.
pub fn default_index(options: &[Choice], default_value: Option<&str>) -> (r: usize)
    ensures
        r == (match default_value {
            Some(d) => match position_of_value(options@, d@, 0) {
                Some(k) => k as usize,
                None => 0usize,
            },
            None => 0usize,
        }),
{
    match default_value {
        Some(d) => match position_of_value_exec(options, d) {
            Some(k) => k,
            None => 0,
        },
        None => 0,
    }
}

/// ASCII case-insensitive equality of characters.
pub open spec fn eq_ignore_ascii_case_char(a: char, b: char) -> bool {
    a == b || ('A' <= a && a <= 'Z' && (a as u32 + 32) == b as u32) || ('A' <= b && b <= 'Z' && (b as u32 + 32) == a as u32)
}

/// `str::eq_ignore_ascii_case`.
pub open spec fn eq_ignore_ascii_case(a: Seq<char>, b: Seq<char>) -> bool {
    a.len() == b.len() && forall|i: int| 0 <= i < a.len() ==> #[trigger] eq_ignore_ascii_case_char(a[i], b[i])
}

fn eq_ignore_ascii_case_exec(a: &str, b: &str) -> (r: bool)
    ensures
        r == eq_ignore_ascii_case(a@, b@),
{
    let x = chars_of(a);
    let y = chars_of(b);
    if x.len() != y.len() {
        return false;
    }
    let mut i: usize = 0;
    while i < x.len()
        invariant
            i <= x.len(),
            x.len() == y.len(),
            x@ == a@,
            y@ == b@,
            forall|k: int| 0 <= k < i ==> #[trigger] eq_ignore_ascii_case_char(x@[k], y@[k]),
        decreases x.len() - i,
    {
        let c = x[i];
        let d = y[i];
        let same = c == d || ('A' <= c && c <= 'Z' && (c as u32) + 32 == d as u32) || ('A' <= d && d <= 'Z' && (d as u32) + 32 == c as u32);
        if !same {
            assert(!eq_ignore_ascii_case_char(a@[i as int], b@[i as int]));
            return false;
        }
        i += 1;
    }
    true
}

/// The first option whose value or label equals `reply` ignoring ASCII
/// case, from position `k` on.
pub open spec fn named_option(options: Seq<Choice>, reply: Seq<char>, k: int) -> Option<int>
    decreases options.len() - k,
{
    if k < 0 || k >= options.len() {
        None
    } else if eq_ignore_ascii_case(options[k].value@, reply) || eq_ignore_ascii_case(options[k].label@, reply) {
        Some(k)
    } else {
        named_option(options, reply, k + 1)
    }
}

/// The option a typed reply picks: a blank reply keeps the default (or the
/// first option), a number from 1 picks that option, otherwise the reply
/// must name an option by value or label, ignoring ASCII case.
pub open spec fn selection_spec(options: Seq<Choice>, default_value: Option<Seq<char>>, reply: Seq<char>) -> Result<Seq<char>, WizardError> {
    let t = trim_spec(reply);
    if options.len() == 0 {
        Err(WizardError::NoOptions)
    } else if t.len() == 0 {
        match default_value {
            Some(d) => match position_of_value(options, d, 0) {
                Some(k) => Ok(options[k].value@),
                None => Ok(options[0].value@),
            },
            None => Ok(options[0].value@),
        }
    } else if parse_u64_spec(t) is Some && 1 <= parse_u64_spec(t)->0 <= options.len() {
        Ok(options[parse_u64_spec(t)->0 - 1].value@)
    } else {
        match named_option(options, t, 0) {
            Some(k) => Ok(options[k].value@),
            None => Err(WizardError::InvalidSelection),
        }
    }
}

/// Reads the reply to a selection question asked without a full prompt.
pub fn select_from_reply(options: &[Choice], default_value: Option<&str>, reply: &str) -> (r: Result<String, WizardError>)
    ensures
        match r {
            Ok(v) => selection_spec(options@, match default_value { Some(d) => Some(d@), None => None }, reply@) == Ok::<Seq<char>, WizardError>(v@),
            Err(e) => selection_spec(options@, match default_value { Some(d) => Some(d@), None => None }, reply@) == Err::<Seq<char>, WizardError>(e),
        },
{
    if options.len() == 0 {
        return Err(WizardError::NoOptions);
    }
    let t = trim_str(reply);
    let tc = chars_of(t.as_str());
    if tc.len() == 0 {
        match default_value {
            Some(d) => match position_of_value_exec(options, d) {
                Some(k) => return Ok(options[k].value.clone()),
                None => return Ok(options[0].value.clone()),
            },
            None => return Ok(options[0].value.clone()),
        }
    }
    match parse_u64(tc.as_slice()) {
        Some(idx) => {
            if 1 <= idx && idx <= options.len() as u64 {
                return Ok(options[(idx - 1) as usize].value.clone());
            }
        },
        None => {},
    }
    let mut k: usize = 0;
    while k < options.len()
        invariant
            k <= options.len(),
            options@.len() > 0,
            t@ == trim_spec(reply@),
            t@.len() > 0,
            !(parse_u64_spec(t@) is Some && 1 <= parse_u64_spec(t@)->0 <= options@.len()),
            named_option(options@, t@, 0) == named_option(options@, t@, k as int),
        decreases options.len() - k,
    {
        if eq_ignore_ascii_case_exec(options[k].value.as_str(), t.as_str())
            || eq_ignore_ascii_case_exec(options[k].label.as_str(), t.as_str()) {
            return Ok(options[k].value.clone());
        }
        k += 1;
    }
    Err(WizardError::InvalidSelection)
}

/// The answer to a text question asked without a full prompt: the trimmed
/// reply, or the default when blank.
pub fn text_from_reply(reply: &str, default: &str) -> (r: String)
    ensures
        trim_spec(reply@).len() == 0 ==> r@ == default@,
        trim_spec(reply@).len() > 0 ==> r@ == trim_spec(reply@),
{
    let t = trim_str(reply);
    if t.as_str().is_empty() {
        default.to_string()
    } else {
        t
    }
}

// ---------------------------------------------------------------------------
// Commands typed as one line
// ---------------------------------------------------------------------------

/// What `shell_words::split` makes of a command line: its words, split as a
/// POSIX shell splits them (quotes and backslash escapes, no expansions),
/// or `None` when a quote is left open.
pub uninterp spec fn shell_split(s: Seq<char>) -> Option<Seq<Seq<char>>>;

/// `shell_words::ParseError`, the error of an unclosed quote.
#[verifier::external_type_specification]
#[verifier::external_body]
pub struct ExShellParseError(shell_words::ParseError);

/// The views of a list of words.
pub open spec fn word_views(v: Seq<String>) -> Seq<Seq<char>> {
    v.map_values(|w: String| w@)
}

/// Splits `input` with `shell_words::split`; its words, or its error when a
/// quote is not closed, are those of `shell_split`.
#[verifier::external_body]
pub(crate) fn split_shell_words(input: &str) -> (r: Result<Vec<String>, shell_words::ParseError>)
    ensures
        match r {
            Ok(v) => shell_split(input@) == Some(word_views(v@)),
            Err(_) => shell_split(input@) is None,
        },
{
    shell_words::split(input)
}

impl Wizard {
    /// The default shown when asking for a command: its words joined by
    /// single spaces.
    pub fn command_default(default_argv: &[String]) -> (r: String)
        ensures
            r@ == joined_args(word_views(default_argv@)),
    {
        let mut out: Vec<char> = Vec::new();
        let mut i: usize = 0;
        while i < default_argv.len()
            invariant
                i <= default_argv.len(),
                out@ == joined_args(word_views(default_argv@).take(i as int)),
            decreases default_argv.len() - i,
        {
            let ghost t = word_views(default_argv@).take(i + 1);
            assert(t.drop_last() =~= word_views(default_argv@).take(i as int));
            assert(t.last() == default_argv@[i as int]@);
            if i > 0 {
                out.push(' ');
            }
            push_str_chars(&mut out, default_argv[i].as_str());
            proof {
                if i == 0 {
                    assert(t.drop_last() =~= Seq::<Seq<char>>::empty());
                }
            }
            assert(out@ =~= joined_args(t));
            i += 1;
        }
        assert(word_views(default_argv@).take(default_argv.len() as int) =~= word_views(default_argv@));
        string_from_chars(out.as_slice())
    }

    /// The words of a command typed as one line, split as a shell would;
    /// an unclosed quote is refused.
    pub fn shell_words(&self, input: &str) -> (r: Result<Vec<String>, WizardError>)
        ensures
            match r {
                Ok(v) => shell_split(input@) == Some(word_views(v@)),
                Err(e) => e == WizardError::InvalidShellCommand && shell_split(input@) is None,
            },
    {
        match split_shell_words(input) {
            Ok(v) => Ok(v),
            Err(_) => Err(WizardError::InvalidShellCommand),
        }
    }
}

} // verus!
