//! Agent command lines: expanding `<root>` and `$VAR` references, and
//! splitting a command line into program and arguments.
use vstd::prelude::*;
use crate::config::{clone_strings, AgentConfig};
use crate::split::{trim_spec, trim_str};
use crate::task::copy_chars;
use crate::text::{chars_of, is_ascii_alpha, is_ascii_digit, push_str_chars, str_eq, string_from_chars};

verus! {

// ---------------------------------------------------------------------------
// Environment
// ---------------------------------------------------------------------------

/// The views of environment entries.
pub open spec fn env_views(env: Seq<(String, String)>) -> Seq<(Seq<char>, Seq<char>)> {
    env.map_values(|e: (String, String)| (e.0@, e.1@))
}

/// The value of `key` in `env`: the last entry with that key wins (so a
/// later entry overrides an earlier one); empty when there is none.
pub open spec fn env_value(env: Seq<(Seq<char>, Seq<char>)>, key: Seq<char>) -> Seq<char>
    decreases env.len(),
{
    if env.len() == 0 {
        Seq::empty()
    } else if env.last().0 == key {
        env.last().1
    } else {
        env_value(env.drop_last(), key)
    }
}

/// The value of `key` in `env`, empty when unset.
pub fn env_get(env: &[(String, String)], key: &str) -> (r: String)
    ensures
        r@ == env_value(env_views(env@), key@),
{
    let ghost ev = env_views(env@);
    let mut i: usize = env.len();
    assert(ev.take(i as int) =~= ev);
    while i > 0
        invariant
            i <= env.len(),
            ev == env_views(env@),
            env_value(ev, key@) == env_value(ev.take(i as int), key@),
        decreases i,
    {
        assert(ev.take(i as int).drop_last() =~= ev.take(i - 1));
        assert(ev.take(i as int).last() == (env@[i - 1].0@, env@[i - 1].1@));
        if str_eq(env[i - 1].0.as_str(), key) {
            return env[i - 1].1.clone();
        }
        i -= 1;
    }
    String::new()
}

/// What command lines expand against: the repository root for `<root>`
/// and the environment for `$VAR`.
pub struct CmdCtx {
    pub repo_root: String,
    pub env: Vec<(String, String)>,
}

impl CmdCtx {
    /// A context with the given root and environment.
    pub fn with_env(repo_root: &str, env: Vec<(String, String)>) -> (c: Self)
        ensures
            c.repo_root@ == repo_root@,
            c.env@ == env@,
    {
        CmdCtx { repo_root: repo_root.to_string(), env }
    }
}

// ---------------------------------------------------------------------------
// `<root>` and `$VAR`
// ---------------------------------------------------------------------------

/// `str::replace`: each occurrence of `pat` in `s`, taken left to right
/// without overlap, replaced by `to`.
pub open spec fn replaced(s: Seq<char>, pat: Seq<char>, to: Seq<char>) -> Seq<char>
    recommends
        pat.len() > 0,
    decreases s.len(),
{
    if s.len() == 0 || pat.len() == 0 {
        s
    } else if s.len() >= pat.len() && s.take(pat.len() as int) == pat {
        to + replaced(s.skip(pat.len() as int), pat, to)
    } else {
        seq![s[0]] + replaced(s.skip(1), pat, to)
    }
}

/// `<root>`.
pub open spec fn root_marker() -> Seq<char> {
    seq!['<', 'r', 'o', 'o', 't', '>']
}

/// Replaces each `<root>` in `s` by `root`.
pub fn replace_root(s: &str, root: &str) -> (r: String)
    ensures
        r@ == replaced(s@, root_marker(), root@),
{
    let cs = chars_of(s);
    let pat = vec!['<', 'r', 'o', 'o', 't', '>'];
    assert(pat@ =~= root_marker());
    let mut out: Vec<char> = Vec::new();
    let mut i: usize = 0;
    assert(cs@.skip(0) =~= cs@);
    while i < cs.len()
        invariant
            i <= cs.len(),
            cs@ == s@,
            pat@ == root_marker(),
            out@ + replaced(cs@.skip(i as int), root_marker(), root@) == replaced(s@, root_marker(), root@),
        decreases cs.len() - i,
    {
        let ghost rest = cs@.skip(i as int);
        let mut m = cs.len() - i >= 6;
        let mut k: usize = 0;
        while m && k < 6
            invariant
                k <= 6,
                i + 6 <= cs.len() || !m,
                m ==> forall|q: int| 0 <= q < k ==> cs@[i + q] == pat@[q],
                !m ==> !(rest.len() >= 6 && rest.take(6) == root_marker()),
                rest == cs@.skip(i as int),
                pat@ == root_marker(),
            decreases 6 - k,
        {
            if cs[i + k] != pat[k] {
                assert(rest.take(6)[k as int] == cs@[i + k]);
                m = false;
            }
            k += 1;
        }
        if m {
            assert(rest.take(6) =~= root_marker());
            let ghost before = out@;
            push_str_chars(&mut out, root);
            assert(rest.skip(6) =~= cs@.skip(i + 6));
            assert(out@ + replaced(cs@.skip(i + 6), root_marker(), root@) =~= before + replaced(rest, root_marker(), root@));
            i += 6;
        } else {
            let ghost before = out@;
            out.push(cs[i]);
            assert(rest.skip(1) =~= cs@.skip(i + 1));
            assert(rest[0] == cs@[i as int]);
            assert(out@ + replaced(cs@.skip(i + 1), root_marker(), root@) =~= before + replaced(rest, root_marker(), root@));
            i += 1;
        }
    }
    assert(cs@.skip(i as int) =~= Seq::<char>::empty());
    assert(out@ + Seq::<char>::empty() =~= out@);
    string_from_chars(out.as_slice())
}

/// A character that may start a variable name: an ASCII letter or `_`.
pub open spec fn is_name_start(c: char) -> bool {
    is_ascii_alpha(c) || c == '_'
}

/// A character that may continue a variable name: also an ASCII digit.
pub open spec fn is_name_char(c: char) -> bool {
    is_name_start(c) || is_ascii_digit(c)
}

/// Where the run of name characters that starts at `k` ends.
pub open spec fn name_end(s: Seq<char>, k: int) -> int
    decreases s.len() - k,
{
    if 0 <= k < s.len() && is_name_char(s[k]) {
        name_end(s, k + 1)
    } else {
        k
    }
}

pub proof fn lemma_name_end_bounds(s: Seq<char>, k: int)
    requires
        0 <= k,
    ensures
        k <= name_end(s, k),
        k <= s.len() ==> name_end(s, k) <= s.len(),
        forall|j: int| k <= j < name_end(s, k) ==> is_name_char(#[trigger] s[j]),
        name_end(s, k) < s.len() ==> !is_name_char(s[name_end(s, k)]),
    decreases s.len() - k,
{
    if k < s.len() && is_name_char(s[k]) {
        lemma_name_end_bounds(s, k + 1);
    }
}

/// `$VAR` expansion of `s` from position `k` on: scanning left to right, a
/// `$` followed by a name (`[A-Za-z_][A-Za-z0-9_]*`, as long as it goes) is
/// replaced by the variable's value in `env` (empty when unset); any other
/// character is kept.
pub open spec fn expand_vars_from(s: Seq<char>, env: Seq<(Seq<char>, Seq<char>)>, k: int) -> Seq<char>
    decreases s.len() - k,
{
    if k < 0 || k >= s.len() {
        Seq::empty()
    } else if s[k] == '$' && k + 1 < s.len() && is_name_start(s[k + 1]) {
        proof {
            lemma_name_end_bounds(s, k + 1);
        }
        let e = name_end(s, k + 1);
        env_value(env, s.subrange(k + 1, e)) + expand_vars_from(s, env, e)
    } else {
        seq![s[k]] + expand_vars_from(s, env, k + 1)
    }
}

/// What `$VAR` expansion makes of `input` with environment `env`: each
/// `$` followed by a variable name replaced by the variable's value, empty
/// when unset (the matches of `\$([A-Za-z_][A-Za-z0-9_]*)`, leftmost first).
pub open spec fn vars_expanded(input: Seq<char>, env: Seq<(Seq<char>, Seq<char>)>) -> Seq<char> {
    expand_vars_from(input, env, 0)
}

/// Text without a `$` comes back from expansion unchanged.
pub proof fn lemma_no_dollar_unchanged(s: Seq<char>, env: Seq<(Seq<char>, Seq<char>)>, k: int)
    requires
        0 <= k <= s.len(),
        !s.contains('$'),
    ensures
        expand_vars_from(s, env, k) == s.skip(k),
    decreases s.len() - k,
{
    if k < s.len() {
        assert(s[k] != '$');
        lemma_no_dollar_unchanged(s, env, k + 1);
        assert(s.skip(k) =~= seq![s[k]] + s.skip(k + 1));
    } else {
        assert(s.skip(k) =~= Seq::<char>::empty());
    }
}

/// Expands `$VAR` references with the `regex` crate: `Regex::replace_all`
/// with the pattern `\$([A-Za-z_][A-Za-z0-9_]*)` (leftmost, non-overlapping,
/// each name as long as it goes), each match replaced by `env_get` of its
/// name. The contract claims that this is `vars_expanded`.
#[verifier::external_body]
fn regex_expand_vars(input: &str, env: &[(String, String)]) -> (r: String)
    ensures
        r@ == vars_expanded(input@, env_views(env@)),
{
    let re = regex::Regex::new(r"\$([A-Za-z_][A-Za-z0-9_]*)").expect("valid var regex");
    re.replace_all(input, |caps: &regex::Captures| env_get(env, &caps[1])).to_string()
}

/// The views of a sequence of strings.
pub open spec fn string_views(v: Seq<String>) -> Seq<Seq<char>> {
    v.map_values(|s: String| s@)
}

/// Expands the `$VAR` references of each argument.
pub fn expand_vars_in_argv(argv: &[String], env: &[(String, String)]) -> (r: Vec<String>)
    ensures
        r@.len() == argv@.len(),
        forall|i: int| 0 <= i < argv@.len() ==> #[trigger] r@[i]@ == vars_expanded(argv@[i]@, env_views(env@)),
{
    let mut out: Vec<String> = Vec::new();
    let mut i: usize = 0;
    while i < argv.len()
        invariant
            i <= argv.len(),
            out@.len() == i,
            forall|k: int| 0 <= k < i ==> #[trigger] out@[k]@ == vars_expanded(argv@[k]@, env_views(env@)),
        decreases argv.len() - i,
    {
        out.push(regex_expand_vars(argv[i].as_str(), env));
        i += 1;
    }
    out
}

/// Expands each argument: `<root>` becomes the repository root, then each
/// `$VAR` the variable's value (empty when unset).
pub fn expand_argv(argv: &[String], ctx: &CmdCtx) -> (r: Vec<String>)
    ensures
        r@.len() == argv@.len(),
        forall|i: int| 0 <= i < argv@.len() ==> #[trigger] r@[i]@ == vars_expanded(
            replaced(argv@[i]@, root_marker(), ctx.repo_root@),
            env_views(ctx.env@),
        ),
{
    let mut out: Vec<String> = Vec::new();
    let mut i: usize = 0;
    while i < argv.len()
        invariant
            i <= argv.len(),
            out@.len() == i,
            forall|k: int| 0 <= k < i ==> #[trigger] out@[k]@ == vars_expanded(
                replaced(argv@[k]@, root_marker(), ctx.repo_root@),
                env_views(ctx.env@),
            ),
        decreases argv.len() - i,
    {
        let with_root = replace_root(argv[i].as_str(), ctx.repo_root.as_str());
        out.push(regex_expand_vars(with_root.as_str(), ctx.env.as_slice()));
        i += 1;
    }
    out
}

// ---------------------------------------------------------------------------
// Commands
// ---------------------------------------------------------------------------

/// A command to run: program, arguments, working directory and extra
/// environment.
#[derive(Debug, PartialEq, Eq)]
pub struct Command {
    pub program: String,
    pub args: Vec<String>,
    pub cwd: String,
    pub env: Vec<(String, String)>,
}

/// Why a command line could not be used.
#[derive(Debug, Clone, Copy, PartialEq, Eq, Structural)]
pub enum CommandError {
    /// The command line has no words.
    Empty,
    /// The program is blank.
    EmptyProgram,
    /// The agent has no command line.
    AgentNotDefined,
}

impl CommandError {
    /// The error message.
    pub fn message(&self) -> (m: String)
        ensures
            *self == CommandError::Empty ==> m@ == "command is empty"@,
            *self == CommandError::EmptyProgram ==> m@ == "command program is empty"@,
            *self == CommandError::AgentNotDefined ==> m@ == "agent command not defined"@,
    {
        match self {
            CommandError::Empty => "command is empty".to_string(),
            CommandError::EmptyProgram => "command program is empty".to_string(),
            CommandError::AgentNotDefined => "agent command not defined".to_string(),
        }
    }
}

impl Command {
    /// A command from a command line run in `cwd`: the first word is the
    /// program, the rest its arguments. Fails on an empty line or a blank
    /// program.
    pub fn new(argv: &[String], cwd: &str) -> (r: Result<Command, CommandError>)
        ensures
            argv@.len() == 0 ==> r == Err::<Command, CommandError>(CommandError::Empty),
            argv@.len() > 0 && trim_spec(argv@[0]@).len() == 0 ==> r == Err::<Command, CommandError>(CommandError::EmptyProgram),
            argv@.len() > 0 && trim_spec(argv@[0]@).len() > 0 ==> (r matches Ok(c) && c.program == argv@[0]
                && c.args@ == argv@.skip(1) && c.cwd@ == cwd@ && c.env@.len() == 0),
    {
        if argv.len() == 0 {
            return Err(CommandError::Empty);
        }
        let program = argv[0].clone();
        let t = trim_str(program.as_str());
        if t.as_str().is_empty() {
            return Err(CommandError::EmptyProgram);
        }
        let mut args: Vec<String> = Vec::new();
        let mut i: usize = 1;
        while i < argv.len()
            invariant
                1 <= i <= argv.len(),
                args@ == argv@.subrange(1, i as int),
            decreases argv.len() - i,
        {
            args.push(argv[i].clone());
            assert(args@ =~= argv@.subrange(1, i + 1));
            i += 1;
        }
        assert(args@ =~= argv@.skip(1));
        Ok(Command { program, args, cwd: cwd.to_string(), env: Vec::new() })
    }
}

impl AgentConfig {
    /// The command of an agent named `name`, run in `cwd`; fails when the
    /// agent has no command line or its program is blank.
    pub fn get_cmd(&self, name: &str, cwd: &str) -> (r: Result<Command, CommandError>)
        ensures
            self.cmd@.len() == 0 ==> r == Err::<Command, CommandError>(CommandError::AgentNotDefined),
            self.cmd@.len() > 0 && trim_spec(self.cmd@[0]@).len() == 0 ==> r == Err::<Command, CommandError>(CommandError::EmptyProgram),
            self.cmd@.len() > 0 && trim_spec(self.cmd@[0]@).len() > 0 ==> (r matches Ok(c) && c.program == self.cmd@[0]
                && c.args@ == self.cmd@.skip(1) && c.cwd@ == cwd@),
    {
        if self.cmd.len() == 0 {
            return Err(CommandError::AgentNotDefined);
        }
        Command::new(self.cmd.as_slice(), cwd)
    }
}

/// The program and arguments of an expanded agent command line; `None`
/// when the line is empty.
pub fn split_program(argv: &[String]) -> (r: Option<(String, Vec<String>)>)
    ensures
        argv@.len() == 0 ==> r is None,
        argv@.len() > 0 ==> (r matches Some((p, a)) && p == argv@[0] && a@ == argv@.skip(1)),
{
    if argv.len() == 0 {
        return None;
    }
    let mut args: Vec<String> = Vec::new();
    let mut i: usize = 1;
    while i < argv.len()
        invariant
            1 <= i <= argv.len(),
            args@ == argv@.subrange(1, i as int),
        decreases argv.len() - i,
    {
        args.push(argv[i].clone());
        assert(args@ =~= argv@.subrange(1, i + 1));
        i += 1;
    }
    assert(args@ =~= argv@.skip(1));
    Some((argv[0].clone(), args))
}

} // verus!
