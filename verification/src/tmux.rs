//! The tmux side of sessions: session names, the socket and its command
//! arguments, shell escaping, the UI options set on the server, and reading
//! the detach key binding and prefix from tmux output.
use vstd::prelude::*;
use crate::split::{chars_eq, contains_chars, contains_seq, lines, lines_of, trim_spec, trim_str, words, words_of};
use crate::task::copy_chars;
use crate::text::{chars_of, decimal, join_path, parse_u32, parse_u32_spec, path_join, push_decimal, push_str_chars, string_from_chars};

verus! {

// ---------------------------------------------------------------------------
// Session names
// ---------------------------------------------------------------------------

/// `agency-`.
pub open spec fn session_prefix() -> Seq<char> {
    seq!['a', 'g', 'e', 'n', 'c', 'y', '-']
}

/// The tmux session of a task: `agency-<id>-<slug>`.
pub open spec fn session_name_spec(id: u32, slug: Seq<char>) -> Seq<char> {
    session_prefix() + decimal(id as nat) + seq!['-'] + slug
}

/// The tmux session name of a task: `agency-<id>-<slug>`.
pub fn session_name(task_id: u32, slug: &str) -> (r: String)
    ensures
        r@ == session_name_spec(task_id, slug@),
{
    let mut out: Vec<char> = Vec::new();
    push_str_chars(&mut out, "agency-");
    proof {
        reveal_strlit("agency-");
    }
    push_decimal(&mut out, task_id as u64);
    out.push('-');
    push_str_chars(&mut out, slug);
    assert(out@ =~= session_name_spec(task_id, slug@));
    string_from_chars(out.as_slice())
}

/// The position of the first `-` in `s`, or -1.
pub open spec fn first_dash(s: Seq<char>, k: int) -> int
    decreases s.len() - k,
{
    if k < 0 || k >= s.len() {
        -1
    } else if s[k] == '-' {
        k
    } else {
        first_dash(s, k + 1)
    }
}

/// Reads a session name back: `agency-`, a `u32`, `-`, then the slug (the
/// id part ends at the first `-` after the prefix).
pub open spec fn parse_session_name_spec(name: Seq<char>) -> Option<(u32, Seq<char>)> {
    if name.len() >= 7 && name.take(7) == session_prefix() {
        let rest = name.skip(7);
        let d = first_dash(rest, 0);
        if d >= 0 {
            match parse_u32_spec(rest.take(d)) {
                Some(id) => Some((id, rest.skip(d + 1))),
                None => None,
            }
        } else {
            None
        }
    } else {
        None
    }
}

/// Reads a session name back into the task id and slug.
pub fn parse_session_name(name: &str) -> (r: Option<(u32, String)>)
    ensures
        match r {
            Some((id, slug)) => parse_session_name_spec(name@) == Some((id, slug@)),
            None => parse_session_name_spec(name@) is None,
        },
{
    let cs = chars_of(name);
    let n = cs.len();
    if n < 7 || cs[0] != 'a' || cs[1] != 'g' || cs[2] != 'e' || cs[3] != 'n' || cs[4] != 'c' || cs[5] != 'y' || cs[6] != '-' {
        proof {
            if n >= 7 && name@.take(7) == session_prefix() {
                assert(name@.take(7)[0] == 'a' && name@.take(7)[1] == 'g' && name@.take(7)[2] == 'e');
                assert(name@.take(7)[3] == 'n' && name@.take(7)[4] == 'c' && name@.take(7)[5] == 'y');
                assert(name@.take(7)[6] == '-');
            }
        }
        return None;
    }
    assert(name@.take(7) =~= session_prefix());
    let rest = copy_chars(cs.as_slice(), 7, n);
    assert(rest@ =~= name@.skip(7));
    let mut d: usize = 0;
    while d < rest.len() && rest[d] != '-'
        invariant
            d <= rest.len(),
            first_dash(rest@, 0) == first_dash(rest@, d as int),
        decreases rest.len() - d,
    {
        d += 1;
    }
    if d >= rest.len() {
        return None;
    }
    let id_part = copy_chars(rest.as_slice(), 0, d);
    assert(id_part@ =~= rest@.take(d as int));
    match parse_u32(id_part.as_slice()) {
        Some(id) => {
            let slug = copy_chars(rest.as_slice(), d + 1, rest.len());
            assert(slug@ =~= rest@.skip(d + 1));
            Some((id, string_from_chars(slug.as_slice())))
        },
        None => None,
    }
}

proof fn lemma_first_dash_decimal(s: Seq<char>, d: Seq<char>, k: int)
    requires
        0 <= k <= d.len(),
        crate::text::all_ascii_digits(d),
        s.len() > d.len(),
        s.take(d.len() as int) == d,
        s[d.len() as int] == '-',
    ensures
        first_dash(s, k) == d.len(),
    decreases d.len() - k,
{
    if k < d.len() {
        assert(s[k] == d[k]);
        assert(crate::text::is_ascii_digit(d[k]));
        lemma_first_dash_decimal(s, d, k + 1);
    }
}

/// Session names read back as the task they name, whatever the slug.
pub proof fn lemma_session_name_roundtrip(id: u32, slug: Seq<char>)
    ensures
        parse_session_name_spec(session_name_spec(id, slug)) == Some((id, slug)),
{
    let name = session_name_spec(id, slug);
    let d = decimal(id as nat);
    crate::text::lemma_decimal_digits(id as nat);
    assert(name.take(7) =~= session_prefix());
    let rest = name.skip(7);
    assert(rest =~= d + seq!['-'] + slug);
    assert(rest.take(d.len() as int) =~= d);
    assert(rest[d.len() as int] == '-');
    lemma_first_dash_decimal(rest, d, 0);
    assert(rest.skip(d.len() as int + 1) =~= slug);
    assert(crate::text::unsigned_digits(d) == d);
}

// ---------------------------------------------------------------------------
// Socket and arguments
// ---------------------------------------------------------------------------

/// Where the tmux socket is: the override from the environment, else the
/// configured path, else `agency-tmux.sock` in the runtime directory, else
/// `.local/run/agency-tmux.sock` under the home directory (`.` when unknown).
pub open spec fn socket_path_spec(
    env_override: Option<Seq<char>>,
    configured: Option<Seq<char>>,
    runtime_dir: Option<Seq<char>>,
    home: Option<Seq<char>>,
) -> Seq<char> {
    match env_override {
        Some(p) => p,
        None => match configured {
            Some(p) => p,
            None => match runtime_dir {
                Some(r) => path_join(r, seq!['a', 'g', 'e', 'n', 'c', 'y', '-', 't', 'm', 'u', 'x', '.', 's', 'o', 'c', 'k']),
                None => path_join(
                    match home {
                        Some(h) => h,
                        None => seq!['.'],
                    },
                    seq!['.', 'l', 'o', 'c', 'a', 'l', '/', 'r', 'u', 'n', '/', 'a', 'g', 'e', 'n', 'c', 'y', '-', 't', 'm', 'u', 'x', '.', 's', 'o', 'c', 'k'],
                ),
            },
        },
    }
}

/// The views of optional strings.
pub open spec fn opt_view(o: Option<&str>) -> Option<Seq<char>> {
    match o {
        Some(s) => Some(s@),
        None => None,
    }
}

/// Picks the tmux socket path from what the environment and configuration
/// say.
pub fn tmux_socket_path(env_override: Option<&str>, configured: Option<&str>, runtime_dir: Option<&str>, home: Option<&str>) -> (r: String)
    ensures
        r@ == socket_path_spec(opt_view(env_override), opt_view(configured), opt_view(runtime_dir), opt_view(home)),
{
    proof {
        reveal_strlit("agency-tmux.sock");
        reveal_strlit(".local/run/agency-tmux.sock");
        reveal_strlit(".");
    }
    match env_override {
        Some(p) => p.to_string(),
        None => match configured {
            Some(p) => p.to_string(),
            None => match runtime_dir {
                Some(r) => join_path(r, "agency-tmux.sock"),
                None => match home {
                    Some(h) => join_path(h, ".local/run/agency-tmux.sock"),
                    None => join_path(".", ".local/run/agency-tmux.sock"),
                },
            },
        },
    }
}

/// The arguments that select the socket: `-S <socket>`.
pub fn tmux_args_base(socket: &str) -> (r: Vec<String>)
    ensures
        r@.len() == 2,
        r@[0]@ == seq!['-', 'S'],
        r@[1]@ == socket@,
{
    proof {
        reveal_strlit("-S");
    }
    let mut v: Vec<String> = Vec::new();
    v.push("-S".to_string());
    v.push(socket.to_string());
    v
}

/// Quoting of one character for a shell command: `\` and `"` get a
/// backslash, `'` becomes `'\''`.
pub open spec fn escape_char(c: char) -> Seq<char> {
    if c == '\\' {
        seq!['\\', '\\']
    } else if c == '"' {
        seq!['\\', '"']
    } else if c == '\'' {
        seq!['\'', '\\', '\'', '\'']
    } else {
        seq![c]
    }
}

/// Each character of `s` quoted.
pub open spec fn escaped(s: Seq<char>) -> Seq<char>
    decreases s.len(),
{
    if s.len() == 0 {
        Seq::empty()
    } else {
        escaped(s.drop_last()) + escape_char(s.last())
    }
}

/// Escapes a path for use inside shell commands.
pub fn shell_escape(path: &str) -> (r: String)
    ensures
        r@ == escaped(path@),
{
    let cs = chars_of(path);
    let mut out: Vec<char> = Vec::new();
    let mut i: usize = 0;
    while i < cs.len()
        invariant
            i <= cs.len(),
            cs@ == path@,
            out@ == escaped(cs@.take(i as int)),
        decreases cs.len() - i,
    {
        let c = cs[i];
        assert(cs@.take(i + 1).drop_last() =~= cs@.take(i as int));
        let ghost before = out@;
        if c == '\\' {
            out.push('\\');
            out.push('\\');
        } else if c == '"' {
            out.push('\\');
            out.push('"');
        } else if c == '\'' {
            out.push('\'');
            out.push('\\');
            out.push('\'');
            out.push('\'');
        } else {
            out.push(c);
        }
        assert(out@ =~= before + escape_char(c));
        i += 1;
    }
    assert(cs@.take(cs.len() as int) =~= cs@);
    string_from_chars(out.as_slice())
}

/// The file whose age tells whether a session is idle:
/// `<root>/.agency/state/tmux-activity/<session>.stamp`.
pub fn activity_stamp_path(project_root: &str, session_name: &str) -> (r: String)
    ensures
        r@ == path_join(
            path_join(path_join(path_join(project_root@, seq!['.', 'a', 'g', 'e', 'n', 'c', 'y']), seq!['s', 't', 'a', 't', 'e']),
                seq!['t', 'm', 'u', 'x', '-', 'a', 'c', 't', 'i', 'v', 'i', 't', 'y']),
            session_name@ + seq!['.', 's', 't', 'a', 'm', 'p'],
        ),
{
    proof {
        reveal_strlit(".agency");
        reveal_strlit("state");
        reveal_strlit("tmux-activity");
        reveal_strlit(".stamp");
    }
    let a = join_path(project_root, ".agency");
    let b = join_path(a.as_str(), "state");
    let c = join_path(b.as_str(), "tmux-activity");
    let mut f: Vec<char> = Vec::new();
    push_str_chars(&mut f, session_name);
    push_str_chars(&mut f, ".stamp");
    let file = string_from_chars(f.as_slice());
    join_path(c.as_str(), file.as_str())
}

/// The global options the tool sets on its tmux server, in order: mouse
/// support, border, message, mode, popup and pane-number colours, and the
/// scrollbar options.
pub fn ui_default_options() -> (r: Vec<(String, String)>)
    ensures
        r@.len() == 12,
        r@[0].0@ == "mouse"@ && r@[0].1@ == "on"@,
        r@[1].0@ == "pane-border-style"@ && r@[1].1@ == "fg=colour238"@,
        r@[2].0@ == "pane-active-border-style"@ && r@[2].1@ == "fg=colour39"@,
        r@[3].0@ == "escape-time"@ && r@[3].1@ == "0"@,
        r@[4].0@ == "message-style"@ && r@[4].1@ == "fg=colour255,bg=colour24"@,
        r@[5].0@ == "message-command-style"@ && r@[5].1@ == "fg=colour255,bg=colour24"@,
        r@[6].0@ == "mode-style"@ && r@[6].1@ == "fg=colour255,bg=colour24"@,
        r@[7].0@ == "popup-style"@ && r@[7].1@ == "fg=colour255,bg=colour24"@,
        r@[8].0@ == "display-panes-colour"@ && r@[8].1@ == "colour238"@,
        r@[9].0@ == "display-panes-active-colour"@ && r@[9].1@ == "colour39"@,
        r@[10].0@ == "@scrollbar"@ && r@[10].1@ == "on"@,
        r@[11].0@ == "@scrollbar-style"@ && r@[11].1@ == "fg=colour39,bg=colour24"@,
{
    let mut v: Vec<(String, String)> = Vec::new();
    v.push(("mouse".to_string(), "on".to_string()));
    v.push(("pane-border-style".to_string(), "fg=colour238".to_string()));
    v.push(("pane-active-border-style".to_string(), "fg=colour39".to_string()));
    v.push(("escape-time".to_string(), "0".to_string()));
    v.push(("message-style".to_string(), "fg=colour255,bg=colour24".to_string()));
    v.push(("message-command-style".to_string(), "fg=colour255,bg=colour24".to_string()));
    v.push(("mode-style".to_string(), "fg=colour255,bg=colour24".to_string()));
    v.push(("popup-style".to_string(), "fg=colour255,bg=colour24".to_string()));
    v.push(("display-panes-colour".to_string(), "colour238".to_string()));
    v.push(("display-panes-active-colour".to_string(), "colour39".to_string()));
    v.push(("@scrollbar".to_string(), "on".to_string()));
    v.push(("@scrollbar-style".to_string(), "fg=colour39,bg=colour24".to_string()));
    v
}

// ---------------------------------------------------------------------------
// Prefix and detach binding
// ---------------------------------------------------------------------------

/// The prefix key: the `prefix` option, else `prefix2`, else `C-b` (each
/// trimmed; an empty value does not count).
pub open spec fn prefix_spec(prefix: Seq<char>, prefix2: Seq<char>) -> Seq<char> {
    if trim_spec(prefix).len() > 0 {
        trim_spec(prefix)
    } else if trim_spec(prefix2).len() > 0 {
        trim_spec(prefix2)
    } else {
        seq!['C', '-', 'b']
    }
}

/// The prefix key from the values of the `prefix` and `prefix2` options.
pub fn read_tmux_prefix(prefix: &str, prefix2: &str) -> (r: String)
    ensures
        r@ == prefix_spec(prefix@, prefix2@),
{
    let p = trim_str(prefix);
    if !p.as_str().is_empty() {
        return p;
    }
    let p2 = trim_str(prefix2);
    if !p2.as_str().is_empty() {
        return p2;
    }
    proof {
        reveal_strlit("C-b");
    }
    assert("C-b"@ =~= seq!['C', '-', 'b']);
    "C-b".to_string()
}

/// How detaching from a session is bound.
#[derive(Debug, PartialEq, Eq)]
pub enum DetachBinding {
    /// Pressed after the prefix key.
    WithPrefix { key: String },
    /// Pressed on its own.
    Prefixless { key: String },
    /// Not bound.
    Unbound,
}

/// `detach-client`.
pub open spec fn detach_word() -> Seq<char> {
    seq!['d', 'e', 't', 'a', 'c', 'h', '-', 'c', 'l', 'i', 'e', 'n', 't']
}

/// Where the search for `-T prefix` leaves off in `tokens` from `i`: just
/// after the first such pair, else at the last token.
pub open spec fn after_prefix_table(tokens: Seq<Seq<char>>, i: int) -> int
    decreases tokens.len() - i,
{
    if i + 1 < tokens.len() {
        if tokens[i] == seq!['-', 'T'] && tokens[i + 1] == seq!['p', 'r', 'e', 'f', 'i', 'x'] {
            i + 2
        } else {
            after_prefix_table(tokens, i + 1)
        }
    } else {
        i
    }
}

/// The first token from `i` on that does not start with `-`.
pub open spec fn skip_flags(tokens: Seq<Seq<char>>, i: int) -> int
    decreases tokens.len() - i,
{
    if 0 <= i < tokens.len() && tokens[i].len() > 0 && tokens[i][0] == '-' {
        skip_flags(tokens, i + 1)
    } else {
        i
    }
}

/// The key a `bind-key -T prefix [flags] <key> ...` line binds.
pub open spec fn prefix_key(tokens: Seq<Seq<char>>) -> Option<Seq<char>> {
    let i = after_prefix_table(tokens, 0);
    if i >= tokens.len() {
        None
    } else {
        let j = skip_flags(tokens, i);
        if j < tokens.len() { Some(tokens[j]) } else { None }
    }
}

/// The key after the first `-n` flag, from token `i` on.
pub open spec fn prefixless_key(tokens: Seq<Seq<char>>, i: int) -> Option<Seq<char>>
    decreases tokens.len() - i,
{
    if 0 <= i < tokens.len() {
        if tokens[i] == seq!['-', 'n'] && i + 1 < tokens.len() {
            Some(tokens[i + 1])
        } else {
            prefixless_key(tokens, i + 1)
        }
    } else {
        None
    }
}

/// The first key bound to detaching in the prefix table listing, from line
/// `k` on.
pub open spec fn first_prefix_key(ls: Seq<Seq<char>>, k: int) -> Option<Seq<char>>
    decreases ls.len() - k,
{
    if k < 0 || k >= ls.len() {
        None
    } else if contains_seq(ls[k], detach_word()) && prefix_key(words_of(ls[k])) is Some {
        prefix_key(words_of(ls[k]))
    } else {
        first_prefix_key(ls, k + 1)
    }
}

/// The first key bound to detaching without prefix in the global listing,
/// from line `k` on.
pub open spec fn first_prefixless_key(ls: Seq<Seq<char>>, k: int) -> Option<Seq<char>>
    decreases ls.len() - k,
{
    if k < 0 || k >= ls.len() {
        None
    } else if contains_seq(ls[k], detach_word()) && prefixless_key(words_of(ls[k]), 0) is Some {
        prefixless_key(words_of(ls[k]), 0)
    } else {
        first_prefixless_key(ls, k + 1)
    }
}

/// The detach binding read from the key listings: a prefix-table binding
/// wins over a prefixless one.
pub open spec fn detach_binding_spec(prefix_output: Seq<char>, global_output: Seq<char>) -> (u8, Seq<char>) {
    match first_prefix_key(lines_of(prefix_output), 0) {
        Some(k) => (0, k),
        None => match first_prefixless_key(lines_of(global_output), 0) {
            Some(k) => (1, k),
            None => (2, Seq::empty()),
        },
    }
}

/// The binding as a tag (0 with prefix, 1 prefixless, 2 unbound) and key.
pub open spec fn binding_view(b: DetachBinding) -> (u8, Seq<char>) {
    match b {
        DetachBinding::WithPrefix { key } => (0, key@),
        DetachBinding::Prefixless { key } => (1, key@),
        DetachBinding::Unbound => (2, Seq::empty()),
    }
}

fn token_is(t: &Vec<char>, a: char, b: char) -> (r: bool)
    ensures
        r == (t@ == seq![a, b]),
{
    if t.len() == 2 && t[0] == a && t[1] == b {
        assert(t@ =~= seq![a, b]);
        true
    } else {
        false
    }
}

fn prefix_key_exec(tokens: &Vec<Vec<char>>) -> (r: Option<usize>)
    ensures
        match r {
            Some(j) => j < tokens@.len() && prefix_key(crate::split::char_vec_views(tokens@)) == Some(tokens@[j as int]@),
            None => prefix_key(crate::split::char_vec_views(tokens@)) is None,
        },
{
    let ghost tv = crate::split::char_vec_views(tokens@);
    let prefix_word = vec!['p', 'r', 'e', 'f', 'i', 'x'];
    assert(prefix_word@ =~= seq!['p', 'r', 'e', 'f', 'i', 'x']);
    let mut i: usize = 0;
    let mut found = false;
    while tokens.len() > 0 && i < tokens.len() - 1 && !found
        invariant
            tv == crate::split::char_vec_views(tokens@),
            tv.len() == tokens@.len(),
            prefix_word@ == seq!['p', 'r', 'e', 'f', 'i', 'x'],
            !found ==> after_prefix_table(tv, 0) == after_prefix_table(tv, i as int),
            found ==> after_prefix_table(tv, 0) == i,
            i <= tokens.len(),
        decreases tokens.len() - i, (if found { 0int } else { 1int }),
    {
        assert(tv[i as int] == tokens@[i as int]@ && tv[i + 1] == tokens@[i + 1]@);
        let hit = token_is(&tokens[i], '-', 'T') && chars_eq(tokens[i + 1].as_slice(), prefix_word.as_slice());
        assert(hit == (tv[i as int] == seq!['-', 'T'] && tv[i + 1] == seq!['p', 'r', 'e', 'f', 'i', 'x']));
        assert(after_prefix_table(tv, i as int) == if hit { i + 2 } else { after_prefix_table(tv, i + 1) });
        if hit {
            i = i + 2;
            found = true;
        } else {
            i += 1;
        }
    }
    if i >= tokens.len() {
        return None;
    }
    let mut j = i;
    while j < tokens.len() && tokens[j].len() > 0 && tokens[j][0] == '-'
        invariant
            tv == crate::split::char_vec_views(tokens@),
            i <= j <= tokens.len(),
            skip_flags(tv, i as int) == skip_flags(tv, j as int),
        decreases tokens.len() - j,
    {
        assert(tv[j as int] == tokens@[j as int]@);
        j += 1;
    }
    if j < tokens.len() {
        assert(tv[j as int] == tokens@[j as int]@);
    }
    if j < tokens.len() { Some(j) } else { None }
}

fn prefixless_key_exec(tokens: &Vec<Vec<char>>) -> (r: Option<usize>)
    ensures
        match r {
            Some(j) => j < tokens@.len() && prefixless_key(crate::split::char_vec_views(tokens@), 0) == Some(tokens@[j as int]@),
            None => prefixless_key(crate::split::char_vec_views(tokens@), 0) is None,
        },
{
    let ghost tv = crate::split::char_vec_views(tokens@);
    let mut i: usize = 0;
    while i < tokens.len()
        invariant
            tv == crate::split::char_vec_views(tokens@),
            i <= tokens.len(),
            prefixless_key(tv, 0) == prefixless_key(tv, i as int),
        decreases tokens.len() - i,
    {
        assert(tv[i as int] == tokens@[i as int]@);
        if token_is(&tokens[i], '-', 'n') && i + 1 < tokens.len() {
            assert(tv[i + 1] == tokens@[i + 1]@);
            return Some(i + 1);
        }
        i += 1;
    }
    None
}

/// Reads the detach binding from the output of `tmux list-keys -T prefix`
/// and of `tmux list-keys`.
pub fn parse_detach_binding(prefix_output: &str, global_output: &str) -> (r: DetachBinding)
    ensures
        binding_view(r) == detach_binding_spec(prefix_output@, global_output@),
{
    let word = vec!['d', 'e', 't', 'a', 'c', 'h', '-', 'c', 'l', 'i', 'e', 'n', 't'];
    assert(word@ =~= detach_word());
    let pc = chars_of(prefix_output);
    let pls = lines(pc.as_slice());
    let ghost plv = crate::split::char_vec_views(pls@);
    let mut k: usize = 0;
    while k < pls.len()
        invariant
            plv == crate::split::char_vec_views(pls@),
            plv == lines_of(prefix_output@),
            word@ == detach_word(),
            k <= pls.len(),
            first_prefix_key(plv, 0) == first_prefix_key(plv, k as int),
        decreases pls.len() - k,
    {
        assert(plv[k as int] == pls@[k as int]@);
        if contains_chars(pls[k].as_slice(), word.as_slice()) {
            let toks = words(pls[k].as_slice());
            match prefix_key_exec(&toks) {
                Some(j) => {
                    let key = string_from_chars(toks[j].as_slice());
                    return DetachBinding::WithPrefix { key };
                },
                None => {},
            }
        }
        k += 1;
    }
    let gc = chars_of(global_output);
    let gls = lines(gc.as_slice());
    let ghost glv = crate::split::char_vec_views(gls@);
    let mut k: usize = 0;
    while k < gls.len()
        invariant
            glv == crate::split::char_vec_views(gls@),
            glv == lines_of(global_output@),
            first_prefix_key(lines_of(prefix_output@), 0) is None,
            word@ == detach_word(),
            k <= gls.len(),
            first_prefixless_key(glv, 0) == first_prefixless_key(glv, k as int),
        decreases gls.len() - k,
    {
        assert(glv[k as int] == gls@[k as int]@);
        if contains_chars(gls[k].as_slice(), word.as_slice()) {
            let toks = words(gls[k].as_slice());
            match prefixless_key_exec(&toks) {
                Some(j) => {
                    let key = string_from_chars(toks[j].as_slice());
                    return DetachBinding::Prefixless { key };
                },
                None => {},
            }
        }
        k += 1;
    }
    DetachBinding::Unbound
}

// ---------------------------------------------------------------------------
// Session listing
// ---------------------------------------------------------------------------

/// What one line of the session listing says of a session of this project.
pub struct SessionLine {
    /// The tmux session name.
    pub name: String,
    pub task_id: u32,
    pub slug: String,
    pub session_id: u64,
    /// Creation time in milliseconds.
    pub created_at_ms: u64,
    /// How many clients are attached.
    pub clients: u32,
}

/// A number field read as `str::parse`, 0 when it does not parse.
pub open spec fn parsed_or_zero(s: Seq<char>) -> u64 {
    match crate::text::parse_u64_spec(s) {
        Some(v) => v,
        None => 0,
    }
}

/// The creation time of a listing line fits in milliseconds: the line has
/// the fields, and its creation field read in seconds times 1000 is a `u64`.
pub open spec fn created_fits(line: Seq<char>) -> bool {
    let parts = crate::split::fields_of(line, '\t');
    parts.len() >= 5 ==> parsed_or_zero(parts[2]) * 1000 <= u64::MAX
}

/// Whether the creation time of a listing line fits in milliseconds, so
/// that `parse_session_line` can read it.
pub fn created_time_fits(line: &str) -> (r: bool)
    ensures
        r == created_fits(line@),
{
    let cs = chars_of(line);
    let parts = crate::split::split_fields(cs.as_slice(), '\t');
    let ghost pv = crate::split::char_vec_views(parts@);
    if parts.len() < 5 {
        return true;
    }
    assert(pv[2] == parts@[2]@);
    let created: u64 = match crate::text::parse_u64(parts[2].as_slice()) {
        Some(v) => v,
        None => 0,
    };
    created <= u64::MAX / 1000
}

/// Reads a line of `tmux list-sessions -F` with the fields session name,
/// session id (`$<n>`), creation time in seconds, project root and number
/// of attached clients, separated by tabs: `None` for a line with fewer
/// fields, of another project, or whose session name is not a task's.
pub open spec fn session_line_spec(line: Seq<char>, project_root: Seq<char>) -> Option<(u32, Seq<char>, u64, u64, u32)> {
    let parts = crate::split::fields_of(line, '\t');
    if parts.len() < 5 || parts[3] != project_root {
        None
    } else {
        match parse_session_name_spec(parts[0]) {
            None => None,
            Some((id, slug)) => Some((
                id,
                slug,
                parsed_or_zero(crate::split::strip_leading(parts[1], '$')),
                (parsed_or_zero(parts[2]) * 1000) as u64,
                match parse_u32_spec(parts[4]) {
                    Some(v) => v,
                    None => 0,
                },
            )),
        }
    }
}

/// Reads a line of the session listing for the project at `project_root`.
pub fn parse_session_line(line: &str, project_root: &str) -> (r: Option<SessionLine>)
    requires
        created_fits(line@),
    ensures
        match r {
            Some(l) => session_line_spec(line@, project_root@) == Some((l.task_id, l.slug@, l.session_id, l.created_at_ms, l.clients))
                && l.name@ == crate::split::fields_of(line@, '\t')[0],
            None => session_line_spec(line@, project_root@) is None,
        },
{
    let cs = chars_of(line);
    let parts = crate::split::split_fields(cs.as_slice(), '\t');
    let ghost pv = crate::split::char_vec_views(parts@);
    if parts.len() < 5 {
        return None;
    }
    assert(pv[3] == parts@[3]@ && pv[0] == parts@[0]@ && pv[1] == parts@[1]@ && pv[2] == parts@[2]@ && pv[4] == parts@[4]@);
    let root = chars_of(project_root);
    if !chars_eq(parts[3].as_slice(), root.as_slice()) {
        return None;
    }
    let name = string_from_chars(parts[0].as_slice());
    let (id, slug) = match parse_session_name(name.as_str()) {
        Some(p) => p,
        None => return None,
    };
    let sid_txt = crate::split::strip_leading_chars(parts[1].as_slice(), '$');
    let session_id: u64 = match crate::text::parse_u64(sid_txt.as_slice()) {
        Some(v) => v,
        None => 0,
    };
    let created: u64 = match crate::text::parse_u64(parts[2].as_slice()) {
        Some(v) => v,
        None => 0,
    };
    let clients: u32 = match parse_u32(parts[4].as_slice()) {
        Some(v) => v,
        None => 0,
    };
    Some(SessionLine { name, task_id: id, slug, session_id, created_at_ms: created * 1000, clients })
}

// ---------------------------------------------------------------------------
// A task's session: creation arguments and status bar
// ---------------------------------------------------------------------------

/// The `-e NAME=VALUE` flags that pass `env` to a new session, in order.
pub open spec fn env_flags(env: Seq<(String, String)>) -> Seq<Seq<char>>
    decreases env.len(),
{
    if env.len() == 0 {
        Seq::empty()
    } else {
        env_flags(env.drop_last()) + seq!["-e"@, env.last().0@ + "="@ + env.last().1@]
    }
}

/// The views of a list of strings.
pub open spec fn string_views(v: Seq<String>) -> Seq<Seq<char>> {
    v.map_values(|s: String| s@)
}

/// The arguments (after the socket arguments) of the `tmux new-session`
/// that starts a task's session detached: the environment flags, the
/// session name, the working directory, then the program and its arguments.
pub open spec fn new_session_args_spec(env: Seq<(String, String)>, name: Seq<char>, cwd: Seq<char>, program: Seq<char>, args: Seq<Seq<char>>) -> Seq<Seq<char>> {
    seq!["new-session"@] + env_flags(env) + seq!["-d"@, "-s"@, name, "-c"@, cwd, program] + args
}

fn push_string(out: &mut Vec<String>, s: &str)
    ensures
        string_views(final(out)@) == string_views(old(out)@).push(s@),
{
    out.push(s.to_string());
    assert(string_views(out@) =~= string_views(old(out)@).push(s@));
}

/// The `tmux new-session` arguments for a task's session.
pub fn new_session_args(env: &[(String, String)], name: &str, cwd: &str, program: &str, args: &[String]) -> (r: Vec<String>)
    ensures
        string_views(r@) == new_session_args_spec(env@, name@, cwd@, program@, string_views(args@)),
{
    let mut out: Vec<String> = Vec::new();
    push_string(&mut out, "new-session");
    let mut i: usize = 0;
    while i < env.len()
        invariant
            i <= env.len(),
            string_views(out@) == seq!["new-session"@] + env_flags(env@.take(i as int)),
        decreases env.len() - i,
    {
        let ghost before = string_views(out@);
        push_string(&mut out, "-e");
        let mut kv: Vec<char> = Vec::new();
        push_str_chars(&mut kv, env[i].0.as_str());
        push_str_chars(&mut kv, "=");
        push_str_chars(&mut kv, env[i].1.as_str());
        let flag = string_from_chars(kv.as_slice());
        push_string(&mut out, flag.as_str());
        assert(env@.take(i + 1).drop_last() =~= env@.take(i as int));
        assert(string_views(out@) =~= seq!["new-session"@] + env_flags(env@.take(i + 1)));
        i += 1;
    }
    assert(env@.take(env.len() as int) =~= env@);
    push_string(&mut out, "-d");
    push_string(&mut out, "-s");
    push_string(&mut out, name);
    push_string(&mut out, "-c");
    push_string(&mut out, cwd);
    push_string(&mut out, program);
    let ghost head = string_views(out@);
    let mut j: usize = 0;
    while j < args.len()
        invariant
            j <= args.len(),
            string_views(out@) == head + string_views(args@).take(j as int),
        decreases args.len() - j,
    {
        push_string(&mut out, args[j].as_str());
        assert(string_views(args@).take(j + 1) =~= string_views(args@).take(j as int).push(args@[j as int]@));
        j += 1;
    }
    assert(string_views(args@).take(args.len() as int) =~= string_views(args@));
    assert(string_views(out@) =~= new_session_args_spec(env@, name@, cwd@, program@, string_views(args@)));
    out
}

/// The right-hand status text that tells how to detach: the prefix and the
/// bound key, the key alone when it needs no prefix, or the prefix and `d`
/// when no key is bound.
pub open spec fn detach_hint_spec(prefix: Seq<char>, binding: DetachBinding) -> Seq<char> {
    match binding {
        DetachBinding::WithPrefix { key } => " Press "@ + prefix + "+"@ + key@ + " to detach "@,
        DetachBinding::Prefixless { key } => " Press "@ + key@ + " to detach "@,
        DetachBinding::Unbound => " Press "@ + prefix + "+d to detach "@,
    }
}

/// The detach hint shown at the right of a session's status bar.
pub fn detach_hint(prefix: &str, binding: &DetachBinding) -> (r: String)
    ensures
        r@ == detach_hint_spec(prefix@, *binding),
{
    let mut out: Vec<char> = Vec::new();
    push_str_chars(&mut out, " Press ");
    match binding {
        DetachBinding::WithPrefix { key } => {
            push_str_chars(&mut out, prefix);
            push_str_chars(&mut out, "+");
            push_str_chars(&mut out, key.as_str());
            push_str_chars(&mut out, " to detach ");
        },
        DetachBinding::Prefixless { key } => {
            push_str_chars(&mut out, key.as_str());
            push_str_chars(&mut out, " to detach ");
        },
        DetachBinding::Unbound => {
            push_str_chars(&mut out, prefix);
            push_str_chars(&mut out, "+d to detach ");
        },
    }
    assert(out@ =~= detach_hint_spec(prefix@, *binding));
    string_from_chars(out.as_slice())
}

/// The window title of a task's session: ` Task <slug> (Id: <id>) `.
pub open spec fn window_title_spec(id: u32, slug: Seq<char>) -> Seq<char> {
    " Task "@ + slug + " (Id: "@ + decimal(id as nat) + ") "@
}

/// The title shown for a task's window in the status bar.
pub fn window_title(task_id: u32, slug: &str) -> (r: String)
    ensures
        r@ == window_title_spec(task_id, slug@),
{
    let mut out: Vec<char> = Vec::new();
    push_str_chars(&mut out, " Task ");
    push_str_chars(&mut out, slug);
    push_str_chars(&mut out, " (Id: ");
    push_decimal(&mut out, task_id as u64);
    push_str_chars(&mut out, ") ");
    assert(out@ =~= window_title_spec(task_id, slug@));
    string_from_chars(out.as_slice())
}

/// The server's `default-terminal`: `$TERM` (given as `term_env`) unless it
/// is unset or blank, else `tmux-256color`.
pub fn default_terminal(term_env: Option<&str>) -> (r: String)
    ensures
        (term_env matches Some(t) && trim_spec(t@).len() > 0) ==> r@ == term_env->0@,
        !(term_env matches Some(t) && trim_spec(t@).len() > 0) ==> r@ == "tmux-256color"@,
{
    match term_env {
        Some(t) => {
            let trimmed = trim_str(t);
            if !trimmed.as_str().is_empty() {
                return t.to_string();
            }
        },
        None => {},
    }
    "tmux-256color".to_string()
}

/// The `terminal-features` entries appended for true colour, in order: the
/// default terminal's, then `tmux-256color`'s and `xterm-256color`'s.
pub fn truecolor_features(default_term: &str) -> (r: Vec<String>)
    ensures
        r@.len() == 3,
        r@[0]@ == ","@ + default_term@ + ":RGB"@,
        r@[1]@ == ",tmux-256color:RGB"@,
        r@[2]@ == ",xterm-256color:RGB"@,
{
    let mut first: Vec<char> = Vec::new();
    push_str_chars(&mut first, ",");
    push_str_chars(&mut first, default_term);
    push_str_chars(&mut first, ":RGB");
    let mut v: Vec<String> = Vec::new();
    v.push(string_from_chars(first.as_slice()));
    v.push(",tmux-256color:RGB".to_string());
    v.push(",xterm-256color:RGB".to_string());
    v
}

/// An option set on a task's session; `window` marks a window option.
pub struct SessionOption {
    pub window: bool,
    pub key: String,
    pub value: String,
}

/// Whether `o` sets `key` to `value`, as a window option when `window`.
pub open spec fn sets(o: SessionOption, window: bool, key: Seq<char>, value: Seq<char>) -> bool {
    o.window == window && o.key@ == key && o.value@ == value
}

/// The options set on a task's session once it runs, in order: it closes
/// when the agent exits; a status bar with ` Agency ` on the left, the
/// task's window title in the centre, `status_right` on the right; and the
/// project root, by which sessions are told apart.
pub fn session_options(task_id: u32, slug: &str, status_right: &str, project_root: &str) -> (r: Vec<SessionOption>)
    ensures
        r@.len() == 9,
        sets(r@[0], false, "remain-on-exit"@, "off"@),
        sets(r@[1], false, "status"@, "on"@),
        sets(r@[2], false, "status-style"@, "bg=default,fg=cyan"@),
        sets(r@[3], false, "status-left"@, " Agency "@),
        sets(r@[4], false, "status-justify"@, "centre"@),
        sets(r@[5], true, "window-status-format"@, " "@),
        sets(r@[6], true, "window-status-current-format"@, window_title_spec(task_id, slug@)),
        sets(r@[7], false, "status-right"@, status_right@),
        sets(r@[8], false, "@agency_root"@, project_root@),
{
    let mut v: Vec<SessionOption> = Vec::new();
    v.push(SessionOption { window: false, key: "remain-on-exit".to_string(), value: "off".to_string() });
    v.push(SessionOption { window: false, key: "status".to_string(), value: "on".to_string() });
    v.push(SessionOption { window: false, key: "status-style".to_string(), value: "bg=default,fg=cyan".to_string() });
    v.push(SessionOption { window: false, key: "status-left".to_string(), value: " Agency ".to_string() });
    v.push(SessionOption { window: false, key: "status-justify".to_string(), value: "centre".to_string() });
    v.push(SessionOption { window: true, key: "window-status-format".to_string(), value: " ".to_string() });
    v.push(SessionOption {
        window: true,
        key: "window-status-current-format".to_string(),
        value: window_title(task_id, slug),
    });
    v.push(SessionOption { window: false, key: "status-right".to_string(), value: status_right.to_string() });
    v.push(SessionOption { window: false, key: "@agency_root".to_string(), value: project_root.to_string() });
    v
}

/// The command that pipes a pane's output into the activity stamp `stamp`:
/// `sh -c 'cat > <stamp, escaped>'`.
pub fn pipe_pane_command(stamp: &str) -> (r: String)
    ensures
        r@ == "sh -c 'cat > "@ + escaped(stamp@) + "'"@,
{
    let mut out: Vec<char> = Vec::new();
    push_str_chars(&mut out, "sh -c 'cat > ");
    let e = shell_escape(stamp);
    push_str_chars(&mut out, e.as_str());
    push_str_chars(&mut out, "'");
    string_from_chars(out.as_slice())
}

/// The status of a listed session: `Exited` when its pane is dead, `Idle`
/// when its activity stamp is at least a second old, `Running` otherwise
/// (also when there is no stamp).
pub fn session_status(pane_dead: bool, stamp_age_ms: Option<u64>) -> (r: String)
    ensures
        pane_dead ==> r@ == "Exited"@,
        !pane_dead && (stamp_age_ms matches Some(a) && a >= 1000) ==> r@ == "Idle"@,
        !pane_dead && !(stamp_age_ms matches Some(a) && a >= 1000) ==> r@ == "Running"@,
{
    if pane_dead {
        return "Exited".to_string();
    }
    match stamp_age_ms {
        Some(a) => if a >= 1000 { "Idle".to_string() } else { "Running".to_string() },
        None => "Running".to_string(),
    }
}

/// Whether a `#{pane_dead}` listing of a session's panes reports a dead
/// pane: some line of it reads `1` once trimmed.
pub open spec fn pane_dead_spec(output: Seq<char>) -> bool {
    exists|i: int| 0 <= i < lines_of(output).len() && #[trigger] trim_spec(lines_of(output)[i]) == seq!['1']
}

/// Reads a `tmux list-panes -F '#{pane_dead}'` listing.
pub fn pane_dead_in(output: &str) -> (r: bool)
    ensures
        r == pane_dead_spec(output@),
{
    let cs = chars_of(output);
    let ls = lines(cs.as_slice());
    let ghost lv = crate::split::char_vec_views(ls@);
    let one: Vec<char> = vec!['1'];
    let mut i: usize = 0;
    while i < ls.len()
        invariant
            i <= ls.len(),
            lv == crate::split::char_vec_views(ls@),
            lv == lines_of(output@),
            one@ == seq!['1'],
            forall|k: int| 0 <= k < i ==> #[trigger] trim_spec(lv[k]) != seq!['1'],
        decreases ls.len() - i,
    {
        assert(lv[i as int] == ls@[i as int]@);
        let t = crate::split::trim_chars(ls[i].as_slice());
        if chars_eq(t.as_slice(), one.as_slice()) {
            return true;
        }
        i += 1;
    }
    false
}

/// The pause before the next readiness probe of the tmux server: twice the
/// last one, at most 200 ms.
pub fn next_ready_delay_ms(delay_ms: u64) -> (r: u64)
    requires
        delay_ms * 2 <= u64::MAX,
    ensures
        r == (if delay_ms * 2 < 200 { delay_ms * 2 } else { 200 }),
{
    let d = delay_ms * 2;
    if d < 200 { d } else { 200 }
}

} // verus!
