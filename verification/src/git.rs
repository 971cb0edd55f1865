//! The git command lines the tool runs, and where a command runs from.
use vstd::prelude::*;
use crate::paths::{path_starts_with, starts_with_path};
use crate::split::{char_vec_views, contains_chars, contains_seq, fields_of, lines, lines_of, split_fields, trim_chars, trim_spec, trim_str};
use crate::text::{chars_of, parse_u64, parse_u64_spec, push_str_chars, string_from_chars};

verus! {

/// The views of a sequence of strings.
pub open spec fn arg_views(v: Seq<String>) -> Seq<Seq<char>> {
    v.map_values(|s: String| s@)
}

fn args_of(parts: &[&str]) -> (r: Vec<String>)
    ensures
        r@.len() == parts@.len(),
        forall|i: int| 0 <= i < parts@.len() ==> #[trigger] r@[i]@ == parts@[i]@,
{
    let mut out: Vec<String> = Vec::new();
    let mut i: usize = 0;
    while i < parts.len()
        invariant
            i <= parts.len(),
            out@.len() == i,
            forall|k: int| 0 <= k < i ==> #[trigger] out@[k]@ == parts@[k]@,
        decreases parts.len() - i,
    {
        out.push(parts[i].to_string());
        i += 1;
    }
    out
}

/// The message of a git command that exited unsuccessfully:
/// `git <args joined by spaces> exited with status <status>`.
pub fn git_failure_message(args: &[String], status: &str) -> (r: String)
    ensures
        r@ == "git "@ + joined_args(arg_views(args@)) + " exited with status "@ + status@,
{
    let mut out: Vec<char> = Vec::new();
    push_str_chars(&mut out, "git ");
    let ghost head = out@;
    let mut i: usize = 0;
    while i < args.len()
        invariant
            i <= args.len(),
            out@ == head + joined_args(arg_views(args@).take(i as int)),
        decreases args.len() - i,
    {
        assert(arg_views(args@).take(i + 1).drop_last() =~= arg_views(args@).take(i as int));
        assert(arg_views(args@).take(i + 1).last() == args@[i as int]@);
        if i > 0 {
            out.push(' ');
        }
        push_str_chars(&mut out, args[i].as_str());
        proof {
            let t = arg_views(args@).take(i + 1);
            if i > 0 {
                assert(out@ =~= head + joined_args(t));
            } else {
                assert(t.drop_last() =~= Seq::<Seq<char>>::empty());
                assert(out@ =~= head + joined_args(t));
            }
        }
        i += 1;
    }
    assert(arg_views(args@).take(args.len() as int) =~= arg_views(args@));
    push_str_chars(&mut out, " exited with status ");
    push_str_chars(&mut out, status);
    string_from_chars(out.as_slice())
}

/// Arguments joined by single spaces.
pub open spec fn joined_args(args: Seq<Seq<char>>) -> Seq<char>
    decreases args.len(),
{
    if args.len() == 0 {
        Seq::empty()
    } else if args.len() == 1 {
        args[0]
    } else {
        joined_args(args.drop_last()) + seq![' '] + args.last()
    }
}

/// `refs/heads/<name>`.
pub open spec fn branch_ref(name: Seq<char>) -> Seq<char> {
    "refs/heads/"@ + name
}

/// The git arguments that point branch `branch` at `new_commit`.
pub fn update_branch_ref_at(branch: &str, new_commit: &str) -> (r: Vec<String>)
    ensures
        r@.len() == 3,
        r@[0]@ == "update-ref"@,
        r@[1]@ == branch_ref(branch@),
        r@[2]@ == new_commit@,
{
    let mut full: Vec<char> = Vec::new();
    push_str_chars(&mut full, "refs/heads/");
    push_str_chars(&mut full, branch);
    let mut v: Vec<String> = Vec::new();
    v.push("update-ref".to_string());
    v.push(string_from_chars(full.as_slice()));
    v.push(new_commit.to_string());
    v
}

/// The git arguments that rebase the checked-out branch onto `base`.
pub fn rebase_onto(base: &str) -> (r: Vec<String>)
    ensures
        r@.len() == 2,
        r@[0]@ == "rebase"@,
        r@[1]@ == base@,
{
    let mut v: Vec<String> = Vec::new();
    v.push("rebase".to_string());
    v.push(base.to_string());
    v
}

/// The git arguments that reset the checkout to its HEAD.
pub fn hard_reset_to_head_at() -> (r: Vec<String>)
    ensures
        r@.len() == 2,
        r@[0]@ == "reset"@,
        r@[1]@ == "--hard"@,
{
    args_of(&["reset", "--hard"])
}

/// The git arguments that remove the worktree at `path`, and those that
/// prune stale worktrees when removing fails.
pub fn prune_worktree_if_exists_at(path: &str) -> (r: (Vec<String>, Vec<String>))
    ensures
        r.0@.len() == 4,
        r.0@[0]@ == "worktree"@ && r.0@[1]@ == "remove"@ && r.0@[2]@ == "--force"@ && r.0@[3]@ == path@,
        r.1@.len() == 2,
        r.1@[0]@ == "worktree"@ && r.1@[1]@ == "prune"@,
{
    let mut remove: Vec<String> = Vec::new();
    remove.push("worktree".to_string());
    remove.push("remove".to_string());
    remove.push("--force".to_string());
    remove.push(path.to_string());
    (remove, args_of(&["worktree", "prune"]))
}

/// Whether the current directory is inside a task worktree: the worktree's
/// files link exists there, or (when the worktrees directory exists and
/// both paths could be resolved) the resolved current directory lies within
/// the resolved worktrees directory.
pub fn is_in_worktree(local_files_exists: bool, worktrees_dir_exists: bool, cwd_resolved: Option<&str>, worktrees_resolved: Option<&str>) -> (r: bool)
    ensures
        r == (local_files_exists || (worktrees_dir_exists && match (cwd_resolved, worktrees_resolved) {
            (Some(c), Some(w)) => path_starts_with(c@, w@),
            _ => false,
        })),
{
    if local_files_exists {
        return true;
    }
    if !worktrees_dir_exists {
        return false;
    }
    match (cwd_resolved, worktrees_resolved) {
        (Some(c), Some(w)) => starts_with_path(c, w),
        _ => false,
    }
}

// ---------------------------------------------------------------------------
// Reading what git prints
// ---------------------------------------------------------------------------

/// `a + b`, or `u64::MAX` when it does not fit.
pub open spec fn sat_add(a: u64, b: u64) -> u64 {
    if a + b > u64::MAX { u64::MAX } else { (a + b) as u64 }
}

/// Field `i` of a tab-separated line read as a number, 0 when it is missing
/// or not a number (binary files show `-`).
pub open spec fn numstat_field(line: Seq<char>, i: int) -> u64 {
    let f = fields_of(line, '\t');
    if i < f.len() {
        match parse_u64_spec(f[i]) {
            Some(v) => v,
            None => 0,
        }
    } else {
        0
    }
}

/// The added and deleted line counts of `git diff --numstat` lines, summed
/// with saturation.
pub open spec fn numstat_totals_spec(ls: Seq<Seq<char>>) -> (u64, u64)
    decreases ls.len(),
{
    if ls.len() == 0 {
        (0, 0)
    } else {
        let prev = numstat_totals_spec(ls.drop_last());
        (sat_add(prev.0, numstat_field(ls.last(), 0)), sat_add(prev.1, numstat_field(ls.last(), 1)))
    }
}

fn sat_add_exec(a: u64, b: u64) -> (r: u64)
    ensures
        r == sat_add(a, b),
{
    if a > u64::MAX - b { u64::MAX } else { a + b }
}

fn numstat_field_exec(line: &[char], i: usize) -> (r: u64)
    ensures
        r == numstat_field(line@, i as int),
{
    let f = split_fields(line, '\t');
    let ghost fv = char_vec_views(f@);
    if i < f.len() {
        assert(fv[i as int] == f@[i as int]@);
        match parse_u64(f[i].as_slice()) {
            Some(v) => v,
            None => 0,
        }
    } else {
        0
    }
}

/// The added and deleted line counts in the output of `git diff --numstat`.
pub fn numstat_totals(output: &str) -> (r: (u64, u64))
    ensures
        r == numstat_totals_spec(lines_of(output@)),
{
    let cs = chars_of(output);
    let ls = lines(cs.as_slice());
    let ghost lv = char_vec_views(ls@);
    let mut add: u64 = 0;
    let mut del: u64 = 0;
    let mut i: usize = 0;
    while i < ls.len()
        invariant
            i <= ls.len(),
            lv == char_vec_views(ls@),
            lv == lines_of(output@),
            (add, del) == numstat_totals_spec(lv.take(i as int)),
        decreases ls.len() - i,
    {
        assert(lv.take(i + 1).drop_last() =~= lv.take(i as int));
        assert(lv.take(i + 1).last() == ls@[i as int]@);
        let a = numstat_field_exec(ls[i].as_slice(), 0);
        let d = numstat_field_exec(ls[i].as_slice(), 1);
        add = sat_add_exec(add, a);
        del = sat_add_exec(del, d);
        i += 1;
    }
    assert(lv.take(ls.len() as int) =~= lv);
    (add, del)
}

/// Whether `git status --porcelain` printed nothing but whitespace.
pub fn status_is_clean(output: &str) -> (r: bool)
    ensures
        r == (trim_spec(output@).len() == 0),
{
    let t = trim_str(output);
    t.as_str().is_empty()
}

/// The count printed by `git rev-list --count`, 0 when it is not a number.
pub fn rev_count(output: &str) -> (r: u64)
    ensures
        r == (match parse_u64_spec(trim_spec(output@)) {
            Some(v) => v,
            None => 0,
        }),
{
    let t = trim_chars(chars_of(output).as_slice());
    match parse_u64(t.as_slice()) {
        Some(v) => v,
        None => 0,
    }
}

/// The git arguments that count the commits of `branch` not in `base`.
pub fn commits_ahead_args(base: &str, branch: &str) -> (r: Vec<String>)
    ensures
        arg_views(r@) == seq!["rev-list"@, "--count"@, base@ + ".."@ + branch@],
{
    let mut range: Vec<char> = Vec::new();
    push_str_chars(&mut range, base);
    push_str_chars(&mut range, "..");
    push_str_chars(&mut range, branch);
    let mut v: Vec<String> = Vec::new();
    v.push("rev-list".to_string());
    v.push("--count".to_string());
    v.push(string_from_chars(range.as_slice()));
    assert(arg_views(v@) =~= seq!["rev-list"@, "--count"@, base@ + ".."@ + branch@]);
    v
}

/// A yes/no answer given by git's exit status (`merge-base --is-ancestor`,
/// `show-ref --verify`): success is yes, exit code 1 is no, anything else
/// is a failure (`None`).
pub fn status_answer(success: bool, code: Option<i32>) -> (r: Option<bool>)
    ensures
        success ==> r == Some(true),
        !success && code == Some(1i32) ==> r == Some(false),
        !success && code != Some(1i32) ==> r is None,
{
    if success {
        Some(true)
    } else {
        match code {
            Some(c) => if c == 1 { Some(false) } else { None },
            None => None,
        }
    }
}

/// `No local changes to save`.
pub open spec fn no_changes_note() -> Seq<char> {
    "No local changes to save"@
}

/// Whether `git stash push` saved anything: neither of its outputs says
/// that there were no local changes.
pub fn stash_saved(stdout: &str, stderr: &str) -> (r: bool)
    ensures
        r == !(contains_seq(stdout@, no_changes_note()) || contains_seq(stderr@, no_changes_note())),
{
    let note = chars_of("No local changes to save");
    let out = chars_of(stdout);
    let err = chars_of(stderr);
    !(contains_chars(out.as_slice(), note.as_slice()) || contains_chars(err.as_slice(), note.as_slice()))
}

} // verus!
