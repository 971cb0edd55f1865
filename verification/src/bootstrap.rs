//! Preparing a new worktree: which ignored files and included directories
//! of the main checkout are copied into it, and whether the bootstrap
//! command runs.
use vstd::prelude::*;
use crate::command::{expand_argv, replaced, root_marker, vars_expanded, CmdCtx, env_views};
use crate::config::clone_strings;
use crate::split::{char_vec_views, lines, lines_of};
use crate::text::{chars_of, str_eq, string_from_chars};

verus! {

/// The largest file copied into a worktree, in bytes (10 MiB).
pub const MAX_BOOTSTRAP_FILE_BYTES: u64 = 10485760;

/// The largest file copied while the worktree is being created, in bytes
/// (100 KiB); larger ones are copied later.
pub const SYNC_BOOTSTRAP_FILE_BYTES: u64 = 102400;

/// What to copy into new worktrees and what to run there.
pub struct BootstrapConfig {
    /// Directories of the checkout's root that are copied.
    pub included_dirs: Vec<String>,
    /// Root entries that are never copied.
    pub exclude: Vec<String>,
    /// The bootstrap command line; empty for none.
    pub cmd: Vec<String>,
}

/// An entry of the checkout's root directory.
pub struct RootEntry {
    pub name: String,
    pub is_file: bool,
    pub is_dir: bool,
    /// The size in bytes (of files).
    pub size: u64,
    /// Whether the same name already exists in the worktree.
    pub exists_in_worktree: bool,
}

/// What creating a worktree reports.
pub struct CreateWorktreeResult {
    pub worktree_dir: String,
    /// Whether the worktree was created now (so bootstrapping follows).
    pub is_new: bool,
}

/// `s` is one of `names`.
pub open spec fn listed(names: Seq<String>, s: Seq<char>) -> bool {
    exists|i: int| 0 <= i < names.len() && #[trigger] names[i]@ == s
}

fn listed_exec(names: &[String], s: &str) -> (r: bool)
    ensures
        r == listed(names@, s@),
{
    let mut i: usize = 0;
    while i < names.len()
        invariant
            i <= names.len(),
            forall|k: int| 0 <= k < i ==> #[trigger] names@[k]@ != s@,
        decreases names.len() - i,
    {
        if str_eq(names[i].as_str(), s) {
            return true;
        }
        i += 1;
    }
    false
}

/// A root entry never copied: `.git`, `.agency`, or configured as excluded.
pub open spec fn excluded_spec(name: Seq<char>, cfg: BootstrapConfig) -> bool {
    name == ".git"@ || name == ".agency"@ || listed(cfg.exclude@, name)
}

/// Whether a root entry is never copied.
pub fn is_excluded(name: &str, cfg: &BootstrapConfig) -> (r: bool)
    ensures
        r == excluded_spec(name@, *cfg),
{
    str_eq(name, ".git") || str_eq(name, ".agency") || listed_exec(cfg.exclude.as_slice(), name)
}

/// The root files asked about: files that are not excluded.
pub open spec fn candidate(e: RootEntry, cfg: BootstrapConfig) -> bool {
    e.is_file && !excluded_spec(e.name@, cfg)
}

/// Whether a root file is copied: a candidate that git ignores, no larger
/// than the copy limit (and than `max_size` when given), and not already in
/// the worktree.
pub open spec fn copied_spec(e: RootEntry, cfg: BootstrapConfig, ignored: Seq<String>, max_size: Option<u64>) -> bool {
    &&& candidate(e, cfg)
    &&& listed(ignored, e.name@)
    &&& e.size <= MAX_BOOTSTRAP_FILE_BYTES
    &&& (max_size matches Some(m) ==> e.size <= m)
    &&& !e.exists_in_worktree
}

/// The names of the entries that satisfy `keep`, in order.
pub open spec fn names_where(entries: Seq<RootEntry>, keep: spec_fn(RootEntry) -> bool) -> Seq<Seq<char>>
    decreases entries.len(),
{
    if entries.len() == 0 {
        Seq::empty()
    } else {
        let prev = names_where(entries.drop_last(), keep);
        if keep(entries.last()) { prev.push(entries.last().name@) } else { prev }
    }
}

/// The views of a sequence of strings.
pub open spec fn views(v: Seq<String>) -> Seq<Seq<char>> {
    v.map_values(|s: String| s@)
}

/// The names of the root files to ask git about, in order.
pub fn candidate_root_files(entries: &[RootEntry], cfg: &BootstrapConfig) -> (r: Vec<String>)
    ensures
        views(r@) == names_where(entries@, |e: RootEntry| candidate(e, *cfg)),
{
    let ghost keep = |e: RootEntry| candidate(e, *cfg);
    let mut out: Vec<String> = Vec::new();
    let mut i: usize = 0;
    while i < entries.len()
        invariant
            i <= entries.len(),
            keep == (|e: RootEntry| candidate(e, *cfg)),
            views(out@) == names_where(entries@.take(i as int), keep),
        decreases entries.len() - i,
    {
        assert(entries@.take(i + 1).drop_last() =~= entries@.take(i as int));
        assert(entries@.take(i + 1).last() == entries@[i as int]);
        let e = &entries[i];
        let ghost before = out@;
        if e.is_file && !is_excluded(e.name.as_str(), cfg) {
            out.push(e.name.clone());
            assert(views(out@) =~= views(before).push(e.name@));
        }
        i += 1;
    }
    assert(entries@.take(entries.len() as int) =~= entries@);
    out
}

/// The non-empty lines among `ls`, in order.
pub open spec fn non_empty(ls: Seq<Seq<char>>) -> Seq<Seq<char>>
    decreases ls.len(),
{
    if ls.len() == 0 {
        Seq::empty()
    } else {
        let prev = non_empty(ls.drop_last());
        if ls.last().len() > 0 { prev.push(ls.last()) } else { prev }
    }
}

/// Reads the output of `git check-ignore --stdin`: the non-empty lines,
/// one ignored name each.
pub fn parse_ignored(output: &str) -> (r: Vec<String>)
    ensures
        views(r@) == non_empty(lines_of(output@)),
{
    let cs = chars_of(output);
    let ls = lines(cs.as_slice());
    let ghost lv = char_vec_views(ls@);
    let mut out: Vec<String> = Vec::new();
    let mut i: usize = 0;
    while i < ls.len()
        invariant
            i <= ls.len(),
            lv == char_vec_views(ls@),
            lv == lines_of(output@),
            views(out@) == non_empty(lv.take(i as int)),
        decreases ls.len() - i,
    {
        assert(lv.take(i + 1).drop_last() =~= lv.take(i as int));
        assert(lv.take(i + 1).last() == ls@[i as int]@);
        let ghost before = out@;
        if ls[i].len() > 0 {
            let line = string_from_chars(ls[i].as_slice());
            out.push(line);
            assert(views(out@) =~= views(before).push(ls@[i as int]@));
        }
        i += 1;
    }
    assert(lv.take(ls.len() as int) =~= lv);
    out
}

fn root_files_to_copy(entries: &[RootEntry], cfg: &BootstrapConfig, ignored: &[String], max_size: Option<u64>) -> (r: Vec<String>)
    ensures
        views(r@) == names_where(entries@, |e: RootEntry| copied_spec(e, *cfg, ignored@, max_size)),
{
    let ghost keep = |e: RootEntry| copied_spec(e, *cfg, ignored@, max_size);
    let mut out: Vec<String> = Vec::new();
    let mut i: usize = 0;
    while i < entries.len()
        invariant
            i <= entries.len(),
            keep == (|e: RootEntry| copied_spec(e, *cfg, ignored@, max_size)),
            views(out@) == names_where(entries@.take(i as int), keep),
        decreases entries.len() - i,
    {
        assert(entries@.take(i + 1).drop_last() =~= entries@.take(i as int));
        assert(entries@.take(i + 1).last() == entries@[i as int]);
        let e = &entries[i];
        let ghost before = out@;
        let within = match max_size {
            Some(m) => e.size <= m,
            None => true,
        };
        if e.is_file && !is_excluded(e.name.as_str(), cfg) && listed_exec(ignored, e.name.as_str())
            && e.size <= MAX_BOOTSTRAP_FILE_BYTES && within && !e.exists_in_worktree {
            out.push(e.name.clone());
            assert(views(out@) =~= views(before).push(e.name@));
        }
        i += 1;
    }
    assert(entries@.take(entries.len() as int) =~= entries@);
    out
}

/// The ignored root files copied while the worktree is created: those of
/// at most `SYNC_BOOTSTRAP_FILE_BYTES`.
pub fn sync_copy_small_gitignored_files(entries: &[RootEntry], cfg: &BootstrapConfig, ignored: &[String]) -> (r: Vec<String>)
    ensures
        views(r@) == names_where(entries@, |e: RootEntry| copied_spec(e, *cfg, ignored@, Some(SYNC_BOOTSTRAP_FILE_BYTES))),
{
    root_files_to_copy(entries, cfg, ignored, Some(SYNC_BOOTSTRAP_FILE_BYTES))
}

/// Whether a root directory is copied: not excluded and configured as
/// included.
pub open spec fn dir_copied_spec(e: RootEntry, cfg: BootstrapConfig) -> bool {
    e.is_dir && !excluded_spec(e.name@, cfg) && listed(cfg.included_dirs@, e.name@)
}

/// What bootstrapping copies: the remaining ignored root files (of any size
/// up to the limit) and the included directories.
pub fn bootstrap_worktree(entries: &[RootEntry], cfg: &BootstrapConfig, ignored: &[String]) -> (r: (Vec<String>, Vec<String>))
    ensures
        views(r.0@) == names_where(entries@, |e: RootEntry| copied_spec(e, *cfg, ignored@, None)),
        views(r.1@) == names_where(entries@, |e: RootEntry| dir_copied_spec(e, *cfg)),
{
    let files = root_files_to_copy(entries, cfg, ignored, None);
    let ghost keep = |e: RootEntry| dir_copied_spec(e, *cfg);
    let mut dirs: Vec<String> = Vec::new();
    let mut i: usize = 0;
    while i < entries.len()
        invariant
            i <= entries.len(),
            keep == (|e: RootEntry| dir_copied_spec(e, *cfg)),
            views(dirs@) == names_where(entries@.take(i as int), keep),
        decreases entries.len() - i,
    {
        assert(entries@.take(i + 1).drop_last() =~= entries@.take(i as int));
        assert(entries@.take(i + 1).last() == entries@[i as int]);
        let e = &entries[i];
        let ghost before = dirs@;
        if e.is_dir && !is_excluded(e.name.as_str(), cfg) && listed_exec(cfg.included_dirs.as_slice(), e.name.as_str()) {
            dirs.push(e.name.clone());
            assert(views(dirs@) =~= views(before).push(e.name@));
        }
        i += 1;
    }
    assert(entries@.take(entries.len() as int) =~= entries@);
    (files, dirs)
}

/// Whether a file inside an included directory is copied: not already
/// there and within the size limit.
pub fn dir_file_copied(size: u64, exists_in_worktree: bool) -> (r: bool)
    ensures
        r == (!exists_in_worktree && size <= MAX_BOOTSTRAP_FILE_BYTES),
{
    !exists_in_worktree && size <= MAX_BOOTSTRAP_FILE_BYTES
}

/// `<root>/.agency/setup.sh`, the default bootstrap command.
pub open spec fn default_setup() -> Seq<char> {
    "<root>/.agency/setup.sh"@
}

/// Whether the command line is the default one.
pub open spec fn is_default_cmd(cmd: Seq<String>) -> bool {
    cmd.len() == 1 && cmd[0]@ == default_setup()
}

/// The bootstrap command to run in a new worktree: none when the command
/// line is empty, or when it is the default script and that script does
/// not exist; otherwise the command line expanded against the repository
/// root and the session environment.
pub fn run_bootstrap_in_worktree(cfg: &BootstrapConfig, root_abs: &str, env: &[(String, String)], default_script_exists: bool) -> (r: Option<Vec<String>>)
    ensures
        cfg.cmd@.len() == 0 ==> r is None,
        cfg.cmd@.len() > 0 && is_default_cmd(cfg.cmd@) && !default_script_exists ==> r is None,
        cfg.cmd@.len() > 0 && !(is_default_cmd(cfg.cmd@) && !default_script_exists) ==> (r matches Some(argv)
            && argv@.len() == cfg.cmd@.len()
            && forall|i: int| 0 <= i < argv@.len() ==> #[trigger] argv@[i]@ == vars_expanded(
                replaced(cfg.cmd@[i]@, root_marker(), root_abs@),
                env_views(env@),
            )),
{
    if cfg.cmd.len() == 0 {
        return None;
    }
    if cfg.cmd.len() == 1 && str_eq(cfg.cmd[0].as_str(), "<root>/.agency/setup.sh") && !default_script_exists {
        return None;
    }
    let mut env_copy: Vec<(String, String)> = Vec::new();
    let mut i: usize = 0;
    while i < env.len()
        invariant
            i <= env.len(),
            env_copy@ == env@.take(i as int),
        decreases env.len() - i,
    {
        env_copy.push((env[i].0.clone(), env[i].1.clone()));
        assert(env_copy@ =~= env@.take(i + 1));
        i += 1;
    }
    assert(env@.take(env.len() as int) =~= env@);
    let ctx = CmdCtx::with_env(root_abs, env_copy);
    Some(expand_argv(cfg.cmd.as_slice(), &ctx))
}

} // verus!
