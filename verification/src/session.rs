//! Agent sessions as the daemon reports them, the latest session of each
//! task, and the status a task shows.
use vstd::prelude::*;
use crate::command::{expand_argv, replaced, root_marker, split_program, string_views, vars_expanded, CmdCtx};
use crate::config::{clone_opt_string, clone_strings, AgencyConfig};
use crate::split::{trim_spec, trim_str};
use crate::task::{agent_for_task, TaskFrontmatter, TaskRef};
use crate::text::{decimal, push_str_chars, str_eq, string_from_chars, u64_to_string};
use crate::wizard::shell_split;

verus! {

/// The task a session belongs to.
#[derive(Debug, PartialEq, Eq)]
pub struct TaskMeta {
    pub id: u32,
    pub slug: String,
}

impl Clone for TaskMeta {
    fn clone(&self) -> (r: Self)
        ensures
            r == *self,
    {
        TaskMeta { id: self.id, slug: self.slug.clone() }
    }
}

impl TaskMeta {
    /// The task reference of a session's task.
    pub fn to_task_ref(&self) -> (r: TaskRef)
        ensures
            r.id == self.id,
            r.slug == self.slug,
    {
        TaskRef { id: self.id, slug: self.slug.clone() }
    }
}

/// A session as the daemon reports it.
#[derive(Debug, PartialEq, Eq)]
pub struct SessionInfo {
    pub session_id: u64,
    pub task: TaskMeta,
    pub cwd: String,
    /// The session state: "Running", "Idle", "Exited" or another word.
    pub status: String,
    pub clients: u32,
    pub created_at_ms: u64,
}

impl Clone for SessionInfo {
    fn clone(&self) -> (r: Self)
        ensures
            r == *self,
    {
        SessionInfo {
            session_id: self.session_id,
            task: self.task.clone(),
            cwd: self.cwd.clone(),
            status: self.status.clone(),
            clients: self.clients,
            created_at_ms: self.created_at_ms,
        }
    }
}

/// The task key of a session: its task's id and slug.
pub open spec fn session_key(s: SessionInfo) -> (u32, Seq<char>) {
    (s.task.id, s.task.slug@)
}

/// The latest session of task `key` among `sessions`: the one with the
/// greatest creation time, the later one in the list on a tie.
pub open spec fn latest_for(sessions: Seq<SessionInfo>, key: (u32, Seq<char>)) -> Option<SessionInfo>
    decreases sessions.len(),
{
    if sessions.len() == 0 {
        None
    } else {
        let prev = latest_for(sessions.drop_last(), key);
        let s = sessions.last();
        if session_key(s) == key {
            match prev {
                None => Some(s),
                Some(p) => if s.created_at_ms >= p.created_at_ms { Some(s) } else { prev },
            }
        } else {
            prev
        }
    }
}

/// The latest session of a task is one of its sessions, and none of its
/// sessions was created later.
pub proof fn lemma_latest_for(sessions: Seq<SessionInfo>, key: (u32, Seq<char>))
    ensures
        latest_for(sessions, key) is None <==> (forall|i: int| 0 <= i < sessions.len() ==> session_key(#[trigger] sessions[i]) != key),
        latest_for(sessions, key) matches Some(l) ==> {
            &&& session_key(l) == key
            &&& sessions.contains(l)
            &&& forall|i: int| 0 <= i < sessions.len() && session_key(#[trigger] sessions[i]) == key ==> sessions[i].created_at_ms <= l.created_at_ms
        },
    decreases sessions.len(),
{
    if sessions.len() > 0 {
        let t = sessions.drop_last();
        let s = sessions.last();
        let n = sessions.len() - 1;
        lemma_latest_for(t, key);
        assert forall|i: int| 0 <= i < t.len() implies #[trigger] sessions[i] == t[i] by {}
        assert(sessions[n] == s);
        let prev = latest_for(t, key);
        if session_key(s) != key {
            assert forall|i: int| 0 <= i < sessions.len() && session_key(#[trigger] sessions[i]) == key implies i < n && t[i] == sessions[i] by {}
            match prev {
                Some(l) => {
                    let k = choose|k: int| 0 <= k < t.len() && t[k] == l;
                    assert(sessions[k] == l);
                },
                None => {},
            }
        } else {
            assert(!(forall|i: int| 0 <= i < sessions.len() ==> session_key(#[trigger] sessions[i]) != key));
            match prev {
                None => {
                    assert forall|i: int| 0 <= i < sessions.len() && session_key(#[trigger] sessions[i]) == key implies sessions[i].created_at_ms <= s.created_at_ms by {
                        if i < n {
                            assert(session_key(t[i]) == key);
                        }
                    }
                },
                Some(p) => {
                    let k = choose|k: int| 0 <= k < t.len() && t[k] == p;
                    assert(sessions[k] == p);
                    let l = latest_for(sessions, key)->0;
                    assert forall|i: int| 0 <= i < sessions.len() && session_key(#[trigger] sessions[i]) == key implies sessions[i].created_at_ms <= l.created_at_ms by {
                        if i < n {
                            assert(session_key(t[i]) == key);
                            assert(t[i].created_at_ms <= p.created_at_ms);
                        }
                    }
                },
            }
        }
    }
}

/// Whether a key appears among the keys of `v`.
pub open spec fn has_key(v: Seq<SessionInfo>, key: (u32, Seq<char>)) -> bool {
    exists|i: int| 0 <= i < v.len() && session_key(#[trigger] v[i]) == key
}

fn same_task(a: &TaskMeta, b: &TaskMeta) -> (r: bool)
    ensures
        r == (a.id == b.id && a.slug@ == b.slug@),
{
    a.id == b.id && str_eq(a.slug.as_str(), b.slug.as_str())
}

/// The latest session of each task that has sessions, one entry per task,
/// in the order the tasks first appear.
pub fn latest_sessions_by_task(sessions: &[SessionInfo]) -> (r: Vec<SessionInfo>)
    ensures
        forall|i: int, j: int| 0 <= i < j < r@.len() ==> session_key(#[trigger] r@[i]) != session_key(#[trigger] r@[j]),
        forall|i: int| 0 <= i < r@.len() ==> latest_for(sessions@, session_key(#[trigger] r@[i])) == Some(r@[i]),
        forall|k: int| 0 <= k < sessions@.len() ==> has_key(r@, session_key(#[trigger] sessions@[k])),
{
    let mut out: Vec<SessionInfo> = Vec::new();
    let mut n: usize = 0;
    while n < sessions.len()
        invariant
            n <= sessions.len(),
            forall|i: int, j: int| 0 <= i < j < out@.len() ==> session_key(#[trigger] out@[i]) != session_key(#[trigger] out@[j]),
            forall|i: int| 0 <= i < out@.len() ==> latest_for(sessions@.take(n as int), session_key(#[trigger] out@[i])) == Some(out@[i]),
            forall|k: int| 0 <= k < n ==> has_key(out@, session_key(#[trigger] sessions@[k])),
            forall|key: (u32, Seq<char>)| !has_key(out@, key) ==> #[trigger] latest_for(sessions@.take(n as int), key) is None,
        decreases sessions.len() - n,
    {
        let s = &sessions[n];
        let ghost pre = sessions@.take(n as int);
        let ghost post = sessions@.take(n + 1);
        assert(post.drop_last() =~= pre);
        assert(post.last() == sessions@[n as int]);
        let ghost old_out = out@;
        let mut pos: usize = 0;
        while pos < out.len() && !same_task(&out[pos].task, &s.task)
            invariant
                pos <= out.len(),
                out@ == old_out,
                forall|i: int| 0 <= i < pos ==> session_key(#[trigger] out@[i]) != session_key(*s),
            decreases out.len() - pos,
        {
            pos += 1;
        }
        let found = pos < out.len();
        assert(found ==> session_key(out@[pos as int]) == session_key(*s));
        if found {
            if s.created_at_ms >= out[pos].created_at_ms {
                out.set(pos, s.clone());
            }
        } else {
            out.push(s.clone());
        }
        proof {
            let key = session_key(*s);
            assert forall|key2: (u32, Seq<char>)| key2 != key implies #[trigger] latest_for(post, key2) == latest_for(pre, key2) by {}
            if !found {
                assert(!has_key(old_out, key));
                assert(latest_for(pre, key) is None);
                assert(out@[old_out.len() as int] == *s);
            }
            assert forall|i: int| 0 <= i < out@.len() implies latest_for(post, session_key(#[trigger] out@[i])) == Some(out@[i]) by {
                if session_key(out@[i]) != key {
                    assert(out@[i] == old_out[i]);
                }
            }
            assert forall|k: int| 0 <= k < n + 1 implies has_key(out@, session_key(#[trigger] sessions@[k])) by {
                if k < n {
                    let w = choose|w: int| 0 <= w < old_out.len() && session_key(#[trigger] old_out[w]) == session_key(sessions@[k]);
                    if found && w == pos {
                        assert(session_key(out@[w]) == session_key(sessions@[k]));
                    } else {
                        assert(out@[w] == old_out[w]);
                    }
                } else if found {
                    assert(session_key(out@[pos as int]) == key);
                } else {
                    assert(session_key(out@[old_out.len() as int]) == key);
                }
            }
            assert forall|key2: (u32, Seq<char>)| !has_key(out@, key2) implies #[trigger] latest_for(post, key2) is None by {
                if key2 == key {
                    if found {
                        assert(session_key(out@[pos as int]) == key);
                    } else {
                        assert(session_key(out@[old_out.len() as int]) == key);
                    }
                } else {
                    if has_key(old_out, key2) {
                        let w = choose|w: int| 0 <= w < old_out.len() && session_key(#[trigger] old_out[w]) == key2;
                        if found && w == pos {
                            assert(session_key(old_out[w]) == key);
                        } else {
                            assert(out@[w] == old_out[w]);
                        }
                    }
                }
            }
        }
        n += 1;
    }
    assert(sessions@.take(sessions.len() as int) =~= sessions@);
    out
}

/// The latest session of `task` among the entries that
/// `latest_sessions_by_task` returns.
pub fn session_for_task<'a>(latest: &'a [SessionInfo], task: &TaskRef) -> (r: Option<&'a SessionInfo>)
    ensures
        match r {
            Some(s) => latest@.contains(*s) && session_key(*s) == (task.id, task.slug@),
            None => !has_key(latest@, (task.id, task.slug@)),
        },
{
    let mut i: usize = 0;
    while i < latest.len()
        invariant
            i <= latest.len(),
            forall|k: int| 0 <= k < i ==> session_key(#[trigger] latest@[k]) != (task.id, task.slug@),
        decreases latest.len() - i,
    {
        if latest[i].task.id == task.id && str_eq(latest[i].task.slug.as_str(), task.slug.as_str()) {
            assert(latest@[i as int] == latest[i as int]);
            return Some(&latest[i]);
        }
        i += 1;
    }
    None
}

// ---------------------------------------------------------------------------
// Task status
// ---------------------------------------------------------------------------

/// The status a task shows.
#[derive(Debug, PartialEq, Eq)]
pub enum TaskStatus {
    /// No worktree and no session yet.
    Draft,
    /// A worktree but no session.
    Stopped,
    Running,
    Idle,
    Exited,
    /// The task was completed.
    Completed,
    /// A session state the tool does not know, shown as reported.
    Other(String),
}

/// The display label of a status.
pub open spec fn label_spec(s: TaskStatus) -> Seq<char> {
    match s {
        TaskStatus::Draft => seq!['D', 'r', 'a', 'f', 't'],
        TaskStatus::Stopped => seq!['S', 't', 'o', 'p', 'p', 'e', 'd'],
        TaskStatus::Running => seq!['R', 'u', 'n', 'n', 'i', 'n', 'g'],
        TaskStatus::Idle => seq!['I', 'd', 'l', 'e'],
        TaskStatus::Exited => seq!['E', 'x', 'i', 't', 'e', 'd'],
        TaskStatus::Completed => seq!['C', 'o', 'm', 'p', 'l', 'e', 't', 'e', 'd'],
        TaskStatus::Other(w) => w@,
    }
}

impl TaskStatus {
    /// The display label.
    pub fn label(&self) -> (r: String)
        ensures
            r@ == label_spec(*self),
    {
        let r = match self {
            TaskStatus::Draft => "Draft".to_string(),
            TaskStatus::Stopped => "Stopped".to_string(),
            TaskStatus::Running => "Running".to_string(),
            TaskStatus::Idle => "Idle".to_string(),
            TaskStatus::Exited => "Exited".to_string(),
            TaskStatus::Completed => "Completed".to_string(),
            TaskStatus::Other(s) => s.clone(),
        };
        proof {
            reveal_strlit("Draft");
            reveal_strlit("Stopped");
            reveal_strlit("Running");
            reveal_strlit("Idle");
            reveal_strlit("Exited");
            reveal_strlit("Completed");
        }
        r
    }
}

/// The status of a task from its latest session and whether its worktree
/// exists: the session's state when there is a session, else Stopped with
/// a worktree and Draft without.
pub open spec fn derive_status_spec(latest: Option<SessionInfo>, worktree_exists: bool) -> TaskStatus {
    match latest {
        Some(s) => if s.status@ == label_spec(TaskStatus::Running) {
            TaskStatus::Running
        } else if s.status@ == label_spec(TaskStatus::Idle) {
            TaskStatus::Idle
        } else if s.status@ == label_spec(TaskStatus::Exited) {
            TaskStatus::Exited
        } else {
            TaskStatus::Other(s.status)
        },
        None => if worktree_exists { TaskStatus::Stopped } else { TaskStatus::Draft },
    }
}

/// The status of a task from its latest session and its worktree.
pub fn derive_status(latest: Option<&SessionInfo>, worktree_exists: bool) -> (r: TaskStatus)
    ensures
        r == derive_status_spec(
            match latest {
                Some(s) => Some(*s),
                None => None,
            },
            worktree_exists,
        ),
{
    proof {
        reveal_strlit("Running");
        reveal_strlit("Idle");
        reveal_strlit("Exited");
    }
    assert("Running"@ =~= label_spec(TaskStatus::Running));
    assert("Idle"@ =~= label_spec(TaskStatus::Idle));
    assert("Exited"@ =~= label_spec(TaskStatus::Exited));
    match latest {
        Some(s) => {
            let st = s.status.as_str();
            if str_eq(st, "Running") {
                TaskStatus::Running
            } else if str_eq(st, "Idle") {
                TaskStatus::Idle
            } else if str_eq(st, "Exited") {
                TaskStatus::Exited
            } else {
                TaskStatus::Other(s.status.clone())
            }
        },
        None => if worktree_exists { TaskStatus::Stopped } else { TaskStatus::Draft },
    }
}

// ---------------------------------------------------------------------------
// Planning a session
// ---------------------------------------------------------------------------

/// The notice appended to a task description when files are attached.
pub open spec fn files_notice() -> Seq<char> {
    "\n\n<agency>\nThere are files attached to the task. Run `agency info` to see task context and attached files.\n</agency>"@
}

/// The description handed to the agent: with the files notice when files
/// are attached and the description is not blank.
pub open spec fn agent_description(description: Seq<char>, has_files: bool) -> Seq<char> {
    if has_files && trim_spec(description).len() > 0 {
        description + files_notice()
    } else {
        description
    }
}

/// The variables a session adds to the environment: `AGENCY_TASK` (the
/// description), `AGENCY_ROOT` (the repository root) and `AGENCY_TASK_ID`.
pub fn task_env_entries(task_id: u32, description: &str, root: &str, has_files: bool) -> (r: Vec<(String, String)>)
    ensures
        r@.len() == 3,
        r@[0].0@ == "AGENCY_TASK"@ && r@[0].1@ == agent_description(description@, has_files),
        r@[1].0@ == "AGENCY_ROOT"@ && r@[1].1@ == root@,
        r@[2].0@ == "AGENCY_TASK_ID"@ && r@[2].1@ == decimal(task_id as nat),
{
    let t = trim_str(description);
    let desc = if has_files && !t.as_str().is_empty() {
        let mut out: Vec<char> = Vec::new();
        push_str_chars(&mut out, description);
        push_str_chars(&mut out, "\n\n<agency>\nThere are files attached to the task. Run `agency info` to see task context and attached files.\n</agency>");
        string_from_chars(out.as_slice())
    } else {
        description.to_string()
    };
    let mut v: Vec<(String, String)> = Vec::new();
    v.push(("AGENCY_TASK".to_string(), desc));
    v.push(("AGENCY_ROOT".to_string(), root.to_string()));
    v.push(("AGENCY_TASK_ID".to_string(), u64_to_string(task_id as u64)));
    v
}

/// Environment variables as plain values.
pub open spec fn env_views(v: Seq<(String, String)>) -> Seq<(Seq<char>, Seq<char>)> {
    v.map_values(|p: (String, String)| (p.0@, p.1@))
}

/// Whether `entries` sets the variable `key`.
pub open spec fn sets_key(entries: Seq<(Seq<char>, Seq<char>)>, key: Seq<char>) -> bool {
    exists|i: int| 0 <= i < entries.len() && #[trigger] entries[i].0 == key
}

/// The variables of `base` that `entries` does not set, in order.
pub open spec fn kept_vars(base: Seq<(Seq<char>, Seq<char>)>, entries: Seq<(Seq<char>, Seq<char>)>) -> Seq<(Seq<char>, Seq<char>)>
    decreases base.len(),
{
    if base.len() == 0 {
        Seq::empty()
    } else {
        let rest = kept_vars(base.drop_last(), entries);
        if sets_key(entries, base.last().0) {
            rest
        } else {
            rest.push(base.last())
        }
    }
}

/// The environment `base` with the variables of `entries` set: the
/// variables of `base` that `entries` does not set, in order, then
/// `entries`.
pub fn override_env(base: &[(String, String)], entries: &[(String, String)]) -> (r: Vec<(String, String)>)
    ensures
        env_views(r@) == kept_vars(env_views(base@), env_views(entries@)) + env_views(entries@),
{
    let ghost ev = env_views(entries@);
    let mut out: Vec<(String, String)> = Vec::new();
    let mut i: usize = 0;
    while i < base.len()
        invariant
            i <= base.len(),
            ev == env_views(entries@),
            env_views(out@) == kept_vars(env_views(base@).take(i as int), ev),
        decreases base.len() - i,
    {
        let key = &base[i].0;
        let mut found = false;
        let mut j: usize = 0;
        while j < entries.len()
            invariant
                j <= entries.len(),
                ev == env_views(entries@),
                found == exists|q: int| 0 <= q < j && ev[q].0 == key@,
            decreases entries.len() - j,
        {
            if str_eq(entries[j].0.as_str(), key.as_str()) {
                found = true;
            }
            assert(ev[j as int].0 == entries@[j as int].0@);
            j += 1;
        }
        let ghost bv = env_views(base@);
        assert(bv.take(i + 1).drop_last() =~= bv.take(i as int));
        assert(bv.take(i + 1).last() == (base@[i as int].0@, base@[i as int].1@));
        proof {
            if found {
                let q = choose|q: int| 0 <= q < j && ev[q].0 == key@;
                assert(ev[q].0 == key@);
            }
            assert(found == sets_key(ev, key@));
        }
        if !found {
            let ghost before = out@;
            out.push((base[i].0.clone(), base[i].1.clone()));
            assert(env_views(out@) =~= env_views(before).push(bv[i as int]));
        }
        i += 1;
    }
    assert(env_views(base@).take(base.len() as int) =~= env_views(base@));
    let ghost kept = out@;
    let mut k: usize = 0;
    while k < entries.len()
        invariant
            k <= entries.len(),
            ev == env_views(entries@),
            env_views(out@) == env_views(kept) + ev.take(k as int),
        decreases entries.len() - k,
    {
        let ghost before = out@;
        out.push((entries[k].0.clone(), entries[k].1.clone()));
        assert(env_views(out@) =~= env_views(before).push(ev[k as int]));
        assert(ev.take(k + 1) =~= ev.take(k as int).push(ev[k as int]));
        k += 1;
    }
    assert(ev.take(entries.len() as int) =~= ev);
    out
}

/// The value of variable `key` in `env`, the later of two settings winning
/// (as successive inserts into a map).
pub open spec fn env_get(env: Seq<(Seq<char>, Seq<char>)>, key: Seq<char>) -> Option<Seq<char>>
    decreases env.len(),
{
    if env.len() == 0 {
        None
    } else if env.last().0 == key {
        Some(env.last().1)
    } else {
        env_get(env.drop_last(), key)
    }
}

proof fn lemma_env_get_sets_key(env: Seq<(Seq<char>, Seq<char>)>, key: Seq<char>)
    ensures
        env_get(env, key) is Some <==> sets_key(env, key),
    decreases env.len(),
{
    if env.len() > 0 {
        lemma_env_get_sets_key(env.drop_last(), key);
        if sets_key(env, key) && env.last().0 != key {
            let i = choose|i: int| 0 <= i < env.len() && #[trigger] env[i].0 == key;
            assert(env.drop_last()[i].0 == key);
        }
        if sets_key(env.drop_last(), key) {
            let i = choose|i: int| 0 <= i < env.drop_last().len() && #[trigger] env.drop_last()[i].0 == key;
            assert(env[i].0 == key);
        }
        if env.last().0 == key {
            assert(env[env.len() - 1].0 == key);
        }
    }
}

proof fn lemma_kept_lookup(base: Seq<(Seq<char>, Seq<char>)>, entries: Seq<(Seq<char>, Seq<char>)>, key: Seq<char>)
    ensures
        env_get(kept_vars(base, entries), key) == (if sets_key(entries, key) { None } else { env_get(base, key) }),
    decreases base.len(),
{
    if base.len() > 0 {
        lemma_kept_lookup(base.drop_last(), entries, key);
        let rest = kept_vars(base.drop_last(), entries);
        if !sets_key(entries, base.last().0) {
            assert(rest.push(base.last()).drop_last() =~= rest);
        }
    }
}

proof fn lemma_concat_lookup(a: Seq<(Seq<char>, Seq<char>)>, b: Seq<(Seq<char>, Seq<char>)>, key: Seq<char>)
    ensures
        env_get(a + b, key) == (if env_get(b, key) is Some { env_get(b, key) } else { env_get(a, key) }),
    decreases b.len(),
{
    if b.len() == 0 {
        assert(a + b =~= a);
    } else {
        assert((a + b).drop_last() =~= a + b.drop_last());
        assert((a + b).last() == b.last());
        lemma_concat_lookup(a, b.drop_last(), key);
    }
}

/// After `override_env`, each variable that `entries` sets has the value
/// `entries` gives it, and every other variable keeps its value in `base`.
pub proof fn lemma_override_lookup(base: Seq<(Seq<char>, Seq<char>)>, entries: Seq<(Seq<char>, Seq<char>)>, key: Seq<char>)
    ensures
        env_get(kept_vars(base, entries) + entries, key) == (if sets_key(entries, key) {
            env_get(entries, key)
        } else {
            env_get(base, key)
        }),
{
    lemma_concat_lookup(kept_vars(base, entries), entries, key);
    lemma_kept_lookup(base, entries, key);
    lemma_env_get_sets_key(entries, key);
}

/// Why a session could not be planned.
#[derive(Debug, PartialEq, Eq)]
pub enum PlanError {
    /// Neither the task nor the configuration names an agent; the defined
    /// agents are listed.
    NoAgent { known: Vec<String> },
    /// The named agent is not defined.
    UnknownAgent { name: String },
    /// The agent's command line expands to nothing.
    EmptyArgv,
}

/// Names joined by `, `.
pub open spec fn comma_joined(names: Seq<Seq<char>>) -> Seq<char>
    decreases names.len(),
{
    if names.len() == 0 {
        Seq::empty()
    } else if names.len() == 1 {
        names[0]
    } else {
        comma_joined(names.drop_last()) + ", "@ + names.last()
    }
}

impl PlanError {
    /// The error message.
    pub fn message(&self) -> (m: String)
        ensures
            self matches PlanError::NoAgent { known } ==> m@ == "no agent selected. Set `agent` in config or add YAML front matter. Known agents: "@
                + comma_joined(known@.map_values(|k: String| k@)),
            self matches PlanError::UnknownAgent { name } ==> m@ == "unknown agent: "@ + name@,
            self is EmptyArgv ==> m@ == "expanded agent argv is empty"@,
    {
        match self {
            PlanError::NoAgent { known } => {
                let mut out: Vec<char> = Vec::new();
                push_str_chars(&mut out, "no agent selected. Set `agent` in config or add YAML front matter. Known agents: ");
                let ghost head = out@;
                let ghost views = known@.map_values(|k: String| k@);
                let mut i: usize = 0;
                while i < known.len()
                    invariant
                        i <= known.len(),
                        views == known@.map_values(|k: String| k@),
                        out@ == head + comma_joined(views.take(i as int)),
                    decreases known.len() - i,
                {
                    let ghost t = views.take(i + 1);
                    assert(t.drop_last() =~= views.take(i as int));
                    assert(t.last() == known@[i as int]@);
                    if i > 0 {
                        push_str_chars(&mut out, ", ");
                    }
                    push_str_chars(&mut out, known[i].as_str());
                    proof {
                        if i == 0 {
                            assert(t.drop_last() =~= Seq::<Seq<char>>::empty());
                        }
                    }
                    assert(out@ =~= head + comma_joined(t));
                    i += 1;
                }
                assert(views.take(known.len() as int) =~= views);
                string_from_chars(out.as_slice())
            },
            PlanError::UnknownAgent { name } => {
                let mut out: Vec<char> = Vec::new();
                push_str_chars(&mut out, "unknown agent: ");
                push_str_chars(&mut out, name.as_str());
                string_from_chars(out.as_slice())
            },
            PlanError::EmptyArgv => "expanded agent argv is empty".to_string(),
        }
    }
}

/// The first defined agent named `name`, from position `k` on.
pub open spec fn agent_index(cfg: AgencyConfig, name: Seq<char>, k: int) -> Option<int>
    decreases cfg.agents@.len() - k,
{
    if k < 0 || k >= cfg.agents@.len() {
        None
    } else if cfg.agents@[k].name@ == name {
        Some(k)
    } else {
        agent_index(cfg, name, k + 1)
    }
}

/// The agent for a task and its command line template: the task's agent,
/// else the configured default, looked up among the defined agents.
pub fn agent_command(cfg: &AgencyConfig, fm: Option<&TaskFrontmatter>) -> (r: Result<(String, Vec<String>), PlanError>)
    ensures
        match r {
            Ok((name, cmd)) => agent_for_task_spec(*cfg, fm) == Some(name)
                && (agent_index(*cfg, name@, 0) matches Some(k) && cmd@ == cfg.agents@[k].config.cmd@),
            Err(PlanError::NoAgent { known }) => agent_for_task_spec(*cfg, fm) is None
                && known@.len() == cfg.agents@.len()
                && forall|i: int| 0 <= i < known@.len() ==> #[trigger] known@[i] == cfg.agents@[i].name,
            Err(PlanError::UnknownAgent { name }) => agent_for_task_spec(*cfg, fm) == Some(name)
                && agent_index(*cfg, name@, 0) is None,
            Err(PlanError::EmptyArgv) => false,
        },
{
    let name = match agent_for_task(cfg, fm) {
        Some(n) => n,
        None => {
            let mut known: Vec<String> = Vec::new();
            let mut i: usize = 0;
            while i < cfg.agents.len()
                invariant
                    i <= cfg.agents.len(),
                    known@.len() == i,
                    forall|k: int| 0 <= k < i ==> #[trigger] known@[k] == cfg.agents@[k].name,
                decreases cfg.agents.len() - i,
            {
                known.push(cfg.agents[i].name.clone());
                i += 1;
            }
            return Err(PlanError::NoAgent { known });
        },
    };
    let mut k: usize = 0;
    while k < cfg.agents.len()
        invariant
            k <= cfg.agents.len(),
            agent_for_task_spec(*cfg, fm) == Some(name),
            agent_index(*cfg, name@, 0) == agent_index(*cfg, name@, k as int),
        decreases cfg.agents.len() - k,
    {
        if str_eq(cfg.agents[k].name.as_str(), name.as_str()) {
            let cmd = clone_strings(&cfg.agents[k].config.cmd);
            return Ok((name, cmd));
        }
        k += 1;
    }
    Err(PlanError::UnknownAgent { name })
}

/// `agent_for_task` as a value.
pub open spec fn agent_for_task_spec(cfg: AgencyConfig, fm: Option<&TaskFrontmatter>) -> Option<String> {
    match fm {
        Some(f) => match f.agent {
            Some(a) => Some(a),
            None => cfg.agent,
        },
        None => cfg.agent,
    }
}

/// Everything needed to start a task's session.
pub struct SessionPlan {
    pub task_meta: TaskMeta,
    pub repo_root: String,
    pub worktree_dir: String,
    pub agent_program: String,
    pub agent_args: Vec<String>,
    /// The session's environment; a later entry overrides an earlier one.
    pub env: Vec<(String, String)>,
    pub shell_argv: Vec<String>,
}

/// Puts a session plan together from the expanded agent command line: its
/// first word is the program, the rest its arguments; an empty command
/// line is refused.
pub fn build_session_plan(
    task: &TaskRef,
    repo_root: &str,
    worktree_dir: &str,
    env: Vec<(String, String)>,
    argv: &[String],
    shell_argv: Vec<String>,
) -> (r: Result<SessionPlan, PlanError>)
    ensures
        argv@.len() == 0 ==> r == Err::<SessionPlan, PlanError>(PlanError::EmptyArgv),
        argv@.len() > 0 ==> (r matches Ok(p) && p.task_meta.id == task.id && p.task_meta.slug == task.slug
            && p.repo_root@ == repo_root@ && p.worktree_dir@ == worktree_dir@
            && p.agent_program == argv@[0] && p.agent_args@ == argv@.skip(1)
            && p.env@ == env@ && p.shell_argv@ == shell_argv@),
{
    match split_program(argv) {
        None => Err(PlanError::EmptyArgv),
        Some((agent_program, agent_args)) => Ok(SessionPlan {
            task_meta: TaskMeta { id: task.id, slug: task.slug.clone() },
            repo_root: repo_root.to_string(),
            worktree_dir: worktree_dir.to_string(),
            agent_program,
            agent_args,
            env,
            shell_argv,
        }),
    }
}

/// The variables a session adds, as plain values (see `task_env_entries`).
pub open spec fn task_env_spec(task_id: u32, description: Seq<char>, root: Seq<char>, has_files: bool) -> Seq<(Seq<char>, Seq<char>)> {
    seq![
        ("AGENCY_TASK"@, agent_description(description, has_files)),
        ("AGENCY_ROOT"@, root),
        ("AGENCY_TASK_ID"@, decimal(task_id as nat)),
    ]
}

/// A session's environment: the process environment with the task's
/// variables set.
pub open spec fn session_env_spec(
    process_env: Seq<(Seq<char>, Seq<char>)>,
    task_id: u32,
    description: Seq<char>,
    root: Seq<char>,
    has_files: bool,
) -> Seq<(Seq<char>, Seq<char>)> {
    kept_vars(process_env, task_env_spec(task_id, description, root, has_files)) + task_env_spec(
        task_id,
        description,
        root,
        has_files,
    )
}

/// An agent's command line template expanded: `<root>` replaced by the
/// repository root, then `$VAR` references by their values in `env`.
pub open spec fn expanded_argv(tmpl: Seq<String>, root: Seq<char>, env: Seq<(Seq<char>, Seq<char>)>) -> Seq<Seq<char>> {
    tmpl.map_values(|a: String| vars_expanded(replaced(a@, root_marker(), root), env))
}

/// A copy of an environment.
fn clone_env(env: &Vec<(String, String)>) -> (r: Vec<(String, String)>)
    ensures
        env_views(r@) == env_views(env@),
{
    let mut out: Vec<(String, String)> = Vec::new();
    let mut i: usize = 0;
    while i < env.len()
        invariant
            i <= env.len(),
            env_views(out@) == env_views(env@).take(i as int),
        decreases env.len() - i,
    {
        let ghost before = out@;
        out.push((env[i].0.clone(), env[i].1.clone()));
        assert(env_views(out@) =~= env_views(before).push((env@[i as int].0@, env@[i as int].1@)));
        assert(env_views(env@).take(i + 1) =~= env_views(env@).take(i as int).push((env@[i as int].0@, env@[i as int].1@)));
        i += 1;
    }
    assert(env_views(env@).take(env.len() as int) =~= env_views(env@));
    out
}

/// Plans a task's session: the task's agent (from its front matter, else
/// the configured default) must be defined; its command line is expanded
/// with the session's environment (the process environment with
/// `AGENCY_TASK`, `AGENCY_ROOT` and `AGENCY_TASK_ID` set) and must not be
/// empty; its first word is the program to run, the rest its arguments.
pub fn plan_session(
    task: &TaskRef,
    cfg: &AgencyConfig,
    fm: Option<&TaskFrontmatter>,
    description: &str,
    repo_root: &str,
    worktree_dir: &str,
    has_files: bool,
    process_env: &[(String, String)],
    shell_argv: Vec<String>,
) -> (r: Result<SessionPlan, PlanError>)
    ensures
        agent_for_task_spec(*cfg, fm) is None ==> (r matches Err(PlanError::NoAgent { known })
            && known@.len() == cfg.agents@.len()
            && forall|i: int| 0 <= i < known@.len() ==> #[trigger] known@[i] == cfg.agents@[i].name),
        agent_for_task_spec(*cfg, fm) matches Some(n) ==> (agent_index(*cfg, n@, 0) is None
            ==> r == Err::<SessionPlan, PlanError>(PlanError::UnknownAgent { name: n })),
        agent_for_task_spec(*cfg, fm) matches Some(n) ==> (agent_index(*cfg, n@, 0) matches Some(k) ==> {
            let env = session_env_spec(env_views(process_env@), task.id, description@, repo_root@, has_files);
            let argv = expanded_argv(cfg.agents@[k].config.cmd@, repo_root@, env);
            &&& argv.len() == 0 ==> r == Err::<SessionPlan, PlanError>(PlanError::EmptyArgv)
            &&& argv.len() > 0 ==> (r matches Ok(p)
                && p.task_meta.id == task.id && p.task_meta.slug == task.slug
                && p.repo_root@ == repo_root@ && p.worktree_dir@ == worktree_dir@
                && p.agent_program@ == argv[0] && words_view(p.agent_args@) == argv.skip(1)
                && env_views(p.env@) == env
                && env_get(env_views(p.env@), "AGENCY_TASK_ID"@) == Some(decimal(task.id as nat))
                && p.shell_argv@ == shell_argv@)
        }),
{
    let (_name, tmpl) = match agent_command(cfg, fm) {
        Ok(c) => c,
        Err(e) => return Err(e),
    };
    let entries = task_env_entries(task.id, description, repo_root, has_files);
    let ghost ev = task_env_spec(task.id, description@, repo_root@, has_files);
    assert(env_views(entries@) =~= ev);
    let env = override_env(process_env, entries.as_slice());
    let ctx = CmdCtx::with_env(repo_root, clone_env(&env));
    let argv = expand_argv(tmpl.as_slice(), &ctx);
    let ghost senv = session_env_spec(env_views(process_env@), task.id, description@, repo_root@, has_files);
    proof {
        assert(env_views(env@) == senv);
        assert(crate::command::env_views(ctx.env@) =~= senv);
        let key = "AGENCY_TASK_ID"@;
        assert(ev[2].0 == key);
        assert(sets_key(ev, key));
        lemma_override_lookup(env_views(process_env@), ev, key);
        assert(ev.drop_last().len() == 2);
        assert(env_get(ev, key) == Some(decimal(task.id as nat)));
    }
    let ghost want = expanded_argv(tmpl@, repo_root@, senv);
    assert(string_views(argv@) =~= want);
    let r = build_session_plan(task, repo_root, worktree_dir, env, argv.as_slice(), shell_argv);
    proof {
        if argv@.len() > 0 {
            assert(words_view(argv@.skip(1)) =~= want.skip(1));
        }
    }
    r
}

/// The shell a session's pane runs: the first word of the shell command
/// line (`/bin/sh` when there is none) and the rest as its arguments.
pub fn shell_program(shell_argv: &[String]) -> (r: (String, Vec<String>))
    ensures
        shell_argv@.len() == 0 ==> r.0@ == "/bin/sh"@ && r.1@.len() == 0,
        shell_argv@.len() > 0 ==> r.0 == shell_argv@[0] && r.1@ == shell_argv@.skip(1),
{
    match split_program(shell_argv) {
        Some(p) => p,
        None => ("/bin/sh".to_string(), Vec::new()),
    }
}

/// The shell a session starts: the configured command line when it is not
/// empty, else `$SHELL` (given as `shell_env`) when it is not blank, else
/// `/bin/sh`.
pub fn resolve_shell_argv(cfg: &AgencyConfig, shell_env: Option<&str>) -> (r: Vec<String>)
    ensures
        (cfg.shell matches Some(v) && v@.len() > 0) ==> r@ == cfg.shell->0@,
        !(cfg.shell matches Some(v) && v@.len() > 0) && (shell_env matches Some(e) && trim_spec(e@).len() > 0)
            ==> r@.len() == 1 && r@[0]@ == shell_env->0@,
        !(cfg.shell matches Some(v) && v@.len() > 0) && !(shell_env matches Some(e) && trim_spec(e@).len() > 0)
            ==> r@.len() == 1 && r@[0]@ == "/bin/sh"@,
{
    match &cfg.shell {
        Some(v) => {
            if v.len() > 0 {
                return clone_strings(v);
            }
        },
        None => {},
    }
    match shell_env {
        Some(e) => {
            let t = trim_str(e);
            if !t.as_str().is_empty() {
                let mut out: Vec<String> = Vec::new();
                out.push(e.to_string());
                return out;
            }
        },
        None => {},
    }
    let mut out: Vec<String> = Vec::new();
    out.push("/bin/sh".to_string());
    out
}

/// What `shell_words::join` makes of a list of words: each quoted for a
/// POSIX shell, joined by spaces.
pub uninterp spec fn shell_joined(words: Seq<Seq<char>>) -> Seq<char>;

/// The views of a list of words.
pub open spec fn words_view(v: Seq<String>) -> Seq<Seq<char>> {
    v.map_values(|w: String| w@)
}

/// Joins words into a shell command line with `shell_words::join`. Each
/// word is quoted so that `shell_words::split` reads it back whole (an empty
/// word as `''`), and the words are separated by single spaces, so splitting
/// the line gives the words back.
#[verifier::external_body]
fn join_shell_words(words: &[String]) -> (r: String)
    ensures
        r@ == shell_joined(words_view(words@)),
        shell_split(r@) == Some(words_view(words@)),
{
    shell_words::join(words)
}

/// The line typed into a session's shell to start the agent: a space (so
/// the shell leaves it out of its history), then the program and its
/// arguments quoted for a POSIX shell.
pub fn agent_run_line(program: &str, args: &[String]) -> (r: String)
    ensures
        r@ == " "@ + shell_joined(seq![program@] + words_view(args@)),
        shell_split(r@.skip(1)) == Some(seq![program@] + words_view(args@)),
{
    let mut words: Vec<String> = Vec::new();
    words.push(program.to_string());
    let mut i: usize = 0;
    while i < args.len()
        invariant
            i <= args.len(),
            words_view(words@) == seq![program@] + words_view(args@).take(i as int),
        decreases args.len() - i,
    {
        let ghost before = words@;
        words.push(args[i].as_str().to_string());
        assert(words_view(words@) =~= words_view(before).push(args@[i as int]@));
        assert(words_view(args@).take(i + 1) =~= words_view(args@).take(i as int).push(args@[i as int]@));
        assert(words_view(words@) =~= seq![program@] + words_view(args@).take(i + 1));
        i += 1;
    }
    assert(words_view(args@).take(args.len() as int) =~= words_view(args@));
    let joined = join_shell_words(words.as_slice());
    let mut out: Vec<char> = Vec::new();
    push_str_chars(&mut out, " ");
    push_str_chars(&mut out, joined.as_str());
    proof {
        reveal_strlit(" ");
        assert(out@.skip(1) =~= joined@);
    }
    string_from_chars(out.as_slice())
}

} // verus!
