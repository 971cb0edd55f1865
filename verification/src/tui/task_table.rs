//! The task table: its rows, the selected row, key handling, and the tasks
//! shown as being deleted.
use vstd::prelude::*;
use crate::files::{insert_by_id, lemma_sort_by_id, sort_by_id};
use crate::keys::{KeyCode, KeyInput};
use crate::config::AgencyConfig;
use crate::session::{has_key, latest_for, latest_sessions_by_task, lemma_latest_for, session_for_task, session_key, SessionInfo};
use crate::task::{task_views, TaskFrontmatter, TaskRef};
use crate::text::str_eq;
use crate::task_columns::{GitMetrics, TaskRow};

verus! {

/// What a key press in the task table asks for.
#[derive(Clone, Copy, Debug, PartialEq, Eq, Structural)]
pub enum Action {
    Noop,
    EditOrAttach { id: u32, session: Option<u64> },
    NewTask { start_and_attach: bool },
    StartTask { id: u32 },
    StopTask { id: u32 },
    MergeTask { id: u32 },
    OpenTask { id: u32 },
    ShellTask { id: u32 },
    DeleteTask { id: u32 },
    ResetTask { id: u32 },
    /// The selection moved to the task with this id.
    SelectionChanged { id: u32 },
}

/// How long a task shows as being deleted, in milliseconds.
pub const PENDING_DELETE_MS: u64 = 10_000;

/// State of the task table.
pub struct TaskTableState {
    pub rows: Vec<TaskRow>,
    pub selected: usize,
    /// Tasks being deleted, with the time (ms) until which they show so.
    pub pending_delete: Vec<(u32, u64)>,
    /// The id of this interface for focus events.
    pub tui_id: Option<u32>,
}

/// The ids of the rows.
pub open spec fn row_ids(rows: Seq<TaskRow>) -> Seq<u32> {
    rows.map_values(|r: TaskRow| r.task.id)
}

/// The pending deletes without those of task `id`.
pub open spec fn without_id(p: Seq<(u32, u64)>, id: u32) -> Seq<(u32, u64)>
    decreases p.len(),
{
    if p.len() == 0 {
        p
    } else {
        let prev = without_id(p.drop_last(), id);
        if p.last().0 != id { prev.push(p.last()) } else { prev }
    }
}

/// The pending deletes still shown at `now`: not yet expired and of a task
/// among `ids`.
pub open spec fn kept_pending(p: Seq<(u32, u64)>, now: u64, ids: Seq<u32>) -> Seq<(u32, u64)>
    decreases p.len(),
{
    if p.len() == 0 {
        p
    } else {
        let prev = kept_pending(p.drop_last(), now, ids);
        if p.last().1 > now && ids.contains(p.last().0) { prev.push(p.last()) } else { prev }
    }
}

/// Whether task `id` has a pending delete.
/// The task id of the selected row, `None` when the selection is on no row.
pub open spec fn selected_task_id(t: TaskTableState) -> Option<u32> {
    if t.selected < t.rows@.len() {
        Some(t.rows@[t.selected as int].task.id)
    } else {
        None
    }
}

pub open spec fn is_pending(p: Seq<(u32, u64)>, id: u32) -> bool {
    exists|i: int| 0 <= i < p.len() && #[trigger] p[i].0 == id
}

/// Pruning keeps only pending deletes that have not expired and whose
/// task is still shown, and keeps all of those.
pub proof fn lemma_kept_pending(p: Seq<(u32, u64)>, now: u64, ids: Seq<u32>)
    ensures
        forall|e: (u32, u64)| #[trigger] kept_pending(p, now, ids).contains(e) <==> (p.contains(e) && e.1 > now && ids.contains(e.0)),
    decreases p.len(),
{
    if p.len() > 0 {
        lemma_kept_pending(p.drop_last(), now, ids);
        assert forall|e: (u32, u64)| kept_pending(p, now, ids).contains(e) <==> (p.contains(e) && e.1 > now && ids.contains(e.0)) by {
            let t = p.drop_last();
            if p.contains(e) {
                let k = choose|k: int| 0 <= k < p.len() && p[k] == e;
                if k < p.len() - 1 {
                    assert(t[k] == e);
                }
            }
            if t.contains(e) {
                let k = choose|k: int| 0 <= k < t.len() && t[k] == e;
                assert(p[k] == e);
            }
            let prev = kept_pending(t, now, ids);
            if p.last().1 > now && ids.contains(p.last().0) {
                if prev.push(p.last()).contains(e) && e != p.last() {
                    let k = choose|k: int| 0 <= k < prev.len() + 1 && prev.push(p.last())[k] == e;
                    assert(prev[k] == e);
                }
                if prev.contains(e) {
                    let k = choose|k: int| 0 <= k < prev.len() && prev[k] == e;
                    assert(prev.push(p.last())[k] == e);
                }
                assert(prev.push(p.last())[prev.len() as int] == p.last());
            }
        }
    }
}

/// The action for a key press in a table with `rows` and selection `sel`,
/// and the selection afterwards.
pub open spec fn table_step(rows: Seq<TaskRow>, sel: usize, key: KeyInput) -> (Action, usize) {
    let n = rows.len();
    let on_row = |mk: spec_fn(u32) -> Action| if sel < n { mk(rows[sel as int].task.id) } else { Action::Noop };
    match key.code {
        KeyCode::Up => up_step(rows, sel),
        KeyCode::Down => down_step(rows, sel),
        KeyCode::Enter => (if sel < n {
            Action::EditOrAttach {
                id: rows[sel as int].task.id,
                session: match rows[sel as int].session {
                    Some(s) => Some(s.session_id),
                    None => None,
                },
            }
        } else {
            Action::Noop
        }, sel),
        KeyCode::Char(c) => if c == 'k' {
            up_step(rows, sel)
        } else if c == 'j' {
            down_step(rows, sel)
        } else if c == 'n' {
            (Action::NewTask { start_and_attach: false }, sel)
        } else if c == 'N' {
            (Action::NewTask { start_and_attach: true }, sel)
        } else if c == 's' {
            (on_row(|id: u32| Action::StartTask { id }), sel)
        } else if c == 'S' {
            (on_row(|id: u32| Action::StopTask { id }), sel)
        } else if c == 'm' {
            (on_row(|id: u32| Action::MergeTask { id }), sel)
        } else if c == 'o' {
            (on_row(|id: u32| Action::OpenTask { id }), sel)
        } else if c == 'O' {
            (on_row(|id: u32| Action::ShellTask { id }), sel)
        } else if c == 'X' {
            (on_row(|id: u32| Action::DeleteTask { id }), sel)
        } else if c == 'R' {
            (on_row(|id: u32| Action::ResetTask { id }), sel)
        } else {
            (Action::Noop, sel)
        },
        _ => (Action::Noop, sel),
    }
}

/// What each key does in the task table. With a row selected, each action
/// key acts on that row's task and keeps the selection: `s` starts it, `S`
/// stops it, `m` merges it, `o` opens it, `O` opens a shell in it, `X`
/// deletes it, `R` resets it, Enter edits it or attaches to its session.
/// With no row selected they do nothing. `n` and `N` ask for a new task
/// (`N` also starts it) whatever is selected. Down and `j` move one row down,
/// Up and `k` one row up, staying within the table and reporting the newly
/// selected task; in an empty table they do nothing.
pub proof fn lemma_table_keys(rows: Seq<TaskRow>, sel: usize, key: KeyInput)
    requires
        rows.len() <= usize::MAX,
    ensures
        ({
            let r = table_step(rows, sel, key);
            let on = sel < rows.len();
            let id = rows[sel as int].task.id;
            &&& key.code == KeyCode::Char('s') ==> r == (if on { Action::StartTask { id } } else { Action::Noop }, sel)
            &&& key.code == KeyCode::Char('S') ==> r == (if on { Action::StopTask { id } } else { Action::Noop }, sel)
            &&& key.code == KeyCode::Char('m') ==> r == (if on { Action::MergeTask { id } } else { Action::Noop }, sel)
            &&& key.code == KeyCode::Char('o') ==> r == (if on { Action::OpenTask { id } } else { Action::Noop }, sel)
            &&& key.code == KeyCode::Char('O') ==> r == (if on { Action::ShellTask { id } } else { Action::Noop }, sel)
            &&& key.code == KeyCode::Char('X') ==> r == (if on { Action::DeleteTask { id } } else { Action::Noop }, sel)
            &&& key.code == KeyCode::Char('R') ==> r == (if on { Action::ResetTask { id } } else { Action::Noop }, sel)
            &&& key.code == KeyCode::Enter ==> r.1 == sel && (if on {
                r.0 == Action::EditOrAttach {
                    id,
                    session: match rows[sel as int].session {
                        Some(x) => Some(x.session_id),
                        None => None,
                    },
                }
            } else {
                r.0 == Action::Noop
            })
            &&& key.code == KeyCode::Char('n') ==> r == (Action::NewTask { start_and_attach: false }, sel)
            &&& key.code == KeyCode::Char('N') ==> r == (Action::NewTask { start_and_attach: true }, sel)
            &&& (key.code == KeyCode::Down || key.code == KeyCode::Char('j')) ==> (if rows.len() == 0 {
                r == (Action::Noop, sel)
            } else {
                &&& r.1 as int == (if sel + 1 < rows.len() { sel + 1 } else { rows.len() - 1 })
                &&& r.0 == Action::SelectionChanged { id: rows[r.1 as int].task.id }
            })
            &&& (key.code == KeyCode::Up || key.code == KeyCode::Char('k')) ==> (if rows.len() == 0 {
                r == (Action::Noop, sel)
            } else {
                &&& r.1 as int == (if sel == 0 { 0 } else { sel - 1 })
                &&& r.0 == (if r.1 < rows.len() { Action::SelectionChanged { id: rows[r.1 as int].task.id } } else { Action::Noop })
            })
        }),
{
}

/// Moving the selection up: one row up (staying on the first row).
pub open spec fn up_step(rows: Seq<TaskRow>, sel: usize) -> (Action, usize) {
    if rows.len() == 0 {
        (Action::Noop, sel)
    } else {
        let s = if sel == 0 { 0 } else { (sel - 1) as usize };
        (if s < rows.len() { Action::SelectionChanged { id: rows[s as int].task.id } } else { Action::Noop }, s)
    }
}

/// Moving the selection down: one row down (staying on the last row).
pub open spec fn down_step(rows: Seq<TaskRow>, sel: usize) -> (Action, usize) {
    if rows.len() == 0 {
        (Action::Noop, sel)
    } else {
        let s = if sel + 1 < rows.len() { (sel + 1) as usize } else { (rows.len() - 1) as usize };
        (Action::SelectionChanged { id: rows[s as int].task.id }, s)
    }
}

/// The tasks ordered by id, equal ids in their given order.
pub fn sort_tasks_by_id(tasks: Vec<TaskRef>) -> (r: Vec<TaskRef>)
    ensures
        task_views(r@) == sort_by_id(task_views(tasks@)),
{
    let mut out: Vec<TaskRef> = Vec::new();
    let mut j: usize = 0;
    while j < tasks.len()
        invariant
            j <= tasks.len(),
            task_views(out@) == sort_by_id(task_views(tasks@.take(j as int))),
        decreases tasks.len() - j,
    {
        let t = tasks[j].clone();
        proof {
            let pre = task_views(tasks@.take(j as int));
            assert(task_views(tasks@.take(j + 1)) =~= pre.push((t.id, t.slug@)));
            assert(pre.push((t.id, t.slug@)).drop_last() =~= pre);
        }
        let ghost xs = task_views(out@);
        let mut pos: usize = out.len();
        assert(xs.take(pos as int) =~= xs);
        assert(xs.skip(pos as int) =~= Seq::<(u32, Seq<char>)>::empty());
        assert(insert_by_id(xs, (t.id, t.slug@)) =~= insert_by_id(xs.take(pos as int), (t.id, t.slug@)) + xs.skip(pos as int));
        while pos > 0 && out[pos - 1].id > t.id
            invariant
                pos <= out.len(),
                xs == task_views(out@),
                insert_by_id(xs, (t.id, t.slug@)) == insert_by_id(xs.take(pos as int), (t.id, t.slug@)) + xs.skip(pos as int),
            decreases pos,
        {
            proof {
                let x = (t.id, t.slug@);
                let u = xs.take(pos as int);
                assert(u.drop_last() =~= xs.take(pos - 1));
                assert(u.last() == xs[pos - 1]);
                assert(insert_by_id(xs.take(pos - 1), x).push(xs[pos - 1]) + xs.skip(pos as int)
                    =~= insert_by_id(xs.take(pos - 1), x) + xs.skip(pos - 1));
            }
            pos -= 1;
        }
        proof {
            let x = (t.id, t.slug@);
            let u = xs.take(pos as int);
            if pos == 0 {
                assert(u =~= Seq::<(u32, Seq<char>)>::empty());
                assert(insert_by_id(u, x) =~= seq![x]);
                assert(seq![x] =~= u.push(x));
            } else {
                assert(u.last() == xs[pos - 1]);
            }
        }
        out.insert(pos, t);
        proof {
            let x = (t.id, t.slug@);
            assert(task_views(out@) =~= xs.take(pos as int).push(x) + xs.skip(pos as int));
        }
        j += 1;
    }
    assert(tasks@.take(tasks.len() as int) =~= tasks@);
    out
}

/// What a task's row shows besides the task and its session: its git
/// figures, whether its worktree exists, whether it is completed, and its
/// front matter.
pub struct TaskDetails {
    pub task: TaskRef,
    pub metrics: GitMetrics,
    pub wt_exists: bool,
    pub completed: bool,
    pub frontmatter: Option<TaskFrontmatter>,
}

/// The first details given for the task `key`, from position `k` on.
pub open spec fn details_for(details: Seq<TaskDetails>, key: (u32, Seq<char>), k: int) -> Option<TaskDetails>
    decreases details.len() - k,
{
    if k < 0 || k >= details.len() {
        None
    } else if (details[k].task.id, details[k].task.slug@) == key {
        Some(details[k])
    } else {
        details_for(details, key, k + 1)
    }
}

/// Whether `row` shows the task `key` with its latest session among
/// `sessions` and its details (zero figures, no worktree, not completed and
/// no front matter when none are given), read with configuration `cfg`.
pub open spec fn row_for(row: TaskRow, cfg: AgencyConfig, key: (u32, Seq<char>), sessions: Seq<SessionInfo>, details: Seq<TaskDetails>) -> bool {
    &&& (row.task.id, row.task.slug@) == key
    &&& row.config.agent == cfg.agent
    &&& row.session == latest_for(sessions, key)
    &&& match details_for(details, key, 0) {
        Some(d) => row.git_metrics == d.metrics && row.wt_exists == d.wt_exists && row.completed == d.completed
            && row.frontmatter == d.frontmatter,
        None => row.git_metrics == (GitMetrics { uncommitted_add: 0, uncommitted_del: 0, commits_ahead: 0 })
            && !row.wt_exists && !row.completed && row.frontmatter is None,
    }
}

fn find_details<'a>(details: &'a [TaskDetails], task: &TaskRef) -> (r: Option<&'a TaskDetails>)
    ensures
        match r {
            Some(d) => details_for(details@, (task.id, task.slug@), 0) == Some(*d),
            None => details_for(details@, (task.id, task.slug@), 0) is None,
        },
{
    let ghost key = (task.id, task.slug@);
    let mut i: usize = 0;
    while i < details.len()
        invariant
            i <= details.len(),
            key == (task.id, task.slug@),
            details_for(details@, key, 0) == details_for(details@, key, i as int),
        decreases details.len() - i,
    {
        let hit = details[i].task.id == task.id && str_eq(details[i].task.slug.as_str(), task.slug.as_str());
        assert(hit == ((details@[i as int].task.id, details@[i as int].task.slug@) == key));
        if hit {
            assert(details_for(details@, key, i as int) == Some(details@[i as int]));
            return Some(&details[i]);
        }
        assert(details_for(details@, key, i as int) == details_for(details@, key, i + 1));
        i += 1;
    }
    None
}

/// Whether `rows` are the rows of `tasks`: ordered by id (equal ids in
/// their given order), each with its latest session and its details.
pub open spec fn rows_for_tasks(rows: Seq<TaskRow>, cfg: AgencyConfig, tasks: Seq<TaskRef>, sessions: Seq<SessionInfo>, details: Seq<TaskDetails>) -> bool {
    &&& rows.len() == tasks.len()
    &&& task_views(rows.map_values(|r: TaskRow| r.task)) == sort_by_id(task_views(tasks))
    &&& forall|i: int| 0 <= i < rows.len() ==> row_for(#[trigger] rows[i], cfg, (rows[i].task.id, rows[i].task.slug@), sessions, details)
}

/// The rows of the task table: `tasks` ordered by id (equal ids in their
/// given order), each with its latest session among `sessions` and its
/// details.
pub fn task_rows(cfg: &AgencyConfig, tasks: Vec<TaskRef>, sessions: &[SessionInfo], details: &[TaskDetails]) -> (rows: Vec<TaskRow>)
ensures
    rows_for_tasks(rows@, *cfg, tasks@, sessions@, details@),
{
    let n0 = tasks.len();
    let sorted = sort_tasks_by_id(tasks);
    proof {
        broadcast use vstd::seq_lib::group_to_multiset_ensures;
        lemma_sort_by_id(task_views(tasks@));
        assert(task_views(sorted@).len() == sort_by_id(task_views(tasks@)).to_multiset().len());
        assert(sorted@.len() == n0);
    }
    let latest = latest_sessions_by_task(sessions);
    let mut rows: Vec<TaskRow> = Vec::new();
    let mut i: usize = 0;
    while i < sorted.len()
        invariant
            i <= sorted.len(),
            rows@.len() == i,
            forall|k: int| 0 <= k < i ==> #[trigger] rows@[k].task == sorted@[k],
            forall|k: int| 0 <= k < i ==> row_for(#[trigger] rows@[k], *cfg, (rows@[k].task.id, rows@[k].task.slug@), sessions@, details@),
            forall|a: int, b: int| 0 <= a < b < latest@.len() ==> session_key(#[trigger] latest@[a]) != session_key(#[trigger] latest@[b]),
            forall|a: int| 0 <= a < latest@.len() ==> latest_for(sessions@, session_key(#[trigger] latest@[a])) == Some(latest@[a]),
            forall|a: int| 0 <= a < sessions@.len() ==> has_key(latest@, session_key(#[trigger] sessions@[a])),
        decreases sorted.len() - i,
    {
        let t = sorted[i].clone();
        let ghost key = (t.id, t.slug@);
        let session = session_for_task(latest.as_slice(), &t);
        proof {
            lemma_latest_for(sessions@, key);
            match session {
                Some(s) => {
                    let a = choose|a: int| 0 <= a < latest@.len() && latest@[a] == *s;
                    assert(latest_for(sessions@, session_key(latest@[a])) == Some(latest@[a]));
                },
                None => {
                    assert forall|a: int| 0 <= a < sessions@.len() implies session_key(#[trigger] sessions@[a]) != key by {
                        if session_key(sessions@[a]) == key {
                            assert(has_key(latest@, session_key(sessions@[a])));
                        }
                    }
                },
            }
        }
        let row = match find_details(details, &t) {
            Some(d) => TaskRow::new(cfg, t, session, d.metrics, d.wt_exists, d.completed, match &d.frontmatter {
                Some(f) => Some(f.clone()),
                None => None,
            }),
            None => TaskRow::new(cfg, t, session, GitMetrics { uncommitted_add: 0, uncommitted_del: 0, commits_ahead: 0 }, false, false, None),
        };
        rows.push(row);
        i += 1;
    }
    proof {
        assert(task_views(rows@.map_values(|r: TaskRow| r.task)) =~= task_views(sorted@));
    }
    rows
}


impl TaskTableState {
    /// An empty table.
    pub fn new() -> (s: Self)
        ensures
            s.rows@.len() == 0,
            s.selected == 0,
            s.pending_delete@.len() == 0,
            s.tui_id is None,
    {
        TaskTableState { rows: Vec::new(), selected: 0, pending_delete: Vec::new(), tui_id: None }
    }

    /// Shows the rows of `tasks` (see `task_rows`), keeping the selection on
    /// a row as `refresh` does.
    pub fn refresh_tasks(&mut self, cfg: &AgencyConfig, tasks: Vec<TaskRef>, sessions: &[SessionInfo], details: &[TaskDetails])
        ensures
            rows_for_tasks(final(self).rows@, *cfg, tasks@, sessions@, details@),
            final(self).selected == (if tasks@.len() == 0 {
                0
            } else if old(self).selected < tasks@.len() {
                old(self).selected
            } else {
                (tasks@.len() - 1) as usize
            }),
            final(self).pending_delete == old(self).pending_delete,
            final(self).tui_id == old(self).tui_id,
    {
        let rows = task_rows(cfg, tasks, sessions, details);
        self.refresh(rows);
    }

    /// Replaces the rows, keeping the selection on a row (the last one when
    /// it was past the end, 0 for an empty table).
    pub fn refresh(&mut self, rows: Vec<TaskRow>)
        ensures
            final(self).rows@ == rows@,
            final(self).selected == (if rows@.len() == 0 {
                0
            } else if old(self).selected < rows@.len() {
                old(self).selected
            } else {
                (rows@.len() - 1) as usize
            }),
            final(self).pending_delete == old(self).pending_delete,
            final(self).tui_id == old(self).tui_id,
    {
        self.selected = if rows.len() == 0 {
            0
        } else if self.selected < rows.len() {
            self.selected
        } else {
            rows.len() - 1
        };
        self.rows = rows;
    }

    /// Shows task `id` as being deleted until `now_ms` plus ten seconds
    /// (replacing an earlier mark of the same task).
    pub fn mark_pending_delete(&mut self, id: u32, now_ms: u64)
        ensures
            final(self).pending_delete@ == without_id(old(self).pending_delete@, id).push(
                (id, if now_ms > u64::MAX - PENDING_DELETE_MS { u64::MAX } else { (now_ms + PENDING_DELETE_MS) as u64 }),
            ),
            final(self).rows == old(self).rows,
            final(self).selected == old(self).selected,
            final(self).tui_id == old(self).tui_id,
    {
        let deadline = now_ms.saturating_add(PENDING_DELETE_MS);
        let ghost old_p = self.pending_delete@;
        let mut kept: Vec<(u32, u64)> = Vec::new();
        let mut i: usize = 0;
        while i < self.pending_delete.len()
            invariant
                i <= self.pending_delete.len(),
                self.pending_delete@ == old_p,
                kept@ == without_id(old_p.take(i as int), id),
            decreases self.pending_delete.len() - i,
        {
            assert(old_p.take(i + 1).drop_last() =~= old_p.take(i as int));
            let e = self.pending_delete[i];
            if e.0 != id {
                kept.push(e);
            }
            i += 1;
        }
        assert(old_p.take(old_p.len() as int) =~= old_p);
        kept.push((id, deadline));
        self.pending_delete = kept;
    }

    /// Drops the pending deletes whose time is up at `now_ms` and those of
    /// tasks no longer in the table.
    pub fn prune_pending_deletes(&mut self, now_ms: u64)
        ensures
            final(self).pending_delete@ == kept_pending(old(self).pending_delete@, now_ms, row_ids(old(self).rows@)),
            final(self).rows == old(self).rows,
            final(self).selected == old(self).selected,
            final(self).tui_id == old(self).tui_id,
    {
        let ghost old_p = self.pending_delete@;
        let mut kept: Vec<(u32, u64)> = Vec::new();
        let mut i: usize = 0;
        while i < self.pending_delete.len()
            invariant
                i <= self.pending_delete.len(),
                self.pending_delete@ == old_p,
                kept@ == kept_pending(old_p.take(i as int), now_ms, row_ids(self.rows@)),
            decreases self.pending_delete.len() - i,
        {
            assert(old_p.take(i + 1).drop_last() =~= old_p.take(i as int));
            let e = self.pending_delete[i];
            let mut visible = false;
            let mut r: usize = 0;
            while r < self.rows.len()
                invariant
                    r <= self.rows.len(),
                    visible == exists|q: int| 0 <= q < r && self.rows@[q].task.id == e.0,
                decreases self.rows.len() - r,
            {
                if self.rows[r].task.id == e.0 {
                    visible = true;
                }
                r += 1;
            }
            proof {
                if visible {
                    let q = choose|q: int| 0 <= q < self.rows.len() && self.rows@[q].task.id == e.0;
                    assert(row_ids(self.rows@)[q] == e.0);
                } else {
                    assert forall|q: int| 0 <= q < row_ids(self.rows@).len() implies row_ids(self.rows@)[q] != e.0 by {
                        assert(row_ids(self.rows@)[q] == self.rows@[q].task.id);
                    }
                }
                assert(visible == row_ids(self.rows@).contains(e.0));
            }
            if e.1 > now_ms && visible {
                kept.push(e);
            }
            i += 1;
        }
        assert(old_p.take(old_p.len() as int) =~= old_p);
        self.pending_delete = kept;
    }

    /// Whether task `id` shows as being deleted.
    pub fn is_pending_delete(&self, id: u32) -> (r: bool)
        ensures
            r == is_pending(self.pending_delete@, id),
    {
        let mut i: usize = 0;
        while i < self.pending_delete.len()
            invariant
                i <= self.pending_delete.len(),
                forall|k: int| 0 <= k < i ==> (#[trigger] self.pending_delete@[k]).0 != id,
            decreases self.pending_delete.len() - i,
        {
            if self.pending_delete[i].0 == id {
                assert(self.pending_delete@[i as int].0 == id);
                return true;
            }
            i += 1;
        }
        false
    }

    fn row_action(&self, which: char) -> (a: Action)
        ensures
            self.selected >= self.rows@.len() ==> a == Action::Noop,
            self.selected < self.rows@.len() ==> {
                let id = self.rows@[self.selected as int].task.id;
                a == (if which == 's' {
                    Action::StartTask { id }
                } else if which == 'S' {
                    Action::StopTask { id }
                } else if which == 'm' {
                    Action::MergeTask { id }
                } else if which == 'o' {
                    Action::OpenTask { id }
                } else if which == 'O' {
                    Action::ShellTask { id }
                } else if which == 'X' {
                    Action::DeleteTask { id }
                } else {
                    Action::ResetTask { id }
                })
            },
    {
        if self.selected >= self.rows.len() {
            return Action::Noop;
        }
        let id = self.rows[self.selected].task.id;
        if which == 's' {
            Action::StartTask { id }
        } else if which == 'S' {
            Action::StopTask { id }
        } else if which == 'm' {
            Action::MergeTask { id }
        } else if which == 'o' {
            Action::OpenTask { id }
        } else if which == 'O' {
            Action::ShellTask { id }
        } else if which == 'X' {
            Action::DeleteTask { id }
        } else {
            Action::ResetTask { id }
        }
    }

    fn move_up(&mut self) -> (a: Action)
        ensures
            (a, final(self).selected) == up_step(old(self).rows@, old(self).selected),
            final(self).rows == old(self).rows,
            final(self).pending_delete == old(self).pending_delete,
            final(self).tui_id == old(self).tui_id,
    {
        if self.rows.len() == 0 {
            return Action::Noop;
        }
        self.selected = if self.selected == 0 { 0 } else { self.selected - 1 };
        if self.selected < self.rows.len() {
            Action::SelectionChanged { id: self.rows[self.selected].task.id }
        } else {
            Action::Noop
        }
    }

    fn move_down(&mut self) -> (a: Action)
        ensures
            (a, final(self).selected) == down_step(old(self).rows@, old(self).selected),
            final(self).rows == old(self).rows,
            final(self).pending_delete == old(self).pending_delete,
            final(self).tui_id == old(self).tui_id,
    {
        if self.rows.len() == 0 {
            return Action::Noop;
        }
        self.selected = if self.selected < self.rows.len() - 1 { self.selected + 1 } else { self.rows.len() - 1 };
        Action::SelectionChanged { id: self.rows[self.selected].task.id }
    }

    /// Handles a key press: Up/`k` and Down/`j` move the selection and
    /// report the newly selected task; Enter edits or attaches; `n`/`N` ask
    /// for a new task; `s`, `S`, `m`, `o`, `O`, `X`, `R` act on the
    /// selected task.
    pub fn handle_key(&mut self, key: KeyInput) -> (a: Action)
        ensures
            (a, final(self).selected) == table_step(old(self).rows@, old(self).selected, key),
            final(self).rows == old(self).rows,
            final(self).pending_delete == old(self).pending_delete,
            final(self).tui_id == old(self).tui_id,
    {
        match key.code {
            KeyCode::Up => self.move_up(),
            KeyCode::Down => self.move_down(),
            KeyCode::Enter => {
                if self.selected < self.rows.len() {
                    let cur = &self.rows[self.selected];
                    Action::EditOrAttach { id: cur.id(), session: cur.session_id() }
                } else {
                    Action::Noop
                }
            },
            KeyCode::Char(c) => {
                if c == 'k' {
                    self.move_up()
                } else if c == 'j' {
                    self.move_down()
                } else if c == 'n' {
                    Action::NewTask { start_and_attach: false }
                } else if c == 'N' {
                    Action::NewTask { start_and_attach: true }
                } else if c == 's' || c == 'S' || c == 'm' || c == 'o' || c == 'O' || c == 'X' || c == 'R' {
                    self.row_action(c)
                } else {
                    Action::Noop
                }
            },
            _ => Action::Noop,
        }
    }

    /// Takes a fresh set of rows (see `refresh`), then drops the pending
    /// deletes whose time is up at `now_ms` or whose task is gone. When the
    /// selection now stands on another task than before, or on none, it
    /// returns the task it stands on; `None` when that did not change.
    pub fn reload(&mut self, rows: Vec<TaskRow>, now_ms: u64) -> (r: Option<Option<u32>>)
        ensures
            final(self).rows@ == rows@,
            final(self).selected == (if rows@.len() == 0 {
                0
            } else if old(self).selected < rows@.len() {
                old(self).selected
            } else {
                (rows@.len() - 1) as usize
            }),
            final(self).pending_delete@ == kept_pending(old(self).pending_delete@, now_ms, row_ids(rows@)),
            final(self).tui_id == old(self).tui_id,
            r == (if selected_task_id(*old(self)) == selected_task_id(*final(self)) {
                None
            } else {
                Some(selected_task_id(*final(self)))
            }),
    {
        let before = match self.selected_row() {
            Some(row) => Some(row.id()),
            None => None,
        };
        self.refresh(rows);
        self.prune_pending_deletes(now_ms);
        let after = match self.selected_row() {
            Some(row) => Some(row.id()),
            None => None,
        };
        if before == after {
            None
        } else {
            Some(after)
        }
    }

    /// The selected row, if the selection is on a row.
    pub fn selected_row(&self) -> (r: Option<&TaskRow>)
        ensures
            match r {
                Some(row) => self.selected < self.rows@.len() && *row == self.rows@[self.selected as int],
                None => self.selected >= self.rows@.len(),
            },
    {
        if self.selected < self.rows.len() {
            Some(&self.rows[self.selected])
        } else {
            None
        }
    }
}

} // verus!
