//! The columns of the task table and how each cell of a task row reads.
use vstd::prelude::*;
use crate::config::{clone_opt_string, AgencyConfig};
use crate::log::{dim, dimmed_text, tint, tinted, Tint};
use crate::session::{derive_status, derive_status_spec, label_spec, SessionInfo, TaskStatus};
use crate::task::{agent_for_task, stored_base_branch, TaskFrontmatter, TaskFrontmatterExt, TaskRef};
use crate::text::{decimal, push_decimal, string_from_chars, u64_to_string};

verus! {

/// Git figures of a task's worktree.
#[derive(Clone, Copy, Debug, PartialEq, Eq, Structural)]
pub struct GitMetrics {
    pub uncommitted_add: u64,
    pub uncommitted_del: u64,
    pub commits_ahead: u64,
}

impl Default for GitMetrics {
    fn default() -> (m: Self)
        ensures
            m == (GitMetrics { uncommitted_add: 0, uncommitted_del: 0, commits_ahead: 0 }),
    {
        GitMetrics { uncommitted_add: 0, uncommitted_del: 0, commits_ahead: 0 }
    }
}

/// What one row of the task table shows, gathered beforehand: the task,
/// its latest session, its git figures, whether its worktree exists,
/// whether it was completed, and its front matter.
pub struct TaskRow {
    pub config: AgencyConfig,
    pub task: TaskRef,
    pub session: Option<SessionInfo>,
    pub git_metrics: GitMetrics,
    pub wt_exists: bool,
    pub completed: bool,
    pub frontmatter: Option<TaskFrontmatter>,
}

impl TaskRow {
    /// A row from its parts.
    pub fn new(
        config: &AgencyConfig,
        task: TaskRef,
        session: Option<&SessionInfo>,
        git_metrics: GitMetrics,
        wt_exists: bool,
        completed: bool,
        frontmatter: Option<TaskFrontmatter>,
    ) -> (r: Self)
        ensures
            r.config.agent == config.agent,
            r.task == task,
            r.session == (match session {
                Some(s) => Some(*s),
                None => None,
            }),
            r.git_metrics == git_metrics,
            r.wt_exists == wt_exists,
            r.completed == completed,
            r.frontmatter == frontmatter,
    {
        TaskRow {
            config: config.clone(),
            task,
            session: match session {
                Some(s) => Some(s.clone()),
                None => None,
            },
            git_metrics,
            wt_exists,
            completed,
            frontmatter,
        }
    }

    /// The id of the row's task.
    pub fn id(&self) -> (id: u32)
        ensures
            id == self.task.id,
    {
        self.task.id
    }

    /// The id of the row's session, if it has one.
    pub fn session_id(&self) -> (r: Option<u64>)
        ensures
            r == (match self.session {
                Some(s) => Some(s.session_id),
                None => None,
            }),
    {
        match &self.session {
            Some(s) => Some(s.session_id),
            None => None,
        }
    }
}

/// A column of the task table.
#[derive(Clone, Copy, Debug, PartialEq, Eq, Structural)]
pub enum TaskColumn {
    Id,
    Slug,
    Status,
    Uncommitted,
    Commits,
    Base,
    Agent,
}

/// The columns in display order.
pub open spec fn all_columns() -> Seq<TaskColumn> {
    seq![
        TaskColumn::Id,
        TaskColumn::Slug,
        TaskColumn::Status,
        TaskColumn::Uncommitted,
        TaskColumn::Commits,
        TaskColumn::Base,
        TaskColumn::Agent,
    ]
}

/// The header of a column.
pub open spec fn header_spec(c: TaskColumn) -> Seq<char> {
    match c {
        TaskColumn::Id => seq!['I', 'D'],
        TaskColumn::Slug => seq!['S', 'L', 'U', 'G'],
        TaskColumn::Status => seq!['S', 'T', 'A', 'T', 'U', 'S'],
        TaskColumn::Uncommitted => seq!['U', 'N', 'C', 'O', 'M', 'M', 'I', 'T', 'T', 'E', 'D'],
        TaskColumn::Commits => seq!['C', 'O', 'M', 'M', 'I', 'T', 'S'],
        TaskColumn::Base => seq!['B', 'A', 'S', 'E'],
        TaskColumn::Agent => seq!['A', 'G', 'E', 'N', 'T'],
    }
}

/// The flex weight of a column: slug and agent are twice as wide.
pub open spec fn weight_spec(c: TaskColumn) -> u8 {
    match c {
        TaskColumn::Slug | TaskColumn::Agent => 2,
        _ => 1,
    }
}

/// The sum of the weights of `cols`.
pub open spec fn total_weight(cols: Seq<TaskColumn>) -> nat
    decreases cols.len(),
{
    if cols.len() == 0 {
        0
    } else {
        total_weight(cols.drop_last()) + weight_spec(cols.last()) as nat
    }
}

/// The status a row shows when no delete is pending: Completed for a
/// completed task, else what its session and worktree say.
pub open spec fn row_status(row: TaskRow) -> TaskStatus {
    if row.completed {
        TaskStatus::Completed
    } else {
        derive_status_spec(row.session, row.wt_exists)
    }
}

/// The status cell: "Loading" dimmed while a delete is pending, else the
/// status label tinted by status (an unknown session state as reported).
pub open spec fn status_cell(row: TaskRow, pending_delete: bool) -> Seq<char> {
    if pending_delete {
        dimmed_text(seq!['L', 'o', 'a', 'd', 'i', 'n', 'g'])
    } else {
        let st = row_status(row);
        match st {
            TaskStatus::Running | TaskStatus::Completed => tinted(Tint::Green, label_spec(st)),
            TaskStatus::Idle => tinted(Tint::Blue, label_spec(st)),
            TaskStatus::Exited | TaskStatus::Stopped => tinted(Tint::Red, label_spec(st)),
            TaskStatus::Draft => tinted(Tint::Yellow, label_spec(st)),
            TaskStatus::Other(w) => w@,
        }
    }
}

/// The uncommitted cell: `+<added>` green and `-<deleted>` red, each
/// dimmed `+0` / `-0` when zero.
pub open spec fn uncommitted_cell(m: GitMetrics) -> Seq<char> {
    (if m.uncommitted_add > 0 {
        tinted(Tint::Green, seq!['+'] + decimal(m.uncommitted_add as nat))
    } else {
        dimmed_text(seq!['+', '0'])
    }) + (if m.uncommitted_del > 0 {
        tinted(Tint::Red, seq!['-'] + decimal(m.uncommitted_del as nat))
    } else {
        dimmed_text(seq!['-', '0'])
    })
}

/// The commits cell: the count in cyan, or a dimmed `-` when zero.
pub open spec fn commits_cell(m: GitMetrics) -> Seq<char> {
    if m.commits_ahead == 0 {
        dimmed_text(seq!['-'])
    } else {
        tinted(Tint::Cyan, decimal(m.commits_ahead as nat))
    }
}

/// The text of a cell.
pub open spec fn cell_spec(c: TaskColumn, row: TaskRow, pending_delete: bool) -> Seq<char> {
    match c {
        TaskColumn::Id => decimal(row.task.id as nat),
        TaskColumn::Slug => row.task.slug@,
        TaskColumn::Status => status_cell(row, pending_delete),
        TaskColumn::Uncommitted => uncommitted_cell(row.git_metrics),
        TaskColumn::Commits => commits_cell(row.git_metrics),
        TaskColumn::Base => match stored_base_branch(row.frontmatter) {
            Some(b) => b@,
            None => seq!['m', 'a', 'i', 'n'],
        },
        TaskColumn::Agent => match row.frontmatter {
            Some(f) if f.agent is Some => f.agent->0@,
            _ => match row.config.agent {
                Some(a) => a@,
                None => seq!['-'],
            },
        },
    }
}

fn signed_count(sign: char, n: u64) -> (r: String)
    ensures
        r@ == seq![sign] + decimal(n as nat),
{
    let mut out: Vec<char> = Vec::new();
    out.push(sign);
    push_decimal(&mut out, n);
    assert(out@ =~= seq![sign] + decimal(n as nat));
    string_from_chars(out.as_slice())
}

impl TaskColumn {
    /// The columns in display order.
    pub fn all() -> (r: Vec<TaskColumn>)
        ensures
            r@ == all_columns(),
    {
        let r = vec![
            TaskColumn::Id,
            TaskColumn::Slug,
            TaskColumn::Status,
            TaskColumn::Uncommitted,
            TaskColumn::Commits,
            TaskColumn::Base,
            TaskColumn::Agent,
        ];
        assert(r@ =~= all_columns());
        r
    }

    /// The header text.
    pub fn header(self) -> (r: String)
        ensures
            r@ == header_spec(self),
    {
        proof {
            reveal_strlit("ID");
            reveal_strlit("SLUG");
            reveal_strlit("STATUS");
            reveal_strlit("UNCOMMITTED");
            reveal_strlit("COMMITS");
            reveal_strlit("BASE");
            reveal_strlit("AGENT");
        }
        match self {
            TaskColumn::Id => "ID".to_string(),
            TaskColumn::Slug => "SLUG".to_string(),
            TaskColumn::Status => "STATUS".to_string(),
            TaskColumn::Uncommitted => "UNCOMMITTED".to_string(),
            TaskColumn::Commits => "COMMITS".to_string(),
            TaskColumn::Base => "BASE".to_string(),
            TaskColumn::Agent => "AGENT".to_string(),
        }
    }

    /// The flex weight: higher is wider.
    pub fn weight(self) -> (w: u8)
        ensures
            w == weight_spec(self),
    {
        match self {
            TaskColumn::Slug | TaskColumn::Agent => 2,
            _ => 1,
        }
    }

    /// Percentage widths of all columns from their weights (rounded down,
    /// so they add up to at most 100).
    pub fn width_percentages() -> (r: Vec<u16>)
        ensures
            r@.len() == all_columns().len(),
            forall|i: int| 0 <= i < r@.len() ==> #[trigger] r@[i] == (weight_spec(all_columns()[i]) * 100) as int / total_weight(all_columns()) as int,
    {
        let cols = TaskColumn::all();
        let mut total: u16 = 0;
        let mut i: usize = 0;
        while i < cols.len()
            invariant
                i <= cols.len(),
                cols@ == all_columns(),
                total == total_weight(cols@.take(i as int)),
                total <= 2 * i,
            decreases cols.len() - i,
        {
            assert(cols@.take(i + 1).drop_last() =~= cols@.take(i as int));
            total = total + cols[i].weight() as u16;
            i += 1;
        }
        assert(cols@.take(7) =~= cols@);
        assert(total == 9) by {
            reveal_with_fuel(total_weight, 8);
        }
        let mut out: Vec<u16> = Vec::new();
        let mut j: usize = 0;
        while j < cols.len()
            invariant
                j <= cols.len(),
                cols@ == all_columns(),
                total == total_weight(all_columns()),
                total == 9,
                out@.len() == j,
                forall|k: int| 0 <= k < j ==> #[trigger] out@[k] == (weight_spec(all_columns()[k]) * 100) as int / total_weight(all_columns()) as int,
            decreases cols.len() - j,
        {
            let w = cols[j].weight() as u16;
            out.push(w * 100 / total);
            j += 1;
        }
        out
    }

    fn format_status(row: &TaskRow, pending_delete: bool) -> (r: String)
        ensures
            r@ == status_cell(*row, pending_delete),
    {
        if pending_delete {
            proof {
                reveal_strlit("Loading");
            }
            assert("Loading"@ =~= seq!['L', 'o', 'a', 'd', 'i', 'n', 'g']);
            return dim("Loading");
        }
        let status = if row.completed {
            TaskStatus::Completed
        } else {
            derive_status(
                match &row.session {
                    Some(s) => Some(s),
                    None => None,
                },
                row.wt_exists,
            )
        };
        assert(status == row_status(*row));
        let label = status.label();
        match status {
            TaskStatus::Running | TaskStatus::Completed => tint(label.as_str(), Tint::Green),
            TaskStatus::Idle => tint(label.as_str(), Tint::Blue),
            TaskStatus::Exited | TaskStatus::Stopped => tint(label.as_str(), Tint::Red),
            TaskStatus::Draft => tint(label.as_str(), Tint::Yellow),
            TaskStatus::Other(w) => w,
        }
    }

    /// The text of this column's cell for `row`, with ANSI colors.
    pub fn cell(self, row: &TaskRow, pending_delete: bool) -> (r: String)
        ensures
            r@ == cell_spec(self, *row, pending_delete),
    {
        match self {
            TaskColumn::Id => u64_to_string(row.task.id as u64),
            TaskColumn::Slug => row.task.slug.clone(),
            TaskColumn::Status => TaskColumn::format_status(row, pending_delete),
            TaskColumn::Uncommitted => {
                let m = row.git_metrics;
                proof {
                    reveal_strlit("+0");
                    reveal_strlit("-0");
                }
                let plus = if m.uncommitted_add > 0 {
                    let s = signed_count('+', m.uncommitted_add);
                    tint(s.as_str(), Tint::Green)
                } else {
                    assert("+0"@ =~= seq!['+', '0']);
                    dim("+0")
                };
                let minus = if m.uncommitted_del > 0 {
                    let s = signed_count('-', m.uncommitted_del);
                    tint(s.as_str(), Tint::Red)
                } else {
                    assert("-0"@ =~= seq!['-', '0']);
                    dim("-0")
                };
                let mut out: Vec<char> = Vec::new();
                crate::text::push_str_chars(&mut out, plus.as_str());
                crate::text::push_str_chars(&mut out, minus.as_str());
                assert(out@ =~= uncommitted_cell(m));
                string_from_chars(out.as_slice())
            },
            TaskColumn::Commits => {
                if row.git_metrics.commits_ahead == 0 {
                    proof {
                        reveal_strlit("-");
                    }
                    assert("-"@ =~= seq!['-']);
                    dim("-")
                } else {
                    let s = u64_to_string(row.git_metrics.commits_ahead);
                    tint(s.as_str(), Tint::Cyan)
                }
            },
            TaskColumn::Base => {
                proof {
                    reveal_strlit("main");
                }
                let fallback = || -> (m: String)
                    ensures
                        m@ == seq!['m', 'a', 'i', 'n'],
                    {
                        assert("main"@ =~= seq!['m', 'a', 'i', 'n']);
                        "main".to_string()
                    };
                row.frontmatter.base_branch_or(fallback)
            },
            TaskColumn::Agent => {
                match agent_for_task(&row.config, row.frontmatter.as_ref()) {
                    Some(a) => a,
                    None => {
                        proof {
                            reveal_strlit("-");
                        }
                        assert("-"@ =~= seq!['-']);
                        "-".to_string()
                    },
                }
            },
        }
    }
}

} // verus!
