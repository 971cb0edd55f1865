use agency::tui::task_table::{task_rows, TaskDetails};
use agency::config::AgencyConfig;
use agency::session::{derive_status, latest_sessions_by_task, session_for_task, SessionInfo, TaskMeta, TaskStatus};
use agency::task::{TaskFrontmatter, TaskRef};
use agency::task_columns::{GitMetrics, TaskColumn, TaskRow};
use agency::term::strip_ansi_control_codes;

fn make_session(session_id: u64, task_id: u32, slug: &str, status: &str, created_at_ms: u64) -> SessionInfo {
    SessionInfo {
        session_id,
        task: TaskMeta { id: task_id, slug: slug.to_string() },
        cwd: "/work".to_string(),
        status: status.to_string(),
        clients: 1,
        created_at_ms,
    }
}

fn make_task(id: u32, slug: &str) -> TaskRef {
    TaskRef { id, slug: slug.to_string() }
}

fn row(task: TaskRef, session: Option<&SessionInfo>, m: GitMetrics) -> TaskRow {
    TaskRow::new(&AgencyConfig::empty(), task, session, m, false, false, None)
}

#[test]
fn header_returns_expected_values() {
    assert_eq!(TaskColumn::Id.header(), "ID");
    assert_eq!(TaskColumn::Slug.header(), "SLUG");
    assert_eq!(TaskColumn::Status.header(), "STATUS");
    assert_eq!(TaskColumn::Uncommitted.header(), "UNCOMMITTED");
    assert_eq!(TaskColumn::Commits.header(), "COMMITS");
    assert_eq!(TaskColumn::Base.header(), "BASE");
    assert_eq!(TaskColumn::Agent.header(), "AGENT");
}

#[test]
fn width_percentages_are_calculated_from_weights() {
    let widths = TaskColumn::width_percentages();
    assert_eq!(widths.len(), TaskColumn::all().len());
    let total: u16 = widths.iter().sum();
    assert!((95..=100).contains(&total), "Total should be close to 100, got {total}");
}

#[test]
fn width_percentages_follow_weights() {
    assert_eq!(TaskColumn::width_percentages(), vec![11, 22, 11, 11, 11, 11, 22]);
    assert_eq!(TaskColumn::Slug.weight(), 2);
    assert_eq!(TaskColumn::Id.weight(), 1);
}

#[test]
fn cell_returns_colored_output() {
    let task = make_task(42, "test-task");
    let session = make_session(1, 42, "test-task", "Running", 0);
    let m = GitMetrics { uncommitted_add: 5, uncommitted_del: 3, commits_ahead: 2 };
    let r = row(task, Some(&session), m);
    assert_eq!(strip_ansi_control_codes(&TaskColumn::Id.cell(&r, false)), "42");
    let status_cell = TaskColumn::Status.cell(&r, false);
    assert_eq!(strip_ansi_control_codes(&status_cell), "Running");
    assert!(status_cell.contains("\x1b["));
    assert_eq!(strip_ansi_control_codes(&TaskColumn::Uncommitted.cell(&r, false)), "+5-3");
    assert_eq!(strip_ansi_control_codes(&TaskColumn::Commits.cell(&r, false)), "2");
}

#[test]
fn pending_delete_shows_loading() {
    let session = make_session(1, 1, "test", "Running", 0);
    let r = row(make_task(1, "test"), Some(&session), GitMetrics::default());
    assert_eq!(strip_ansi_control_codes(&TaskColumn::Status.cell(&r, true)), "Loading");
}

#[test]
fn uncommitted_zeros_are_dimmed() {
    let r = row(make_task(1, "test"), None, GitMetrics::default());
    let cell = TaskColumn::Uncommitted.cell(&r, false);
    assert_eq!(strip_ansi_control_codes(&cell), "+0-0");
    assert!(cell.contains("\x1b["));
}

#[test]
fn commits_zero_shows_dash() {
    let r = row(make_task(1, "test"), None, GitMetrics::default());
    let cell = TaskColumn::Commits.cell(&r, false);
    assert_eq!(strip_ansi_control_codes(&cell), "-");
    assert!(cell.contains("\x1b["));
}

#[test]
fn base_and_agent_cells() {
    let mut cfg = AgencyConfig::empty();
    cfg.agent = Some("coder".to_string());
    let fm = TaskFrontmatter { agent: None, base_branch: Some("dev".to_string()) };
    let r = TaskRow::new(&cfg, make_task(1, "a"), None, GitMetrics::default(), false, false, Some(fm));
    assert_eq!(TaskColumn::Base.cell(&r, false), "dev");
    assert_eq!(TaskColumn::Agent.cell(&r, false), "coder");
    let bare = row(make_task(1, "a"), None, GitMetrics::default());
    assert_eq!(TaskColumn::Base.cell(&bare, false), "main");
    assert_eq!(TaskColumn::Agent.cell(&bare, false), "-");
}

#[test]
fn task_row_with_running_session() {
    let session = make_session(9, 1, "alpha", "Running", 900);
    let r = row(make_task(1, "alpha"), Some(&session), GitMetrics::default());
    assert_eq!(r.id(), 1);
    assert_eq!(r.task.slug, "alpha");
    assert_eq!(r.session_id(), Some(9));
    assert_eq!(strip_ansi_control_codes(&TaskColumn::Status.cell(&r, false)), "Running");
}

#[test]
fn task_row_without_session_is_draft() {
    let r = row(make_task(1, "alpha"), None, GitMetrics::default());
    assert_eq!(r.session_id(), None);
    assert_eq!(strip_ansi_control_codes(&TaskColumn::Status.cell(&r, false)), "Draft");
}

#[test]
fn task_row_with_exited_session() {
    let session = make_session(11, 2, "beta", "Exited", 1100);
    let r = row(make_task(2, "beta"), Some(&session), GitMetrics::default());
    assert_eq!(strip_ansi_control_codes(&TaskColumn::Status.cell(&r, false)), "Exited");
}

#[test]
fn task_row_with_idle_session() {
    let session = make_session(10, 1, "alpha", "Idle", 1000);
    let r = row(make_task(1, "alpha"), Some(&session), GitMetrics::default());
    assert_eq!(strip_ansi_control_codes(&TaskColumn::Status.cell(&r, false)), "Idle");
}

#[test]
fn status_of_worktree_and_completion() {
    let stopped = TaskRow::new(&AgencyConfig::empty(), make_task(1, "a"), None, GitMetrics::default(), true, false, None);
    assert_eq!(strip_ansi_control_codes(&TaskColumn::Status.cell(&stopped, false)), "Stopped");
    let done = TaskRow::new(&AgencyConfig::empty(), make_task(1, "a"), None, GitMetrics::default(), true, true, None);
    assert_eq!(strip_ansi_control_codes(&TaskColumn::Status.cell(&done, false)), "Completed");
    let odd = make_session(1, 1, "a", "Weird", 0);
    assert_eq!(derive_status(Some(&odd), false), TaskStatus::Other("Weird".to_string()));
    assert_eq!(TaskStatus::Other("Weird".to_string()).label(), "Weird");
}

#[test]
fn latest_session_per_task_wins_by_creation_time() {
    let s = vec![
        make_session(1, 1, "a", "Exited", 100),
        make_session(2, 2, "b", "Running", 50),
        make_session(3, 1, "a", "Running", 300),
        make_session(4, 1, "a", "Idle", 200),
        make_session(5, 2, "b", "Idle", 50),
    ];
    let latest = latest_sessions_by_task(&s);
    assert_eq!(latest.len(), 2);
    let a = session_for_task(&latest, &make_task(1, "a")).unwrap();
    assert_eq!(a.session_id, 3);
    let b = session_for_task(&latest, &make_task(2, "b")).unwrap();
    assert_eq!(b.session_id, 5);
    assert!(session_for_task(&latest, &make_task(3, "c")).is_none());
}

#[test]
fn session_task_meta_names_its_task() {
    let meta = TaskMeta { id: 17, slug: "fix-login".to_string() };
    assert_eq!(meta.to_task_ref(), TaskRef { id: 17, slug: "fix-login".to_string() });
}

#[test]
fn task_rows_sorted_with_latest_session_and_details() {
    let tasks = vec![
        TaskRef { id: 3, slug: "c".to_string() },
        TaskRef { id: 1, slug: "a".to_string() },
        TaskRef { id: 2, slug: "b".to_string() },
    ];
    let sessions = vec![make_session(10, 1, "a", "Running", 5), make_session(11, 1, "a", "Idle", 9), make_session(12, 9, "z", "Idle", 1)];
    let details = vec![TaskDetails {
        task: TaskRef { id: 2, slug: "b".to_string() },
        metrics: GitMetrics { uncommitted_add: 4, uncommitted_del: 1, commits_ahead: 2 },
        wt_exists: true,
        completed: false,
        frontmatter: Some(TaskFrontmatter { agent: Some("coder".to_string()), base_branch: None }),
    }];
    let rows = task_rows(&AgencyConfig::empty(), tasks, &sessions, &details);
    let ids: Vec<u32> = rows.iter().map(|r| r.task.id).collect();
    assert_eq!(ids, vec![1, 2, 3]);
    assert_eq!(rows[0].session.as_ref().map(|s| s.session_id), Some(11));
    assert!(rows[1].session.is_none());
    assert_eq!(rows[1].git_metrics.uncommitted_add, 4);
    assert!(rows[1].wt_exists);
    assert_eq!(rows[2].git_metrics, GitMetrics::default());
    assert!(!rows[2].wt_exists);
    assert!(rows[2].frontmatter.is_none());
}
