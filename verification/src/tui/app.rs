//! The interface's top-level state: which pane has focus and which overlay,
//! if any, is open.
use vstd::prelude::*;
use crate::keys::{KeyCode, KeyInput};
use crate::tui::confirm_dialog::ConfirmDialogState;
use crate::tui::file_input_overlay::FileInputState;
use crate::tui::files_overlay::FilesOverlayState;
use crate::tui::select_menu::SelectMenuState;
use crate::tui::task_table::Action;
use crate::text::{decimal, push_decimal, push_str_chars, string_from_chars};

verus! {

/// Which pane has focus.
#[derive(Clone, Copy, Debug, PartialEq, Eq, Structural)]
pub enum Focus {
    Tasks,
    Log,
}

impl Default for Focus {
    fn default() -> (f: Self)
        ensures
            f == Focus::Tasks,
    {
        Focus::Tasks
    }
}

/// What the interface is doing: showing the list, or one overlay.
pub enum Mode {
    List,
    InputSlug,
    FilesOverlay(FilesOverlayState),
    FileInput(FileInputState),
    SelectMenu(SelectMenuState),
    ConfirmDialog(ConfirmDialogState),
}

impl Default for Mode {
    fn default() -> (m: Self)
        ensures
            m is List,
    {
        Mode::List
    }
}

/// Which set of key hints the help bar shows.
#[derive(Clone, Copy, Debug, PartialEq, Eq, Structural)]
pub enum HelpSet {
    /// The task list.
    Tasks,
    /// The command log.
    Log,
    /// A text input or menu.
    Input,
    /// The files overlay.
    Files,
    /// The file path input.
    FileInput,
}

/// The key hints for a mode and focus: those of the open overlay, else
/// those of the focused pane.
pub open spec fn help_set_spec(mode: Mode, focus: Focus) -> HelpSet {
    match mode {
        Mode::InputSlug | Mode::SelectMenu(_) => HelpSet::Input,
        Mode::FilesOverlay(_) => HelpSet::Files,
        Mode::FileInput(_) => HelpSet::FileInput,
        Mode::List | Mode::ConfirmDialog(_) => match focus {
            Focus::Log => HelpSet::Log,
            Focus::Tasks => HelpSet::Tasks,
        },
    }
}

/// The key hints for a mode and focus.
pub fn help_set(mode: &Mode, focus: Focus) -> (h: HelpSet)
    ensures
        h == help_set_spec(*mode, focus),
{
    match mode {
        Mode::InputSlug | Mode::SelectMenu(_) => HelpSet::Input,
        Mode::FilesOverlay(_) => HelpSet::Files,
        Mode::FileInput(_) => HelpSet::FileInput,
        Mode::List | Mode::ConfirmDialog(_) => match focus {
            Focus::Log => HelpSet::Log,
            Focus::Tasks => HelpSet::Tasks,
        },
    }
}

/// In the list, `1` focuses the task list and `2` the command log; the
/// new focus, or `None` when the key does not switch focus.
pub fn focus_switch(key: KeyInput) -> (r: Option<Focus>)
    ensures
        r == (if key.code == KeyCode::Char('1') {
            Some(Focus::Tasks)
        } else if key.code == KeyCode::Char('2') {
            Some(Focus::Log)
        } else {
            None::<Focus>
        }),
{
    if key.code == KeyCode::Char('1') {
        Some(Focus::Tasks)
    } else if key.code == KeyCode::Char('2') {
        Some(Focus::Log)
    } else {
        None
    }
}

/// A command the interface runs in the background for a task.
#[derive(Clone, Copy, Debug, PartialEq, Eq, Structural)]
pub enum TaskCommand {
    Start,
    Stop,
    Merge,
    Open,
    Shell,
    Remove,
    Reset,
}

/// What the interface does for an action of the task table.
#[derive(Debug, PartialEq, Eq)]
pub enum Dispatch {
    /// Nothing.
    Idle,
    /// Tell the daemon which task is focused.
    FocusChanged { id: u32 },
    /// Edit the task, or attach to its session.
    EditOrAttach { id: u32, session: Option<u64> },
    /// Open the new-task input.
    OpenNewTask { start_and_attach: bool },
    /// Run a command for a task: the line shown in the command log (if
    /// any), and whether the task shows as being deleted meanwhile.
    Run { command: TaskCommand, id: u32, log_line: Option<String>, mark_pending_delete: bool },
}

/// The command-log line of a task command, if it logs one.
pub open spec fn log_line_spec(c: TaskCommand, id: u32) -> Option<Seq<char>> {
    let n = decimal(id as nat);
    match c {
        TaskCommand::Start => Some("agency start --no-attach "@ + n),
        TaskCommand::Stop => Some("agency stop --task "@ + n),
        TaskCommand::Merge => Some("agency merge "@ + n),
        TaskCommand::Remove => Some("agency rm "@ + n),
        TaskCommand::Reset => Some("agency reset "@ + n),
        TaskCommand::Open | TaskCommand::Shell => None,
    }
}

fn log_line(c: TaskCommand, id: u32) -> (r: Option<String>)
    ensures
        match r {
            Some(l) => log_line_spec(c, id) == Some(l@),
            None => log_line_spec(c, id) is None,
        },
{
    let head = match c {
        TaskCommand::Start => "agency start --no-attach ",
        TaskCommand::Stop => "agency stop --task ",
        TaskCommand::Merge => "agency merge ",
        TaskCommand::Remove => "agency rm ",
        TaskCommand::Reset => "agency reset ",
        TaskCommand::Open | TaskCommand::Shell => return None,
    };
    let mut out: Vec<char> = Vec::new();
    push_str_chars(&mut out, head);
    push_decimal(&mut out, id as u64);
    Some(string_from_chars(out.as_slice()))
}

/// The command an action runs, if it runs one.
pub open spec fn action_command(a: Action) -> Option<(TaskCommand, u32)> {
    match a {
        Action::StartTask { id } => Some((TaskCommand::Start, id)),
        Action::StopTask { id } => Some((TaskCommand::Stop, id)),
        Action::MergeTask { id } => Some((TaskCommand::Merge, id)),
        Action::OpenTask { id } => Some((TaskCommand::Open, id)),
        Action::ShellTask { id } => Some((TaskCommand::Shell, id)),
        Action::DeleteTask { id } => Some((TaskCommand::Remove, id)),
        Action::ResetTask { id } => Some((TaskCommand::Reset, id)),
        _ => None,
    }
}

/// `d` is what the interface does for `action`.
pub open spec fn planned(action: Action, d: Dispatch) -> bool {
    &&& action is Noop ==> d is Idle
    &&& action matches Action::SelectionChanged { id } ==> d == (Dispatch::FocusChanged { id })
    &&& action matches Action::EditOrAttach { id, session } ==> d == (Dispatch::EditOrAttach { id, session })
    &&& action matches Action::NewTask { start_and_attach } ==> d == (Dispatch::OpenNewTask { start_and_attach })
    &&& action_command(action) matches Some((c, id)) ==> (d matches Dispatch::Run { command, id: i, log_line, mark_pending_delete }
        && command == c && i == id && mark_pending_delete == (c == TaskCommand::Remove)
        && match log_line {
            Some(l) => log_line_spec(c, id) == Some(l@),
            None => log_line_spec(c, id) is None,
        })
}

/// What to do for an action of the task table: selection changes are
/// reported, Enter edits or attaches, `n`/`N` open the new-task input, and
/// task commands run in the background, logged (except opening an editor
/// or a shell); a removal marks the task as being deleted.
pub fn dispatch_plan(action: Action) -> (d: Dispatch)
    ensures
        planned(action, d),
{
    let (c, id) = match action {
        Action::Noop => return Dispatch::Idle,
        Action::SelectionChanged { id } => return Dispatch::FocusChanged { id },
        Action::EditOrAttach { id, session } => return Dispatch::EditOrAttach { id, session },
        Action::NewTask { start_and_attach } => return Dispatch::OpenNewTask { start_and_attach },
        Action::StartTask { id } => (TaskCommand::Start, id),
        Action::StopTask { id } => (TaskCommand::Stop, id),
        Action::MergeTask { id } => (TaskCommand::Merge, id),
        Action::OpenTask { id } => (TaskCommand::Open, id),
        Action::ShellTask { id } => (TaskCommand::Shell, id),
        Action::DeleteTask { id } => (TaskCommand::Remove, id),
        Action::ResetTask { id } => (TaskCommand::Reset, id),
    };
    Dispatch::Run { command: c, id, log_line: log_line(c, id), mark_pending_delete: c == TaskCommand::Remove }
}

} // verus!
