//! The interface's state and what a key press does to it. The event loop
//! reads a key, hands it here, and carries out the returned effect (running
//! a command, opening a file, ...); everything else is decided here.
use vstd::prelude::*;
use crate::config::{AgencyConfig, AgentEntry};
use crate::files::FileRef;
use crate::text::{chars_order, decimal, push_decimal, push_str_chars, sorted_strings, str_eq, string_from_chars, string_seq_views};
use crate::tui::confirm_dialog::{command_log_spec, confirm_step, ConfirmDialogState, ConfirmOutcome};
use crate::tui::file_input_overlay::{file_input_keyed, FileInputAction, FileInputState};
use crate::tui::files_overlay::{files_keyed, FilesOutcome, FilesOverlayState};
use crate::tui::input_overlay::{overlay_keyed, Action as InputAction};
use crate::tui::select_menu::{menu_step, MenuOutcome, SelectMenuState};
use crate::keys::{KeyCode, KeyInput};
use crate::log::LogEvent;
use crate::task::TaskRef;
use crate::tui::app::{dispatch_plan, planned, Dispatch, Focus, Mode};
use crate::tui::command_log::{pushed, CommandLogState, DEFAULT_LOG_HEIGHT};
use crate::tui::input_overlay::{default_agent_spec, InputOverlayState};
use crate::tui::task_table::{table_step, without_id, TaskTableState, PENDING_DELETE_MS};

verus! {

/// What the event loop does after a key press.
pub enum Effect {
    /// Nothing beyond the state change.
    Nothing,
    /// Leave the interface.
    Quit,
    /// Carry out what the task table asked for: report the focused task,
    /// edit or attach, or run a task command.
    Table(Dispatch),
    /// Create a task (and start and attach to it), then refresh.
    CreateTask { slug: String, agent: Option<String>, start_and_attach: bool },
    /// Open an attached file.
    OpenFile { task: TaskRef, file: FileRef },
    /// Open a task's files directory.
    OpenDirectory { task: TaskRef },
    /// Attach the image on the clipboard.
    PasteClipboard { task: TaskRef },
    /// Attach the file at `path`, then show the task's files again.
    AddFile { task: TaskRef, path: String },
    /// Show the task's files again.
    ShowFiles { task: TaskRef },
    /// Complete a task: merge it and delete it.
    CompleteTask { id: u32 },
}

/// The interface's state.
pub struct AppState {
    pub task_table: TaskTableState,
    pub command_log: CommandLogState,
    /// The new-task overlay while it is open (or behind the agent menu).
    pub input_overlay: Option<InputOverlayState>,
    pub focus: Focus,
    pub mode: Mode,
}

/// Control-c, which leaves the interface from any view.
pub open spec fn is_quit(key: KeyInput) -> bool {
    key.code == KeyCode::Char('c') && key.ctrl
}

/// `b` is the log `a` with `ev` appended.
pub open spec fn log_appended(a: CommandLogState, b: CommandLogState, ev: LogEvent) -> bool {
    &&& b.entries@ == pushed(a.entries@, ev)
    &&& b.scroll == a.scroll
    &&& b.height == a.height
    &&& b.visible == a.visible
    &&& b.dragging == a.dragging
    &&& b.border_y == a.border_y
}

/// `b` is the log `a` scrolled back to the latest entry.
pub open spec fn log_scrolled_back(a: CommandLogState, b: CommandLogState) -> bool {
    &&& b.entries == a.entries
    &&& b.scroll == 0
    &&& b.height == a.height
    &&& b.visible == a.visible
    &&& b.dragging == a.dragging
    &&& b.border_y == a.border_y
}

/// `b` is the log `a` after a key press in the log pane: Up/`k` scroll
/// back a line, Down/`j` forward.
pub open spec fn log_keyed(a: CommandLogState, b: CommandLogState, key: KeyInput) -> bool {
    &&& b.entries == a.entries
    &&& b.height == a.height
    &&& b.visible == a.visible
    &&& b.dragging == a.dragging
    &&& b.border_y == a.border_y
    &&& b.scroll == (if key.code is Up || key.code == KeyCode::Char('k') {
        if a.scroll == usize::MAX { usize::MAX } else { (a.scroll + 1) as usize }
    } else if key.code is Down || key.code == KeyCode::Char('j') {
        if a.scroll == 0 { 0 } else { (a.scroll - 1) as usize }
    } else {
        a.scroll
    })
}

/// `b` is the table `a` with the selection `sel`.
pub open spec fn table_selected(a: TaskTableState, b: TaskTableState, sel: usize) -> bool {
    &&& b.rows == a.rows
    &&& b.selected == sel
    &&& b.pending_delete == a.pending_delete
    &&& b.tui_id == a.tui_id
}

/// The time until which a task marked at `now_ms` shows as being deleted.
pub open spec fn pending_until(now_ms: u64) -> u64 {
    if now_ms > u64::MAX - PENDING_DELETE_MS { u64::MAX } else { (now_ms + PENDING_DELETE_MS) as u64 }
}

/// After a key press in the list with the task table focused: the table
/// moves its selection and names an action; the interface plans it, logs
/// the command it runs, shows a removed task as being deleted, and opens
/// the new-task overlay when asked.
pub open spec fn table_key_post(o: AppState, n: AppState, key: KeyInput, cfg: AgencyConfig, now_ms: u64, r: Effect) -> bool {
    let (a, sel) = table_step(o.task_table.rows@, o.task_table.selected, key);
    &&& n.focus == o.focus
    &&& r matches Effect::Table(d) && planned(a, d) && match d {
        Dispatch::OpenNewTask { start_and_attach } => {
            &&& n.mode is InputSlug
            &&& n.input_overlay matches Some(ov) && ov.selected_agent == default_agent_spec(cfg)
                && ov.start_and_attach == start_and_attach && ov.text_input.input@.len() == 0
            &&& n.command_log == o.command_log
            &&& table_selected(o.task_table, n.task_table, sel)
        },
        Dispatch::Run { command, id, log_line, mark_pending_delete } => {
            &&& n.mode is List
            &&& n.input_overlay == o.input_overlay
            &&& match log_line {
                Some(l) => log_appended(o.command_log, n.command_log, LogEvent::Command(l)),
                None => n.command_log == o.command_log,
            }
            &&& n.task_table.rows == o.task_table.rows
            &&& n.task_table.selected == sel
            &&& n.task_table.tui_id == o.task_table.tui_id
            &&& n.task_table.pending_delete@ == (if mark_pending_delete {
                without_id(o.task_table.pending_delete@, id).push((id, pending_until(now_ms)))
            } else {
                o.task_table.pending_delete@
            })
        },
        _ => {
            &&& n.mode is List
            &&& n.input_overlay == o.input_overlay
            &&& n.command_log == o.command_log
            &&& table_selected(o.task_table, n.task_table, sel)
        },
    }
}

/// After a key press in the list: `1` focuses the task table (and scrolls
/// the log back), `2` focuses the log; other keys go to the focused pane.
pub open spec fn list_key_post(o: AppState, n: AppState, key: KeyInput, cfg: AgencyConfig, now_ms: u64, r: Effect) -> bool {
    if key.code == KeyCode::Char('1') {
        &&& r is Nothing
        &&& n.focus == Focus::Tasks
        &&& n.mode is List
        &&& n.input_overlay == o.input_overlay
        &&& n.task_table == o.task_table
        &&& log_scrolled_back(o.command_log, n.command_log)
    } else if key.code == KeyCode::Char('2') {
        &&& r is Nothing
        &&& n.focus == Focus::Log
        &&& n.mode is List
        &&& n.input_overlay == o.input_overlay
        &&& n.task_table == o.task_table
        &&& n.command_log == o.command_log
    } else if o.focus == Focus::Log {
        &&& r is Nothing
        &&& n.focus == o.focus
        &&& n.mode is List
        &&& n.input_overlay == o.input_overlay
        &&& n.task_table == o.task_table
        &&& log_keyed(o.command_log, n.command_log, key)
    } else {
        table_key_post(o, n, key, cfg, now_ms, r)
    }
}

/// The names of the defined agents, in configuration order.
pub open spec fn agent_names(cfg: AgencyConfig) -> Seq<Seq<char>> {
    cfg.agents@.map_values(|e: AgentEntry| e.name@)
}

/// The first position of `name` among `names`, from `k` on.
pub open spec fn name_position(names: Seq<Seq<char>>, name: Seq<char>, k: int) -> Option<int>
    decreases names.len() - k,
{
    if k < 0 || k >= names.len() {
        None
    } else if names[k] == name {
        Some(k)
    } else {
        name_position(names, name, k + 1)
    }
}

/// The entry the agent menu starts on: the current agent's, else the first.
pub open spec fn menu_start(names: Seq<Seq<char>>, agent: Option<String>) -> int {
    match agent {
        Some(a) => match name_position(names, a@, 0) {
            Some(k) => k,
            None => 0,
        },
        None => 0,
    }
}

/// The views of the menu items.
pub open spec fn item_names(items: Seq<String>) -> Seq<Seq<char>> {
    items.map_values(|s: String| s@)
}

/// After a key press in the new-task overlay: the overlay handles it;
/// Esc closes it, Control-a opens the agent menu over it, a valid slug
/// closes it and creates the task (logged when it is also started).
pub open spec fn input_key_post(o: AppState, n: AppState, key: KeyInput, cfg: AgencyConfig, r: Effect) -> bool {
    &&& n.task_table == o.task_table
    &&& n.focus == o.focus
    &&& match o.input_overlay {
        None => r is Nothing && n.mode is List && n.input_overlay is None && n.command_log == o.command_log,
        Some(ov) => exists|ov2: InputOverlayState, a: InputAction| #[trigger] overlay_keyed(ov, ov2, key, a) && match a {
            InputAction::Noop => r is Nothing && n.mode is InputSlug && n.input_overlay == Some(ov2) && n.command_log == o.command_log,
            InputAction::Cancel => r is Nothing && n.mode is List && n.input_overlay is None && n.command_log == o.command_log,
            InputAction::OpenAgentMenu => {
                &&& r is Nothing
                &&& n.input_overlay == Some(ov2)
                &&& n.command_log == o.command_log
                &&& n.mode matches Mode::SelectMenu(m) && m.title@ == "Select agent"@
                    && item_names(m.items@) == menu_names(cfg)
                    && m.selected == (if menu_names(cfg).len() == 0 { 0 } else { menu_start(menu_names(cfg), ov.selected_agent) as usize })
            },
            InputAction::Submit { slug, agent, start_and_attach } => {
                &&& n.mode is List
                &&& n.input_overlay is None
                &&& r matches Effect::CreateTask { slug: s2, agent: a2, start_and_attach: b2 } && s2 == slug && a2 == agent && b2 == start_and_attach
                &&& if start_and_attach {
                    exists|line: String| line@ == "agency new "@ + slug@ + " + start"@ && #[trigger] log_appended(o.command_log, n.command_log, LogEvent::Command(line))
                } else {
                    n.command_log == o.command_log
                }
            },
        },
    }
}

/// After a key press in the agent menu (`m` before it): the menu moves or
/// picks; a pick sets the overlay's agent; both a pick and Cancel go back
/// to the overlay.
pub open spec fn menu_key_post(o: AppState, n: AppState, m: SelectMenuState, key: KeyInput, r: Effect) -> bool {
    let (out, sel) = menu_step(m.selected, m.items@.len() as usize, key);
    &&& r is Nothing
    &&& n.task_table == o.task_table
    &&& n.command_log == o.command_log
    &&& n.focus == o.focus
    &&& match out {
        MenuOutcome::Continue => n.mode matches Mode::SelectMenu(m2) && m2.items == m.items && m2.title == m.title
            && m2.selected == sel && n.input_overlay == o.input_overlay,
        MenuOutcome::Canceled => n.mode is InputSlug && n.input_overlay == o.input_overlay,
        MenuOutcome::Selected(i) => n.mode is InputSlug && (if i < m.items@.len() && o.input_overlay is Some {
            n.input_overlay matches Some(ov2) && ov2.selected_agent == Some(m.items@[i as int])
                && ov2.start_and_attach == o.input_overlay->0.start_and_attach
                && ov2.text_input.input == o.input_overlay->0.text_input.input
        } else {
            n.input_overlay == o.input_overlay
        }),
    }
}

/// After a key press in a confirmation dialog (`d` before it): the dialog
/// answers or moves its highlight; confirming logs the action, shows the
/// task as being deleted and completes it.
pub open spec fn confirm_key_post(o: AppState, n: AppState, d: ConfirmDialogState, key: KeyInput, now_ms: u64, r: Effect) -> bool {
    let (out, sel) = confirm_step(d.selected, key);
    &&& n.focus == o.focus
    &&& n.input_overlay == o.input_overlay
    &&& match out {
        ConfirmOutcome::Continue => r is Nothing && n.task_table == o.task_table && n.command_log == o.command_log
            && (n.mode matches Mode::ConfirmDialog(d2) && d2.selected == sel && d2.action == d.action
            && d2.title == d.title && d2.message == d.message),
        ConfirmOutcome::Canceled => r is Nothing && n.mode is List && n.task_table == o.task_table && n.command_log == o.command_log,
        ConfirmOutcome::Confirmed => {
            let id = match d.action {
                crate::tui::confirm_dialog::ConfirmAction::CompleteTask { id } => id,
            };
            &&& n.mode is List
            &&& r matches Effect::CompleteTask { id: i } && i == id
            &&& exists|line: String| line@ == command_log_spec(d.action) && #[trigger] log_appended(o.command_log, n.command_log, LogEvent::Command(line))
            &&& n.task_table.rows == o.task_table.rows
            &&& n.task_table.selected == o.task_table.selected
            &&& n.task_table.tui_id == o.task_table.tui_id
            &&& n.task_table.pending_delete@ == without_id(o.task_table.pending_delete@, id).push((id, pending_until(now_ms)))
        },
    }
}

/// After a key press in the files overlay (`f` before it): Esc closes it;
/// opening a file or the directory, and pasting (which is logged), keep it
/// open.
pub open spec fn files_key_post(o: AppState, n: AppState, f: FilesOverlayState, key: KeyInput, r: Effect) -> bool {
    &&& n.focus == o.focus
    &&& n.input_overlay == o.input_overlay
    &&& n.task_table == o.task_table
    &&& exists|f2: FilesOverlayState, out: FilesOutcome| #[trigger] files_keyed(f, f2, key, out) && match out {
        FilesOutcome::Continue => r is Nothing && n.mode == Mode::FilesOverlay(f2) && n.command_log == o.command_log,
        FilesOutcome::Canceled => r is Nothing && n.mode is List && n.command_log == o.command_log,
        FilesOutcome::OpenFile(file) => r matches Effect::OpenFile { task, file: g } && task == f.task && g == file
            && n.mode == Mode::FilesOverlay(f2) && n.command_log == o.command_log,
        FilesOutcome::OpenDirectory => r matches Effect::OpenDirectory { task } && task == f.task
            && n.mode == Mode::FilesOverlay(f2) && n.command_log == o.command_log,
        FilesOutcome::PasteClipboard => r matches Effect::PasteClipboard { task } && task == f.task
            && n.mode == Mode::FilesOverlay(f2)
            && exists|line: String| line@ == "agency files add "@ + decimal(f.task.id as nat) + " --from-clipboard"@
                && #[trigger] log_appended(o.command_log, n.command_log, LogEvent::Command(line)),
    }
}

/// After a key press in the file path input (`i` before it): Esc goes back
/// to the task's files; a submitted path is logged and attached.
pub open spec fn file_input_key_post(o: AppState, n: AppState, i: FileInputState, key: KeyInput, r: Effect) -> bool {
    &&& n.focus == o.focus
    &&& n.input_overlay == o.input_overlay
    &&& n.task_table == o.task_table
    &&& exists|i2: FileInputState, a: FileInputAction| #[trigger] file_input_keyed(i, i2, key, a) && match a {
        FileInputAction::Noop => r is Nothing && n.mode == Mode::FileInput(i2) && n.command_log == o.command_log,
        FileInputAction::Cancel => r matches Effect::ShowFiles { task } && task == i.task && n.mode is List
            && n.command_log == o.command_log,
        FileInputAction::Submit { path } => r matches Effect::AddFile { task, path: p } && task == i.task && p == path
            && n.mode is List
            && exists|line: String| line@ == "agency files add "@ + decimal(i.task.id as nat) + " "@ + path@
                && #[trigger] log_appended(o.command_log, n.command_log, LogEvent::Command(line)),
    }
}

/// After a key press that is neither repeated nor Control-c: the current
/// view handles it.
pub open spec fn key_post(o: AppState, n: AppState, key: KeyInput, cfg: AgencyConfig, now_ms: u64, r: Effect) -> bool {
    match o.mode {
        Mode::List => list_key_post(o, n, key, cfg, now_ms, r),
        Mode::InputSlug => input_key_post(o, n, key, cfg, r),
        Mode::SelectMenu(m) => menu_key_post(o, n, m, key, r),
        Mode::ConfirmDialog(d) => confirm_key_post(o, n, d, key, now_ms, r),
        Mode::FilesOverlay(f) => files_key_post(o, n, f, key, r),
        Mode::FileInput(i) => file_input_key_post(o, n, i, key, r),
    }
}

/// The names of the defined agents, in configuration order.
fn agent_name_list(cfg: &AgencyConfig) -> (r: Vec<String>)
    ensures
        item_names(r@) == agent_names(*cfg),
{
    let mut out: Vec<String> = Vec::new();
    let mut i: usize = 0;
    while i < cfg.agents.len()
        invariant
            i <= cfg.agents.len(),
            item_names(out@) == agent_names(*cfg).take(i as int),
        decreases cfg.agents.len() - i,
    {
        let ghost before = out@;
        out.push(cfg.agents[i].name.clone());
        assert(item_names(out@) =~= item_names(before).push(cfg.agents@[i as int].name@));
        assert(agent_names(*cfg).take(i + 1) =~= agent_names(*cfg).take(i as int).push(cfg.agents@[i as int].name@));
        i += 1;
    }
    assert(agent_names(*cfg).take(cfg.agents.len() as int) =~= agent_names(*cfg));
    out
}

/// The agent names as the menu lists them: in the order of `str`'s `Ord`.
pub open spec fn menu_names(cfg: AgencyConfig) -> Seq<Seq<char>> {
    agent_names(cfg).sort_by(chars_order())
}

/// The entry the agent menu starts on, among `items`.
fn agent_menu_start(items: &Vec<String>, agent: &Option<String>) -> (r: usize)
    ensures
        r == menu_start(item_names(items@), *agent),
        items@.len() > 0 ==> r < items@.len(),
{
    let a = match agent {
        Some(a) => a,
        None => return 0,
    };
    let ghost names = item_names(items@);
    let mut k: usize = 0;
    while k < items.len()
        invariant
            k <= items.len(),
            names == item_names(items@),
            *agent == Some(*a),
            name_position(names, a@, 0) == name_position(names, a@, k as int),
        decreases items.len() - k,
    {
        assert(names[k as int] == items@[k as int]@);
        if str_eq(items[k].as_str(), a.as_str()) {
            assert(name_position(names, a@, k as int) == Some(k as int));
            assert(menu_start(names, *agent) == k as int);
            return k;
        }
        k += 1;
    }
    0
}

impl AppState {
    /// The state at start: an empty table with no interface id, an empty log
    /// pane at its default height, shown and not scrolled, the list shown
    /// with the task table focused.
    pub fn new() -> (s: Self)
        ensures
            s.task_table.rows@.len() == 0,
            s.task_table.selected == 0,
            s.task_table.pending_delete@.len() == 0,
            s.task_table.tui_id is None,
            s.command_log.entries@.len() == 0,
            s.command_log.scroll == 0,
            s.command_log.height == DEFAULT_LOG_HEIGHT,
            s.command_log.visible,
            !s.command_log.dragging,
            s.command_log.border_y == 0,
            s.input_overlay is None,
            s.focus == Focus::Tasks,
            s.mode is List,
    {
        AppState {
            task_table: TaskTableState::new(),
            command_log: CommandLogState::new(),
            input_overlay: None,
            focus: Focus::Tasks,
            mode: Mode::List,
        }
    }

    fn on_table_key(&mut self, key: KeyInput, cfg: &AgencyConfig, now_ms: u64) -> (r: Effect)
        requires
            old(self).mode is List,
            old(self).focus == Focus::Tasks,
        ensures
            table_key_post(*old(self), *final(self), key, *cfg, now_ms, r),
    {
        let action = self.task_table.handle_key(key);
        let d = dispatch_plan(action);
        match &d {
            Dispatch::OpenNewTask { start_and_attach } => {
                self.input_overlay = Some(InputOverlayState::new(*start_and_attach, cfg));
                self.mode = Mode::InputSlug;
            },
            Dispatch::Run { command: _, id, log_line, mark_pending_delete } => {
                match log_line {
                    Some(l) => {
                        self.command_log.push(LogEvent::Command(l.clone()));
                    },
                    None => {},
                }
                if *mark_pending_delete {
                    self.task_table.mark_pending_delete(*id, now_ms);
                }
            },
            _ => {},
        }
        Effect::Table(d)
    }

    fn handle_list_mode(&mut self, key: KeyInput, cfg: &AgencyConfig, now_ms: u64) -> (r: Effect)
        requires
            old(self).mode is List,
        ensures
            list_key_post(*old(self), *final(self), key, *cfg, now_ms, r),
    {
        if key.code == KeyCode::Char('1') {
            self.focus = Focus::Tasks;
            self.command_log.reset_scroll();
            return Effect::Nothing;
        }
        if key.code == KeyCode::Char('2') {
            self.focus = Focus::Log;
            return Effect::Nothing;
        }
        match self.focus {
            Focus::Log => {
                let _ = self.command_log.handle_key(key);
                Effect::Nothing
            },
            Focus::Tasks => self.on_table_key(key, cfg, now_ms),
        }
    }

    fn handle_input_mode(&mut self, key: KeyInput, cfg: &AgencyConfig) -> (r: Effect)
        requires
            old(self).mode is InputSlug,
        ensures
            input_key_post(*old(self), *final(self), key, *cfg, r),
    {
        let mut overlay = match self.input_overlay.take() {
            None => {
                self.mode = Mode::List;
                return Effect::Nothing;
            },
            Some(ov) => ov,
        };
        let ghost ov0 = overlay;
        let a = overlay.handle_key(key);
        let ghost ov2 = overlay;
        let ghost a0 = a;
        assert(overlay_keyed(ov0, ov2, key, a0));
        match a {
            InputAction::Noop => {
                self.input_overlay = Some(overlay);
                self.mode = Mode::InputSlug;
                Effect::Nothing
            },
            InputAction::Cancel => {
                self.mode = Mode::List;
                Effect::Nothing
            },
            InputAction::OpenAgentMenu => {
                let names = agent_name_list(cfg);
                let items = sorted_strings(names.as_slice());
                assert(item_names(items@) =~= string_seq_views(items@));
                assert(item_names(names@) =~= string_seq_views(names@));
                let pre = agent_menu_start(&items, &overlay.selected_agent);
                let menu = SelectMenuState::new("Select agent", items, pre);
                proof {
                    reveal_strlit("Select agent");
                }
                self.input_overlay = Some(overlay);
                self.mode = Mode::SelectMenu(menu);
                Effect::Nothing
            },
            InputAction::Submit { slug, agent, start_and_attach } => {
                self.mode = Mode::List;
                if start_and_attach {
                    let mut line: Vec<char> = Vec::new();
                    push_str_chars(&mut line, "agency new ");
                    push_str_chars(&mut line, slug.as_str());
                    push_str_chars(&mut line, " + start");
                    let text = string_from_chars(line.as_slice());
                    assert(text@ =~= "agency new "@ + slug@ + " + start"@);
                    let ghost t = text;
                    self.command_log.push(LogEvent::Command(text));
                    assert(log_appended(old(self).command_log, self.command_log, LogEvent::Command(t)));
                }
                Effect::CreateTask { slug, agent, start_and_attach }
            },
        }
    }

    fn handle_menu_mode(&mut self, menu0: SelectMenuState, key: KeyInput) -> (r: Effect)
        requires
            old(self).mode is List,
        ensures
            menu_key_post(*old(self), *final(self), menu0, key, r),
            final(self).task_table == old(self).task_table,
    {
        let mut menu = menu0;
        match menu.handle_key(key) {
            MenuOutcome::Continue => {
                self.mode = Mode::SelectMenu(menu);
            },
            MenuOutcome::Canceled => {
                self.mode = Mode::InputSlug;
            },
            MenuOutcome::Selected(idx) => {
                if idx < menu.items.len() {
                    match &mut self.input_overlay {
                        Some(ov) => {
                            ov.set_agent(menu.items[idx].clone());
                        },
                        None => {},
                    }
                }
                self.mode = Mode::InputSlug;
            },
        }
        Effect::Nothing
    }

    fn handle_confirm_mode(&mut self, dialog0: ConfirmDialogState, key: KeyInput, now_ms: u64) -> (r: Effect)
        requires
            old(self).mode is List,
        ensures
            confirm_key_post(*old(self), *final(self), dialog0, key, now_ms, r),
    {
        let mut dialog = dialog0;
        match dialog.handle_key(key) {
            ConfirmOutcome::Continue => {
                self.mode = Mode::ConfirmDialog(dialog);
                Effect::Nothing
            },
            ConfirmOutcome::Canceled => Effect::Nothing,
            ConfirmOutcome::Confirmed => {
                let line = dialog.action.command_log();
                let ghost log0 = self.command_log;
                let ghost t = line;
                self.command_log.push(LogEvent::Command(line));
                assert(log_appended(log0, self.command_log, LogEvent::Command(t)));
                let id = dialog.action.task_id();
                self.task_table.mark_pending_delete(id, now_ms);
                assert(log_appended(old(self).command_log, self.command_log, LogEvent::Command(t)));
                Effect::CompleteTask { id }
            },
        }
    }

    fn handle_files_mode(&mut self, overlay0: FilesOverlayState, key: KeyInput) -> (r: Effect)
        requires
            old(self).mode is List,
        ensures
            files_key_post(*old(self), *final(self), overlay0, key, r),
    {
        let ghost f0 = overlay0;
        let mut overlay = overlay0;
        let out = overlay.handle_key(key);
        match out {
            FilesOutcome::Continue => {
                self.mode = Mode::FilesOverlay(overlay);
                Effect::Nothing
            },
            FilesOutcome::Canceled => {
                Effect::Nothing
            },
            FilesOutcome::OpenFile(file) => {
                let task = overlay.task.clone();
                self.mode = Mode::FilesOverlay(overlay);
                let e = Effect::OpenFile { task, file };
                e
            },
            FilesOutcome::OpenDirectory => {
                let task = overlay.task.clone();
                self.mode = Mode::FilesOverlay(overlay);
                let e = Effect::OpenDirectory { task };
                e
            },
            FilesOutcome::PasteClipboard => {
                let task = overlay.task.clone();
                let mut line: Vec<char> = Vec::new();
                push_str_chars(&mut line, "agency files add ");
                push_decimal(&mut line, task.id as u64);
                push_str_chars(&mut line, " --from-clipboard");
                let text = string_from_chars(line.as_slice());
                assert(text@ =~= "agency files add "@ + decimal(f0.task.id as nat) + " --from-clipboard"@);
                let ghost log0 = self.command_log;
                let ghost t = text;
                self.command_log.push(LogEvent::Command(text));
                assert(log_appended(log0, self.command_log, LogEvent::Command(t)));
                self.mode = Mode::FilesOverlay(overlay);
                let e = Effect::PasteClipboard { task };
                assert(log_appended(old(self).command_log, self.command_log, LogEvent::Command(t)));
                e
            },
        }
    }

    fn handle_file_input_mode(&mut self, input0: FileInputState, key: KeyInput) -> (r: Effect)
        requires
            old(self).mode is List,
        ensures
            file_input_key_post(*old(self), *final(self), input0, key, r),
    {
        let ghost i0 = input0;
        let mut input = input0;
        let a = input.handle_key(key);
        let ghost i2 = input;
        let ghost a0 = a;
        assert(file_input_keyed(i0, i2, key, a0));
        match a {
            FileInputAction::Noop => {
                self.mode = Mode::FileInput(input);
                Effect::Nothing
            },
            FileInputAction::Cancel => Effect::ShowFiles { task: input.task },
            FileInputAction::Submit { path } => {
                let mut line: Vec<char> = Vec::new();
                push_str_chars(&mut line, "agency files add ");
                push_decimal(&mut line, input.task.id as u64);
                push_str_chars(&mut line, " ");
                push_str_chars(&mut line, path.as_str());
                let text = string_from_chars(line.as_slice());
                assert(text@ =~= "agency files add "@ + decimal(i0.task.id as nat) + " "@ + path@);
                let ghost log0 = self.command_log;
                let ghost t = text;
                self.command_log.push(LogEvent::Command(text));
                assert(log_appended(log0, self.command_log, LogEvent::Command(t)));
                Effect::AddFile { task: input.task, path }
            },
        }
    }

    /// Handles a key press: auto-repeats are ignored, Control-c quits, and
    /// any other key goes to the current view.
    pub fn handle_key(&mut self, key: KeyInput, cfg: &AgencyConfig, now_ms: u64) -> (r: Effect)
        ensures
            key.repeat ==> r is Nothing && *final(self) == *old(self),
            !key.repeat && is_quit(key) ==> r is Quit && *final(self) == *old(self),
            !key.repeat && !is_quit(key) ==> key_post(*old(self), *final(self), key, *cfg, now_ms, r),
    {
        if key.repeat {
            return Effect::Nothing;
        }
        if key.code == KeyCode::Char('c') && key.ctrl {
            return Effect::Quit;
        }
        let mut mode = Mode::List;
        core::mem::swap(&mut mode, &mut self.mode);
        match mode {
            Mode::List => self.handle_list_mode(key, cfg, now_ms),
            Mode::InputSlug => {
                self.mode = Mode::InputSlug;
                self.handle_input_mode(key, cfg)
            },
            Mode::SelectMenu(menu) => self.handle_menu_mode(menu, key),
            Mode::ConfirmDialog(dialog) => self.handle_confirm_mode(dialog, key, now_ms),
            Mode::FilesOverlay(overlay) => self.handle_files_mode(overlay, key),
            Mode::FileInput(input) => self.handle_file_input_mode(input, key),
        }
    }

    /// Shows the files overlay for `task` with its attached `files`.
    pub fn show_files(&mut self, task: TaskRef, files: Vec<FileRef>)
        ensures
            final(self).mode matches Mode::FilesOverlay(f) && f.task == task && f.files@ == files@ && f.selected == 0,
            final(self).task_table == old(self).task_table,
            final(self).command_log == old(self).command_log,
            final(self).input_overlay == old(self).input_overlay,
            final(self).focus == old(self).focus,
    {
        self.mode = Mode::FilesOverlay(FilesOverlayState::new(task, files));
    }
}

} // verus!
