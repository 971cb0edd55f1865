//! The command log pane: a bounded history of log events, its scroll
//! position, visibility and height.
use vstd::prelude::*;
use crate::keys::{KeyCode, KeyInput, MouseInput, MouseKind};
use crate::log::LogEvent;

verus! {

/// The most entries the command log keeps.
pub const MAX_LOG: usize = 200;

/// Minimum command log height (1 content line + 2 borders).
pub const MIN_LOG_HEIGHT: u16 = 3;

/// Default command log height (5 content lines + 2 borders).
pub const DEFAULT_LOG_HEIGHT: u16 = 7;

/// Terminal height at or below which the log collapses to its minimum.
pub const AUTO_COLLAPSE_THRESHOLD: u16 = 15;

/// State of the command log pane.
pub struct CommandLogState {
    /// The kept entries, oldest first.
    pub entries: Vec<LogEvent>,
    /// Scroll offset from the bottom (0 = stick to the latest entry).
    pub scroll: usize,
    /// The preferred height in rows, borders included.
    pub height: u16,
    /// Whether the pane is shown.
    pub visible: bool,
    /// Whether the user is dragging the pane's top border.
    pub dragging: bool,
    /// The row of the pane's top border, for hit detection.
    pub border_y: u16,
}

/// The first line to show of `total_lines` in a window of `content_h` rows
/// scrolled `scroll` lines up from the bottom.
pub open spec fn start_spec(total_lines: int, content_h: int, scroll: int) -> int {
    if total_lines > content_h + scroll {
        total_lines - (content_h + scroll)
    } else {
        0
    }
}

/// The first line to show, saturating at the top of the history.
pub fn compute_start(total_lines: usize, content_h: usize, scroll: usize) -> (r: usize)
    ensures
        r == start_spec(total_lines as int, content_h as int, (if content_h + scroll > usize::MAX { usize::MAX - content_h } else { scroll as int })),
{
    total_lines.saturating_sub(content_h.saturating_add(scroll))
}

/// The entries kept after appending `ev` to `entries`: the latest
/// `MAX_LOG` of them.
pub open spec fn pushed(entries: Seq<LogEvent>, ev: LogEvent) -> Seq<LogEvent> {
    let all = entries.push(ev);
    if all.len() > MAX_LOG {
        all.skip(all.len() - MAX_LOG)
    } else {
        all
    }
}

/// The height of the pane for a terminal of `terminal_height` rows with
/// `help_rows` rows of help bar: 0 when hidden, the minimum on a small
/// terminal, else the preferred height kept between the minimum and what
/// leaves the task table its minimum.
pub open spec fn effective_height_spec(visible: bool, height: u16, terminal_height: u16, help_rows: u16) -> u16 {
    if !visible {
        0
    } else if terminal_height <= AUTO_COLLAPSE_THRESHOLD {
        MIN_LOG_HEIGHT
    } else {
        let max = (terminal_height - help_rows - MIN_LOG_HEIGHT) as u16;
        if height < MIN_LOG_HEIGHT {
            MIN_LOG_HEIGHT
        } else if height > max {
            max
        } else {
            height
        }
    }
}

/// The preferred height after dragging the top border from `border_y` to
/// `row`: the border follows the mouse, never below the minimum and at most
/// `u16::MAX`.
pub open spec fn dragged_height(height: u16, border_y: u16, row: u16) -> u16 {
    let h = height + border_y - row;
    if h < MIN_LOG_HEIGHT {
        MIN_LOG_HEIGHT
    } else if h > u16::MAX {
        u16::MAX
    } else {
        h as u16
    }
}

impl CommandLogState {
    /// An empty, visible log at the default height.
    pub fn new() -> (s: Self)
        ensures
            s.entries@.len() == 0,
            s.scroll == 0,
            s.height == DEFAULT_LOG_HEIGHT,
            s.visible,
            !s.dragging,
            s.border_y == 0,
    {
        CommandLogState { entries: Vec::new(), scroll: 0, height: DEFAULT_LOG_HEIGHT, visible: true, dragging: false, border_y: 0 }
    }

    /// Appends a log event, dropping the oldest entries beyond `MAX_LOG`.
    pub fn push(&mut self, ev: LogEvent)
        ensures
            final(self).entries@ == pushed(old(self).entries@, ev),
            final(self).entries@.len() <= MAX_LOG,
            final(self).scroll == old(self).scroll,
            final(self).height == old(self).height,
            final(self).visible == old(self).visible,
            final(self).dragging == old(self).dragging,
            final(self).border_y == old(self).border_y,
    {
        let ghost all = self.entries@.push(ev);
        self.entries.push(ev);
        if self.entries.len() > MAX_LOG {
            let overflow = self.entries.len() - MAX_LOG;
            let tail = self.entries.split_off(overflow);
            self.entries = tail;
            assert(self.entries@ =~= all.skip(all.len() - MAX_LOG));
        }
    }

    /// Scrolls on Up/`k` (one line back) and Down/`j` (one line forward);
    /// returns whether the key was used.
    pub fn handle_key(&mut self, key: KeyInput) -> (used: bool)
        ensures
            used == (key.code is Up || key.code is Down || key.code == KeyCode::Char('k') || key.code == KeyCode::Char('j')),
            (key.code is Up || key.code == KeyCode::Char('k')) ==> final(self).scroll == (if old(self).scroll == usize::MAX { usize::MAX } else { (old(self).scroll + 1) as usize }),
            (key.code is Down || key.code == KeyCode::Char('j')) ==> final(self).scroll == (if old(self).scroll == 0 { 0 } else { (old(self).scroll - 1) as usize }),
            !used ==> final(self).scroll == old(self).scroll,
            final(self).entries == old(self).entries,
            final(self).height == old(self).height,
            final(self).visible == old(self).visible,
            final(self).dragging == old(self).dragging,
            final(self).border_y == old(self).border_y,
    {
        match key.code {
            KeyCode::Up | KeyCode::Char('k') => {
                self.scroll = self.scroll.saturating_add(1);
                true
            },
            KeyCode::Down | KeyCode::Char('j') => {
                self.scroll = self.scroll.saturating_sub(1);
                true
            },
            _ => false,
        }
    }

    /// Scrolls back to the latest entry.
    pub fn reset_scroll(&mut self)
        ensures
            final(self).scroll == 0,
            final(self).entries == old(self).entries,
            final(self).height == old(self).height,
            final(self).visible == old(self).visible,
            final(self).dragging == old(self).dragging,
            final(self).border_y == old(self).border_y,
    {
        self.scroll = 0;
    }

    /// The rows the pane takes. A visible pane on a terminal taller than the
    /// collapse threshold must leave room for the help bar and the task
    /// table's minimum.
    pub fn effective_height(&self, terminal_height: u16, help_rows: u16) -> (h: u16)
        requires
            self.visible && terminal_height > AUTO_COLLAPSE_THRESHOLD ==> terminal_height >= help_rows + 2 * MIN_LOG_HEIGHT,
        ensures
            h == effective_height_spec(self.visible, self.height, terminal_height, help_rows),
            self.visible ==> MIN_LOG_HEIGHT <= h,
            self.visible && terminal_height > AUTO_COLLAPSE_THRESHOLD ==> h + help_rows + MIN_LOG_HEIGHT <= terminal_height,
    {
        if !self.visible {
            return 0;
        }
        if terminal_height <= AUTO_COLLAPSE_THRESHOLD {
            return MIN_LOG_HEIGHT;
        }
        let max_log_height = terminal_height.saturating_sub(help_rows + MIN_LOG_HEIGHT);
        if self.height < MIN_LOG_HEIGHT {
            MIN_LOG_HEIGHT
        } else if self.height > max_log_height {
            max_log_height
        } else {
            self.height
        }
    }

    /// Records the row of the pane's top border.
    pub fn set_border_y(&mut self, y: u16)
        ensures
            final(self).border_y == y,
            final(self).entries == old(self).entries,
            final(self).scroll == old(self).scroll,
            final(self).height == old(self).height,
            final(self).visible == old(self).visible,
            final(self).dragging == old(self).dragging,
    {
        self.border_y = y;
    }

    /// Shows a hidden pane, hides a shown one.
    pub fn toggle_visibility(&mut self)
        ensures
            final(self).visible == !old(self).visible,
            final(self).entries == old(self).entries,
            final(self).scroll == old(self).scroll,
            final(self).height == old(self).height,
            final(self).dragging == old(self).dragging,
            final(self).border_y == old(self).border_y,
    {
        self.visible = !self.visible;
    }

    /// Whether the pane is shown.
    pub fn is_visible(&self) -> (v: bool)
        ensures
            v == self.visible,
    {
        self.visible
    }

    /// Resizes the pane by dragging its top border: a left press on the
    /// border row of a shown pane starts a drag, a left drag moves the
    /// border to the mouse row, releasing the button ends the drag.
    pub fn handle_mouse_event(&mut self, mouse: MouseInput)
        ensures
            final(self).dragging == (match mouse.kind {
                MouseKind::LeftDown => old(self).dragging || (mouse.row == old(self).border_y && old(self).visible),
                MouseKind::LeftUp => false,
                _ => old(self).dragging,
            }),
            final(self).height == (if mouse.kind is LeftDrag && old(self).dragging {
                dragged_height(old(self).height, old(self).border_y, mouse.row)
            } else {
                old(self).height
            }),
            final(self).entries == old(self).entries,
            final(self).scroll == old(self).scroll,
            final(self).visible == old(self).visible,
            final(self).border_y == old(self).border_y,
    {
        match mouse.kind {
            MouseKind::LeftDown => {
                if mouse.row == self.border_y && self.visible {
                    self.dragging = true;
                }
            },
            MouseKind::LeftDrag => {
                if self.dragging {
                    let delta: i32 = self.border_y as i32 - mouse.row as i32;
                    let new_height: i32 = self.height as i32 + delta;
                    let h: i32 = if new_height < MIN_LOG_HEIGHT as i32 { MIN_LOG_HEIGHT as i32 } else { new_height };
                    self.height = if h > 65535 { u16::MAX } else { h as u16 };
                }
            },
            MouseKind::LeftUp => {
                self.dragging = false;
            },
            MouseKind::Other => {},
        }
    }

    /// The first entry to show in a pane of `area_height` rows (borders
    /// included): scrolled when the pane has focus, the latest window
    /// otherwise.
    pub fn window_start(&self, area_height: u16, focused: bool) -> (r: usize)
        ensures
            r <= self.entries@.len(),
            !focused ==> r == start_spec(self.entries@.len() as int, (if area_height >= 2 { area_height - 2 } else { 0 }) as int, 0),
    {
        let content_h: usize = area_height.saturating_sub(2) as usize;
        let total = self.entries.len();
        if focused {
            compute_start(total, content_h, self.scroll)
        } else {
            total.saturating_sub(content_h)
        }
    }
}

} // verus!
