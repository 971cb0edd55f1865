//! A yes/no confirmation dialog for an action on a task.
use vstd::prelude::*;
use crate::keys::{KeyCode, KeyInput};
use crate::text::{decimal, push_decimal, push_str_chars, string_from_chars};

verus! {

/// What a key press in the dialog leads to.
#[derive(Clone, Copy, Debug, PartialEq, Eq, Structural)]
pub enum ConfirmOutcome {
    Continue,
    Confirmed,
    Canceled,
}

/// An action that the dialog asks to confirm.
#[derive(Clone, Copy, Debug, PartialEq, Eq, Structural)]
pub enum ConfirmAction {
    CompleteTask { id: u32 },
}

/// The command line logged for an action.
pub open spec fn command_log_spec(a: ConfirmAction) -> Seq<char> {
    match a {
        ConfirmAction::CompleteTask { id } => seq!['a', 'g', 'e', 'n', 'c', 'y', ' ', 'c', 'o', 'm', 'p', 'l', 'e', 't', 'e', ' '] + decimal(id as nat),
    }
}

impl ConfirmAction {
    /// The command logged when the action runs: `agency complete <id>`.
    pub fn command_log(&self) -> (r: String)
        ensures
            r@ == command_log_spec(*self),
    {
        match self {
            ConfirmAction::CompleteTask { id } => {
                let mut out: Vec<char> = Vec::new();
                push_str_chars(&mut out, "agency complete ");
                proof {
                    reveal_strlit("agency complete ");
                }
                push_decimal(&mut out, *id as u64);
                assert(out@ =~= command_log_spec(*self));
                string_from_chars(out.as_slice())
            },
        }
    }

    /// The task the action is about.
    pub fn task_id(&self) -> (id: u32)
        ensures
            id == (match *self {
                ConfirmAction::CompleteTask { id } => id,
            }),
    {
        match self {
            ConfirmAction::CompleteTask { id } => *id,
        }
    }
}

/// The highlighted button.
#[derive(Clone, Copy, Debug, PartialEq, Eq, Structural)]
pub enum ConfirmSelection {
    Yes,
    No,
}

impl Default for ConfirmSelection {
    fn default() -> (s: Self)
        ensures
            s == ConfirmSelection::Yes,
    {
        ConfirmSelection::Yes
    }
}

/// The other button.
pub open spec fn toggled(s: ConfirmSelection) -> ConfirmSelection {
    match s {
        ConfirmSelection::Yes => ConfirmSelection::No,
        ConfirmSelection::No => ConfirmSelection::Yes,
    }
}

impl ConfirmSelection {
    /// The other button.
    pub fn toggle(self) -> (r: Self)
        ensures
            r == toggled(self),
    {
        match self {
            ConfirmSelection::Yes => ConfirmSelection::No,
            ConfirmSelection::No => ConfirmSelection::Yes,
        }
    }
}

/// Switching buttons twice comes back to the first one.
pub proof fn lemma_toggle_twice(s: ConfirmSelection)
    ensures
        toggled(toggled(s)) == s,
{
}

/// State of an open confirmation dialog.
pub struct ConfirmDialogState {
    pub title: String,
    pub message: String,
    pub action: ConfirmAction,
    pub selected: ConfirmSelection,
}

/// The outcome and the highlighted button after a key press in a dialog
/// whose highlighted button is `sel`.
pub open spec fn confirm_step(sel: ConfirmSelection, key: KeyInput) -> (ConfirmOutcome, ConfirmSelection) {
    if key.repeat {
        (ConfirmOutcome::Continue, sel)
    } else {
        match key.code {
            KeyCode::Esc => (ConfirmOutcome::Canceled, sel),
            KeyCode::Char(c) => if c == 'n' || c == 'N' {
                (ConfirmOutcome::Canceled, sel)
            } else if c == 'y' || c == 'Y' {
                (ConfirmOutcome::Confirmed, sel)
            } else if c == 'h' {
                (ConfirmOutcome::Continue, ConfirmSelection::Yes)
            } else if c == 'l' {
                (ConfirmOutcome::Continue, ConfirmSelection::No)
            } else {
                (ConfirmOutcome::Continue, sel)
            },
            KeyCode::Enter => (if sel == ConfirmSelection::Yes { ConfirmOutcome::Confirmed } else { ConfirmOutcome::Canceled }, sel),
            KeyCode::Left => (ConfirmOutcome::Continue, ConfirmSelection::Yes),
            KeyCode::Right => (ConfirmOutcome::Continue, ConfirmSelection::No),
            KeyCode::Tab => (ConfirmOutcome::Continue, toggled(sel)),
            _ => (ConfirmOutcome::Continue, sel),
        }
    }
}

impl ConfirmDialogState {
    /// A dialog with the Yes button highlighted.
    pub fn new(title: &str, message: &str, action: ConfirmAction) -> (s: Self)
        ensures
            s.title@ == title@,
            s.message@ == message@,
            s.action == action,
            s.selected == ConfirmSelection::Yes,
    {
        ConfirmDialogState { title: title.to_string(), message: message.to_string(), action, selected: ConfirmSelection::Yes }
    }

    /// Handles a key press: `y`/`n`/Esc answer at once, Enter answers with
    /// the highlighted button, Left/`h`, Right/`l` and Tab move the
    /// highlight; auto-repeated presses are ignored.
    pub fn handle_key(&mut self, key: KeyInput) -> (r: ConfirmOutcome)
        ensures
            (r, final(self).selected) == confirm_step(old(self).selected, key),
            final(self).title == old(self).title,
            final(self).message == old(self).message,
            final(self).action == old(self).action,
    {
        if key.repeat {
            return ConfirmOutcome::Continue;
        }
        match key.code {
            KeyCode::Esc => ConfirmOutcome::Canceled,
            KeyCode::Char(c) => {
                if c == 'n' || c == 'N' {
                    ConfirmOutcome::Canceled
                } else if c == 'y' || c == 'Y' {
                    ConfirmOutcome::Confirmed
                } else if c == 'h' {
                    self.selected = ConfirmSelection::Yes;
                    ConfirmOutcome::Continue
                } else if c == 'l' {
                    self.selected = ConfirmSelection::No;
                    ConfirmOutcome::Continue
                } else {
                    ConfirmOutcome::Continue
                }
            },
            KeyCode::Enter => match self.selected {
                ConfirmSelection::Yes => ConfirmOutcome::Confirmed,
                ConfirmSelection::No => ConfirmOutcome::Canceled,
            },
            KeyCode::Left => {
                self.selected = ConfirmSelection::Yes;
                ConfirmOutcome::Continue
            },
            KeyCode::Right => {
                self.selected = ConfirmSelection::No;
                ConfirmOutcome::Continue
            },
            KeyCode::Tab => {
                self.selected = self.selected.toggle();
                ConfirmOutcome::Continue
            },
            _ => ConfirmOutcome::Continue,
        }
    }
}

} // verus!
