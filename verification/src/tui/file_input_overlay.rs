//! The overlay that asks for the path of a file to attach to a task.
use vstd::prelude::*;
use crate::keys::{KeyCode, KeyInput};
use crate::task::TaskRef;
use crate::text::{string_pop, string_push};
use crate::tui::text_input::edited;

verus! {

/// What a key press in the overlay leads to.
pub enum FileInputAction {
    /// Nothing to do.
    Noop,
    Cancel,
    /// Attach the file at this path.
    Submit { path: String },
}

/// State of the file path input.
pub struct FileInputState {
    pub path_input: String,
    pub task: TaskRef,
}

/// `n` and `r` are the input and the action after `key` in input `o`.
pub open spec fn file_input_keyed(o: FileInputState, n: FileInputState, key: KeyInput, r: FileInputAction) -> bool {
    &&& match key.code {
        KeyCode::Esc => r is Cancel && n.path_input@ == o.path_input@,
        KeyCode::Enter => n.path_input@ == o.path_input@ && (if o.path_input@.len() == 0 {
            r is Noop
        } else {
            r matches FileInputAction::Submit { path } && path@ == o.path_input@
        }),
        _ => r is Noop && n.path_input@ == edited(o.path_input@, key),
    }
    &&& n.task == o.task
}

impl FileInputState {
    /// An empty input for attaching a file to `task`.
    pub fn new(task: TaskRef) -> (s: Self)
        ensures
            s.path_input@.len() == 0,
            s.task == task,
    {
        FileInputState { path_input: String::new(), task }
    }

    /// Handles a key press: Esc cancels, Enter submits a non-empty path,
    /// Backspace and character keys edit the path.
    pub fn handle_key(&mut self, key: KeyInput) -> (r: FileInputAction)
        ensures
        file_input_keyed(*old(self), *final(self), key, r),
    {
        match key.code {
            KeyCode::Esc => FileInputAction::Cancel,
            KeyCode::Enter => {
                if self.path_input.as_str().is_empty() {
                    FileInputAction::Noop
                } else {
                    FileInputAction::Submit { path: self.path_input.clone() }
                }
            },
            KeyCode::Backspace => {
                let _ = string_pop(&mut self.path_input);
                FileInputAction::Noop
            },
            KeyCode::Char(c) => {
                string_push(&mut self.path_input, c);
                FileInputAction::Noop
            },
            _ => FileInputAction::Noop,
        }
    }
}

} // verus!
