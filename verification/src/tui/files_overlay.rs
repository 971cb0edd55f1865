//! The overlay that lists the files attached to a task.
use vstd::prelude::*;
use crate::files::{file_view, file_views, FileRef};
use crate::keys::{KeyCode, KeyInput};
use crate::task::TaskRef;

verus! {

/// What a key press in the overlay leads to.
pub enum FilesOutcome {
    Continue,
    OpenFile(FileRef),
    OpenDirectory,
    PasteClipboard,
    Canceled,
}

/// State of the files overlay.
pub struct FilesOverlayState {
    pub task: TaskRef,
    pub files: Vec<FileRef>,
    pub selected: usize,
}

/// The entry above `sel` in a list of `len`, wrapping to the last.
pub open spec fn files_prev(sel: usize, len: nat) -> usize {
    if len == 0 {
        sel
    } else if sel == 0 {
        (len - 1) as usize
    } else {
        (sel - 1) as usize
    }
}

/// The entry below `sel` in a list of `len`, wrapping to the first.
pub open spec fn files_next(sel: usize, len: nat) -> usize {
    if len == 0 {
        sel
    } else if sel >= len - 1 {
        0
    } else {
        (sel + 1) as usize
    }
}

/// The value of a decimal digit character.
pub open spec fn digit_value(c: char) -> Option<u32> {
    if '0' <= c && c <= '9' {
        Some((c as u32 - '0' as u32) as u32)
    } else {
        None
    }
}

/// The first position of an attachment with id `id`, from `k` on.
pub open spec fn position_of_id(files: Seq<(u32, Seq<char>)>, id: u32, k: int) -> Option<int>
    decreases files.len() - k,
{
    if k < 0 || k >= files.len() {
        None
    } else if files[k].0 == id {
        Some(k)
    } else {
        position_of_id(files, id, k + 1)
    }
}

/// The selection after typing `c`: the first file whose id is the digit.
pub open spec fn digit_selection(files: Seq<(u32, Seq<char>)>, sel: usize, c: char) -> usize {
    match digit_value(c) {
        Some(d) => match position_of_id(files, d, 0) {
            Some(k) => k as usize,
            None => sel,
        },
        None => sel,
    }
}

/// `n` and `r` are the overlay and the outcome after `key` in overlay `o`.
pub open spec fn files_keyed(o: FilesOverlayState, n: FilesOverlayState, key: KeyInput, r: FilesOutcome) -> bool {
    &&& n.files == o.files
    &&& n.task == o.task
    &&& key.repeat ==> r is Continue && n.selected == o.selected
    &&& !key.repeat ==> match key.code {
        KeyCode::Esc => r is Canceled && n.selected == o.selected,
        KeyCode::Up => r is Continue && n.selected == files_prev(o.selected, o.files@.len()),
        KeyCode::Down => r is Continue && n.selected == files_next(o.selected, o.files@.len()),
        KeyCode::Enter => n.selected == o.selected && (if o.selected < o.files@.len() {
            r matches FilesOutcome::OpenFile(f) && file_view(f) == file_view(o.files@[o.selected as int])
        } else {
            r is Continue
        }),
        KeyCode::Char(c) => if c == 'k' {
            r is Continue && n.selected == files_prev(o.selected, o.files@.len())
        } else if c == 'j' {
            r is Continue && n.selected == files_next(o.selected, o.files@.len())
        } else if c == 'o' {
            n.selected == o.selected && (if o.selected < o.files@.len() {
                r matches FilesOutcome::OpenFile(f) && file_view(f) == file_view(o.files@[o.selected as int])
            } else {
                r is Continue
            })
        } else if c == 'O' {
            r is OpenDirectory && n.selected == o.selected
        } else if c == 'p' {
            r is PasteClipboard && n.selected == o.selected
        } else {
            r is Continue && n.selected == digit_selection(file_views(o.files@), o.selected, c)
        },
        _ => r is Continue && n.selected == o.selected,
    }
}

impl FilesOverlayState {
    /// An overlay on `files` with the first one selected.
    pub fn new(task: TaskRef, files: Vec<FileRef>) -> (s: Self)
        ensures
            s.task == task,
            s.files@ == files@,
            s.selected == 0,
    {
        FilesOverlayState { task, files, selected: 0 }
    }

    /// Moves the selection up, wrapping to the last file.
    pub fn select_prev(&mut self)
        ensures
            final(self).selected == files_prev(old(self).selected, old(self).files@.len()),
            final(self).files == old(self).files,
            final(self).task == old(self).task,
    {
        if self.files.len() == 0 {
            return;
        }
        if self.selected == 0 {
            self.selected = self.files.len() - 1;
        } else {
            self.selected = self.selected - 1;
        }
    }

    /// Moves the selection down, wrapping to the first file.
    pub fn select_next(&mut self)
        ensures
            final(self).selected == files_next(old(self).selected, old(self).files@.len()),
            final(self).files == old(self).files,
            final(self).task == old(self).task,
    {
        if self.files.len() == 0 {
            return;
        }
        if self.selected >= self.files.len() - 1 {
            self.selected = 0;
        } else {
            self.selected = self.selected + 1;
        }
    }

    fn open_selected(&self) -> (r: FilesOutcome)
        ensures
            self.selected < self.files@.len() ==> (r matches FilesOutcome::OpenFile(f) && file_view(f) == file_view(self.files@[self.selected as int])),
            self.selected >= self.files@.len() ==> r is Continue,
    {
        if self.selected < self.files.len() {
            FilesOutcome::OpenFile(self.files[self.selected].clone())
        } else {
            FilesOutcome::Continue
        }
    }

    /// Selects the first file whose id is the digit typed.
    pub fn handle_digit(&mut self, c: char) -> (r: FilesOutcome)
        ensures
            r is Continue,
            final(self).selected == digit_selection(file_views(old(self).files@), old(self).selected, c),
            final(self).files == old(self).files,
            final(self).task == old(self).task,
    {
        if !('0' <= c && c <= '9') {
            return FilesOutcome::Continue;
        }
        let d: u32 = c as u32 - '0' as u32;
        let ghost fv = file_views(self.files@);
        let mut k: usize = 0;
        while k < self.files.len()
            invariant
                k <= self.files.len(),
                self.files == old(self).files,
                self.task == old(self).task,
                self.selected == old(self).selected,
                digit_value(c) == Some(d),
                fv == file_views(self.files@),
                position_of_id(fv, d, 0) == position_of_id(fv, d, k as int),
            decreases self.files.len() - k,
        {
            assert(fv[k as int].0 == self.files@[k as int].id);
            if self.files[k].id == d {
                self.selected = k;
                return FilesOutcome::Continue;
            }
            k += 1;
        }
        FilesOutcome::Continue
    }

    /// Handles a key press: Up/`k` and Down/`j` move, Enter/`o` open the
    /// selected file, `O` opens the directory, `p` pastes from the
    /// clipboard, a digit selects the file with that id, Esc cancels;
    /// auto-repeated presses do nothing.
    pub fn handle_key(&mut self, key: KeyInput) -> (r: FilesOutcome)
        ensures
        files_keyed(*old(self), *final(self), key, r),
    {
        if key.repeat {
            return FilesOutcome::Continue;
        }
        match key.code {
            KeyCode::Esc => FilesOutcome::Canceled,
            KeyCode::Up => {
                self.select_prev();
                FilesOutcome::Continue
            },
            KeyCode::Down => {
                self.select_next();
                FilesOutcome::Continue
            },
            KeyCode::Enter => self.open_selected(),
            KeyCode::Char(c) => {
                if c == 'k' {
                    self.select_prev();
                    FilesOutcome::Continue
                } else if c == 'j' {
                    self.select_next();
                    FilesOutcome::Continue
                } else if c == 'o' {
                    self.open_selected()
                } else if c == 'O' {
                    FilesOutcome::OpenDirectory
                } else if c == 'p' {
                    FilesOutcome::PasteClipboard
                } else {
                    self.handle_digit(c)
                }
            },
            _ => FilesOutcome::Continue,
        }
    }
}

} // verus!
