//! An overlay menu that picks one of a list of items, with a trailing
//! Cancel entry and home-row shortcut keys.
use vstd::prelude::*;
use crate::keys::{KeyCode, KeyInput};

verus! {

/// What a key press in the menu leads to.
#[derive(Clone, Copy, Debug, PartialEq, Eq, Structural)]
pub enum MenuOutcome {
    Continue,
    Selected(usize),
    Canceled,
}

/// State of an open menu. `selected` ranges over the items and the Cancel
/// entry after them (index `items.len()`).
pub struct SelectMenuState {
    pub title: String,
    pub items: Vec<String>,
    pub selected: usize,
}

/// The shortcut key of the item at `index`: the home-row keys without `j`
/// and `k`, which navigate.
pub open spec fn homerow_key_spec(index: int) -> Option<char> {
    if index == 0 {
        Some('a')
    } else if index == 1 {
        Some('s')
    } else if index == 2 {
        Some('d')
    } else if index == 3 {
        Some('f')
    } else if index == 4 {
        Some('l')
    } else {
        None
    }
}

/// The item index a shortcut key stands for.
pub open spec fn homerow_index_spec(c: char) -> Option<usize> {
    if c == 'a' {
        Some(0)
    } else if c == 's' {
        Some(1)
    } else if c == 'd' {
        Some(2)
    } else if c == 'f' {
        Some(3)
    } else if c == 'l' {
        Some(4)
    } else {
        None
    }
}

/// The shortcut key of the item at `index`: 0->'a', 1->'s', 2->'d',
/// 3->'f', 4->'l'.
pub fn homerow_key_for(index: usize) -> (r: Option<char>)
    ensures
        r == homerow_key_spec(index as int),
{
    if index == 0 {
        Some('a')
    } else if index == 1 {
        Some('s')
    } else if index == 2 {
        Some('d')
    } else if index == 3 {
        Some('f')
    } else if index == 4 {
        Some('l')
    } else {
        None
    }
}

/// The item index that a shortcut key stands for.
pub fn match_homerow_index(c: char) -> (r: Option<usize>)
    ensures
        r == homerow_index_spec(c),
{
    if c == 'a' {
        Some(0)
    } else if c == 's' {
        Some(1)
    } else if c == 'd' {
        Some(2)
    } else if c == 'f' {
        Some(3)
    } else if c == 'l' {
        Some(4)
    } else {
        None
    }
}

/// Shortcut keys and indices are each other's inverse, and no shortcut is a
/// navigation key.
pub proof fn lemma_homerow_inverse(index: usize, c: char)
    ensures
        homerow_key_spec(index as int) == Some(c) <==> homerow_index_spec(c) == Some(index),
        homerow_key_spec(index as int) != Some('j') && homerow_key_spec(index as int) != Some('k'),
{
}

/// The entry above `sel`, wrapping from the first item to Cancel.
pub open spec fn prev_spec(sel: usize, len: usize) -> usize {
    if sel == 0 { len } else { (sel - 1) as usize }
}

/// The entry below `sel`, wrapping from Cancel to the first item.
pub open spec fn next_spec(sel: usize, len: usize) -> usize {
    if sel >= len { 0 } else { (sel + 1) as usize }
}

/// Moving down then up, or up then down, returns to the same entry.
pub proof fn lemma_prev_next_inverse(sel: usize, len: usize)
    requires
        sel <= len,
    ensures
        prev_spec(next_spec(sel, len), len) == sel,
        next_spec(prev_spec(sel, len), len) == sel,
{
}

/// The outcome and the selection after a key press in a menu of `len`
/// items whose selection is `sel`.
pub open spec fn menu_step(sel: usize, len: usize, key: KeyInput) -> (MenuOutcome, usize) {
    if key.repeat {
        (MenuOutcome::Continue, sel)
    } else {
        match key.code {
            KeyCode::Esc => (MenuOutcome::Canceled, sel),
            KeyCode::Up => (MenuOutcome::Continue, prev_spec(sel, len)),
            KeyCode::Down => (MenuOutcome::Continue, next_spec(sel, len)),
            KeyCode::Enter => (if sel >= len { MenuOutcome::Canceled } else { MenuOutcome::Selected(sel) }, sel),
            KeyCode::Char(c) => if key.ctrl {
                (MenuOutcome::Continue, sel)
            } else if c == 'k' {
                (MenuOutcome::Continue, prev_spec(sel, len))
            } else if c == 'j' {
                (MenuOutcome::Continue, next_spec(sel, len))
            } else {
                match homerow_index_spec(c) {
                    Some(idx) => if idx < len { (MenuOutcome::Selected(idx), idx) } else { (MenuOutcome::Continue, sel) },
                    None => (MenuOutcome::Continue, sel),
                }
            },
            _ => (MenuOutcome::Continue, sel),
        }
    }
}

impl SelectMenuState {
    /// A menu over `items` with `selected` clamped to the last item (0 for
    /// an empty list).
    pub fn new(title: &str, items: Vec<String>, selected: usize) -> (s: Self)
        ensures
            s.title@ == title@,
            s.items@ == items@,
            s.selected == (if items@.len() == 0 { 0 } else if selected >= items@.len() { (items@.len() - 1) as usize } else { selected }),
    {
        let mut sel = selected;
        if items.len() == 0 {
            sel = 0;
        } else if sel >= items.len() {
            sel = items.len() - 1;
        }
        SelectMenuState { title: title.to_string(), items, selected: sel }
    }

    /// Moves the selection up, wrapping to Cancel.
    pub fn select_prev(&mut self)
        ensures
            final(self).selected == prev_spec(old(self).selected, old(self).items@.len() as usize),
            final(self).items == old(self).items,
            final(self).title == old(self).title,
    {
        if self.selected == 0 {
            self.selected = self.items.len();
        } else {
            self.selected -= 1;
        }
    }

    /// Moves the selection down, wrapping past Cancel to the first item.
    pub fn select_next(&mut self)
        ensures
            final(self).selected == next_spec(old(self).selected, old(self).items@.len() as usize),
            final(self).items == old(self).items,
            final(self).title == old(self).title,
    {
        if self.selected >= self.items.len() {
            self.selected = 0;
        } else {
            self.selected += 1;
        }
    }

    /// Handles a key press: Up/`k` and Down/`j` move, Enter picks the
    /// selection (or cancels on Cancel), Esc cancels, a shortcut key picks
    /// its item; Control chords and auto-repeated presses do nothing.
    pub fn handle_key(&mut self, key: KeyInput) -> (r: MenuOutcome)
        ensures
            (r, final(self).selected) == menu_step(old(self).selected, old(self).items@.len() as usize, key),
            final(self).items == old(self).items,
            final(self).title == old(self).title,
            old(self).selected <= old(self).items@.len() ==> final(self).selected <= final(self).items@.len(),
    {
        if key.repeat {
            return MenuOutcome::Continue;
        }
        match key.code {
            KeyCode::Esc => MenuOutcome::Canceled,
            KeyCode::Up => {
                self.select_prev();
                MenuOutcome::Continue
            },
            KeyCode::Down => {
                self.select_next();
                MenuOutcome::Continue
            },
            KeyCode::Enter => {
                if self.selected >= self.items.len() {
                    MenuOutcome::Canceled
                } else {
                    MenuOutcome::Selected(self.selected)
                }
            },
            KeyCode::Char(c) => {
                if key.ctrl {
                    return MenuOutcome::Continue;
                }
                if c == 'k' {
                    self.select_prev();
                    return MenuOutcome::Continue;
                }
                if c == 'j' {
                    self.select_next();
                    return MenuOutcome::Continue;
                }
                match match_homerow_index(c) {
                    Some(idx) => {
                        if idx < self.items.len() {
                            self.selected = idx;
                            MenuOutcome::Selected(idx)
                        } else {
                            MenuOutcome::Continue
                        }
                    },
                    None => MenuOutcome::Continue,
                }
            },
            _ => MenuOutcome::Continue,
        }
    }
}

} // verus!
