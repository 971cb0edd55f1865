//! A one-line text input overlay.
use vstd::prelude::*;
use crate::keys::{KeyCode, KeyInput};
use crate::text::{string_pop, string_push};

verus! {

/// What a key press in the input leads to.
pub enum TextInputOutcome {
    /// Keep editing.
    Continue,
    /// The text was submitted.
    Submit(String),
    /// The input was dismissed.
    Canceled,
}

/// What the input overlay shows around the text.
pub struct TextInputConfig {
    /// The title in the border.
    pub title: String,
    /// Shown while the input is empty.
    pub placeholder: String,
    /// A right-aligned title, if any.
    pub right_title: Option<String>,
}

impl TextInputConfig {
    /// A configuration without a right title.
    pub fn new(title: &str, placeholder: &str) -> (c: Self)
        ensures
            c.title@ == title@,
            c.placeholder@ == placeholder@,
            c.right_title is None,
    {
        TextInputConfig { title: title.to_string(), placeholder: placeholder.to_string(), right_title: None }
    }

    /// The same configuration with a right title.
    pub fn with_right_title(self, title: &str) -> (c: Self)
        ensures
            c.title == self.title,
            c.placeholder == self.placeholder,
            c.right_title matches Some(t) && t@ == title@,
    {
        TextInputConfig { title: self.title, placeholder: self.placeholder, right_title: Some(title.to_string()) }
    }
}

/// State of a text input overlay.
pub struct TextInputState {
    /// The text typed so far.
    pub input: String,
    pub config: TextInputConfig,
}

/// The text after a key press: Backspace removes the last character, a
/// character key appends it, other keys leave the text.
pub open spec fn edited(text: Seq<char>, key: KeyInput) -> Seq<char> {
    match key.code {
        KeyCode::Backspace => if text.len() > 0 { text.drop_last() } else { text },
        KeyCode::Char(c) => text.push(c),
        _ => text,
    }
}

impl TextInputState {
    /// An empty input.
    pub fn new(config: TextInputConfig) -> (s: Self)
        ensures
            s.input@.len() == 0,
            s.config == config,
    {
        TextInputState { input: String::new(), config }
    }

    /// An input holding `initial`.
    pub fn with_initial(config: TextInputConfig, initial: &str) -> (s: Self)
        ensures
            s.input@ == initial@,
            s.config == config,
    {
        TextInputState { input: initial.to_string(), config }
    }

    /// Handles a key press: Esc cancels, Enter submits the text, Backspace
    /// and character keys edit it; auto-repeated presses do nothing.
    pub fn handle_key(&mut self, key: KeyInput) -> (r: TextInputOutcome)
        ensures
            key.repeat ==> r is Continue && final(self).input@ == old(self).input@,
            !key.repeat ==> match key.code {
                KeyCode::Esc => r is Canceled && final(self).input@ == old(self).input@,
                KeyCode::Enter => r matches TextInputOutcome::Submit(t) && t@ == old(self).input@ && final(self).input@ == old(self).input@,
                _ => r is Continue && final(self).input@ == edited(old(self).input@, key),
            },
            final(self).config == old(self).config,
    {
        if key.repeat {
            return TextInputOutcome::Continue;
        }
        match key.code {
            KeyCode::Esc => TextInputOutcome::Canceled,
            KeyCode::Enter => TextInputOutcome::Submit(self.input.clone()),
            KeyCode::Backspace => {
                let _ = string_pop(&mut self.input);
                TextInputOutcome::Continue
            },
            KeyCode::Char(c) => {
                string_push(&mut self.input, c);
                TextInputOutcome::Continue
            },
            _ => TextInputOutcome::Continue,
        }
    }

    /// Sets the right-aligned title.
    pub fn set_right_title(&mut self, title: &str)
        ensures
            final(self).config.right_title matches Some(t) && t@ == title@,
            final(self).config.title == old(self).config.title,
            final(self).config.placeholder == old(self).config.placeholder,
            final(self).input == old(self).input,
    {
        self.config.right_title = Some(title.to_string());
    }
}

} // verus!
