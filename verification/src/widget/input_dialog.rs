//! The dialog that takes a line of text.

use crate::event::Key;
use crate::text::{string_pop, string_push};
use vstd::prelude::*;

verus! {

/// The text typed into the dialog so far.
#[derive(Debug, Clone)]
pub struct InputDialogState {
    input: String,
}

impl View for InputDialogState {
    type V = Seq<char>;

    closed spec fn view(&self) -> Seq<char> {
        self.input@
    }
}

/// The text after a key: a character is put at its end, backspace takes the last character
/// off, and no other key changes it.
pub open spec fn typed(text: Seq<char>, key: Key) -> Seq<char> {
    match key {
        Key::Char(c) => text.push(c),
        Key::Backspace => if text.len() > 0 {
            text.drop_last()
        } else {
            text
        },
        _ => text,
    }
}

impl Default for InputDialogState {
    fn default() -> (state: InputDialogState)
        ensures
            state@ == Seq::<char>::empty(),
    {
        InputDialogState { input: String::new() }
    }
}

impl InputDialogState {
    pub fn input(&self) -> (text: &str)
        ensures
            text@ == self@,
    {
        self.input.as_str()
    }

    pub fn clear_input(&mut self)
        ensures
            final(self)@ == Seq::<char>::empty(),
    {
        self.input = String::new();
    }

    pub fn handle_key_event(&mut self, key: Key)
        ensures
            final(self)@ == typed(old(self)@, key),
    {
        match key {
            Key::Char(c) => {
                string_push(&mut self.input, c);
            },
            Key::Backspace => {
                let _ = string_pop(&mut self.input);
            },
            _ => {},
        }
    }
}

} // verus!
