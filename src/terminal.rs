//! The terminal's input line: which keys change it and what Enter emits.
//! Drawing the screen is left to the caller.
use vstd::prelude::*;
use crate::frames::{frame_command, sep};
use crate::text::string_of;

verus! {

/// Whether a typed character may enter the input line: printable ASCII.
pub open spec fn accepted_char(c: char) -> bool {
    ' ' <= c <= '~'
}

pub fn validate_input_char(c: &char) -> (r: bool)
    ensures
        r == accepted_char(*c),
{
    ' ' <= *c && *c <= '~'
}

/// A key the terminal passes on.
pub enum KeyInput {
    Char(char),
    Backspace,
    Enter,
    Escape,
}

/// What a key leads to.
pub enum KeyOutcome {
    /// Nothing leaves the terminal.
    Nothing,
    /// A command frame for the supervisor's queue.
    Emit(String),
    /// The operator closed the terminal.
    Close,
}

pub struct TerminalUiState {
    input_box: Vec<char>,
    selected_server_address: String,
}

impl TerminalUiState {
    /// The text typed so far.
    pub closed spec fn input(&self) -> Seq<char> {
        self.input_box@
    }

    /// The address commands are aimed at.
    pub closed spec fn selected(&self) -> Seq<char> {
        self.selected_server_address@
    }

    pub fn new() -> (r: TerminalUiState)
        ensures
            r.input().len() == 0,
            r.selected().len() == 0,
    {
        TerminalUiState { input_box: Vec::new(), selected_server_address: String::new() }
    }

    pub fn set_selected_server_address(&mut self, new_selected_server: &str)
        ensures
            final(self).selected() == new_selected_server@,
            final(self).input() == old(self).input(),
    {
        self.selected_server_address = new_selected_server.to_owned();
    }

    pub fn selected_server_address(&self) -> (r: &str)
        ensures
            r@ == self.selected(),
    {
        self.selected_server_address.as_str()
    }

    pub fn input_text(&self) -> (r: String)
        ensures
            r@ == self.input(),
    {
        string_of(&self.input_box)
    }

    /// Applies a key: a printable ASCII character is appended, Backspace
    /// removes the last character, Enter emits `<SEP>selected<SEP>input` and
    /// clears the line (nothing when the line is empty), Escape closes.
    pub fn handle_key(&mut self, key: KeyInput) -> (r: KeyOutcome)
        ensures
            final(self).selected() == old(self).selected(),
            match key {
                KeyInput::Char(c) => r is Nothing && final(self).input() == if accepted_char(c) {
                    old(self).input().push(c)
                } else {
                    old(self).input()
                },
                KeyInput::Backspace => r is Nothing && final(self).input() == if old(self).input().len() > 0 {
                    old(self).input().drop_last()
                } else {
                    old(self).input()
                },
                KeyInput::Enter => if old(self).input().len() == 0 {
                    r is Nothing && final(self).input() == old(self).input()
                } else {
                    final(self).input().len() == 0 && (r matches KeyOutcome::Emit(f) && f@ == sep()
                        + old(self).selected() + sep() + old(self).input())
                },
                KeyInput::Escape => r is Close && final(self).input() == old(self).input(),
            },
    {
        match key {
            KeyInput::Char(c) => {
                if validate_input_char(&c) {
                    self.input_box.push(c);
                }
                KeyOutcome::Nothing
            },
            KeyInput::Backspace => {
                if self.input_box.len() > 0 {
                    self.input_box.pop();
                }
                KeyOutcome::Nothing
            },
            KeyInput::Enter => {
                if self.input_box.len() == 0 {
                    return KeyOutcome::Nothing;
                }
                let input = string_of(&self.input_box);
                let frame = frame_command(self.selected_server_address.as_str(), input.as_str());
                self.input_box = Vec::new();
                KeyOutcome::Emit(frame)
            },
            KeyInput::Escape => KeyOutcome::Close,
        }
    }
}

} // verus!
