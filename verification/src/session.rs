//! The state of an interactive session: an input line that is edited key by
//! key, with its encoding and its decoding shown below it, one of the three
//! lines in focus.

use vstd::prelude::*;
use vstd::utf8::encode_utf8;

use crate::decode::{decode_string, decoded};
use crate::encode::{encode_string, encoded};
use crate::text::{ascii_text, utf8_lossy};

verus! {

/// The line in focus.
#[derive(Debug, Clone, Copy, PartialEq, Eq, Structural)]
pub enum Focus {
    Input,
    Encoded,
    Decoded,
}

/// A key press, as far as the session tells keys apart.
#[derive(Debug, Clone, Copy, PartialEq, Eq, Structural)]
pub enum Key {
    Char(char),
    Backspace,
    Enter,
    Up,
    Down,
    Esc,
    Other,
}

/// What the status line reports.
#[derive(Debug, Clone, Copy, PartialEq, Eq, Structural)]
pub enum Status {
    Help,
    Copied,
    CopyFailed,
}

/// What is to happen after a key press.
#[derive(Debug)]
pub enum Command {
    /// Draw the lines again and wait for the next key.
    Redraw,
    /// Put the text on the clipboard, report how that went, then draw again.
    Copy(String),
    /// Leave.
    Quit,
}

pub struct Session {
    pub input: String,
    pub focus: Focus,
    pub status: Status,
}

/// A session as contracts see it.
pub struct SessionView {
    pub input: Seq<char>,
    pub focus: Focus,
    pub status: Status,
}

/// What one drawing of the session shows.
pub struct Frame {
    pub status: Status,
    pub input: String,
    pub encoded: String,
    /// The decoded text, or none where the input is no base64 text.
    pub decoded: Option<String>,
    pub focus: Focus,
}

impl Frame {
    /// The words of the decoded line: the decoded text, or the placeholder.
    pub fn decoded_text(&self) -> (text: &str)
        ensures
            text@ == match self.decoded {
                Some(decoded) => decoded@,
                None => INVALID_INPUT@,
            },
    {
        match &self.decoded {
            Some(decoded) => decoded.as_str(),
            None => INVALID_INPUT,
        }
    }
}

impl Focus {
    /// The line below, the first line after the last.
    pub open spec fn below(self) -> Focus {
        match self {
            Focus::Input => Focus::Encoded,
            Focus::Encoded => Focus::Decoded,
            Focus::Decoded => Focus::Input,
        }
    }

    /// The line above, the last line before the first.
    pub open spec fn above(self) -> Focus {
        match self {
            Focus::Input => Focus::Decoded,
            Focus::Encoded => Focus::Input,
            Focus::Decoded => Focus::Encoded,
        }
    }

    pub fn next(self) -> (focus: Focus)
        ensures
            focus == self.below(),
    {
        match self {
            Focus::Input => Focus::Encoded,
            Focus::Encoded => Focus::Decoded,
            Focus::Decoded => Focus::Input,
        }
    }

    pub fn previous(self) -> (focus: Focus)
        ensures
            focus == self.above(),
    {
        match self {
            Focus::Input => Focus::Decoded,
            Focus::Encoded => Focus::Input,
            Focus::Decoded => Focus::Encoded,
        }
    }
}

impl Status {
    /// The words of the status line.
    pub open spec fn message(self) -> Seq<char> {
        match self {
            Status::Help =>
                "Use Up/Down to switch focus, Enter to copy focused line to clipboard, Esc to exit."@,
            Status::Copied => "Copied to clipboard!"@,
            Status::CopyFailed => "Failed to copy to clipboard."@,
        }
    }

    pub fn text(self) -> (text: &'static str)
        ensures
            text@ == self.message(),
    {
        match self {
            Status::Help =>
                "Use Up/Down to switch focus, Enter to copy focused line to clipboard, Esc to exit.",
            Status::Copied => "Copied to clipboard!",
            Status::CopyFailed => "Failed to copy to clipboard.",
        }
    }
}

/// Shown in place of the decoded text where the input is no base64 text.
pub const INVALID_INPUT: &'static str = "<invalid input>";

/// The text of the encoded line for an input line.
pub open spec fn encoded_line(input: Seq<char>) -> Seq<char> {
    ascii_text(encoded(encode_utf8(input)))
}

/// The text of the decoded line for an input line, if the input is base64
/// text.
pub open spec fn decoded_line(input: Seq<char>) -> Option<Seq<char>> {
    match decoded(encode_utf8(input)) {
        Ok(bytes) => Some(utf8_lossy(bytes)),
        Err(_) => None,
    }
}

impl SessionView {
    /// The text of the line in focus, if that line shows one.
    pub open spec fn focused_text(self) -> Option<Seq<char>> {
        match self.focus {
            Focus::Input => Some(self.input),
            Focus::Encoded => Some(encoded_line(self.input)),
            Focus::Decoded => decoded_line(self.input),
        }
    }

    /// The session after a key press. Only the input line takes edits; the
    /// arrows move the focus round; Enter with no text in focus has nothing to
    /// copy and reports the copy as done.
    pub open spec fn after(self, key: Key) -> SessionView {
        match key {
            Key::Char(c) => if self.focus == Focus::Input {
                SessionView { input: self.input.push(c), ..self }
            } else {
                self
            },
            Key::Backspace => if self.focus == Focus::Input && self.input.len() > 0 {
                SessionView { input: self.input.drop_last(), ..self }
            } else {
                self
            },
            Key::Up => SessionView { focus: self.focus.above(), ..self },
            Key::Down => SessionView { focus: self.focus.below(), ..self },
            Key::Enter => if self.focused_text() is None {
                SessionView { status: Status::Copied, ..self }
            } else {
                self
            },
            Key::Esc => self,
            Key::Other => self,
        }
    }
}

impl View for Session {
    type V = SessionView;

    open spec fn view(&self) -> SessionView {
        SessionView { input: self.input@, focus: self.focus, status: self.status }
    }
}

/// `String::push` appends the character to the end of the string.
pub assume_specification[ String::push ](s: &mut String, ch: char)
    ensures
        final(s)@ == old(s)@.push(ch),
;

/// `String::pop` removes the last character and returns it, or returns `None`
/// and leaves the string as it is if it is empty.
pub assume_specification[ String::pop ](s: &mut String) -> (last: Option<char>)
    ensures
        old(s)@.len() == 0 ==> last is None && final(s)@ == old(s)@,
        old(s)@.len() > 0 ==> last == Some(old(s)@.last()) && final(s)@ == old(s)@.drop_last(),
;

impl Session {
    /// A session with an empty input line in focus.
    pub fn new() -> (session: Session)
        ensures
            session@ == (SessionView {
                input: Seq::<char>::empty(),
                focus: Focus::Input,
                status: Status::Help,
            }),
    {
        Session { input: String::new(), focus: Focus::Input, status: Status::Help }
    }

    /// The text of the line in focus, if that line shows one.
    pub fn focused_text(&self) -> (text: Option<String>)
        ensures
            match self@.focused_text() {
                Some(t) => text matches Some(s) && s@ == t,
                None => text is None,
            },
    {
        match self.focus {
            Focus::Input => Some(self.input.clone()),
            Focus::Encoded => Some(encode_string(self.input.as_str())),
            Focus::Decoded => match decode_string(self.input.as_str()) {
                Ok(text) => Some(text),
                Err(_) => None,
            },
        }
    }

    /// Takes a key press and says what is to happen next.
    pub fn press(&mut self, key: Key) -> (command: Command)
        ensures
            final(self)@ == old(self)@.after(key),
            match key {
                Key::Esc => command is Quit,
                Key::Enter => match old(self)@.focused_text() {
                    Some(t) => command matches Command::Copy(s) && s@ == t,
                    None => command is Redraw,
                },
                _ => command is Redraw,
            },
    {
        match key {
            Key::Char(c) => {
                // Only edit input when input line is focused
                if self.focus == Focus::Input {
                    self.input.push(c);
                }
                Command::Redraw
            },
            Key::Backspace => {
                if self.focus == Focus::Input {
                    self.input.pop();
                }
                Command::Redraw
            },
            Key::Esc => Command::Quit,
            Key::Up => {
                self.focus = self.focus.previous();
                Command::Redraw
            },
            Key::Down => {
                self.focus = self.focus.next();
                Command::Redraw
            },
            Key::Enter => match self.focused_text() {
                Some(text) => Command::Copy(text),
                None => {
                    self.status = Status::Copied;
                    Command::Redraw
                },
            },
            Key::Other => Command::Redraw,
        }
    }

    /// Takes note of how the copy that `press` asked for went.
    pub fn copy_done(&mut self, succeeded: bool)
        ensures
            final(self)@ == (SessionView {
                status: if succeeded {
                    Status::Copied
                } else {
                    Status::CopyFailed
                },
                ..old(self)@
            }),
    {
        self.status = if succeeded {
            Status::Copied
        } else {
            Status::CopyFailed
        };
    }

    /// The three lines and the status as they are to be drawn.
    pub fn frame(&self) -> (frame: Frame)
        ensures
            frame.status == self@.status,
            frame.focus == self@.focus,
            frame.input@ == self@.input,
            frame.encoded@ == encoded_line(self@.input),
            match decoded_line(self@.input) {
                Some(t) => frame.decoded matches Some(s) && s@ == t,
                None => frame.decoded is None,
            },
    {
        let decoded = match decode_string(self.input.as_str()) {
            Ok(text) => Some(text),
            Err(_) => None,
        };
        Frame {
            status: self.status,
            input: self.input.clone(),
            encoded: encode_string(self.input.as_str()),
            decoded,
            focus: self.focus,
        }
    }
}

/// Moving the focus down and up again, or three lines down, ends where it
/// began.
pub proof fn lemma_focus_cycle(focus: Focus)
    ensures
        focus.below().above() == focus,
        focus.above().below() == focus,
        focus.below().below().below() == focus,
        focus.above() == focus.below().below(),
{
}

} // verus!
