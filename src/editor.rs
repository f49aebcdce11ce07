use vstd::prelude::*;

use crate::history::{down_once, up_once, History, HistoryModel};
use crate::line::{initial_line, LineRun};
use crate::parse::tokenize;
use crate::text::{pop_char, push_char, trim_text, trimmed};

verus! {

/// A key press, as the line editor sees it.
#[derive(Clone, Copy, PartialEq, Eq, Debug, Structural)]
pub enum Key {
    /// A character key, without the control modifier.
    Char(char),
    /// A character key held with the control modifier.
    Ctrl(char),
    Backspace,
    Tab,
    Enter,
    Up,
    Down,
    Other,
}

/// What the interactive loop does after a key press.
#[derive(Clone, Copy, PartialEq, Eq, Debug, Structural)]
pub enum InputLoop {
    /// A line was dispatched: print a new prompt.
    ContinueOuter,
    /// Keep reading keys for the current line.
    ContinueInner,
    /// Leave the shell.
    Exit,
}

/// What the terminal must show, or what must be done, after a key press.
pub enum KeyAction {
    /// Nothing changes on screen.
    Nothing,
    /// The character was appended to the line: echo it.
    Echo(char),
    /// The last character was removed: move left one column and clear to the
    /// end of the line.
    Erase,
    /// Completion is asked for.
    Complete,
    /// The line is complete: this text is to be run, by the steps of this
    /// run of its blocks. The buffer is now empty.
    Submit(String, LineRun),
    /// The line was replaced from history: clear it and show the new buffer.
    Replace(String),
}

/// The effect of a press of `key` on the current input and the history, with
/// the action `r` that it calls for.
pub open spec fn key_meets(
    key: Key,
    input: Seq<char>,
    after: Seq<char>,
    h: HistoryModel,
    h_after: HistoryModel,
    r: KeyAction,
) -> bool {
    match key {
        Key::Char(c) => after == input.push(c) && h_after == h && r == KeyAction::Echo(c),
        Key::Backspace => {
            &&& h_after == h
            &&& if input.len() > 0 {
                after == input.drop_last() && r is Erase
            } else {
                after == input && r is Nothing
            }
        },
        Key::Tab => after == input && h_after == h && r is Complete,
        Key::Up => {
            &&& h_after == up_once(h).0
            &&& match up_once(h).1 {
                Some(e) => after == e && (r matches KeyAction::Replace(s) && s@ == e),
                None => after == input && r is Nothing,
            }
        },
        Key::Down => {
            &&& h_after == down_once(h).0
            &&& match down_once(h).1 {
                Some(e) => after == e && (r matches KeyAction::Replace(s) && s@ == e),
                None => after == Seq::<char>::empty() && (r matches KeyAction::Replace(s) && s@
                    == Seq::<char>::empty()),
            }
        },
        _ => if key == Key::Enter || key == Key::Ctrl('j') {
            &&& after == Seq::<char>::empty()
            &&& h_after == h
            &&& (r matches KeyAction::Submit(s, run) && s@ == trimmed(input) && run@
                == initial_line(tokenize(trimmed(input))))
        } else {
            after == input && h_after == h && r is Nothing
        },
    }
}

/// Applies one key press to the line being edited: characters are appended,
/// backspace removes the last one, the arrow keys walk the history, ENTER
/// (or Ctrl-J) hands over the trimmed line with the run of its blocks, and
/// TAB asks for completion.
pub fn handle_key_press(input: &mut String, key: Key, history: &mut History) -> (r: KeyAction)
    requires
        old(history)@.wf(),
    ensures
        final(history)@.wf(),
        key_meets(key, old(input)@, final(input)@, old(history)@, final(history)@, r),
{
    match key {
        Key::Char(c) => {
            push_char(input, c);
            KeyAction::Echo(c)
        },
        Key::Backspace => {
            match pop_char(input) {
                Some(_) => KeyAction::Erase,
                None => KeyAction::Nothing,
            }
        },
        Key::Tab => KeyAction::Complete,
        Key::Up => {
            match history.move_up() {
                Some(entry) => {
                    let e = entry.clone();
                    *input = e.clone();
                    KeyAction::Replace(e)
                },
                None => KeyAction::Nothing,
            }
        },
        Key::Down => {
            match history.move_down() {
                Some(entry) => {
                    let e = entry.clone();
                    *input = e.clone();
                    KeyAction::Replace(e)
                },
                None => {
                    *input = String::new();
                    KeyAction::Replace(String::new())
                },
            }
        },
        Key::Enter => {
            let line = trim_text(input.as_str());
            let run = LineRun::from_line(line.as_str());
            *input = String::new();
            KeyAction::Submit(line, run)
        },
        Key::Ctrl(c) => {
            if c == 'j' {
                let line = trim_text(input.as_str());
                let run = LineRun::from_line(line.as_str());
                *input = String::new();
                KeyAction::Submit(line, run)
            } else {
                KeyAction::Nothing
            }
        },
        Key::Other => KeyAction::Nothing,
    }
}

} // verus!
