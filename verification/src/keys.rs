//! Which command a key stands for.

use vstd::prelude::*;
use crate::session::{Menu, Mode};

verus! {

/// A key as far as the commands tell keys apart.
#[derive(Debug, Copy, Clone, PartialEq, Eq, Structural)]
pub enum Key {
    Esc,
    Enter,
    Left,
    Right,
    Char(char),
    /// Any other key.
    Other,
}

/// What a key press asks for.
#[derive(Debug, Copy, Clone, PartialEq, Eq, Structural)]
pub enum Command {
    /// End the session.
    Quit,
    /// Move the cursor one task down.
    NextTask,
    /// Move the cursor one task up.
    PrevTask,
    /// Toggle the selected task between done and open.
    Toggle,
    /// Toggle the selected task between skipped and open.
    Skip,
    /// Open the line for a task to add at the end.
    AppendTask,
    /// Open the line for a task to add after the selected one.
    InsertTask,
    /// Show or hide the help.
    ToggleHelp,
    /// Show or hide the debug panel.
    ToggleDebug,
    /// Give up the line that is being typed.
    CancelTyping,
    /// Take the line that was typed for the menu.
    SubmitTyping(Menu),
    /// Hand the key to the line that is being typed.
    Type,
    /// Do nothing.
    Ignore,
}

/// The command that `key` stands for while the keys go to `mode`; `ctrl`
/// says whether the control key, and no other modifier, is held down.
///
/// In navigation `q` and escape quit, and so does `c` with control; `j` or
/// right and `k` or left move the cursor; enter toggles, `s` skips; `a` and
/// `i` open the line for a new task; `?` and `d` show the help and the debug
/// panel. While a line is typed escape gives it up, enter submits it, and
/// every other key belongs to the line.
pub open spec fn keymap(mode: Mode, key: Key, ctrl: bool) -> Command {
    match mode {
        Mode::Navigation => match key {
            Key::Esc => Command::Quit,
            Key::Enter => Command::Toggle,
            Key::Right => Command::NextTask,
            Key::Left => Command::PrevTask,
            Key::Char(c) => if c == 'q' {
                Command::Quit
            } else if c == 'c' || c == 'C' {
                if ctrl {
                    Command::Quit
                } else {
                    Command::Ignore
                }
            } else if c == 'j' {
                Command::NextTask
            } else if c == 'k' {
                Command::PrevTask
            } else if c == 's' {
                Command::Skip
            } else if c == 'a' {
                Command::AppendTask
            } else if c == 'i' {
                Command::InsertTask
            } else if c == '?' {
                Command::ToggleHelp
            } else if c == 'd' {
                Command::ToggleDebug
            } else {
                Command::Ignore
            },
            Key::Other => Command::Ignore,
        },
        Mode::Typing(menu) => match key {
            Key::Esc => Command::CancelTyping,
            Key::Enter => Command::SubmitTyping(menu),
            _ => Command::Type,
        },
    }
}

/// The command that `key` stands for while the keys go to `mode`.
pub fn command_for(mode: Mode, key: Key, ctrl: bool) -> (command: Command)
    ensures
        command == keymap(mode, key, ctrl),
{
    match mode {
        Mode::Navigation => match key {
            Key::Esc | Key::Char('q') => Command::Quit,
            Key::Char('c') | Key::Char('C') => {
                if ctrl {
                    Command::Quit
                } else {
                    Command::Ignore
                }
            },
            Key::Right | Key::Char('j') => Command::NextTask,
            Key::Left | Key::Char('k') => Command::PrevTask,
            Key::Enter => Command::Toggle,
            Key::Char('s') => Command::Skip,
            Key::Char('a') => Command::AppendTask,
            Key::Char('i') => Command::InsertTask,
            Key::Char('?') => Command::ToggleHelp,
            Key::Char('d') => Command::ToggleDebug,
            _ => Command::Ignore,
        },
        Mode::Typing(menu) => match key {
            Key::Esc => Command::CancelTyping,
            Key::Enter => Command::SubmitTyping(menu),
            _ => Command::Type,
        },
    }
}

} // verus!
