//! Abstract input: a terminal key press reduced to plain data, and the
//! editor commands it maps to when no overlay is active.
use crate::colors::ColorId;
use vstd::prelude::*;

verus! {

/// A key press, reduced to what the editor distinguishes. Function keys are
/// only reported when pressed without modifiers.
#[derive(Debug, Clone, Copy, PartialEq, Eq, Structural)]
pub enum Key {
    Char { c: char, ctrl: bool, alt: bool, shift: bool },
    F(u8),
    Enter { shift: bool },
    Esc,
    Backspace,
    Delete,
    Tab,
    Left,
    Right,
    Up,
    Down,
    Home,
    End,
    PageUp,
    PageDown,
    Other,
}

/// An editor command.
#[derive(Debug, Clone, Copy, PartialEq, Eq, Structural)]
pub enum Command {
    Insert(char),
    NewLine,
    Backspace,
    Delete,
    MoveLeft,
    MoveRight,
    MoveUp,
    MoveDown,
    MoveHome,
    MoveEnd,
    PageUp,
    PageDown,
    SetLineColor(ColorId),
    ResetLineColor,
    Save,
    Quit,
    OpenHelp,
    OpenSearch,
    OpenGoto,
    OpenFileTree,
    NewFile,
    CloseOverlay,
    SearchNext,
    SearchPrev,
}

/// The command a key press maps to, if any.
pub open spec fn mapped_command(key: Key, search_mode: bool) -> Option<Command> {
    match key {
        Key::Char { c, ctrl, alt, shift } => {
            if ctrl && !alt && !shift && (c == 'q' || c == 'Q') {
                Some(Command::Quit)
            } else if ctrl && (c == 's' || c == 'S') && (shift || !alt) {
                Some(Command::Save)
            } else if ctrl && !alt && !shift && (c == 'f' || c == 'F') {
                Some(Command::OpenSearch)
            } else if ctrl && !alt && !shift && (c == 'g' || c == 'G') {
                Some(Command::OpenGoto)
            } else if ctrl && !alt && !shift && (c == 'o' || c == 'O') {
                Some(Command::OpenFileTree)
            } else if ctrl && !alt && !shift && (c == 'n' || c == 'N') {
                Some(Command::NewFile)
            } else if !ctrl && !alt {
                Some(Command::Insert(c))
            } else {
                None
            }
        },
        Key::F(n) => {
            if n == 1 {
                Some(Command::OpenHelp)
            } else if n == 10 {
                Some(Command::ResetLineColor)
            } else if 2 <= n && n <= 9 {
                Some(Command::SetLineColor((n - 1) as ColorId))
            } else {
                None
            }
        },
        Key::Enter { shift } => {
            if search_mode && shift {
                Some(Command::SearchPrev)
            } else if search_mode {
                Some(Command::SearchNext)
            } else {
                Some(Command::NewLine)
            }
        },
        Key::Esc => Some(Command::CloseOverlay),
        Key::Backspace => Some(Command::Backspace),
        Key::Delete => Some(Command::Delete),
        Key::Tab => Some(Command::Insert('\t')),
        Key::Left => Some(Command::MoveLeft),
        Key::Right => Some(Command::MoveRight),
        Key::Up => Some(Command::MoveUp),
        Key::Down => Some(Command::MoveDown),
        Key::Home => Some(Command::MoveHome),
        Key::End => Some(Command::MoveEnd),
        Key::PageUp => Some(Command::PageUp),
        Key::PageDown => Some(Command::PageDown),
        Key::Other => None,
    }
}

/// Translate a key press into an editor command.
pub fn map_key_event(key: Key, search_mode: bool) -> (r: Option<Command>)
    ensures
        r == mapped_command(key, search_mode),
{
    match key {
        Key::Char { c, ctrl, alt, shift } => {
            if ctrl && !alt && !shift && (c == 'q' || c == 'Q') {
                Some(Command::Quit)
            } else if ctrl && (c == 's' || c == 'S') && (shift || !alt) {
                Some(Command::Save)
            } else if ctrl && !alt && !shift && (c == 'f' || c == 'F') {
                Some(Command::OpenSearch)
            } else if ctrl && !alt && !shift && (c == 'g' || c == 'G') {
                Some(Command::OpenGoto)
            } else if ctrl && !alt && !shift && (c == 'o' || c == 'O') {
                Some(Command::OpenFileTree)
            } else if ctrl && !alt && !shift && (c == 'n' || c == 'N') {
                Some(Command::NewFile)
            } else if !ctrl && !alt {
                Some(Command::Insert(c))
            } else {
                None
            }
        },
        Key::F(n) => {
            if n == 1 {
                Some(Command::OpenHelp)
            } else if n == 10 {
                Some(Command::ResetLineColor)
            } else if 2 <= n && n <= 9 {
                Some(Command::SetLineColor(n - 1))
            } else {
                None
            }
        },
        Key::Enter { shift } => {
            if search_mode && shift {
                Some(Command::SearchPrev)
            } else if search_mode {
                Some(Command::SearchNext)
            } else {
                Some(Command::NewLine)
            }
        },
        Key::Esc => Some(Command::CloseOverlay),
        Key::Backspace => Some(Command::Backspace),
        Key::Delete => Some(Command::Delete),
        Key::Tab => Some(Command::Insert('\t')),
        Key::Left => Some(Command::MoveLeft),
        Key::Right => Some(Command::MoveRight),
        Key::Up => Some(Command::MoveUp),
        Key::Down => Some(Command::MoveDown),
        Key::Home => Some(Command::MoveHome),
        Key::End => Some(Command::MoveEnd),
        Key::PageUp => Some(Command::PageUp),
        Key::PageDown => Some(Command::PageDown),
        Key::Other => None,
    }
}

} // verus!
