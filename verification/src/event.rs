//! The intents that drive a session, and how key presses become intents.

use vstd::prelude::*;

verus! {

/// What the operator asks for.
#[derive(Debug, Clone, Copy, PartialEq, Eq, Structural)]
pub enum Event {
    Quit,
    NavigateUp,
    NavigateDown,
    Enter,
    Back,
    Search,
    Char(char),
    Backspace,
    /// Nothing to act on.
    Idle,
}

/// The keys that are told apart; every other key is `Other`.
#[derive(Debug, Clone, Copy, PartialEq, Eq, Structural)]
pub enum KeyCode {
    Backspace,
    Enter,
    Up,
    Down,
    Tab,
    Esc,
    Char(char),
    Other,
}

/// Whether a key went down, is held, or came up.
#[derive(Debug, Clone, Copy, PartialEq, Eq, Structural)]
pub enum KeyEventKind {
    Press,
    Repeat,
    Release,
}

/// One event of the keyboard.
#[derive(Debug, Clone, Copy, PartialEq, Eq, Structural)]
pub struct KeyEvent {
    pub code: KeyCode,
    pub kind: KeyEventKind,
}

/// The intent of a character key.
pub open spec fn char_intent(c: char) -> Event {
    if c == 'q' {
        Event::Quit
    } else if c == '/' {
        Event::Search
    } else if c == 'j' {
        Event::NavigateDown
    } else if c == 'k' {
        Event::NavigateUp
    } else {
        Event::Char(c)
    }
}

/// The intent of a keyboard event: only a key going down has one.
pub open spec fn intent_of(key: KeyEvent) -> Event {
    if key.kind != KeyEventKind::Press {
        Event::Idle
    } else {
        match key.code {
            KeyCode::Esc => Event::Back,
            KeyCode::Enter => Event::Enter,
            KeyCode::Backspace => Event::Backspace,
            KeyCode::Down => Event::NavigateDown,
            KeyCode::Up => Event::NavigateUp,
            KeyCode::Char(c) => char_intent(c),
            KeyCode::Tab => Event::Idle,
            KeyCode::Other => Event::Idle,
        }
    }
}

/// Translates a keyboard event into an intent.
pub fn handle_key_event(key: KeyEvent) -> (event: Event)
    ensures
        event == intent_of(key),
{
    if key.kind != KeyEventKind::Press {
        return Event::Idle;
    }
    match key.code {
        KeyCode::Esc => Event::Back,
        KeyCode::Enter => Event::Enter,
        KeyCode::Backspace => Event::Backspace,
        KeyCode::Down => Event::NavigateDown,
        KeyCode::Up => Event::NavigateUp,
        KeyCode::Char(c) => {
            if c == 'q' {
                Event::Quit
            } else if c == '/' {
                Event::Search
            } else if c == 'j' {
                Event::NavigateDown
            } else if c == 'k' {
                Event::NavigateUp
            } else {
                Event::Char(c)
            }
        },
        KeyCode::Tab => Event::Idle,
        KeyCode::Other => Event::Idle,
    }
}

} // verus!
