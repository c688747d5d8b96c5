//! Input keys, and how terminal key events map onto them.

use vstd::prelude::*;

verus! {

/// A key press as the prompts see it.
#[derive(Clone, Copy, Debug, PartialEq, Eq, Structural)]
pub enum Key {
    Up,
    Down,
    Left,
    Right,
    Home,
    End,
    PageUp,
    PageDown,
    Enter,
    Tab,
    /// Any printable character. Space arrives here as `Char(' ')`.
    Char(char),
    Backspace,
    Delete,
    Escape,
    /// Ctrl+C or Ctrl+D — triggers the Interrupted error.
    Interrupt,
    /// Ctrl+W — delete word backward.
    DeleteWordBack,
}

/// The key codes a terminal reports, as far as prompts read them.
#[derive(Clone, Copy, Debug, PartialEq, Eq, Structural)]
pub enum KeyCode {
    Up,
    Down,
    Left,
    Right,
    Home,
    End,
    PageUp,
    PageDown,
    Enter,
    Tab,
    Char(char),
    Backspace,
    Delete,
    Esc,
    /// Any other key (function keys, media keys, …).
    Other,
}

/// The key a terminal event stands for, or `None` when the event is to be
/// skipped. With Control held, `c`/`d` interrupt, `w` deletes a word, `a`
/// and `e` go home and end, and every other key is skipped.
pub open spec fn spec_key_of(code: KeyCode, control: bool) -> Option<Key> {
    if control {
        match code {
            KeyCode::Char(c) => if c == 'c' || c == 'd' {
                Some(Key::Interrupt)
            } else if c == 'w' {
                Some(Key::DeleteWordBack)
            } else if c == 'a' {
                Some(Key::Home)
            } else if c == 'e' {
                Some(Key::End)
            } else {
                None
            },
            _ => None,
        }
    } else {
        match code {
            KeyCode::Up => Some(Key::Up),
            KeyCode::Down => Some(Key::Down),
            KeyCode::Left => Some(Key::Left),
            KeyCode::Right => Some(Key::Right),
            KeyCode::Home => Some(Key::Home),
            KeyCode::End => Some(Key::End),
            KeyCode::PageUp => Some(Key::PageUp),
            KeyCode::PageDown => Some(Key::PageDown),
            KeyCode::Enter => Some(Key::Enter),
            KeyCode::Tab => Some(Key::Tab),
            KeyCode::Char(c) => Some(Key::Char(c)),
            KeyCode::Backspace => Some(Key::Backspace),
            KeyCode::Delete => Some(Key::Delete),
            KeyCode::Esc => Some(Key::Escape),
            KeyCode::Other => None,
        }
    }
}

/// Map one terminal key event; `None` means "read the next event".
pub fn key_of(code: KeyCode, control: bool) -> (r: Option<Key>)
    ensures
        r == spec_key_of(code, control),
{
    if control {
        match code {
            KeyCode::Char(c) => {
                if c == 'c' || c == 'd' {
                    Some(Key::Interrupt)
                } else if c == 'w' {
                    Some(Key::DeleteWordBack)
                } else if c == 'a' {
                    Some(Key::Home)
                } else if c == 'e' {
                    Some(Key::End)
                } else {
                    None
                }
            },
            _ => None,
        }
    } else {
        match code {
            KeyCode::Up => Some(Key::Up),
            KeyCode::Down => Some(Key::Down),
            KeyCode::Left => Some(Key::Left),
            KeyCode::Right => Some(Key::Right),
            KeyCode::Home => Some(Key::Home),
            KeyCode::End => Some(Key::End),
            KeyCode::PageUp => Some(Key::PageUp),
            KeyCode::PageDown => Some(Key::PageDown),
            KeyCode::Enter => Some(Key::Enter),
            KeyCode::Tab => Some(Key::Tab),
            KeyCode::Char(c) => Some(Key::Char(c)),
            KeyCode::Backspace => Some(Key::Backspace),
            KeyCode::Delete => Some(Key::Delete),
            KeyCode::Esc => Some(Key::Escape),
            KeyCode::Other => None,
        }
    }
}

} // verus!
