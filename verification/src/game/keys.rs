//! Keys as the game reads them, and the movement keys.

use vstd::prelude::*;
use crate::components::Direction;

verus! {

/// A key on the keyboard.
#[derive(Copy, Clone, Debug, PartialEq, Eq, Structural)]
pub enum KeyCode {
    Char(char),
    Left,
    Right,
    Up,
    Down,
    Enter,
    Esc,
    Tab,
    /// Any key the game has no use for.
    Other,
}

/// A key press, with the state of Shift.
#[derive(Copy, Clone, Debug, PartialEq, Eq, Structural)]
pub struct KeyPress {
    pub code: KeyCode,
    pub shift: bool,
}

/// The direction a key moves the hero: vim `hjkl`, the diagonals `yubn`,
/// the four arrows, and `.` to wait.
pub open spec fn direction_of(k: KeyCode) -> Option<Direction> {
    match k {
        KeyCode::Char('h') => Some(Direction::Left),
        KeyCode::Char('j') => Some(Direction::Down),
        KeyCode::Char('k') => Some(Direction::Up),
        KeyCode::Char('l') => Some(Direction::Right),
        KeyCode::Char('y') => Some(Direction::UpLeft),
        KeyCode::Char('u') => Some(Direction::UpRight),
        KeyCode::Char('b') => Some(Direction::DownLeft),
        KeyCode::Char('n') => Some(Direction::DownRight),
        KeyCode::Left => Some(Direction::Left),
        KeyCode::Right => Some(Direction::Right),
        KeyCode::Up => Some(Direction::Up),
        KeyCode::Down => Some(Direction::Down),
        KeyCode::Char('.') => Some(Direction::Stay),
        _ => None,
    }
}

/// The direction a key moves the hero, if it is a movement key.
pub fn key_to_direction(k: &KeyCode) -> (r: Option<Direction>)
    ensures
        r == direction_of(*k),
{
    match k {
        KeyCode::Char('h') => Some(Direction::Left),
        KeyCode::Char('j') => Some(Direction::Down),
        KeyCode::Char('k') => Some(Direction::Up),
        KeyCode::Char('l') => Some(Direction::Right),
        KeyCode::Char('y') => Some(Direction::UpLeft),
        KeyCode::Char('u') => Some(Direction::UpRight),
        KeyCode::Char('b') => Some(Direction::DownLeft),
        KeyCode::Char('n') => Some(Direction::DownRight),
        KeyCode::Left => Some(Direction::Left),
        KeyCode::Right => Some(Direction::Right),
        KeyCode::Up => Some(Direction::Up),
        KeyCode::Down => Some(Direction::Down),
        KeyCode::Char('.') => Some(Direction::Stay),
        _ => None,
    }
}

/// A character as a Rust character literal shows it: quotes and backslashes
/// escaped, and the usual escapes for the null, tab, newline and carriage
/// return characters.
pub open spec fn char_literal(c: char) -> Seq<char> {
    let inner = if c == '\'' {
        seq!['\\', '\'']
    } else if c == '\\' {
        seq!['\\', '\\']
    } else if c == '\n' {
        seq!['\\', 'n']
    } else if c == '\r' {
        seq!['\\', 'r']
    } else if c == '\t' {
        seq!['\\', 't']
    } else if c == '\0' {
        seq!['\\', '0']
    } else {
        seq![c]
    };
    seq!['\''] + inner + seq!['\'']
}

/// The name of a key, such as `Char('y')` or `Enter`.
pub open spec fn key_label(k: KeyCode) -> Seq<char> {
    match k {
        KeyCode::Char(c) => "Char("@ + char_literal(c) + ")"@,
        KeyCode::Left => "Left"@,
        KeyCode::Right => "Right"@,
        KeyCode::Up => "Up"@,
        KeyCode::Down => "Down"@,
        KeyCode::Enter => "Enter"@,
        KeyCode::Esc => "Esc"@,
        KeyCode::Tab => "Tab"@,
        KeyCode::Other => "Other"@,
    }
}

/// The name of a key as a string.
pub fn key_name(k: KeyCode) -> (r: String)
    ensures
        r@ == key_label(k),
{
    match k {
        KeyCode::Char(c) => {
            let mut s = String::from_str("Char('");
            if c == '\'' {
                crate::text::append_str(&mut s, "\\'");
            } else if c == '\\' {
                crate::text::append_str(&mut s, "\\\\");
            } else if c == '\n' {
                crate::text::append_str(&mut s, "\\n");
            } else if c == '\r' {
                crate::text::append_str(&mut s, "\\r");
            } else if c == '\t' {
                crate::text::append_str(&mut s, "\\t");
            } else if c == '\0' {
                crate::text::append_str(&mut s, "\\0");
            } else {
                crate::text::push_char(&mut s, c);
            }
            crate::text::append_str(&mut s, "')");
            proof {
                reveal_strlit("Char('");
                reveal_strlit("Char(");
                reveal_strlit("')");
                reveal_strlit(")");
                reveal_strlit("\\'");
                reveal_strlit("\\\\");
                reveal_strlit("\\n");
                reveal_strlit("\\r");
                reveal_strlit("\\t");
                reveal_strlit("\\0");
            }
            assert(s@ =~= key_label(k));
            s
        },
        KeyCode::Left => String::from_str("Left"),
        KeyCode::Right => String::from_str("Right"),
        KeyCode::Up => String::from_str("Up"),
        KeyCode::Down => String::from_str("Down"),
        KeyCode::Enter => String::from_str("Enter"),
        KeyCode::Esc => String::from_str("Esc"),
        KeyCode::Tab => String::from_str("Tab"),
        KeyCode::Other => String::from_str("Other"),
    }
}

} // verus!
