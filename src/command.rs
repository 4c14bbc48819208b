use vstd::prelude::*;

verus! {

/// What a keystroke asks of the game.
#[derive(Clone, Copy, PartialEq, Eq, Structural, Debug)]
pub enum Command {
    Empty,
    Left,
    Right,
    Up,
    Down,
    Space,
    Escape,
}

/// A keystroke, as far as the game tells keys apart.
#[derive(Clone, Copy, PartialEq, Eq, Structural, Debug)]
pub enum Key {
    Left,
    Right,
    Up,
    Down,
    Esc,
    Char(char),
    Other,
}

/// The command bound to a key: the arrows, `wasd` and `hjkl` in either case
/// for `wasd` move and rotate, space drops, escape quits; anything else is
/// ignored.
pub open spec fn key_command(k: Key) -> Command {
    match k {
        Key::Left => Command::Left,
        Key::Right => Command::Right,
        Key::Down => Command::Down,
        Key::Up => Command::Up,
        Key::Esc => Command::Escape,
        Key::Char(c) => {
            if c == 'a' || c == 'A' || c == 'h' {
                Command::Left
            } else if c == 's' || c == 'S' || c == 'j' {
                Command::Down
            } else if c == 'd' || c == 'D' || c == 'l' {
                Command::Right
            } else if c == 'w' || c == 'W' || c == 'k' {
                Command::Up
            } else if c == ' ' {
                Command::Space
            } else {
                Command::Empty
            }
        },
        Key::Other => Command::Empty,
    }
}

/// Turns a keystroke into the command bound to it.
pub fn match_key(code: Key) -> (r: Command)
    ensures
        r == key_command(code),
{
    match code {
        Key::Left => Command::Left,
        Key::Right => Command::Right,
        Key::Down => Command::Down,
        Key::Up => Command::Up,
        Key::Esc => Command::Escape,
        Key::Char(c) => match c {
            'a' => Command::Left,
            's' => Command::Down,
            'd' => Command::Right,
            'w' => Command::Up,
            'A' => Command::Left,
            'S' => Command::Down,
            'D' => Command::Right,
            'W' => Command::Up,
            'h' => Command::Left,
            'j' => Command::Down,
            'l' => Command::Right,
            'k' => Command::Up,
            ' ' => Command::Space,
            _ => Command::Empty,
        },
        Key::Other => Command::Empty,
    }
}

} // verus!
