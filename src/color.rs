use vstd::prelude::*;

use crate::random::random_below;

verus! {

/// How a piece is painted: a permanent paint stays on screen, a temporary one
/// is remembered so that it can be erased before the next frame.
#[derive(Clone, Copy, PartialEq, Eq, Structural, Debug)]
pub enum PaintType {
    Permanent,
    Temporary,
}

/// The colour of a cell. The engine stores it and hands it back, and never
/// reads anything into it. `Black` is an empty cell, `Grey` the border; the
/// other twelve are given to pieces.
#[derive(Clone, Copy, PartialEq, Eq, Structural, Debug)]
pub enum Color {
    Black,
    Grey,
    Red,
    Green,
    Yellow,
    Blue,
    Magenta,
    Cyan,
    DarkRed,
    DarkGreen,
    DarkYellow,
    DarkBlue,
    DarkMagenta,
    DarkCyan,
}

/// The piece colours, in the order in which an index picks them.
pub open spec fn piece_color(i: int) -> Color {
    if i == 0 {
        Color::Red
    } else if i == 1 {
        Color::Green
    } else if i == 2 {
        Color::Yellow
    } else if i == 3 {
        Color::Blue
    } else if i == 4 {
        Color::Magenta
    } else if i == 5 {
        Color::Cyan
    } else if i == 6 {
        Color::DarkRed
    } else if i == 7 {
        Color::DarkGreen
    } else if i == 8 {
        Color::DarkYellow
    } else if i == 9 {
        Color::DarkBlue
    } else if i == 10 {
        Color::DarkMagenta
    } else {
        Color::DarkCyan
    }
}

/// Whether `c` is one of the twelve colours given to pieces (neither the
/// empty colour nor the border's).
pub open spec fn is_piece_color(c: Color) -> bool {
    exists|i: int| 0 <= i < 12 && piece_color(i) == c
}

/// The piece colour that `i` names, for `i` from `0` to `11`.
pub fn color_from_index(i: u64) -> (c: Color)
    requires
        i < 12,
    ensures
        c == piece_color(i as int),
        is_piece_color(c),
{
    if i == 0 {
        Color::Red
    } else if i == 1 {
        Color::Green
    } else if i == 2 {
        Color::Yellow
    } else if i == 3 {
        Color::Blue
    } else if i == 4 {
        Color::Magenta
    } else if i == 5 {
        Color::Cyan
    } else if i == 6 {
        Color::DarkRed
    } else if i == 7 {
        Color::DarkGreen
    } else if i == 8 {
        Color::DarkYellow
    } else if i == 9 {
        Color::DarkBlue
    } else if i == 10 {
        Color::DarkMagenta
    } else {
        Color::DarkCyan
    }
}

/// A randomly drawn piece colour.
pub fn random_color() -> (c: Color)
    ensures
        is_piece_color(c),
        c != Color::Black,
        c != Color::Grey,
{
    let i = random_below(12);
    color_from_index(i)
}

} // verus!
