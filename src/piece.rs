use vstd::prelude::*;

use crate::random::random_below;

verus! {

/// A tetromino in one of its orientations.
///
/// The seven base shapes (`I`, `J`, `L`, `O`, `S`, `T`, `Z`) are the spawn
/// orientations; the `R`, `2` and `L` suffixes are the orientations after one,
/// two and three clockwise turns. `O` looks the same in every orientation and
/// has a single variant.
#[derive(Clone, Copy, PartialEq, Eq, Structural, Debug)]
pub enum Piece {
    I,
    J,
    L,
    O,
    S,
    T,
    Z,
    IL,
    JL,
    LL,
    SL,
    TL,
    ZL,
    IR,
    JR,
    LR,
    SR,
    TR,
    ZR,
    I2,
    J2,
    L2,
    S2,
    T2,
    Z2,
}

/// The occupancy matrix of each orientation: `1` marks a filled cell. The
/// shapes sit one row and one column in from the matrix's top-left corner,
/// which is why placing a matrix on the grid subtracts a border of one.
pub open spec fn shape(p: Piece) -> [[u8; 4]; 4] {
    match p {
        Piece::O => [[0, 0, 0, 0], [0, 1, 1, 0], [0, 1, 1, 0], [0, 0, 0, 0]],
        Piece::I => [[0, 0, 0, 0], [1, 1, 1, 1], [0, 0, 0, 0], [0, 0, 0, 0]],
        Piece::IR => [[0, 0, 1, 0], [0, 0, 1, 0], [0, 0, 1, 0], [0, 0, 1, 0]],
        Piece::I2 => [[0, 0, 0, 0], [0, 0, 0, 0], [1, 1, 1, 1], [0, 0, 0, 0]],
        Piece::IL => [[0, 1, 0, 0], [0, 1, 0, 0], [0, 1, 0, 0], [0, 1, 0, 0]],
        Piece::J => [[0, 0, 0, 0], [1, 0, 0, 0], [1, 1, 1, 0], [0, 0, 0, 0]],
        Piece::JR => [[0, 0, 0, 0], [0, 1, 1, 0], [0, 1, 0, 0], [0, 1, 0, 0]],
        Piece::J2 => [[0, 0, 0, 0], [0, 0, 0, 0], [1, 1, 1, 0], [0, 0, 1, 0]],
        Piece::JL => [[0, 0, 0, 0], [0, 1, 0, 0], [0, 1, 0, 0], [1, 1, 0, 0]],
        Piece::L => [[0, 0, 0, 0], [0, 0, 1, 0], [1, 1, 1, 0], [0, 0, 0, 0]],
        Piece::LR => [[0, 1, 0, 0], [0, 1, 0, 0], [0, 1, 1, 0], [0, 0, 0, 0]],
        Piece::L2 => [[0, 0, 0, 0], [0, 0, 0, 0], [1, 1, 1, 0], [1, 0, 0, 0]],
        Piece::LL => [[0, 0, 0, 0], [1, 1, 0, 0], [0, 1, 0, 0], [0, 1, 0, 0]],
        Piece::S => [[0, 0, 0, 0], [0, 1, 1, 0], [1, 1, 0, 0], [0, 0, 0, 0]],
        Piece::SR => [[0, 1, 0, 0], [0, 1, 1, 0], [0, 0, 1, 0], [0, 0, 0, 0]],
        Piece::S2 => [[0, 0, 0, 0], [0, 0, 0, 0], [0, 1, 1, 0], [1, 1, 0, 0]],
        Piece::SL => [[0, 0, 0, 0], [1, 0, 0, 0], [1, 1, 0, 0], [0, 1, 0, 0]],
        Piece::T => [[0, 0, 0, 0], [0, 1, 0, 0], [1, 1, 1, 0], [0, 0, 0, 0]],
        Piece::TR => [[0, 0, 0, 0], [0, 1, 0, 0], [0, 1, 1, 0], [0, 1, 0, 0]],
        Piece::T2 => [[0, 0, 0, 0], [0, 0, 0, 0], [1, 1, 1, 0], [0, 1, 0, 0]],
        Piece::TL => [[0, 0, 0, 0], [0, 1, 0, 0], [1, 1, 0, 0], [0, 1, 0, 0]],
        Piece::Z => [[0, 0, 0, 0], [1, 1, 0, 0], [0, 1, 1, 0], [0, 0, 0, 0]],
        Piece::ZR => [[0, 0, 0, 0], [0, 0, 1, 0], [0, 1, 1, 0], [0, 1, 0, 0]],
        Piece::Z2 => [[0, 0, 0, 0], [0, 0, 0, 0], [1, 1, 0, 0], [0, 1, 1, 0]],
        Piece::ZL => [[0, 0, 0, 0], [0, 1, 0, 0], [1, 1, 0, 0], [1, 0, 0, 0]],
    }
}

/// Whether cell `(i, j)` of `p`'s matrix is filled.
pub open spec fn filled(p: Piece, i: int, j: int) -> bool {
    0 <= i < 4 && 0 <= j < 4 && shape(p)[i][j] == 1
}

/// The occupancy matrix of `piece`.
pub fn get_piece(piece: Piece) -> (m: [[u8; 4]; 4])
    ensures
        m == shape(piece),
{
    match piece {
        Piece::O => [[0, 0, 0, 0], [0, 1, 1, 0], [0, 1, 1, 0], [0, 0, 0, 0]],
        Piece::I => [[0, 0, 0, 0], [1, 1, 1, 1], [0, 0, 0, 0], [0, 0, 0, 0]],
        Piece::IR => [[0, 0, 1, 0], [0, 0, 1, 0], [0, 0, 1, 0], [0, 0, 1, 0]],
        Piece::I2 => [[0, 0, 0, 0], [0, 0, 0, 0], [1, 1, 1, 1], [0, 0, 0, 0]],
        Piece::IL => [[0, 1, 0, 0], [0, 1, 0, 0], [0, 1, 0, 0], [0, 1, 0, 0]],
        Piece::J => [[0, 0, 0, 0], [1, 0, 0, 0], [1, 1, 1, 0], [0, 0, 0, 0]],
        Piece::JR => [[0, 0, 0, 0], [0, 1, 1, 0], [0, 1, 0, 0], [0, 1, 0, 0]],
        Piece::J2 => [[0, 0, 0, 0], [0, 0, 0, 0], [1, 1, 1, 0], [0, 0, 1, 0]],
        Piece::JL => [[0, 0, 0, 0], [0, 1, 0, 0], [0, 1, 0, 0], [1, 1, 0, 0]],
        Piece::L => [[0, 0, 0, 0], [0, 0, 1, 0], [1, 1, 1, 0], [0, 0, 0, 0]],
        Piece::LR => [[0, 1, 0, 0], [0, 1, 0, 0], [0, 1, 1, 0], [0, 0, 0, 0]],
        Piece::L2 => [[0, 0, 0, 0], [0, 0, 0, 0], [1, 1, 1, 0], [1, 0, 0, 0]],
        Piece::LL => [[0, 0, 0, 0], [1, 1, 0, 0], [0, 1, 0, 0], [0, 1, 0, 0]],
        Piece::S => [[0, 0, 0, 0], [0, 1, 1, 0], [1, 1, 0, 0], [0, 0, 0, 0]],
        Piece::SR => [[0, 1, 0, 0], [0, 1, 1, 0], [0, 0, 1, 0], [0, 0, 0, 0]],
        Piece::S2 => [[0, 0, 0, 0], [0, 0, 0, 0], [0, 1, 1, 0], [1, 1, 0, 0]],
        Piece::SL => [[0, 0, 0, 0], [1, 0, 0, 0], [1, 1, 0, 0], [0, 1, 0, 0]],
        Piece::T => [[0, 0, 0, 0], [0, 1, 0, 0], [1, 1, 1, 0], [0, 0, 0, 0]],
        Piece::TR => [[0, 0, 0, 0], [0, 1, 0, 0], [0, 1, 1, 0], [0, 1, 0, 0]],
        Piece::T2 => [[0, 0, 0, 0], [0, 0, 0, 0], [1, 1, 1, 0], [0, 1, 0, 0]],
        Piece::TL => [[0, 0, 0, 0], [0, 1, 0, 0], [1, 1, 0, 0], [0, 1, 0, 0]],
        Piece::Z => [[0, 0, 0, 0], [1, 1, 0, 0], [0, 1, 1, 0], [0, 0, 0, 0]],
        Piece::ZR => [[0, 0, 0, 0], [0, 0, 1, 0], [0, 1, 1, 0], [0, 1, 0, 0]],
        Piece::Z2 => [[0, 0, 0, 0], [0, 0, 0, 0], [1, 1, 0, 0], [0, 1, 1, 0]],
        Piece::ZL => [[0, 0, 0, 0], [0, 1, 0, 0], [1, 1, 0, 0], [1, 0, 0, 0]],
    }
}

/// The orientation one clockwise turn after `p`: each shape runs through
/// spawn, right, two turns, left and back to spawn; `O` stays put.
pub open spec fn rotation(p: Piece) -> Piece {
    match p {
        Piece::O => Piece::O,
        Piece::I => Piece::IR,
        Piece::IR => Piece::I2,
        Piece::I2 => Piece::IL,
        Piece::IL => Piece::I,
        Piece::J => Piece::JR,
        Piece::JR => Piece::J2,
        Piece::J2 => Piece::JL,
        Piece::JL => Piece::J,
        Piece::L => Piece::LR,
        Piece::LR => Piece::L2,
        Piece::L2 => Piece::LL,
        Piece::LL => Piece::L,
        Piece::S => Piece::SR,
        Piece::SR => Piece::S2,
        Piece::S2 => Piece::SL,
        Piece::SL => Piece::S,
        Piece::T => Piece::TR,
        Piece::TR => Piece::T2,
        Piece::T2 => Piece::TL,
        Piece::TL => Piece::T,
        Piece::Z => Piece::ZR,
        Piece::ZR => Piece::Z2,
        Piece::Z2 => Piece::ZL,
        Piece::ZL => Piece::Z,
    }
}

/// `p` after `k` clockwise turns.
pub open spec fn turned(p: Piece, k: nat) -> Piece
    decreases k,
{
    if k == 0 {
        p
    } else {
        rotation(turned(p, (k - 1) as nat))
    }
}

/// The spawn orientations, in the order in which an index picks them.
pub open spec fn spawn_piece(i: int) -> Piece {
    if i == 0 {
        Piece::I
    } else if i == 1 {
        Piece::J
    } else if i == 2 {
        Piece::L
    } else if i == 3 {
        Piece::O
    } else if i == 4 {
        Piece::S
    } else if i == 5 {
        Piece::T
    } else {
        Piece::Z
    }
}

/// Whether `p` is one of the seven shapes in its spawn orientation.
pub open spec fn is_spawn(p: Piece) -> bool {
    exists|i: int| 0 <= i < 7 && spawn_piece(i) == p
}

/// The next orientation of `piece`, one clockwise turn on.
pub fn rotate(piece: Piece) -> (r: Piece)
    ensures
        r == rotation(piece),
{
    match piece {
        Piece::O => Piece::O,
        Piece::I => Piece::IR,
        Piece::IR => Piece::I2,
        Piece::I2 => Piece::IL,
        Piece::IL => Piece::I,
        Piece::J => Piece::JR,
        Piece::JR => Piece::J2,
        Piece::J2 => Piece::JL,
        Piece::JL => Piece::J,
        Piece::L => Piece::LR,
        Piece::LR => Piece::L2,
        Piece::L2 => Piece::LL,
        Piece::LL => Piece::L,
        Piece::S => Piece::SR,
        Piece::SR => Piece::S2,
        Piece::S2 => Piece::SL,
        Piece::SL => Piece::S,
        Piece::T => Piece::TR,
        Piece::TR => Piece::T2,
        Piece::T2 => Piece::TL,
        Piece::TL => Piece::T,
        Piece::Z => Piece::ZR,
        Piece::ZR => Piece::Z2,
        Piece::Z2 => Piece::ZL,
        Piece::ZL => Piece::Z,
    }
}

/// Four clockwise turns bring every piece back to where it started, and `O`
/// is already back after one.
pub proof fn lemma_rotation_cycle(p: Piece)
    ensures
        turned(p, 4) == p,
        rotation(rotation(rotation(rotation(p)))) == p,
        p == Piece::O ==> rotation(p) == p,
{
    reveal_with_fuel(turned, 5);
}

/// Every orientation has at least one filled cell.
pub proof fn lemma_has_filled_cell(p: Piece)
    ensures
        exists|i: int, j: int| #[trigger] filled(p, i, j),
{
    match p {
        Piece::O | Piece::J | Piece::L | Piece::S | Piece::T | Piece::Z | Piece::I | Piece::JR
        | Piece::JL | Piece::LL | Piece::SL | Piece::TR | Piece::TL | Piece::ZL => {
            assert(filled(p, 1, 1) || filled(p, 1, 0) || filled(p, 1, 2));
        },
        Piece::IR | Piece::LR | Piece::SR | Piece::IL => {
            assert(filled(p, 0, 1) || filled(p, 0, 2));
        },
        _ => {
            assert(filled(p, 2, 1) || filled(p, 2, 0));
        },
    }
}

/// The spawn orientation that `i` names: `I`, `J`, `L`, `O`, `S`, `T`, `Z`
/// for `0` to `6`.
pub fn piece_from_index(i: u64) -> (p: Piece)
    requires
        i < 7,
    ensures
        p == spawn_piece(i as int),
        is_spawn(p),
{
    if i == 0 {
        Piece::I
    } else if i == 1 {
        Piece::J
    } else if i == 2 {
        Piece::L
    } else if i == 3 {
        Piece::O
    } else if i == 4 {
        Piece::S
    } else if i == 5 {
        Piece::T
    } else {
        Piece::Z
    }
}

/// A randomly drawn shape in its spawn orientation.
pub fn random_piece() -> (p: Piece)
    ensures
        is_spawn(p),
{
    let i = random_below(7);
    piece_from_index(i)
}

} // verus!
