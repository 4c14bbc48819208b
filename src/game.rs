use vstd::prelude::*;

use std::collections::VecDeque;

use crate::board::{collides, collapsed, ends_game, fits, full_rows, placed, scan_end, Board};
use crate::color::{random_color, Color};
use crate::command::Command;
use crate::piece::{filled, is_spawn, lemma_has_filled_cell, random_piece, rotate, turned, Piece};

verus! {

/// The row on which a new piece is anchored.
pub const STARTING_ROW: i16 = 0;

/// The column on which a new piece is anchored.
pub const STARTING_COLUMN: i16 = 4;

/// How many pieces wait in the queue of upcoming pieces.
pub const QUEUE_LEN: usize = 3;

/// What the loop around the game does after a command.
#[derive(Clone, Copy, PartialEq, Eq, Structural, Debug)]
pub enum Response {
    /// Carry on: redraw the piece and wait for the next tick.
    Continue,
    /// The piece was dropped: lock it at once, without waiting for a tick.
    Lock,
    /// The player asked to quit.
    Quit,
}

/// What a tick of gravity did.
#[derive(Clone, Copy, PartialEq, Eq, Structural, Debug)]
pub enum Tick {
    /// The piece moved one row down.
    Fell,
    /// The piece locked, this many rows were cleared, and the next piece came in.
    Locked(i32),
    /// The piece locked on the top row: the game is over.
    GameOver,
}

/// A game in progress: the playfield, the falling piece and where it is, and
/// the queue of pieces that come next.
pub struct Game {
    pub board: Board,
    pub pieces: VecDeque<(Piece, Color)>,
    pub piece: Piece,
    pub row: i16,
    pub column: i16,
    pub color: Color,
    pub lines: i32,
}

/// Every spawn orientation lies on the playfield at the spawn anchor.
pub proof fn lemma_spawn_fits(p: Piece)
    requires
        is_spawn(p),
    ensures
        fits(p, STARTING_ROW as int, STARTING_COLUMN as int),
{
}

/// A piece that lies on the playfield has its anchor near it, so moving the
/// anchor by one stays within `i16`.
pub proof fn lemma_fits_bounds(p: Piece, row: int, col: int)
    requires
        fits(p, row, col),
    ensures
        -2 <= row <= crate::board::HEIGHT,
        -2 <= col <= crate::board::WIDTH,
{
    lemma_has_filled_cell(p);
    let (i, j) = choose|i: int, j: int| #[trigger] filled(p, i, j);
    assert(filled(p, i, j));
}

/// A piece that does not collide lies on the playfield.
pub proof fn lemma_no_collision_fits(g: Seq<Seq<crate::board::Cell>>, p: Piece, row: int, col: int)
    requires
        !collides(g, p, row, col),
    ensures
        fits(p, row, col),
{
    assert forall|i: int, j: int| #[trigger] filled(p, i, j) implies crate::board::in_grid(
        row + i - crate::board::BORDER_WIDTH,
        col + j - crate::board::BORDER_WIDTH,
    ) by {
        assert(!crate::board::blocked(
            g,
            row + i - crate::board::BORDER_WIDTH,
            col + j - crate::board::BORDER_WIDTH,
        ));
    }
}

/// The orientation that a rotation settles on: the first of the next
/// orientations, from `k` turns on up to three, that does not collide, or
/// else the piece as it was.
pub open spec fn fitting_turn(g: Seq<Seq<crate::board::Cell>>, p: Piece, row: int, col: int, k: nat) -> Piece
    decreases 4 - k,
{
    if k >= 4 {
        p
    } else if !collides(g, turned(p, k), row, col) {
        turned(p, k)
    } else {
        fitting_turn(g, p, row, col, k + 1)
    }
}

impl Game {
    /// The falling piece and its anchor.
    pub open spec fn placement(&self) -> (Piece, int, int) {
        (self.piece, self.row as int, self.column as int)
    }

    /// The placement after a move by `(dr, dc)`: taken where the piece does
    /// not collide there, refused otherwise.
    pub open spec fn moved(&self, dr: int, dc: int) -> (Piece, int, int) {
        if collides(self.board@, self.piece, self.row + dr, self.column + dc) {
            self.placement()
        } else {
            (self.piece, self.row + dr, self.column + dc)
        }
    }

    /// Whether the playfield, the queue, the colour and the line count are
    /// those of `other`: all but the placement of the falling piece.
    pub open spec fn same_but_placement(&self, other: &Game) -> bool {
        &&& self.board == other.board
        &&& self.pieces == other.pieces
        &&& self.color == other.color
        &&& self.lines == other.lines
    }

    /// The game's invariant: the queue is never empty and holds pieces in
    /// their spawn orientation, and the falling piece lies on the playfield.
    pub open spec fn wf(&self) -> bool {
        &&& self.pieces@.len() > 0
        &&& forall|k: int| 0 <= k < self.pieces@.len() ==> is_spawn(#[trigger] self.pieces@[k].0)
        &&& fits(self.piece, self.row as int, self.column as int)
    }

    /// Takes the piece at the front of the queue and puts `fresh` at its back,
    /// so the queue keeps its length.
    pub fn next_piece(&mut self, fresh: (Piece, Color)) -> (next: (Piece, Color))
        requires
            old(self).pieces@.len() > 0,
        ensures
            next == old(self).pieces@[0],
            final(self).pieces@ == old(self).pieces@.drop_first().push(fresh),
            final(self).pieces@.len() == old(self).pieces@.len(),
            final(self).board == old(self).board,
            final(self).piece == old(self).piece,
            final(self).row == old(self).row,
            final(self).column == old(self).column,
            final(self).color == old(self).color,
            final(self).lines == old(self).lines,
    {
        let front = self.pieces.pop_front();
        self.pieces.push_back(fresh);
        match front {
            Some(next) => next,
            None => fresh,
        }
    }

    /// Brings in the next piece from the queue at the spawn anchor, and puts
    /// `fresh` at the back of the queue.
    pub fn spawn(&mut self, fresh: (Piece, Color))
        requires
            old(self).wf(),
            is_spawn(fresh.0),
        ensures
            final(self).wf(),
            final(self).piece == old(self).pieces@[0].0,
            final(self).color == old(self).pieces@[0].1,
            final(self).row == STARTING_ROW,
            final(self).column == STARTING_COLUMN,
            final(self).pieces@ == old(self).pieces@.drop_first().push(fresh),
            final(self).pieces@.len() == old(self).pieces@.len(),
            final(self).board == old(self).board,
            final(self).lines == old(self).lines,
    {
        let (piece, color) = self.next_piece(fresh);
        proof {
            assert(is_spawn(old(self).pieces@[0].0));
            lemma_spawn_fits(piece);
            assert forall|k: int| 0 <= k < self.pieces@.len() implies is_spawn(
                #[trigger] self.pieces@[k].0,
            ) by {
                if k + 1 < old(self).pieces@.len() {
                    assert(self.pieces@[k] == old(self).pieces@[k + 1]);
                }
            }
        }
        self.piece = piece;
        self.color = color;
        self.row = STARTING_ROW;
        self.column = STARTING_COLUMN;
    }

    /// A new game on an empty playfield, with a queue of randomly drawn
    /// pieces. The first piece comes in with [`Game::spawn`].
    pub fn new() -> (game: Self)
        ensures
            game.wf(),
            game.pieces@.len() == QUEUE_LEN,
            game.board@ == Seq::new(
                crate::board::HEIGHT as nat,
                |r: int| crate::board::empty_row(),
            ),
            game.row == STARTING_ROW,
            game.column == STARTING_COLUMN,
            game.color == Color::Black,
            game.lines == 0,
    {
        let mut pieces: VecDeque<(Piece, Color)> = VecDeque::new();
        let mut k: usize = 0;
        while k < QUEUE_LEN
            invariant
                k <= QUEUE_LEN,
                pieces@.len() == k,
                forall|i: int| 0 <= i < k ==> is_spawn(#[trigger] pieces@[i].0),
            decreases QUEUE_LEN - k,
        {
            let entry = (random_piece(), random_color());
            pieces.push_back(entry);
            k += 1;
        }
        let piece = random_piece();
        proof {
            lemma_spawn_fits(piece);
        }
        Game {
            board: Board::new(),
            pieces,
            piece,
            row: STARTING_ROW,
            column: STARTING_COLUMN,
            color: Color::Black,
            lines: 0,
        }
    }

    /// Carries out a player's command. Moves and rotations that would collide
    /// are refused without error.
    ///
    /// - `Left`, `Right`, `Down` move the piece by one cell.
    /// - `Up` turns it clockwise to the first orientation that fits (see
    ///   [`fitting_turn`]).
    /// - `Space` drops it as far as it goes and asks for it to lock now.
    /// - `Escape` asks to quit; `Empty` does nothing.
    pub fn apply_command(&mut self, cmd: Command) -> (response: Response)
        requires
            old(self).wf(),
        ensures
            final(self).wf(),
            final(self).same_but_placement(old(self)),
            cmd == Command::Left ==> final(self).placement() == old(self).moved(0, -1),
            cmd == Command::Right ==> final(self).placement() == old(self).moved(0, 1),
            cmd == Command::Down ==> final(self).placement() == old(self).moved(1, 0),
            cmd == Command::Up ==> final(self).placement() == (
                fitting_turn(
                    old(self).board@,
                    old(self).piece,
                    old(self).row as int,
                    old(self).column as int,
                    1,
                ),
                old(self).row as int,
                old(self).column as int,
            ),
            cmd == Command::Space ==> {
                &&& final(self).piece == old(self).piece
                &&& final(self).column == old(self).column
                &&& final(self).row >= old(self).row
                &&& forall|r: int|
                    old(self).row < r <= final(self).row ==> !#[trigger] collides(
                        old(self).board@,
                        old(self).piece,
                        r,
                        old(self).column as int,
                    )
                &&& collides(
                    old(self).board@,
                    old(self).piece,
                    final(self).row + 1,
                    old(self).column as int,
                )
            },
            (cmd == Command::Escape || cmd == Command::Empty) ==> final(self).placement()
                == old(self).placement(),
            response == if cmd == Command::Space {
                Response::Lock
            } else if cmd == Command::Escape {
                Response::Quit
            } else {
                Response::Continue
            },
    {
        match cmd {
            Command::Left => {
                self.try_move(0, -1);
                Response::Continue
            },
            Command::Right => {
                self.try_move(0, 1);
                Response::Continue
            },
            Command::Down => {
                self.try_move(1, 0);
                Response::Continue
            },
            Command::Up => {
                self.try_rotate();
                Response::Continue
            },
            Command::Space => {
                self.hard_drop();
                Response::Lock
            },
            Command::Escape => Response::Quit,
            Command::Empty => Response::Continue,
        }
    }

    /// One tick of gravity. Where the piece can move one row down, it does.
    /// Otherwise it locks: if it has a cell on the top row the game is over
    /// and nothing changes; else it is saved to the playfield, full rows are
    /// cleared and counted, and the next piece comes in from the queue, with
    /// `fresh` joining the queue's back.
    pub fn gravity_tick(&mut self, fresh: (Piece, Color)) -> (tick: Tick)
        requires
            old(self).wf(),
            is_spawn(fresh.0),
        ensures
            final(self).wf(),
            final(self).pieces@.len() == old(self).pieces@.len(),
            !collides(old(self).board@, old(self).piece, old(self).row + 1, old(self).column as int)
                ==> {
                &&& tick == Tick::Fell
                &&& final(self).placement() == old(self).moved(1, 0)
                &&& final(self).same_but_placement(old(self))
            },
            collides(old(self).board@, old(self).piece, old(self).row + 1, old(self).column as int)
                && ends_game(old(self).piece, old(self).row as int) ==> {
                &&& tick == Tick::GameOver
                &&& *final(self) == *old(self)
            },
            collides(old(self).board@, old(self).piece, old(self).row + 1, old(self).column as int)
                && !ends_game(old(self).piece, old(self).row as int) ==> {
                let locked = placed(
                    old(self).board@,
                    old(self).piece,
                    old(self).row as int,
                    old(self).column as int,
                    old(self).color,
                );
                let end = scan_end(old(self).row as int);
                let n = full_rows(locked, end);
                &&& tick == Tick::Locked(n as i32)
                &&& final(self).board@ == collapsed(locked, end)
                &&& final(self).board.width == old(self).board.width
                &&& final(self).board.height == old(self).board.height
                &&& final(self).lines == if old(self).lines + n > i32::MAX {
                    i32::MAX as int
                } else {
                    old(self).lines + n
                }
                &&& final(self).piece == old(self).pieces@[0].0
                &&& final(self).color == old(self).pieces@[0].1
                &&& final(self).row == STARTING_ROW
                &&& final(self).column == STARTING_COLUMN
                &&& final(self).pieces@ == old(self).pieces@.drop_first().push(fresh)
            },
    {
        proof {
            lemma_fits_bounds(self.piece, self.row as int, self.column as int);
        }
        if !self.board.detect_collision(self.piece, self.row + 1, self.column) {
            proof {
                lemma_no_collision_fits(self.board@, self.piece, self.row + 1, self.column as int);
            }
            self.row = self.row + 1;
            return Tick::Fell;
        }
        if self.board.detect_endgame(self.piece, self.row) {
            return Tick::GameOver;
        }
        self.board.save(self.piece, self.row, self.column, self.color);
        let ghost locked = self.board@;
        let n = self.board.handle_completed_lines(self.row);
        proof {
            crate::board::lemma_kept_len(locked.take(scan_end(self.row as int)));
        }
        if self.lines > i32::MAX - n {
            self.lines = i32::MAX;
        } else {
            self.lines = self.lines + n;
        }
        self.spawn(fresh);
        Tick::Locked(n)
    }

    /// Moves the piece by `(dr, dc)` where it does not collide there, and
    /// leaves it where it is otherwise.
    fn try_move(&mut self, dr: i16, dc: i16)
        requires
            old(self).wf(),
            -1 <= dr <= 1,
            -1 <= dc <= 1,
        ensures
            final(self).wf(),
            final(self).row as int == if collides(
                old(self).board@,
                old(self).piece,
                old(self).row + dr,
                old(self).column + dc,
            ) {
                old(self).row as int
            } else {
                old(self).row + dr
            },
            final(self).column as int == if collides(
                old(self).board@,
                old(self).piece,
                old(self).row + dr,
                old(self).column + dc,
            ) {
                old(self).column as int
            } else {
                old(self).column + dc
            },
            final(self).piece == old(self).piece,
            final(self).color == old(self).color,
            final(self).pieces == old(self).pieces,
            final(self).board == old(self).board,
            final(self).lines == old(self).lines,
    {
        proof {
            lemma_fits_bounds(self.piece, self.row as int, self.column as int);
        }
        let row = self.row + dr;
        let column = self.column + dc;
        if !self.board.detect_collision(self.piece, row, column) {
            proof {
                lemma_no_collision_fits(self.board@, self.piece, row as int, column as int);
            }
            self.row = row;
            self.column = column;
        }
    }

    /// Turns the piece clockwise to the first orientation, one to three turns
    /// on, that does not collide where it stands; where none fits, the piece
    /// keeps its orientation.
    fn try_rotate(&mut self)
        requires
            old(self).wf(),
        ensures
            final(self).wf(),
            final(self).piece == fitting_turn(
                old(self).board@,
                old(self).piece,
                old(self).row as int,
                old(self).column as int,
                1,
            ),
            final(self).row == old(self).row,
            final(self).column == old(self).column,
            final(self).color == old(self).color,
            final(self).pieces == old(self).pieces,
            final(self).board == old(self).board,
            final(self).lines == old(self).lines,
    {
        let ghost g = self.board@;
        let ghost start = self.piece;
        let mut candidate = self.piece;
        let mut k: usize = 1;
        while k < 4
            invariant
                1 <= k <= 4,
                *self == *old(self),
                self.wf(),
                g == self.board@,
                start == self.piece,
                candidate == turned(start, (k - 1) as nat),
                fitting_turn(g, start, self.row as int, self.column as int, 1) == fitting_turn(
                    g,
                    start,
                    self.row as int,
                    self.column as int,
                    k as nat,
                ),
            decreases 4 - k,
        {
            candidate = rotate(candidate);
            assert(candidate == turned(start, k as nat));
            if !self.board.detect_collision(candidate, self.row, self.column) {
                proof {
                    lemma_no_collision_fits(g, candidate, self.row as int, self.column as int);
                }
                self.piece = candidate;
                return;
            }
            k += 1;
        }
    }

    /// Drops the piece straight down as far as it goes without colliding.
    fn hard_drop(&mut self)
        requires
            old(self).wf(),
        ensures
            final(self).wf(),
            final(self).row >= old(self).row,
            forall|r: int|
                old(self).row < r <= final(self).row ==> !#[trigger] collides(
                    old(self).board@,
                    old(self).piece,
                    r,
                    old(self).column as int,
                ),
            collides(
                old(self).board@,
                old(self).piece,
                final(self).row + 1,
                old(self).column as int,
            ),
            final(self).piece == old(self).piece,
            final(self).column == old(self).column,
            final(self).color == old(self).color,
            final(self).pieces == old(self).pieces,
            final(self).board == old(self).board,
            final(self).lines == old(self).lines,
    {
        loop
            invariant
                self.wf(),
                self.row >= old(self).row,
                forall|r: int|
                    old(self).row < r <= self.row ==> !#[trigger] collides(
                        old(self).board@,
                        old(self).piece,
                        r,
                        old(self).column as int,
                    ),
                self.piece == old(self).piece,
                self.column == old(self).column,
                self.color == old(self).color,
                self.pieces == old(self).pieces,
                self.board == old(self).board,
                self.lines == old(self).lines,
            ensures
                collides(old(self).board@, old(self).piece, self.row + 1, old(self).column as int),
            decreases crate::board::HEIGHT - self.row,
        {
            proof {
                lemma_fits_bounds(self.piece, self.row as int, self.column as int);
            }
            if self.board.detect_collision(self.piece, self.row + 1, self.column) {
                break;
            }
            proof {
                lemma_no_collision_fits(self.board@, self.piece, self.row + 1, self.column as int);
                lemma_fits_bounds(self.piece, self.row + 1, self.column as int);
            }
            self.row = self.row + 1;
        }
    }
}

} // verus!
