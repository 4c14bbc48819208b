use vstd::prelude::*;

use crate::color::Color;
use crate::piece::{filled, get_piece, Piece};

verus! {

/// Columns of the playfield.
pub const WIDTH: usize = 10;

/// Rows of the playfield; row 0 is the top.
pub const HEIGHT: usize = 20;

/// How far a piece's shapes sit in from the corner of their matrix: matrix
/// cell `(i, j)` of a piece anchored at `(row, column)` lands on grid cell
/// `(row + i - BORDER_WIDTH, column + j - BORDER_WIDTH)`.
pub const BORDER_WIDTH: usize = 1;

/// Rows and columns of a piece's matrix.
pub const PIECE_DIM: usize = 4;

/// A cell of the playfield as the contracts see it: whether it is occupied,
/// and its colour.
pub type Cell = (bool, Color);

/// Whether `(r, c)` lies on the playfield.
pub open spec fn in_grid(r: int, c: int) -> bool {
    0 <= r < HEIGHT && 0 <= c < WIDTH
}

/// Whether `g` has the playfield's dimensions.
pub open spec fn is_grid(g: Seq<Seq<Cell>>) -> bool {
    &&& g.len() == HEIGHT
    &&& forall|r: int| 0 <= r < HEIGHT ==> (#[trigger] g[r]).len() == WIDTH
}

/// Whether grid cell `(r, c)` is one of the cells of `p` anchored at
/// `(row, col)`.
pub open spec fn covers(p: Piece, row: int, col: int, r: int, c: int) -> bool {
    filled(p, r - row + BORDER_WIDTH, c - col + BORDER_WIDTH)
}

/// Whether grid cell `(r, c)` cannot take a block: it lies off the playfield
/// or is occupied.
pub open spec fn blocked(g: Seq<Seq<Cell>>, r: int, c: int) -> bool {
    !in_grid(r, c) || g[r][c].0
}

/// Whether `p` anchored at `(row, col)` has a cell off the playfield or on an
/// occupied cell.
pub open spec fn collides(g: Seq<Seq<Cell>>, p: Piece, row: int, col: int) -> bool {
    exists|i: int, j: int|
        #[trigger] filled(p, i, j) && blocked(g, row + i - BORDER_WIDTH, col + j - BORDER_WIDTH)
}

/// Whether every cell of `p` anchored at `(row, col)` lies on the playfield.
pub open spec fn fits(p: Piece, row: int, col: int) -> bool {
    forall|i: int, j: int|
        #[trigger] filled(p, i, j) ==> in_grid(row + i - BORDER_WIDTH, col + j - BORDER_WIDTH)
}

/// `g` with the cells of `p` anchored at `(row, col)` occupied in `color`.
pub open spec fn placed(g: Seq<Seq<Cell>>, p: Piece, row: int, col: int, color: Color) -> Seq<
    Seq<Cell>,
> {
    Seq::new(
        g.len(),
        |r: int|
            Seq::new(
                g[r].len(),
                |c: int|
                    if covers(p, row, col, r, c) {
                        (true, color)
                    } else {
                        g[r][c]
                    },
            ),
    )
}

/// Whether a piece locking with its anchor on `row` has a cell on the top row
/// or above it, which ends the game.
pub open spec fn ends_game(p: Piece, row: int) -> bool {
    exists|i: int, j: int| #[trigger] filled(p, i, j) && row + i - BORDER_WIDTH <= 0
}

/// Whether every cell of a row is occupied.
pub open spec fn is_full(row: Seq<Cell>) -> bool {
    forall|c: int| 0 <= c < row.len() ==> (#[trigger] row[c]).0
}

/// A row with no block, in the empty colour.
pub open spec fn empty_row() -> Seq<Cell> {
    Seq::new(WIDTH as nat, |c: int| (false, Color::Black))
}

/// The rows of `rows` that are not full, top to bottom.
pub open spec fn kept(rows: Seq<Seq<Cell>>) -> Seq<Seq<Cell>>
    decreases rows.len(),
{
    if rows.len() == 0 {
        rows
    } else if is_full(rows[0]) {
        kept(rows.drop_first())
    } else {
        seq![rows[0]] + kept(rows.drop_first())
    }
}

/// Dropping the full rows never adds rows.
pub proof fn lemma_kept_len(rows: Seq<Seq<Cell>>)
    ensures
        kept(rows).len() <= rows.len(),
    decreases rows.len(),
{
    if rows.len() > 0 {
        lemma_kept_len(rows.drop_first());
    }
}

/// With no full row among them, no row is dropped.
pub proof fn lemma_kept_none_full(rows: Seq<Seq<Cell>>)
    requires
        forall|r: int| 0 <= r < rows.len() ==> !is_full(#[trigger] rows[r]),
    ensures
        kept(rows) == rows,
    decreases rows.len(),
{
    if rows.len() > 0 {
        let rest = rows.drop_first();
        assert forall|r: int| 0 <= r < rest.len() implies !is_full(#[trigger] rest[r]) by {
            assert(rest[r] == rows[r + 1]);
        }
        lemma_kept_none_full(rest);
        assert(seq![rows[0]] + rest =~= rows);
    }
}

/// A piece collides exactly when one of its cells is off the playfield or on
/// an occupied cell: placed on the playfield over empty cells only, it does
/// not collide.
pub proof fn lemma_collision_exact(g: Seq<Seq<Cell>>, p: Piece, row: int, col: int)
    ensures
        !collides(g, p, row, col) <==> (fits(p, row, col) && forall|r: int, c: int|
            #[trigger] covers(p, row, col, r, c) ==> !g[r][c].0),
{
    if !collides(g, p, row, col) {
        assert forall|r: int, c: int| #[trigger] covers(p, row, col, r, c) implies !g[r][c].0 by {
            assert(filled(p, r - row + BORDER_WIDTH, c - col + BORDER_WIDTH));
        }
    }
    if fits(p, row, col) && forall|r: int, c: int|
        #[trigger] covers(p, row, col, r, c) ==> !g[r][c].0 {
        assert forall|i: int, j: int| #[trigger] filled(p, i, j) implies !blocked(
            g,
            row + i - BORDER_WIDTH,
            col + j - BORDER_WIDTH,
        ) by {
            assert(covers(p, row, col, row + i - BORDER_WIDTH, col + j - BORDER_WIDTH));
        }
    }
}

/// Locking a piece occupies each of its cells in its colour and leaves
/// every other cell as it was.
pub proof fn lemma_placed_cells(g: Seq<Seq<Cell>>, p: Piece, row: int, col: int, color: Color)
    requires
        is_grid(g),
    ensures
        is_grid(placed(g, p, row, col, color)),
        forall|r: int, c: int|
            in_grid(r, c) && #[trigger] covers(p, row, col, r, c) ==> placed(
                g,
                p,
                row,
                col,
                color,
            )[r][c] == (true, color),
        forall|r: int, c: int|
            in_grid(r, c) && !#[trigger] covers(p, row, col, r, c) ==> placed(
                g,
                p,
                row,
                col,
                color,
            )[r][c] == g[r][c],
{
}

/// Clearing a playfield without a full row removes nothing and changes
/// nothing, wherever the scan ends.
pub proof fn lemma_clear_without_full_rows(g: Seq<Seq<Cell>>, end: int)
    requires
        is_grid(g),
        0 <= end <= HEIGHT,
        forall|r: int| 0 <= r < HEIGHT ==> !is_full(#[trigger] g[r]),
    ensures
        full_rows(g, end) == 0,
        collapsed(g, end) == g,
{
    let top = g.take(end);
    assert forall|r: int| 0 <= r < top.len() implies !is_full(#[trigger] top[r]) by {
        assert(top[r] == g[r]);
    }
    lemma_kept_none_full(top);
    assert(collapsed(g, end) =~= g);
}

/// The rows above which a piece anchored on `row` is cleared: its matrix
/// reaches down to `row - BORDER_WIDTH + PIECE_DIM`, held to the playfield.
pub open spec fn scan_end(row: int) -> int {
    let end = row - BORDER_WIDTH + PIECE_DIM;
    if end < 0 {
        0
    } else if end > HEIGHT {
        HEIGHT as int
    } else {
        end
    }
}

/// How many of the first `end` rows of `g` are full.
pub open spec fn full_rows(g: Seq<Seq<Cell>>, end: int) -> int {
    end - kept(g.take(end)).len()
}

/// `g` after the full rows among its first `end` are removed: the rest of
/// those rows fall, keeping their order, onto the rows from `end` down, and
/// empty rows fill the top.
pub open spec fn collapsed(g: Seq<Seq<Cell>>, end: int) -> Seq<Seq<Cell>> {
    Seq::new(full_rows(g, end) as nat, |r: int| empty_row()) + kept(g.take(end)) + g.skip(end)
}

/// The playfield: which cells hold a block of a locked piece, and in which
/// colour.
pub struct Board {
    pub width: usize,
    pub height: usize,
    pub board: [[u8; WIDTH]; HEIGHT],
    pub color_board: [[Color; WIDTH]; HEIGHT],
}

/// The cells of one row, as the contracts see them: a nonzero entry is an
/// occupied cell.
pub open spec fn row_cells(blocks: [u8; WIDTH], colors: [Color; WIDTH]) -> Seq<Cell> {
    Seq::new(WIDTH as nat, |c: int| (blocks[c] != 0, colors[c]))
}

impl View for Board {
    type V = Seq<Seq<Cell>>;

    open spec fn view(&self) -> Seq<Seq<Cell>> {
        Seq::new(HEIGHT as nat, |r: int| row_cells(self.board[r], self.color_board[r]))
    }
}

impl Board {
    /// An empty playfield.
    pub fn new() -> (b: Self)
        ensures
            b.width == WIDTH,
            b.height == HEIGHT,
            b@ == Seq::new(HEIGHT as nat, |r: int| empty_row()),
    {
        let b = Board {
            width: WIDTH,
            height: HEIGHT,
            board: [[0u8; WIDTH]; HEIGHT],
            color_board: [[Color::Black; WIDTH]; HEIGHT],
        };
        assert forall|r: int| 0 <= r < HEIGHT implies b@[r] == empty_row() by {
            assert(b@[r] =~= empty_row());
        }
        assert(b@ =~= Seq::new(HEIGHT as nat, |r: int| empty_row()));
        b
    }

    /// Whether `piece` anchored at `(row, column)` would leave the playfield
    /// or land on an occupied cell. The playfield is not changed, so this can
    /// try out a move before it is made.
    pub fn detect_collision(&self, piece: Piece, row: i16, column: i16) -> (r: bool)
        ensures
            r == collides(self@, piece, row as int, column as int),
    {
        let m = get_piece(piece);
        let mut i: usize = 0;
        while i < PIECE_DIM
            invariant
                i <= PIECE_DIM,
                m == crate::piece::shape(piece),
                forall|a: int, b: int|
                    0 <= a < i && #[trigger] filled(piece, a, b) ==> !blocked(
                        self@,
                        row + a - BORDER_WIDTH,
                        column + b - BORDER_WIDTH,
                    ),
            decreases PIECE_DIM - i,
        {
            let mut j: usize = 0;
            while j < PIECE_DIM
                invariant
                    i < PIECE_DIM,
                    j <= PIECE_DIM,
                    m == crate::piece::shape(piece),
                    forall|a: int, b: int|
                        (0 <= a < i || (a == i && b < j)) && #[trigger] filled(piece, a, b)
                            ==> !blocked(self@, row + a - BORDER_WIDTH, column + b - BORDER_WIDTH),
                decreases PIECE_DIM - j,
            {
                if m[i][j] == 1 {
                    let r: i32 = row as i32 + i as i32 - BORDER_WIDTH as i32;
                    let c: i32 = column as i32 + j as i32 - BORDER_WIDTH as i32;
                    if r < 0 || r >= HEIGHT as i32 || c < 0 || c >= WIDTH as i32 {
                        assert(filled(piece, i as int, j as int));
                        return true;
                    }
                    if self.board[r as usize][c as usize] != 0 {
                        assert(filled(piece, i as int, j as int));
                        return true;
                    }
                }
                j += 1;
            }
            i += 1;
        }
        false
    }

    /// Whether `piece`, about to lock with its anchor on `row`, has a cell on
    /// the top row or above it: the game is then over.
    pub fn detect_endgame(&self, piece: Piece, row: i16) -> (r: bool)
        ensures
            r == ends_game(piece, row as int),
    {
        let m = get_piece(piece);
        let mut i: usize = 0;
        while i < PIECE_DIM
            invariant
                i <= PIECE_DIM,
                m == crate::piece::shape(piece),
                forall|a: int, b: int|
                    0 <= a < i && #[trigger] filled(piece, a, b) ==> row + a - BORDER_WIDTH > 0,
            decreases PIECE_DIM - i,
        {
            let mut j: usize = 0;
            while j < PIECE_DIM
                invariant
                    i < PIECE_DIM,
                    j <= PIECE_DIM,
                    m == crate::piece::shape(piece),
                    forall|a: int, b: int|
                        (0 <= a < i || (a == i && b < j)) && #[trigger] filled(piece, a, b)
                            ==> row + a - BORDER_WIDTH > 0,
                decreases PIECE_DIM - j,
            {
                if m[i][j] == 1 && row as i32 + i as i32 <= BORDER_WIDTH as i32 {
                    assert(filled(piece, i as int, j as int));
                    return true;
                }
                j += 1;
            }
            i += 1;
        }
        false
    }

    /// Locks `piece` anchored at `(row, column)` onto the playfield: each of
    /// its cells becomes occupied in `color`, and every other cell is left as
    /// it was. Occupied cells under the piece are overwritten; the caller
    /// checks for a collision first.
    pub fn save(&mut self, piece: Piece, row: i16, column: i16, color: Color)
        requires
            fits(piece, row as int, column as int),
        ensures
            final(self)@ == placed(old(self)@, piece, row as int, column as int, color),
            final(self).width == old(self).width,
            final(self).height == old(self).height,
    {
        let ghost g = self@;
        let m = get_piece(piece);
        let mut i: usize = 0;
        while i < PIECE_DIM
            invariant
                i <= PIECE_DIM,
                m == crate::piece::shape(piece),
                fits(piece, row as int, column as int),
                self.width == old(self).width,
                self.height == old(self).height,
                g == old(self)@,
                forall|r: int, c: int|
                    #![trigger self.board[r][c]]
                    #![trigger self.color_board[r][c]]
                    in_grid(r, c) ==> (self.board[r][c] != 0, self.color_board[r][c]) == if covers(
                        piece,
                        row as int,
                        column as int,
                        r,
                        c,
                    ) && r - row + BORDER_WIDTH < i {
                        (true, color)
                    } else {
                        g[r][c]
                    },
            decreases PIECE_DIM - i,
        {
            let mut j: usize = 0;
            while j < PIECE_DIM
                invariant
                    i < PIECE_DIM,
                    j <= PIECE_DIM,
                    m == crate::piece::shape(piece),
                    fits(piece, row as int, column as int),
                    self.width == old(self).width,
                    self.height == old(self).height,
                    g == old(self)@,
                    forall|r: int, c: int|
                        #![trigger self.board[r][c]]
                        #![trigger self.color_board[r][c]]
                        in_grid(r, c) ==> (self.board[r][c] != 0, self.color_board[r][c])
                            == if covers(piece, row as int, column as int, r, c) && (r - row
                            + BORDER_WIDTH < i || (r - row + BORDER_WIDTH == i && c - column
                            + BORDER_WIDTH < j)) {
                            (true, color)
                        } else {
                            g[r][c]
                        },
                decreases PIECE_DIM - j,
            {
                if m[i][j] == 1 {
                    assert(filled(piece, i as int, j as int));
                    let r: usize = (row as i32 + i as i32 - BORDER_WIDTH as i32) as usize;
                    let c: usize = (column as i32 + j as i32 - BORDER_WIDTH as i32) as usize;
                    self.board[r][c] = 1;
                    self.color_board[r][c] = color;
                }
                j += 1;
            }
            i += 1;
        }
        assert(self@ =~~= placed(g, piece, row as int, column as int, color));
    }

    /// Whether every cell of row `r` is occupied.
    fn row_full(&self, r: usize) -> (full: bool)
        requires
            r < HEIGHT,
        ensures
            full == is_full(self@[r as int]),
    {
        let mut c: usize = 0;
        while c < WIDTH
            invariant
                r < HEIGHT,
                c <= WIDTH,
                forall|k: int| 0 <= k < c ==> self.board[r as int][k] != 0,
            decreases WIDTH - c,
        {
            if self.board[r][c] == 0 {
                assert(!self@[r as int][c as int].0);
                return false;
            }
            c += 1;
        }
        assert forall|k: int| 0 <= k < self@[r as int].len() implies (
        #[trigger] self@[r as int][k]).0 by {}
        true
    }

    /// Removes the full rows among those from the top down to the lowest row
    /// that a piece anchored on `row` reaches, and returns how many there
    /// were. The rows scanned are taken bottom to top: each row that is not
    /// full falls onto the lowest row not yet refilled, so rows keep their
    /// order, and the rows left over at the top are emptied. Rows below the
    /// scan are not touched.
    pub fn handle_completed_lines(&mut self, row: i16) -> (lines: i32)
        ensures
            lines == full_rows(old(self)@, scan_end(row as int)),
            final(self)@ == collapsed(old(self)@, scan_end(row as int)),
            final(self).width == old(self).width,
            final(self).height == old(self).height,
    {
        let ghost g = self@;
        let ghost end = scan_end(row as int);
        let mut end_row: i32 = row as i32 - BORDER_WIDTH as i32 + PIECE_DIM as i32;
        if end_row < 0 {
            end_row = 0;
        } else if end_row > HEIGHT as i32 {
            end_row = HEIGHT as i32;
        }
        let mut lines: i32 = 0;
        let mut write_row: i32 = end_row - 1;
        let mut r: i32 = end_row;
        while r > 0
            invariant
                end_row == end,
                g.len() == HEIGHT,
                0 <= r <= end <= HEIGHT,
                write_row == r - 1 + lines,
                lines == (end - r) - kept(g.subrange(r as int, end)).len(),
                0 <= lines <= end - r,
                forall|k: int| 0 <= k <= write_row ==> #[trigger] self@[k] == g[k],
                self@.subrange(write_row + 1, end) == kept(g.subrange(r as int, end)),
                self@.skip(end) == g.skip(end),
                self.width == old(self).width,
                self.height == old(self).height,
            decreases r,
        {
            let ghost before = self@;
            proof {
                let s = g.subrange(r - 1, end);
                assert(s.drop_first() =~= g.subrange(r as int, end));
                lemma_kept_len(g.subrange(r - 1, end));
            }
            r -= 1;
            if !self.row_full(r as usize) {
                if write_row != r {
                    self.board[write_row as usize] = self.board[r as usize];
                    self.color_board[write_row as usize] = self.color_board[r as usize];
                }
                assert(self@ =~= before.update(write_row as int, g[r as int]));
                assert(self@.subrange(write_row as int, end) =~= seq![g[r as int]]
                    + before.subrange(write_row + 1, end));
                assert(self@.skip(end) =~= before.skip(end));
                write_row -= 1;
            } else {
                lines += 1;
            }
        }
        assert(g.subrange(0, end) =~= g.take(end));
        let ghost scanned = self@;
        let mut k: i32 = 0;
        while k <= write_row
            invariant
                0 <= k <= write_row + 1,
                write_row + 1 == lines,
                0 <= lines <= end <= HEIGHT,
                scanned.len() == HEIGHT,
                forall|i: int| 0 <= i < k ==> #[trigger] self@[i] == empty_row(),
                forall|i: int| k <= i < HEIGHT ==> #[trigger] self@[i] == scanned[i],
                self.width == old(self).width,
                self.height == old(self).height,
            decreases write_row + 1 - k,
        {
            let ghost before = self@;
            self.board[k as usize] = [0u8; WIDTH];
            self.color_board[k as usize] = [Color::Black; WIDTH];
            assert(self@[k as int] =~= empty_row());
            assert(self@ =~= before.update(k as int, empty_row()));
            k += 1;
        }
        assert forall|i: int| lines <= i < end implies #[trigger] self@[i] == kept(g.take(end))[i
            - lines] by {
            assert(scanned.subrange(lines as int, end)[i - lines] == scanned[i]);
        }
        assert forall|i: int| end <= i < HEIGHT implies #[trigger] self@[i] == g.skip(end)[i
            - end] by {
            assert(scanned.skip(end)[i - end] == scanned[i]);
        }
        assert(self@ =~= collapsed(g, end));
        lines
    }
}

} // verus!
