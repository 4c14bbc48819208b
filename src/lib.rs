//! A falling-block puzzle engine: piece geometry and rotation, a playfield with
//! collision, locking and line clearing, and the decisions of the game loop.

pub mod board;
pub mod color;
pub mod command;
pub mod game;
pub mod piece;
mod random;

pub use board::{Board, BORDER_WIDTH, HEIGHT, PIECE_DIM, WIDTH};
pub use color::{color_from_index, random_color, Color, PaintType};
pub use command::{match_key, Command, Key};
pub use game::{Game, Response, Tick, QUEUE_LEN, STARTING_COLUMN, STARTING_ROW};
pub use piece::{get_piece, piece_from_index, random_piece, rotate, Piece};
