//! Game state of a two-player tic-tac-toe board: the grid of cells, whose
//! turn it is, the mapping from a pointer position to a cell, and the pacing
//! decisions of the window's event loop.

mod board;
mod event_loop;
mod game;
mod input;

pub use board::{Board, BoardError, BoardModel, Cell, Player};
pub use event_loop::{EventLoop, FRAME_INTERVAL_NANOS};
pub use game::{
    accepted_count, lemma_consecutive_moves_differ,
    lemma_turns_alternate, turn_after, GameModel, GameState, MoveResult,
    RejectReason, TurnTracker,
};
pub use input::{band_index, cell_under, InputMapper};
