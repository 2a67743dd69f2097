use vstd::prelude::*;

use crate::board::{Board, BoardError, BoardModel, Cell, Player};
use crate::input::{cell_under, InputMapper};

verus! {

/// Whose turn it is; the first player opens.
#[derive(Debug)]
pub struct TurnTracker {
    current: Player,
}

impl View for TurnTracker {
    type V = Player;

    closed spec fn view(&self) -> Player {
        self.current
    }
}

impl TurnTracker {
    pub fn new() -> (r: TurnTracker)
        ensures
            r@ == Player::First,
    {
        TurnTracker { current: Player::First }
    }

    /// The player to move.
    pub fn current(&self) -> (r: Player)
        ensures
            r == self@,
    {
        self.current
    }

    /// Hands the turn to the other player.
    pub fn advance(&mut self)
        ensures
            final(self)@ == old(self)@.opponent(),
    {
        self.current = self.current.other();
    }
}

/// Why a move was not applied.
#[derive(Clone, Copy, Debug, PartialEq, Eq, Structural)]
pub enum RejectReason {
    OutOfBounds,
    CellOccupied,
}

/// Outcome of one attempted move.
#[derive(Clone, Copy, Debug, PartialEq, Eq, Structural)]
pub enum MoveResult {
    Accepted { player: Player, row: usize, col: usize },
    Rejected(RejectReason),
}

/// The mathematical game: a board and the player to move.
pub struct GameModel {
    pub board: BoardModel,
    pub turn: Player,
}

/// The player who makes a move after `n` accepted moves, when `first` opened.
pub open spec fn turn_after(first: Player, n: nat) -> Player {
    if n % 2 == 0 {
        first
    } else {
        first.opponent()
    }
}

/// How many of `results` are accepted moves.
pub open spec fn accepted_count(results: Seq<MoveResult>) -> nat
    decreases results.len(),
{
    if results.len() == 0 {
        0
    } else {
        accepted_count(results.drop_last()) + if results.last() is Accepted {
            1nat
        } else {
            0nat
        }
    }
}

impl GameModel {
    pub open spec fn wf(self) -> bool {
        self.board.wf()
    }

    /// An empty rows × cols board with the first player to move.
    pub open spec fn initial(rows: nat, cols: nat) -> GameModel {
        GameModel { board: BoardModel::empty(rows, cols), turn: Player::First }
    }

    /// What a move at (row, col) reports.
    pub open spec fn move_result(self, row: usize, col: usize) -> MoveResult {
        if !self.board.in_bounds(row as int, col as int) {
            MoveResult::Rejected(RejectReason::OutOfBounds)
        } else if self.board.cell(row as int, col as int) != Cell::Empty {
            MoveResult::Rejected(RejectReason::CellOccupied)
        } else {
            MoveResult::Accepted { player: self.turn, row, col }
        }
    }

    /// The game after a move at (row, col): an accepted move marks the cell
    /// and passes the turn; a rejected one changes nothing.
    pub open spec fn after_move(self, row: usize, col: usize) -> GameModel {
        if self.move_result(row, col) is Accepted {
            GameModel {
                board: self.board.with_cell(row as int, col as int, self.turn.spec_mark()),
                turn: self.turn.opponent(),
            }
        } else {
            self
        }
    }

    /// The game after the moves of `moves`, in order.
    pub open spec fn play(self, moves: Seq<(usize, usize)>) -> GameModel
        decreases moves.len(),
    {
        if moves.len() == 0 {
            self
        } else {
            self.play(moves.drop_last()).after_move(moves.last().0, moves.last().1)
        }
    }

    /// What each move of `moves` reports, in order.
    pub open spec fn results(self, moves: Seq<(usize, usize)>) -> Seq<MoveResult>
        decreases moves.len(),
    {
        if moves.len() == 0 {
            Seq::empty()
        } else {
            self.results(moves.drop_last()).push(
                self.play(moves.drop_last()).move_result(moves.last().0, moves.last().1),
            )
        }
    }
}

/// Along any sequence of moves, accepted or rejected, the accepted moves
/// alternate between the players, starting with the one to move: the k-th
/// accepted move (counting from zero) is made by the opener when k is even
/// and by the other player when k is odd, and afterwards the turn belongs to
/// the player the count of accepted moves points at. So no player ever makes
/// two consecutive accepted moves.
pub proof fn lemma_turns_alternate(start: GameModel, moves: Seq<(usize, usize)>)
    ensures
        start.results(moves).len() == moves.len(),
        forall|i: int|
            0 <= i < moves.len() && (#[trigger] start.results(moves)[i]) is Accepted ==> start.results(
                moves,
            )[i]->Accepted_player == turn_after(
                start.turn,
                accepted_count(start.results(moves).take(i)),
            ),
        start.play(moves).turn == turn_after(start.turn, accepted_count(start.results(moves))),
    decreases moves.len(),
{
    if moves.len() > 0 {
        let prev = moves.drop_last();
        lemma_turns_alternate(start, prev);
        let rs = start.results(moves);
        let prs = start.results(prev);
        assert(rs.drop_last() =~= prs);
        assert forall|i: int|
            0 <= i < moves.len() && (#[trigger] rs[i]) is Accepted implies rs[i]->Accepted_player
            == turn_after(start.turn, accepted_count(rs.take(i))) by {
            if i < prev.len() {
                assert(rs[i] == prs[i]);
                assert(rs.take(i) =~= prs.take(i));
            } else {
                assert(rs.take(i) =~= prs);
            }
        }
    }
}

/// Counting accepted moves adds up over concatenation.
proof fn lemma_accepted_count_concat(a: Seq<MoveResult>, b: Seq<MoveResult>)
    ensures
        accepted_count(a + b) == accepted_count(a) + accepted_count(b),
    decreases b.len(),
{
    if b.len() > 0 {
        lemma_accepted_count_concat(a, b.drop_last());
        assert((a + b).drop_last() =~= a + b.drop_last());
    }
}

/// From an accepted move to the next accepted one, the count of accepted
/// moves before each grows by exactly one.
proof fn lemma_count_to_next_accepted(rs: Seq<MoveResult>, i: int, j: int)
    requires
        0 <= i < j <= rs.len(),
        rs[i] is Accepted,
        accepted_count(rs.subrange(i + 1, j)) == 0,
    ensures
        accepted_count(rs.take(j)) == accepted_count(rs.take(i)) + 1,
{
    let head = rs.take(i);
    let one = seq![rs[i]];
    let mid = rs.subrange(i + 1, j);
    assert(rs.take(j) =~= head + one + mid);
    lemma_accepted_count_concat(head + one, mid);
    lemma_accepted_count_concat(head, one);
    assert(one.drop_last() =~= Seq::<MoveResult>::empty());
    assert(accepted_count(one.drop_last()) == 0);
    assert(one.last() is Accepted);
    assert(accepted_count(one) == 1);
}

/// Two accepted moves with no accepted move between them are made by
/// different players.
pub proof fn lemma_consecutive_moves_differ(
    start: GameModel,
    moves: Seq<(usize, usize)>,
    i: int,
    j: int,
)
    requires
        0 <= i < j < moves.len(),
        start.results(moves)[i] is Accepted,
        start.results(moves)[j] is Accepted,
        accepted_count(start.results(moves).subrange(i + 1, j)) == 0,
    ensures
        start.results(moves)[i]->Accepted_player != start.results(moves)[j]->Accepted_player,
{
    let rs = start.results(moves);
    lemma_turns_alternate(start, moves);
    assert(rs[i]->Accepted_player == turn_after(start.turn, accepted_count(rs.take(i))));
    assert(rs[j]->Accepted_player == turn_after(start.turn, accepted_count(rs.take(j))));
    lemma_count_to_next_accepted(rs, i, j);
    lemma_turn_after_step(start.turn, accepted_count(rs.take(i)));
}

/// One more accepted move hands the turn to the other player.
proof fn lemma_turn_after_step(first: Player, n: nat)
    ensures
        turn_after(first, n + 1) == turn_after(first, n).opponent(),
        turn_after(first, n + 1) != turn_after(first, n),
{
}

/// A board together with the player to move. Moves go through `apply_move`,
/// which applies a move whole or not at all.
#[derive(Debug)]
pub struct GameState {
    board: Board,
    turn: TurnTracker,
}

impl View for GameState {
    type V = GameModel;

    closed spec fn view(&self) -> GameModel {
        GameModel { board: self.board@, turn: self.turn@ }
    }
}

impl GameState {
    /// A fresh game on an empty rows × cols board, the first player to move;
    /// `InvalidDimensions` when either dimension is zero.
    pub fn new(rows: usize, cols: usize) -> (r: Result<GameState, BoardError>)
        requires
            rows * cols <= usize::MAX,
        ensures
            rows == 0 || cols == 0 ==> r == Err::<GameState, BoardError>(
                BoardError::InvalidDimensions,
            ),
            rows > 0 && cols > 0 ==> (r matches Ok(g) && g@ == GameModel::initial(
                rows as nat,
                cols as nat,
            )),
            r matches Ok(g) ==> g@.wf(),
    {
        match Board::new(rows, cols) {
            Ok(board) => Ok(GameState { board, turn: TurnTracker::new() }),
            Err(e) => Err(e),
        }
    }

    pub fn board(&self) -> (r: &Board)
        ensures
            r@ == self@.board,
    {
        &self.board
    }

    pub fn turn(&self) -> (r: &TurnTracker)
        ensures
            r@ == self@.turn,
    {
        &self.turn
    }

    /// Tries a move at (row, col) for the player to move. Outside the grid it
    /// is rejected with `OutOfBounds`, on a marked cell with `CellOccupied`,
    /// and in both cases nothing changes. Otherwise the cell takes the
    /// mover's mark, the turn passes, and no other cell changes.
    pub fn apply_move(&mut self, row: usize, col: usize) -> (r: MoveResult)
        requires
            old(self)@.wf(),
        ensures
            r == old(self)@.move_result(row, col),
            final(self)@ == old(self)@.after_move(row, col),
            final(self)@.wf(),
            old(self)@.board.in_bounds(row as int, col as int) && old(self)@.board.cell(
                row as int,
                col as int,
            ) == Cell::Empty ==> {
                &&& r == (MoveResult::Accepted { player: old(self)@.turn, row, col })
                &&& final(self)@.board.cell(row as int, col as int) == old(
                    self,
                )@.turn.spec_mark()
                &&& final(self)@.turn == old(self)@.turn.opponent()
                &&& final(self)@.board.rows == old(self)@.board.rows
                &&& final(self)@.board.cols == old(self)@.board.cols
                &&& forall|i: int, j: int|
                    old(self)@.board.in_bounds(i, j) && (i, j) != (row as int, col as int)
                        ==> #[trigger] final(self)@.board.cell(i, j) == old(self)@.board.cell(i, j)
            },
            old(self)@.board.in_bounds(row as int, col as int) && old(self)@.board.cell(
                row as int,
                col as int,
            ) != Cell::Empty ==> r == MoveResult::Rejected(RejectReason::CellOccupied)
                && final(self)@ == old(self)@,
            !old(self)@.board.in_bounds(row as int, col as int) ==> r == MoveResult::Rejected(
                RejectReason::OutOfBounds,
            ) && final(self)@ == old(self)@,
    {
        match self.board.cell_at(row, col) {
            Err(_) => MoveResult::Rejected(RejectReason::OutOfBounds),
            Ok(Cell::Empty) => {
                let player = self.turn.current();
                let _ = self.board.set_cell(row, col, player.mark());
                self.turn.advance();
                proof {
                    old(self)@.board.lemma_with_cell(row as int, col as int, player.spec_mark());
                }
                MoveResult::Accepted { player, row, col }
            },
            Ok(_) => MoveResult::Rejected(RejectReason::CellOccupied),
        }
    }

    /// A pointer press at (x, y) on a width × height canvas showing the
    /// board: the move goes to the cell under the pointer, as `InputMapper`
    /// finds it; off the grid nothing happens and `None` comes back.
    pub fn handle_pointer_down(&mut self, x: i64, y: i64, width: u32, height: u32) -> (r: Option<
        MoveResult,
    >)
        requires
            old(self)@.wf(),
        ensures
            final(self)@.wf(),
            match cell_under(
                x as int,
                y as int,
                width as int,
                height as int,
                old(self)@.board.rows as int,
                old(self)@.board.cols as int,
            ) {
                Some((row, col)) => r == Some(old(self)@.move_result(row, col)) && final(self)@
                    == old(self)@.after_move(row, col),
                None => r.is_none() && final(self)@ == old(self)@,
            },
    {
        let rows = self.board.rows();
        let cols = self.board.cols();
        match InputMapper::map(x, y, width, height, rows, cols) {
            Some((row, col)) => Some(self.apply_move(row, col)),
            None => None,
        }
    }

    /// Empties every cell and gives the turn back to the first player,
    /// whatever the game held before; the dimensions stay.
    pub fn reset(&mut self)
        requires
            old(self)@.wf(),
        ensures
            final(self)@ == GameModel::initial(old(self)@.board.rows, old(self)@.board.cols),
            final(self)@.wf(),
            final(self)@.turn == Player::First,
            forall|i: int, j: int|
                final(self)@.board.in_bounds(i, j) ==> #[trigger] final(self)@.board.cell(i, j)
                    == Cell::Empty,
    {
        self.board.reset();
        self.turn = TurnTracker::new();
        proof {
            BoardModel::lemma_empty(old(self)@.board.rows, old(self)@.board.cols);
        }
    }
}

} // verus!
