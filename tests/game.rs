use tic_tac_toe::{Board, BoardError, Cell, GameState, MoveResult, Player, RejectReason, TurnTracker};

fn cells(game: &GameState) -> Vec<Cell> {
    let b = game.board();
    let mut out = Vec::new();
    for r in 0..b.rows() {
        for c in 0..b.cols() {
            out.push(b.cell_at(r, c).unwrap());
        }
    }
    out
}

#[test]
fn new_board_is_empty() {
    let b = Board::new(2, 4).unwrap();
    assert_eq!(b.rows(), 2);
    assert_eq!(b.cols(), 4);
    for r in 0..2 {
        for c in 0..4 {
            assert_eq!(b.cell_at(r, c), Ok(Cell::Empty));
        }
    }
}

#[test]
fn board_zero_rows_is_invalid() {
    assert!(matches!(Board::new(0, 3), Err(BoardError::InvalidDimensions)));
}

#[test]
fn board_zero_cols_is_invalid() {
    assert!(matches!(Board::new(3, 0), Err(BoardError::InvalidDimensions)));
    assert!(matches!(GameState::new(0, 0), Err(BoardError::InvalidDimensions)));
}

#[test]
fn cell_at_out_of_range() {
    let b = Board::new(3, 3).unwrap();
    assert_eq!(b.cell_at(3, 0), Err(BoardError::OutOfBounds));
    assert_eq!(b.cell_at(0, 3), Err(BoardError::OutOfBounds));
    assert_eq!(b.cell_at(2, 2), Ok(Cell::Empty));
}

#[test]
fn set_cell_writes_one_cell() {
    let mut b = Board::new(2, 3).unwrap();
    assert_eq!(b.set_cell(1, 2, Cell::Circle), Ok(()));
    for r in 0..2 {
        for c in 0..3 {
            let want = if (r, c) == (1, 2) { Cell::Circle } else { Cell::Empty };
            assert_eq!(b.cell_at(r, c), Ok(want));
        }
    }
    assert_eq!(b.set_cell(2, 0, Cell::Cross), Err(BoardError::OutOfBounds));
    assert_eq!(b.set_cell(0, 3, Cell::Cross), Err(BoardError::OutOfBounds));
}

#[test]
fn board_reset_empties_cells() {
    let mut b = Board::new(2, 2).unwrap();
    b.set_cell(0, 1, Cell::Cross).unwrap();
    b.set_cell(1, 0, Cell::Circle).unwrap();
    b.reset();
    assert_eq!(b.rows(), 2);
    assert_eq!(b.cols(), 2);
    for r in 0..2 {
        for c in 0..2 {
            assert_eq!(b.cell_at(r, c), Ok(Cell::Empty));
        }
    }
}

#[test]
fn turn_tracker_flips() {
    let mut t = TurnTracker::new();
    assert_eq!(t.current(), Player::First);
    t.advance();
    assert_eq!(t.current(), Player::Second);
    t.advance();
    assert_eq!(t.current(), Player::First);
}

#[test]
fn player_marks() {
    assert_eq!(Player::First.mark(), Cell::Cross);
    assert_eq!(Player::Second.mark(), Cell::Circle);
    assert_eq!(Player::First.other(), Player::Second);
    assert_eq!(Player::Second.other(), Player::First);
}

#[test]
fn accepted_move_marks_only_that_cell() {
    let mut g = GameState::new(3, 3).unwrap();
    let r = g.apply_move(2, 1);
    assert_eq!(r, MoveResult::Accepted { player: Player::First, row: 2, col: 1 });
    assert_eq!(g.turn().current(), Player::Second);
    let got = cells(&g);
    for (i, cell) in got.iter().enumerate() {
        let want = if i == 2 * 3 + 1 { Cell::Cross } else { Cell::Empty };
        assert_eq!(*cell, want);
    }
}

#[test]
fn occupied_cell_is_rejected_without_change() {
    let mut g = GameState::new(3, 3).unwrap();
    g.apply_move(1, 1);
    let before = cells(&g);
    let r = g.apply_move(1, 1);
    assert_eq!(r, MoveResult::Rejected(RejectReason::CellOccupied));
    assert_eq!(cells(&g), before);
    assert_eq!(g.turn().current(), Player::Second);
}

#[test]
fn out_of_range_move_is_rejected_without_change() {
    let mut g = GameState::new(3, 3).unwrap();
    g.apply_move(0, 0);
    let before = cells(&g);
    assert_eq!(g.apply_move(3, 0), MoveResult::Rejected(RejectReason::OutOfBounds));
    assert_eq!(g.apply_move(0, 3), MoveResult::Rejected(RejectReason::OutOfBounds));
    assert_eq!(g.apply_move(usize::MAX, usize::MAX), MoveResult::Rejected(RejectReason::OutOfBounds));
    assert_eq!(cells(&g), before);
    assert_eq!(g.turn().current(), Player::Second);
}

#[test]
fn reset_restores_initial_state() {
    let mut g = GameState::new(3, 3).unwrap();
    g.apply_move(0, 0);
    g.apply_move(1, 2);
    g.apply_move(2, 2);
    g.reset();
    assert_eq!(g.turn().current(), Player::First);
    assert!(cells(&g).iter().all(|c| *c == Cell::Empty));
    assert_eq!(g.board().rows(), 3);
    assert_eq!(g.board().cols(), 3);
    assert_eq!(g.apply_move(2, 2), MoveResult::Accepted { player: Player::First, row: 2, col: 2 });
}

#[test]
fn turns_alternate_across_accepted_moves() {
    let mut g = GameState::new(2, 3).unwrap();
    let moves = [(0, 0), (0, 0), (5, 5), (0, 1), (0, 1), (1, 2), (1, 0), (0, 2)];
    let mut players = Vec::new();
    for (r, c) in moves {
        if let MoveResult::Accepted { player, .. } = g.apply_move(r, c) {
            players.push(player);
        }
    }
    assert_eq!(players, vec![Player::First, Player::Second, Player::First, Player::Second, Player::First]);
    assert_eq!(g.turn().current(), Player::Second);
}

#[test]
fn one_by_one_board() {
    let mut g = GameState::new(1, 1).unwrap();
    assert_eq!(g.apply_move(0, 0), MoveResult::Accepted { player: Player::First, row: 0, col: 0 });
    assert_eq!(g.apply_move(0, 0), MoveResult::Rejected(RejectReason::CellOccupied));
    assert_eq!(g.board().cell_at(0, 0), Ok(Cell::Cross));
}

#[test]
fn scenario_three_moves_one_rejected() {
    let mut g = GameState::new(3, 3).unwrap();
    assert_eq!(g.apply_move(0, 0), MoveResult::Accepted { player: Player::First, row: 0, col: 0 });
    assert_eq!(g.apply_move(0, 0), MoveResult::Rejected(RejectReason::CellOccupied));
    assert_eq!(g.apply_move(1, 1), MoveResult::Accepted { player: Player::Second, row: 1, col: 1 });
    assert_eq!(g.apply_move(0, 1), MoveResult::Accepted { player: Player::First, row: 0, col: 1 });
    let b = g.board();
    for r in 0..3 {
        for c in 0..3 {
            let want = match (r, c) {
                (0, 0) | (0, 1) => Cell::Cross,
                (1, 1) => Cell::Circle,
                _ => Cell::Empty,
            };
            assert_eq!(b.cell_at(r, c), Ok(want));
        }
    }
    assert_eq!(g.turn().current(), Player::Second);
}

#[test]
fn scenario_zero_rows_invalid_dimensions() {
    assert!(matches!(Board::new(0, 3), Err(BoardError::InvalidDimensions)));
    assert!(matches!(GameState::new(0, 3), Err(BoardError::InvalidDimensions)));
}

#[test]
fn pointer_press_marks_cell_under_pointer() {
    let mut g = GameState::new(3, 3).unwrap();
    let r = g.handle_pointer_down(-150, 150, 300, 300);
    assert_eq!(r, Some(MoveResult::Accepted { player: Player::First, row: 0, col: 0 }));
    let r = g.handle_pointer_down(0, 0, 300, 300);
    assert_eq!(r, Some(MoveResult::Accepted { player: Player::Second, row: 1, col: 1 }));
    let r = g.handle_pointer_down(-100, 100, 300, 300);
    assert_eq!(r, Some(MoveResult::Rejected(RejectReason::CellOccupied)));
    assert_eq!(g.board().cell_at(0, 0), Ok(Cell::Cross));
    assert_eq!(g.board().cell_at(1, 1), Ok(Cell::Circle));
}

#[test]
fn pointer_press_off_grid_does_nothing() {
    let mut g = GameState::new(3, 3).unwrap();
    assert_eq!(g.handle_pointer_down(150, 0, 300, 300), None);
    assert_eq!(g.handle_pointer_down(0, -151, 300, 300), None);
    assert_eq!(g.turn().current(), Player::First);
    assert!(cells(&g).iter().all(|c| *c == Cell::Empty));
}
