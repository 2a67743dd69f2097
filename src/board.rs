use vstd::prelude::*;

verus! {

/// One of the two players; `First` always opens the game.
#[derive(Clone, Copy, Debug, PartialEq, Eq, Structural)]
pub enum Player {
    First,
    Second,
}

/// What one position of the grid holds.
#[derive(Clone, Copy, Debug, PartialEq, Eq, Structural)]
pub enum Cell {
    Empty,
    Cross,
    Circle,
}

/// Errors of the board's constructor and of its bounds-checked accessors.
#[derive(Clone, Copy, Debug, PartialEq, Eq, Structural)]
pub enum BoardError {
    /// A board needs at least one row and one column.
    InvalidDimensions,
    /// The row or the column lies outside the grid.
    OutOfBounds,
}

impl Player {
    /// The player who moves after `self`.
    pub open spec fn opponent(self) -> Player {
        match self {
            Player::First => Player::Second,
            Player::Second => Player::First,
        }
    }

    /// The mark that `self` puts on the board: crosses for the first player,
    /// circles for the second.
    pub open spec fn spec_mark(self) -> Cell {
        match self {
            Player::First => Cell::Cross,
            Player::Second => Cell::Circle,
        }
    }

    pub fn other(self) -> (r: Player)
        ensures
            r == self.opponent(),
    {
        match self {
            Player::First => Player::Second,
            Player::Second => Player::First,
        }
    }

    #[verifier::when_used_as_spec(spec_mark)]
    pub fn mark(self) -> (r: Cell)
        ensures
            r == self.spec_mark(),
    {
        match self {
            Player::First => Cell::Cross,
            Player::Second => Cell::Circle,
        }
    }
}

/// The mathematical board: its dimensions and its cells in row-major order.
pub struct BoardModel {
    pub rows: nat,
    pub cols: nat,
    pub cells: Seq<Cell>,
}

impl BoardModel {
    /// Both dimensions are positive and every (row, col) pair has its cell.
    pub open spec fn wf(self) -> bool {
        &&& self.rows > 0
        &&& self.cols > 0
        &&& self.cells.len() == self.rows * self.cols
    }

    pub open spec fn in_bounds(self, row: int, col: int) -> bool {
        0 <= row < self.rows && 0 <= col < self.cols
    }

    /// Position of (row, col) in the row-major sequence of cells.
    pub open spec fn index(self, row: int, col: int) -> int {
        row * self.cols + col
    }

    pub open spec fn cell(self, row: int, col: int) -> Cell {
        self.cells[self.index(row, col)]
    }

    /// The same board with the cell at (row, col) replaced by `value`.
    pub open spec fn with_cell(self, row: int, col: int, value: Cell) -> BoardModel {
        BoardModel { cells: self.cells.update(self.index(row, col), value), ..self }
    }

    /// A rows × cols board whose cells are all empty.
    pub open spec fn empty(rows: nat, cols: nat) -> BoardModel {
        BoardModel { rows, cols, cells: Seq::new(rows * cols, |_i: int| Cell::Empty) }
    }

    /// An in-bounds pair names a cell of the sequence.
    pub proof fn lemma_index_in_range(self, row: int, col: int)
        requires
            self.wf(),
            self.in_bounds(row, col),
        ensures
            0 <= self.index(row, col) < self.cells.len(),
    {
        let cols = self.cols as int;
        let rows = self.rows as int;
        assert(0 <= row * cols + col < rows * cols) by (nonlinear_arith)
            requires
                0 <= row < rows,
                0 <= col < cols,
        ;
    }

    /// Distinct in-bounds pairs name distinct cells.
    pub proof fn lemma_index_injective(self, r1: int, c1: int, r2: int, c2: int)
        requires
            self.wf(),
            self.in_bounds(r1, c1),
            self.in_bounds(r2, c2),
            (r1, c1) != (r2, c2),
        ensures
            self.index(r1, c1) != self.index(r2, c2),
    {
        let cols = self.cols as int;
        if r1 == r2 {
        } else if r1 < r2 {
            assert(r1 * cols + c1 < r2 * cols + c2) by (nonlinear_arith)
                requires
                    r1 < r2,
                    0 <= c1 < cols,
                    0 <= c2,
            ;
        } else {
            assert(r2 * cols + c2 < r1 * cols + c1) by (nonlinear_arith)
                requires
                    r2 < r1,
                    0 <= c2 < cols,
                    0 <= c1,
            ;
        }
    }

    /// Writing one cell leaves the dimensions alone, gives the written cell
    /// its new value and keeps every other cell.
    pub proof fn lemma_with_cell(self, row: int, col: int, value: Cell)
        requires
            self.wf(),
            self.in_bounds(row, col),
        ensures
            self.with_cell(row, col, value).wf(),
            self.with_cell(row, col, value).cell(row, col) == value,
            forall|r: int, c: int|
                self.in_bounds(r, c) && (r, c) != (row, col) ==> #[trigger] self.with_cell(
                    row,
                    col,
                    value,
                ).cell(r, c) == self.cell(r, c),
    {
        self.lemma_index_in_range(row, col);
        assert forall|r: int, c: int|
            self.in_bounds(r, c) && (r, c) != (row, col) implies #[trigger] self.with_cell(
            row,
            col,
            value,
        ).cell(r, c) == self.cell(r, c) by {
            self.lemma_index_in_range(r, c);
            self.lemma_index_injective(r, c, row, col);
        }
    }

    /// Every cell of an empty board is empty.
    pub proof fn lemma_empty(rows: nat, cols: nat)
        requires
            rows > 0,
            cols > 0,
        ensures
            BoardModel::empty(rows, cols).wf(),
            forall|r: int, c: int|
                BoardModel::empty(rows, cols).in_bounds(r, c) ==> #[trigger] BoardModel::empty(
                    rows,
                    cols,
                ).cell(r, c) == Cell::Empty,
    {
        let b = BoardModel::empty(rows, cols);
        assert forall|r: int, c: int| b.in_bounds(r, c) implies #[trigger] b.cell(r, c)
            == Cell::Empty by {
            b.lemma_index_in_range(r, c);
        }
    }
}

/// A rows × cols grid of cells, stored row-major in one vector and reached
/// only through bounds-checked accessors.
#[derive(Debug)]
pub struct Board {
    rows: usize,
    cols: usize,
    cells: Vec<Cell>,
}

impl View for Board {
    type V = BoardModel;

    closed spec fn view(&self) -> BoardModel {
        BoardModel { rows: self.rows as nat, cols: self.cols as nat, cells: self.cells@ }
    }
}

/// A vector of `n` empty cells.
fn empty_cells(n: usize) -> (r: Vec<Cell>)
    ensures
        r@ == Seq::new(n as nat, |_i: int| Cell::Empty),
{
    let mut cells: Vec<Cell> = Vec::with_capacity(n);
    let mut i: usize = 0;
    while i < n
        invariant
            i <= n,
            cells@ == Seq::new(i as nat, |_i: int| Cell::Empty),
        decreases n - i,
    {
        cells.push(Cell::Empty);
        i = i + 1;
        assert(cells@ =~= Seq::new(i as nat, |_i: int| Cell::Empty));
    }
    cells
}

impl Board {
    /// A rows × cols board with every cell empty; `InvalidDimensions` when
    /// either dimension is zero.
    pub fn new(rows: usize, cols: usize) -> (r: Result<Board, BoardError>)
        requires
            rows * cols <= usize::MAX,
        ensures
            rows == 0 || cols == 0 ==> r == Err::<Board, BoardError>(BoardError::InvalidDimensions),
            rows > 0 && cols > 0 ==> (r matches Ok(b) && b@ == BoardModel::empty(rows as nat, cols as nat)),
            r matches Ok(b) ==> b@.wf(),
    {
        if rows == 0 || cols == 0 {
            return Err(BoardError::InvalidDimensions);
        }
        let b = Board { rows, cols, cells: empty_cells(rows * cols) };
        proof {
            BoardModel::lemma_empty(rows as nat, cols as nat);
        }
        Ok(b)
    }

    pub fn rows(&self) -> (r: usize)
        ensures
            r == self@.rows,
    {
        self.rows
    }

    pub fn cols(&self) -> (r: usize)
        ensures
            r == self@.cols,
    {
        self.cols
    }

    /// Row-major position of an in-bounds pair.
    fn index(&self, row: usize, col: usize) -> (r: usize)
        requires
            self@.wf(),
            self@.in_bounds(row as int, col as int),
        ensures
            r == self@.index(row as int, col as int),
            r < self.cells@.len(),
    {
        let n = self.cells.len();
        proof {
            self@.lemma_index_in_range(row as int, col as int);
            assert(row * self.cols <= row * self.cols + col < n);
        }
        row * self.cols + col
    }

    /// The cell at (row, col); `OutOfBounds` when the pair lies outside the grid.
    pub fn cell_at(&self, row: usize, col: usize) -> (r: Result<Cell, BoardError>)
        requires
            self@.wf(),
        ensures
            self@.in_bounds(row as int, col as int) ==> r == Ok::<Cell, BoardError>(
                self@.cell(row as int, col as int),
            ),
            !self@.in_bounds(row as int, col as int) ==> r == Err::<Cell, BoardError>(
                BoardError::OutOfBounds,
            ),
    {
        if row >= self.rows || col >= self.cols {
            return Err(BoardError::OutOfBounds);
        }
        let i = self.index(row, col);
        Ok(self.cells[i])
    }

    /// Writes `value` at (row, col) and touches nothing else; `OutOfBounds`,
    /// with the board unchanged, when the pair lies outside the grid.
    pub fn set_cell(&mut self, row: usize, col: usize, value: Cell) -> (r: Result<(), BoardError>)
        requires
            old(self)@.wf(),
        ensures
            old(self)@.in_bounds(row as int, col as int) ==> r == Ok::<(), BoardError>(())
                && final(self)@ == old(self)@.with_cell(row as int, col as int, value),
            !old(self)@.in_bounds(row as int, col as int) ==> r == Err::<(), BoardError>(
                BoardError::OutOfBounds,
            ) && final(self)@ == old(self)@,
            final(self)@.wf(),
    {
        if row >= self.rows || col >= self.cols {
            return Err(BoardError::OutOfBounds);
        }
        let i = self.index(row, col);
        self.cells[i] = value;
        proof {
            old(self)@.lemma_with_cell(row as int, col as int, value);
        }
        Ok(())
    }

    /// Empties every cell; the dimensions stay.
    pub fn reset(&mut self)
        requires
            old(self)@.wf(),
        ensures
            final(self)@ == BoardModel::empty(old(self)@.rows, old(self)@.cols),
            final(self)@.wf(),
    {
        let n = self.cells.len();
        let mut i: usize = 0;
        while i < n
            invariant
                n == self.cells@.len(),
                i <= n,
                self.rows == old(self).rows,
                self.cols == old(self).cols,
                n == self.rows * self.cols,
                self.rows > 0,
                self.cols > 0,
                forall|j: int| 0 <= j < i ==> self.cells@[j] == Cell::Empty,
            decreases n - i,
        {
            self.cells[i] = Cell::Empty;
            i = i + 1;
        }
        assert(self.cells@ =~= Seq::new(n as nat, |_i: int| Cell::Empty));
        proof {
            BoardModel::lemma_empty(self.rows as nat, self.cols as nat);
        }
    }
}

} // verus!
