//! The three by three board: coordinates, marks, placing a mark and telling
//! whether a position is won, drawn or still open.

use vstd::prelude::*;
use crate::error::ContractError;

verus! {

/// One of the two participants of a game.
#[derive(Clone, Copy, Debug, PartialEq, Eq, Structural)]
pub enum Role {
    Host,
    Opponent,
}

/// What a cell of the board holds.
#[derive(Clone, Copy, Debug, PartialEq, Eq, Structural)]
pub enum Cell {
    Empty,
    Host,
    Opponent,
}

/// How a position stands.
#[derive(Clone, Copy, Debug, PartialEq, Eq, Structural)]
pub enum Outcome {
    Ongoing,
    Win(Role),
    Draw,
}

/// A cell position: row and column, each valid from 0 to 2.
#[derive(Clone, Copy, Debug, PartialEq, Eq, Structural)]
pub struct Coord {
    pub row: u8,
    pub col: u8,
}

/// The board, row after row: the cell in row `r` and column `c` is `cells[3 * r + c]`.
#[derive(Clone, Copy, Debug, PartialEq, Eq)]
pub struct Board {
    pub cells: [Cell; 9],
}

impl Role {
    /// The other participant.
    pub open spec fn opposite(self) -> Role {
        match self {
            Role::Host => Role::Opponent,
            Role::Opponent => Role::Host,
        }
    }

    /// The mark that this participant leaves on the board.
    pub open spec fn mark(self) -> Cell {
        match self {
            Role::Host => Cell::Host,
            Role::Opponent => Cell::Opponent,
        }
    }

    /// The other participant.
    pub fn other(self) -> (r: Role)
        ensures
            r == self.opposite(),
    {
        match self {
            Role::Host => Role::Opponent,
            Role::Opponent => Role::Host,
        }
    }

    /// The mark that this participant leaves on the board.
    pub fn to_cell(self) -> (c: Cell)
        ensures
            c == self.mark(),
    {
        match self {
            Role::Host => Cell::Host,
            Role::Opponent => Cell::Opponent,
        }
    }
}

impl Coord {
    /// Row and column both lie in 0..=2.
    pub open spec fn in_range(self) -> bool {
        self.row <= 2 && self.col <= 2
    }

    /// Position of the cell in the row-after-row listing of the board.
    pub open spec fn offset(self) -> int {
        3 * self.row + self.col
    }

    pub fn new(row: u8, col: u8) -> (c: Coord)
        ensures
            c.row == row,
            c.col == col,
    {
        Coord { row, col }
    }

    /// Whether the coordinate names a cell of the board.
    pub fn is_valid(&self) -> (b: bool)
        ensures
            b == self.in_range(),
    {
        self.row <= 2 && self.col <= 2
    }
}

/// The cell of `cells` in row `row` and column `col`.
pub open spec fn cell_at(cells: Seq<Cell>, row: int, col: int) -> Cell {
    cells[3 * row + col]
}

/// The board without any mark.
pub open spec fn empty_cells() -> Seq<Cell> {
    Seq::new(9, |i: int| Cell::Empty)
}

/// Placing `role`'s mark at `coord`: refused outside the board and on a cell
/// that is not empty, otherwise the same cells with that one cell marked.
pub open spec fn place(cells: Seq<Cell>, coord: Coord, role: Role) -> Result<Seq<Cell>, ContractError> {
    if !coord.in_range() {
        Err(ContractError::InvalidCoordinate)
    } else if cells[coord.offset()] != Cell::Empty {
        Err(ContractError::CellOccupied)
    } else {
        Ok(cells.update(coord.offset(), role.mark()))
    }
}

/// `mark` fills row `row`.
pub open spec fn fills_row(cells: Seq<Cell>, row: int, mark: Cell) -> bool {
    forall|c: int| 0 <= c < 3 ==> #[trigger] cell_at(cells, row, c) == mark
}

/// `mark` fills column `col`.
pub open spec fn fills_column(cells: Seq<Cell>, col: int, mark: Cell) -> bool {
    forall|r: int| 0 <= r < 3 ==> #[trigger] cell_at(cells, r, col) == mark
}

/// `mark` fills the diagonal from the first cell to the last.
pub open spec fn fills_diagonal(cells: Seq<Cell>, mark: Cell) -> bool {
    forall|i: int| 0 <= i < 3 ==> #[trigger] cell_at(cells, i, i) == mark
}

/// `mark` fills the diagonal from the end of the first row to the start of the last.
pub open spec fn fills_antidiagonal(cells: Seq<Cell>, mark: Cell) -> bool {
    forall|i: int| 0 <= i < 3 ==> #[trigger] cell_at(cells, i, 2 - i) == mark
}

/// `mark` fills one of the eight lines: a row, a column or a diagonal.
pub open spec fn holds_line(cells: Seq<Cell>, mark: Cell) -> bool {
    ||| exists|r: int| 0 <= r < 3 && #[trigger] fills_row(cells, r, mark)
    ||| exists|c: int| 0 <= c < 3 && #[trigger] fills_column(cells, c, mark)
    ||| fills_diagonal(cells, mark)
    ||| fills_antidiagonal(cells, mark)
}

/// No cell is empty.
pub open spec fn is_full(cells: Seq<Cell>) -> bool {
    forall|i: int| 0 <= i < cells.len() ==> cells[i] != Cell::Empty
}

/// How the position stands: won by the participant whose mark fills a line,
/// drawn when nobody holds a line and no cell is empty, open otherwise.
/// Should both marks fill a line, which no sequence of legal moves produces,
/// the host is named.
pub open spec fn outcome_of(cells: Seq<Cell>) -> Outcome {
    if holds_line(cells, Cell::Host) {
        Outcome::Win(Role::Host)
    } else if holds_line(cells, Cell::Opponent) {
        Outcome::Win(Role::Opponent)
    } else if is_full(cells) {
        Outcome::Draw
    } else {
        Outcome::Ongoing
    }
}

impl View for Board {
    type V = Seq<Cell>;

    open spec fn view(&self) -> Seq<Cell> {
        self.cells@
    }
}

impl Board {
    /// The board without any mark.
    pub fn new() -> (b: Board)
        ensures
            b@ == empty_cells(),
    {
        Board { cells: [Cell::Empty; 9] }
    }

    /// What the cell at `coord` holds, or `None` outside the board.
    pub fn get(&self, coord: Coord) -> (c: Option<Cell>)
        ensures
            c == (if coord.in_range() { Some(self@[coord.offset()]) } else { None }),
    {
        if coord.is_valid() {
            let i: usize = (3 * coord.row + coord.col) as usize;
            Some(self.cells[i])
        } else {
            None
        }
    }

    /// Places `role`'s mark at `coord` and returns the new board.
    pub fn apply(&self, coord: Coord, role: Role) -> (r: Result<Board, ContractError>)
        ensures
            match r {
                Ok(b) => place(self@, coord, role) == Ok::<Seq<Cell>, ContractError>(b@),
                Err(e) => place(self@, coord, role) == Err::<Seq<Cell>, ContractError>(e),
            },
    {
        if !coord.is_valid() {
            return Err(ContractError::InvalidCoordinate);
        }
        let i: usize = (3 * coord.row + coord.col) as usize;
        if self.cells[i] != Cell::Empty {
            return Err(ContractError::CellOccupied);
        }
        let mut cells = self.cells;
        cells[i] = role.to_cell();
        Ok(Board { cells })
    }

    /// Whether the three cells at offsets `a`, `b` and `c` all hold `mark`.
    fn all_three(&self, a: usize, b: usize, c: usize, mark: Cell) -> (r: bool)
        requires
            a < 9,
            b < 9,
            c < 9,
        ensures
            r == (self@[a as int] == mark && self@[b as int] == mark && self@[c as int] == mark),
    {
        self.cells[a] == mark && self.cells[b] == mark && self.cells[c] == mark
    }

    /// Whether `mark` fills one of the eight lines.
    pub fn has_line(&self, mark: Cell) -> (r: bool)
        ensures
            r == holds_line(self@, mark),
    {
        let rows = self.all_three(0, 1, 2, mark) || self.all_three(3, 4, 5, mark)
            || self.all_three(6, 7, 8, mark);
        let columns = self.all_three(0, 3, 6, mark) || self.all_three(1, 4, 7, mark)
            || self.all_three(2, 5, 8, mark);
        let diagonal = self.all_three(0, 4, 8, mark);
        let antidiagonal = self.all_three(2, 4, 6, mark);
        proof {
            let cells = self@;
            assert forall|i: int| 0 <= i < 3 implies (fills_row(cells, i, mark) <==> cells[3 * i]
                == mark && cells[3 * i + 1] == mark && cells[3 * i + 2] == mark) by {
                assert(cell_at(cells, i, 0) == cells[3 * i]);
                assert(cell_at(cells, i, 1) == cells[3 * i + 1]);
                assert(cell_at(cells, i, 2) == cells[3 * i + 2]);
            }
            assert forall|i: int| 0 <= i < 3 implies (fills_column(cells, i, mark) <==> cells[i]
                == mark && cells[3 + i] == mark && cells[6 + i] == mark) by {
                assert(cell_at(cells, 0, i) == cells[i]);
                assert(cell_at(cells, 1, i) == cells[3 + i]);
                assert(cell_at(cells, 2, i) == cells[6 + i]);
            }
            assert(fills_diagonal(cells, mark) <==> cells[0] == mark && cells[4] == mark
                && cells[8] == mark) by {
                assert(cell_at(cells, 0, 0) == cells[0]);
                assert(cell_at(cells, 1, 1) == cells[4]);
                assert(cell_at(cells, 2, 2) == cells[8]);
            }
            assert(fills_antidiagonal(cells, mark) <==> cells[2] == mark && cells[4] == mark
                && cells[6] == mark) by {
                assert(cell_at(cells, 0, 2 - 0) == cells[2]);
                assert(cell_at(cells, 1, 2 - 1) == cells[4]);
                assert(cell_at(cells, 2, 2 - 2) == cells[6]);
            }
            assert(rows == (fills_row(cells, 0, mark) || fills_row(cells, 1, mark) || fills_row(
                cells,
                2,
                mark,
            )));
            assert(columns == (fills_column(cells, 0, mark) || fills_column(cells, 1, mark)
                || fills_column(cells, 2, mark)));
        }
        rows || columns || diagonal || antidiagonal
    }

    /// Whether no cell is empty.
    pub fn full(&self) -> (r: bool)
        ensures
            r == is_full(self@),
    {
        let mut i: usize = 0;
        while i < 9
            invariant
                i <= 9,
                forall|j: int| 0 <= j < i ==> self@[j] != Cell::Empty,
            decreases 9 - i,
        {
            if self.cells[i] == Cell::Empty {
                return false;
            }
            i += 1;
        }
        true
    }

    /// How the position stands.
    pub fn check_outcome(&self) -> (o: Outcome)
        ensures
            o == outcome_of(self@),
    {
        if self.has_line(Cell::Host) {
            Outcome::Win(Role::Host)
        } else if self.has_line(Cell::Opponent) {
            Outcome::Win(Role::Opponent)
        } else if self.full() {
            Outcome::Draw
        } else {
            Outcome::Ongoing
        }
    }
}

} // verus!
