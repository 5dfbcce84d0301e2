//! The grid: cell storage, queries, editing and the generation step.

use crate::cell::{count_live, live_count, Cell, GameError};
use crate::mapper::{index_of, lemma_index_round_trip, position_of, Mapper};
use vstd::arithmetic::div_mod::lemma_fundamental_div_mod_converse;
use vstd::prelude::*;
use vstd::string::StringExecFns;

verus! {

/// The lowest cell count that has room for the initial pattern.
pub const MIN_CELLS: usize = 19;

/// The cell at a position, if the position exists and its linear index lies
/// within the board.
pub open spec fn lookup(size: usize, board: Seq<Cell>, pos: Option<Mapper>) -> Option<Cell> {
    match pos {
        None => None,
        Some(p) => if index_of(size, p) < board.len() {
            Some(board[index_of(size, p)])
        } else {
            None
        },
    }
}

/// The cell at a position, if the position lies on the grid: its row and
/// its column are both below `size`. Beyond an edge there is no cell.
pub open spec fn neighbour(size: usize, board: Seq<Cell>, pos: Option<Mapper>) -> Option<Cell> {
    match pos {
        Some(p) => if p.row < size && p.col < size {
            lookup(size, board, pos)
        } else {
            None
        },
        None => None,
    }
}

/// How many of the up to eight neighbours of cell `idx` are alive.
/// Neighbours that do not exist count as nothing, so a cell on an edge or
/// in a corner has fewer than eight.
pub open spec fn live_neighbours(size: usize, board: Seq<Cell>, idx: usize) -> nat {
    let here = position_of(size, idx);
    live_count(neighbour(size, board, here.shifted(0, -1)))
        + live_count(neighbour(size, board, here.shifted(-1, -1)))
        + live_count(neighbour(size, board, here.shifted(-1, 0)))
        + live_count(neighbour(size, board, here.shifted(-1, 1)))
        + live_count(neighbour(size, board, here.shifted(0, 1)))
        + live_count(neighbour(size, board, here.shifted(1, 1)))
        + live_count(neighbour(size, board, here.shifted(1, 0)))
        + live_count(neighbour(size, board, here.shifted(1, -1)))
}

/// One if `row` and `col` name a cell of the grid and that cell is alive,
/// nothing otherwise.
pub open spec fn live_on_grid(size: usize, board: Seq<Cell>, row: int, col: int) -> nat {
    if 0 <= row < size && 0 <= col < size && board[row * size + col] == Cell::Alive {
        1
    } else {
        0
    }
}

/// The board one generation later: every cell follows the rule, judged by
/// the neighbours it has on `board`.
pub open spec fn next_generation(size: usize, board: Seq<Cell>) -> Seq<Cell> {
    Seq::new(board.len(), |i: int| board[i].evolve(live_neighbours(size, board, i as usize)))
}

/// A board of `cells` cells, all dead but the three at 16, 17 and 18.
pub open spec fn seeded(cells: nat) -> Seq<Cell> {
    Seq::new(
        cells,
        |i: int|
            if 16 <= i <= 18 {
                Cell::Alive
            } else {
                Cell::Dead
            },
    )
}

/// The text of a board: row after row, one glyph per cell, a line break
/// after the last cell of each row.
pub open spec fn rendered(size: usize, board: Seq<Cell>) -> Seq<char> {
    Seq::new(
        (size * (size + 1)) as nat,
        |k: int|
            if k % (size + 1) == size as int {
                '\n'
            } else {
                board[(k / (size + 1)) * size + k % (size + 1)].glyph()
            },
    )
}

/// A square grid of cells, stored row by row.
pub struct Game {
    size: usize,
    board: Vec<Cell>,
}

/// What a grid is, to its contracts: its size and its cells in row-major
/// order.
pub struct GameView {
    pub size: usize,
    pub board: Seq<Cell>,
}

impl View for Game {
    type V = GameView;

    closed spec fn view(&self) -> GameView {
        GameView { size: self.size, board: self.board@ }
    }
}

impl Game {
    /// The number of rows, which is also the number of columns.
    pub open spec fn spec_size(&self) -> usize {
        self@.size
    }

    /// Every grid has at least one row and exactly `size * size` cells.
    #[verifier::type_invariant]
    pub open spec fn wf(&self) -> bool {
        &&& self.spec_size() > 0
        &&& self@.board.len() == self.spec_size() * self.spec_size()
    }

    /// Builds a grid of `size` rows and columns holding the initial pattern:
    /// cells 16, 17 and 18 alive, all others dead. A size whose cell count is
    /// below [`MIN_CELLS`] or does not fit in a `usize` is refused.
    pub fn new(size: usize) -> (r: Result<Game, GameError>)
        ensures
            r is Ok <==> MIN_CELLS <= size * size <= usize::MAX,
            match r {
                Ok(game) => {
                    &&& game.wf()
                    &&& game.size() == size
                    &&& game@.board == seeded((size * size) as nat)
                },
                Err(e) => e == GameError::InvalidSize,
            },
    {
        let cells = match size.checked_mul(size) {
            Some(n) => n,
            None => return Err(GameError::InvalidSize),
        };
        if cells < MIN_CELLS {
            return Err(GameError::InvalidSize);
        }
        let mut board: Vec<Cell> = Vec::with_capacity(cells);
        let mut filled: usize = 0;
        while filled < cells
            invariant
                filled <= cells,
                board@.len() == filled,
                forall|i: int| 0 <= i < filled ==> board@[i] == Cell::Dead,
            decreases cells - filled,
        {
            board.push(Cell::Dead);
            filled += 1;
        }
        board.set(16, Cell::Alive);
        board.set(17, Cell::Alive);
        board.set(18, Cell::Alive);
        assert(board@ =~= seeded(cells as nat));
        assert(size > 0) by (nonlinear_arith)
            requires
                size * size >= 19,
        ;
        Ok(Game { size, board })
    }

    /// The number of rows, which is also the number of columns.
    #[verifier::when_used_as_spec(spec_size)]
    pub fn size(&self) -> (r: usize)
        ensures
            r == self.spec_size(),
            r > 0,
            self@.board.len() == r * r,
    {
        proof {
            use_type_invariant(self);
        }
        self.size
    }

    /// The board as text, one line per row.
    pub fn render(&self) -> (text: String)
        ensures
            text@ == rendered(self.size(), self@.board),
    {
        proof {
            use_type_invariant(self);
        }
        let size = self.size;
        let cells = self.board.len();
        let ghost width = size + 1;
        let ghost whole = rendered(size, self@.board);
        let mut text = String::new();
        let mut row: usize = 0;
        proof {
            lemma_rows_fit(size as int, width, 0);
        }
        while row < size
            invariant
                size == self.size,
                cells == self@.board.len() == size * size,
                width == size + 1,
                whole == rendered(size, self@.board),
                whole.len() == size * width,
                row <= size,
                0 <= row * width <= size * width,
                text@ == whole.subrange(0, row * width),
            decreases size - row,
        {
            let mut col: usize = 0;
            proof {
                lemma_row_major_bound(size as int, width, row as int, 0);
            }
            while col < size
                invariant
                    size == self.size,
                    cells == self@.board.len() == size * size,
                    width == size + 1,
                    whole == rendered(size, self@.board),
                    whole.len() == size * width,
                    row < size,
                    col <= size,
                    0 <= row * width,
                    row * width + col < size * width,
                    text@ == whole.subrange(0, row * width + col),
                decreases size - col,
            {
                proof {
                    reveal_strlit("\u{25FB}");
                    reveal_strlit("\u{25FC}");
                    lemma_row_major_bound(size as int, size as int, row as int, col as int);
                    lemma_row_major_bound(size as int, width, row as int, col + 1);
                    lemma_fundamental_div_mod_converse(
                        row * width + col,
                        width,
                        row as int,
                        col as int,
                    );
                }
                let cell = self.board[row * size + col];
                match cell {
                    Cell::Dead => text.append("\u{25FB}"),
                    Cell::Alive => text.append("\u{25FC}"),
                }
                assert(text@ =~= whole.subrange(0, row * width + col + 1));
                col += 1;
            }
            proof {
                reveal_strlit("\n");
                lemma_fundamental_div_mod_converse(
                    row * width + col,
                    width,
                    row as int,
                    col as int,
                );
                lemma_rows_fit(size as int, width, row + 1);
                assert((row + 1) * width == row * width + col + 1) by (nonlinear_arith)
                    requires
                        width == col + 1,
                ;
            }
            text.append("\n");
            assert(text@ =~= whole.subrange(0, (row + 1) * width));
            row += 1;
        }
        assert(text@ =~= whole);
        text
    }

    /// The position of the cell with linear index `idx`.
    pub fn get_row_col(&self, idx: usize) -> (r: Mapper)
        ensures
            r == position_of(self.size(), idx),
    {
        proof {
            use_type_invariant(self);
        }
        Mapper::from_index(self.size, idx)
    }

    /// A read-only view of the cells in row-major order.
    pub fn get_array(&self) -> (r: &[Cell])
        ensures
            r@ == self@.board,
    {
        self.board.as_slice()
    }

    /// Flips the cell at `idx` between dead and alive. An index that names
    /// no cell is refused and leaves the board as it was.
    pub fn insert_cell(&mut self, idx: usize) -> (r: Result<(), GameError>)
        ensures
            final(self).size() == old(self).size(),
            idx < old(self)@.board.len() ==> r is Ok && final(self)@.board == old(self)@.board.update(
                idx as int,
                old(self)@.board[idx as int].toggled(),
            ),
            idx >= old(self)@.board.len() ==> r == Err::<(), GameError>(GameError::UndefinedIndex)
                && final(self)@.board == old(self)@.board,
    {
        proof {
            use_type_invariant(&*self);
            lemma_index_round_trip(self.size, idx);
        }
        let pos = self.get_row_col(idx);
        match self.query(Some(pos)) {
            Some(cell) => {
                self.mutate(idx, cell.flip());
                Ok(())
            },
            None => Err(GameError::UndefinedIndex),
        }
    }

    /// The linear index of a position: `row * size + col`. The position is
    /// not held against the grid, so the index may lie past its last cell.
    pub fn get_index(&self, mapper: Mapper) -> (r: usize)
        requires
            index_of(self.size(), mapper) <= usize::MAX,
        ensures
            r == index_of(self.size(), mapper),
    {
        mapper.to_index(self.size)
    }

    /// The cell at a position. There is none for a missing position, nor for
    /// one whose linear index lies outside the board.
    pub fn query(&self, mapper: Option<Mapper>) -> (r: Option<Cell>)
        ensures
            r == lookup(self.size(), self@.board, mapper),
            mapper is None ==> r is None,
    {
        let cells = self.board.len();
        let pos = match mapper {
            Some(pos) => pos,
            None => return None,
        };
        let base = match pos.row.checked_mul(self.size) {
            Some(base) => base,
            None => return None,
        };
        let idx = match base.checked_add(pos.col) {
            Some(idx) => idx,
            None => return None,
        };
        if idx < cells {
            Some(self.board[idx])
        } else {
            None
        }
    }

    /// Overwrites the cell at `idx`.
    fn mutate(&mut self, idx: usize, cell_state: Cell)
        requires
            idx < old(self)@.board.len(),
        ensures
            final(self).size() == old(self).size(),
            final(self)@.board == old(self)@.board.update(idx as int, cell_state),
    {
        proof {
            use_type_invariant(&*self);
        }
        self.board[idx] = cell_state;
    }

    /// The cell at a position on the grid. There is none for a missing
    /// position, nor for one whose row or column lies beyond an edge.
    pub fn neighbour_at(&self, mapper: Option<Mapper>) -> (r: Option<Cell>)
        ensures
            r == neighbour(self.size(), self@.board, mapper),
            mapper is None ==> r is None,
    {
        match mapper {
            Some(pos) => {
                if pos.row < self.size && pos.col < self.size {
                    self.query(mapper)
                } else {
                    None
                }
            },
            None => None,
        }
    }

    /// How many neighbours of cell `idx` are alive. Only cells on the grid
    /// count: nothing lies beyond an edge.
    pub fn count_neighbours(&self, idx: usize) -> (n: u8)
        ensures
            n == live_neighbours(self.size(), self@.board, idx),
            n <= 8,
    {
        let here = self.get_row_col(idx);
        let left = count_live(self.neighbour_at(here.set(0, -1)));
        let top_left = count_live(self.neighbour_at(here.set(-1, -1)));
        let top = count_live(self.neighbour_at(here.set(-1, 0)));
        let top_right = count_live(self.neighbour_at(here.set(-1, 1)));
        let right = count_live(self.neighbour_at(here.set(0, 1)));
        let bottom_right = count_live(self.neighbour_at(here.set(1, 1)));
        let bottom = count_live(self.neighbour_at(here.set(1, 0)));
        let bottom_left = count_live(self.neighbour_at(here.set(1, -1)));
        left + top_left + top + top_right + right + bottom_right + bottom + bottom_left
    }

    /// Advances the grid by one generation. Every cell is judged by the
    /// board as it was before the call.
    pub fn tick(&mut self)
        ensures
            final(self).size() == old(self).size(),
            final(self)@.board == next_generation(old(self).size(), old(self)@.board),
    {
        proof {
            use_type_invariant(&*self);
        }
        let cells = self.board.len();
        let mut next: Vec<Cell> = Vec::with_capacity(cells);
        let mut idx: usize = 0;
        while idx < cells
            invariant
                *self == *old(self),
                cells == self@.board.len(),
                idx <= cells,
                next@.len() == idx,
                forall|i: int|
                    0 <= i < idx ==> next@[i] == self@.board[i].evolve(
                        live_neighbours(self.size(), self@.board, i as usize),
                    ),
            decreases cells - idx,
        {
            let live = self.count_neighbours(idx);
            let cell = self.board[idx];
            next.push(cell.next(live));
            idx += 1;
        }
        assert(next@ =~= next_generation(self.size(), self@.board));
        self.board = next;
    }
}

/// One generation applies the rule to every cell of the board at once: a
/// dead cell with exactly three live neighbours becomes alive and otherwise
/// stays dead; a live cell with two or three live neighbours stays alive and
/// otherwise dies. The neighbours are those of the board before the step.
pub proof fn lemma_next_generation_rule(size: usize, board: Seq<Cell>, idx: usize)
    requires
        idx < board.len(),
    ensures
        next_generation(size, board).len() == board.len(),
        next_generation(size, board)[idx as int] == (match board[idx as int] {
            Cell::Dead => if live_neighbours(size, board, idx) == 3 {
                Cell::Alive
            } else {
                Cell::Dead
            },
            Cell::Alive => if 2 <= live_neighbours(size, board, idx) <= 3 {
                Cell::Alive
            } else {
                Cell::Dead
            },
        }),
        live_neighbours(size, board, idx) <= 8,
{
}

/// On a board of `size * size` cells, a position on the grid has the cell
/// stored at `row * size + col`; a position with a row or a column beyond
/// an edge has none, whatever its linear index.
pub proof fn lemma_neighbour_on_grid(size: usize, board: Seq<Cell>, pos: Mapper)
    requires
        board.len() == size * size,
    ensures
        pos.row < size && pos.col < size ==> neighbour(size, board, Some(pos)) == Some(
            board[pos.row * size + pos.col],
        ),
        pos.row >= size || pos.col >= size ==> neighbour(size, board, Some(pos)) is None,
        neighbour(size, board, None) is None,
{
    if pos.row < size && pos.col < size {
        lemma_row_major_bound(size as int, size as int, pos.row as int, pos.col as int);
    }
}

/// The neighbour count by coordinates: for the cell in row `idx / size`
/// and column `idx % size`, it is the number of living cells among the
/// eight positions one step away that lie on the grid. Nothing is read
/// across an edge into another row or column.
pub proof fn lemma_live_neighbours_by_coordinates(size: usize, board: Seq<Cell>, idx: usize)
    requires
        size > 0,
        board.len() == size * size,
        idx < board.len(),
    ensures
        ({
            let row = (idx / size) as int;
            let col = (idx % size) as int;
            live_neighbours(size, board, idx) == live_on_grid(size, board, row, col - 1)
                + live_on_grid(size, board, row - 1, col - 1)
                + live_on_grid(size, board, row - 1, col)
                + live_on_grid(size, board, row - 1, col + 1)
                + live_on_grid(size, board, row, col + 1)
                + live_on_grid(size, board, row + 1, col + 1)
                + live_on_grid(size, board, row + 1, col)
                + live_on_grid(size, board, row + 1, col - 1)
        }),
{
    let here = position_of(size, idx);
    assert(idx / size < size) by (nonlinear_arith)
        requires
            size > 0,
            idx < size * size,
    ;
    lemma_step_on_grid(size, board, here, 0, -1);
    lemma_step_on_grid(size, board, here, -1, -1);
    lemma_step_on_grid(size, board, here, -1, 0);
    lemma_step_on_grid(size, board, here, -1, 1);
    lemma_step_on_grid(size, board, here, 0, 1);
    lemma_step_on_grid(size, board, here, 1, 1);
    lemma_step_on_grid(size, board, here, 1, 0);
    lemma_step_on_grid(size, board, here, 1, -1);
}

/// One step away from a position on the grid, the neighbour counts exactly
/// when it lies on the grid and is alive.
proof fn lemma_step_on_grid(size: usize, board: Seq<Cell>, here: Mapper, row: int, col: int)
    requires
        board.len() == size * size,
        here.row < size,
        here.col < size,
        -1 <= row <= 1,
        -1 <= col <= 1,
    ensures
        live_count(neighbour(size, board, here.shifted(row, col))) == live_on_grid(
            size,
            board,
            here.row + row,
            here.col + col,
        ),
{
    match here.shifted(row, col) {
        Some(pos) => lemma_neighbour_on_grid(size, board, pos),
        None => {},
    }
}

/// On a grid `width` wide, the cell in row `row` and column `col` comes
/// before the end of `rows` rows.
proof fn lemma_row_major_bound(rows: int, width: int, row: int, col: int)
    requires
        0 <= row < rows,
        0 <= col < width,
    ensures
        0 <= row * width + col < rows * width,
        0 <= row * width,
{
    assert(row * width + width <= rows * width) by (nonlinear_arith)
        requires
            row + 1 <= rows,
            width >= 0,
    ;
    assert(0 <= row * width) by (nonlinear_arith)
        requires
            0 <= row,
            0 <= width,
    ;
}

/// The first `row` of `rows` rows, each `width` wide, end within the whole.
proof fn lemma_rows_fit(rows: int, width: int, row: int)
    requires
        0 <= row <= rows,
        0 <= width,
    ensures
        0 <= row * width <= rows * width,
{
    assert(0 <= row * width <= rows * width) by (nonlinear_arith)
        requires
            0 <= row <= rows,
            0 <= width,
    ;
}

} // verus!
