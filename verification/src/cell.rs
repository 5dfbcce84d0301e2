//! Cell states, the generation rule for a single cell, and the error type.

use vstd::prelude::*;

verus! {

/// What can go wrong when building or editing a grid.
#[derive(Clone, Copy, Debug, PartialEq, Eq, Structural)]
pub enum GameError {
    /// The index does not name a cell of the grid.
    UndefinedIndex,
    /// The grid size cannot hold the initial pattern, or its cell count
    /// does not fit in a `usize`.
    InvalidSize,
}

/// The state of one grid cell.
#[derive(Clone, Copy, Debug, PartialEq, Eq, Structural)]
pub enum Cell {
    Dead,
    Alive,
}

impl Cell {
    /// The opposite state.
    pub open spec fn toggled(self) -> Cell {
        match self {
            Cell::Dead => Cell::Alive,
            Cell::Alive => Cell::Dead,
        }
    }

    /// The state of a cell in the next generation, given how many of its
    /// neighbours are alive now: a live cell survives with two or three live
    /// neighbours, a dead cell is born with exactly three.
    pub open spec fn evolve(self, live_neighbours: nat) -> Cell {
        match self {
            Cell::Alive => if live_neighbours == 2 || live_neighbours == 3 {
                Cell::Alive
            } else {
                Cell::Dead
            },
            Cell::Dead => if live_neighbours == 3 {
                Cell::Alive
            } else {
                Cell::Dead
            },
        }
    }

    /// The character that stands for this state in rendered text.
    pub open spec fn glyph(self) -> char {
        match self {
            Cell::Dead => '\u{25FB}',
            Cell::Alive => '\u{25FC}',
        }
    }

    /// Flips `Dead` to `Alive` and `Alive` to `Dead`.
    pub fn flip(self) -> (r: Cell)
        ensures
            r == self.toggled(),
    {
        match self {
            Cell::Dead => Cell::Alive,
            Cell::Alive => Cell::Dead,
        }
    }

    /// Applies the generation rule to one cell.
    pub fn next(self, live_neighbours: u8) -> (r: Cell)
        ensures
            r == self.evolve(live_neighbours as nat),
    {
        match self {
            Cell::Alive => {
                if live_neighbours < 2 {
                    Cell::Dead
                } else if live_neighbours <= 3 {
                    Cell::Alive
                } else {
                    Cell::Dead
                }
            },
            Cell::Dead => {
                if live_neighbours == 3 {
                    Cell::Alive
                } else {
                    Cell::Dead
                }
            },
        }
    }
}

/// How much a looked-up cell adds to a neighbour count: one if it exists and
/// is alive, nothing otherwise.
pub open spec fn live_count(cell: Option<Cell>) -> nat {
    if cell == Some(Cell::Alive) {
        1
    } else {
        0
    }
}

/// Counts a looked-up neighbour: absent and dead cells do not contribute.
pub fn count_live(cell: Option<Cell>) -> (n: u8)
    ensures
        n == live_count(cell),
{
    match cell {
        Some(Cell::Alive) => 1,
        _ => 0,
    }
}

/// The generation rule case by case: a dead cell with exactly three live
/// neighbours becomes alive and otherwise stays dead; a live cell with two or
/// three live neighbours stays alive, with fewer than two or more than three
/// it dies.
pub proof fn lemma_generation_rule(cell: Cell, live_neighbours: nat)
    ensures
        cell == Cell::Dead && live_neighbours == 3 ==> cell.evolve(live_neighbours) == Cell::Alive,
        cell == Cell::Dead && live_neighbours != 3 ==> cell.evolve(live_neighbours) == Cell::Dead,
        cell == Cell::Alive && (live_neighbours == 2 || live_neighbours == 3) ==> cell.evolve(
            live_neighbours,
        ) == Cell::Alive,
        cell == Cell::Alive && live_neighbours < 2 ==> cell.evolve(live_neighbours) == Cell::Dead,
        cell == Cell::Alive && live_neighbours > 3 ==> cell.evolve(live_neighbours) == Cell::Dead,
{
}

} // verus!
