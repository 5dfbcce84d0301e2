//! Positions on a grid and their conversion to and from linear indices.

use vstd::prelude::*;

verus! {

/// A (row, column) position. It belongs to no particular grid: whether it
/// lies inside one is decided where it is used.
#[derive(Clone, Copy, Debug, PartialEq, Eq, Structural)]
pub struct Mapper {
    pub row: usize,
    pub col: usize,
}

impl Mapper {
    /// The position `row` rows down and `col` columns right of this one, or
    /// `None` when a coordinate would leave the range of `usize`.
    pub open spec fn shifted(self, row: int, col: int) -> Option<Mapper> {
        if 0 <= self.row + row <= usize::MAX && 0 <= self.col + col <= usize::MAX {
            Some(Mapper { row: (self.row + row) as usize, col: (self.col + col) as usize })
        } else {
            None
        }
    }

    /// Builds the position at column `x`, row `y`.
    pub fn new(x: usize, y: usize) -> (r: Mapper)
        ensures
            r.row == y,
            r.col == x,
    {
        Mapper { row: y, col: x }
    }

    /// Moves by signed deltas. A coordinate that would drop below zero (or
    /// past `usize::MAX`) gives `None`; nothing is checked against a grid.
    pub fn set(&self, row: isize, col: isize) -> (r: Option<Mapper>)
        ensures
            r == self.shifted(row as int, col as int),
    {
        let row = match self.row.checked_add_signed(row) {
            Some(v) => v,
            None => return None,
        };
        let col = match self.col.checked_add_signed(col) {
            Some(v) => v,
            None => return None,
        };
        Some(Mapper { row, col })
    }

    /// The position of the cell with linear index `idx` on a grid with
    /// `size` columns.
    pub fn from_index(size: usize, idx: usize) -> (r: Mapper)
        requires
            size > 0,
        ensures
            r == position_of(size, idx),
    {
        Mapper { row: idx / size, col: idx % size }
    }

    /// The linear index of this position on a grid with `size` columns:
    /// `row * size + col`. The position is not held against the grid, so the
    /// index may lie past the grid's last cell.
    pub fn to_index(&self, size: usize) -> (r: usize)
        requires
            index_of(size, *self) <= usize::MAX,
        ensures
            r == index_of(size, *self),
    {
        self.row * size + self.col
    }
}

/// The position of the cell with linear index `idx` on a grid with `size`
/// columns, in row-major order.
pub open spec fn position_of(size: usize, idx: usize) -> Mapper
    recommends
        size > 0,
{
    Mapper { row: (idx / size) as usize, col: (idx % size) as usize }
}

/// The linear index of a position on a grid with `size` columns. For a
/// position outside the grid this is still a number, possibly past the end
/// of the grid's cells.
pub open spec fn index_of(size: usize, pos: Mapper) -> int {
    pos.row * size + pos.col
}

/// Going from an index to its position and back gives the index again.
pub proof fn lemma_index_round_trip(size: usize, idx: usize)
    requires
        size > 0,
    ensures
        index_of(size, position_of(size, idx)) == idx,
{
    vstd::arithmetic::div_mod::lemma_fundamental_div_mod(idx as int, size as int);
    assert((idx / size) * size == size * (idx / size)) by (nonlinear_arith);
}

/// Going from a position inside the grid's columns to its index and back
/// gives the position again.
pub proof fn lemma_position_round_trip(size: usize, pos: Mapper)
    requires
        pos.col < size,
        index_of(size, pos) <= usize::MAX,
    ensures
        position_of(size, index_of(size, pos) as usize) == pos,
{
    vstd::arithmetic::div_mod::lemma_fundamental_div_mod_converse(
        index_of(size, pos),
        size as int,
        pos.row as int,
        pos.col as int,
    );
}

/// A shift by nothing leaves every position where it is.
pub proof fn lemma_shift_by_zero(pos: Mapper)
    ensures
        pos.shifted(0, 0) == Some(pos),
{
}

/// Unless a coordinate would pass `usize::MAX`, a shift fails exactly when
/// it would make the row or the column negative.
pub proof fn lemma_shift_fails_iff_negative(pos: Mapper, row: int, col: int)
    requires
        pos.row + row <= usize::MAX,
        pos.col + col <= usize::MAX,
    ensures
        pos.shifted(row, col) is None <==> (pos.row + row < 0 || pos.col + col < 0),
        pos.shifted(row, col) is Some ==> pos.shifted(row, col)->0.row == pos.row + row
            && pos.shifted(row, col)->0.col == pos.col + col,
{
}

} // verus!
