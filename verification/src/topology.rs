//! Coordinates on a torus: addresses, the four directions, wrap-around
//! stepping and mirroring.

use vstd::arithmetic::div_mod::lemma_mod_add_multiples_vanish;
use vstd::arithmetic::div_mod::lemma_mod_self_0;
use vstd::arithmetic::div_mod::lemma_small_mod;
use vstd::prelude::*;

verus! {

/// The coordinate that follows `x` on a ring of `dim` positions.
pub open spec fn ring_next(x: int, dim: int) -> int {
    (x + 1) % dim
}

/// The coordinate that precedes `x` on a ring of `dim` positions. Adding
/// `dim` before the subtraction keeps the dividend from going negative.
pub open spec fn ring_prev(x: int, dim: int) -> int {
    (x + dim - 1) % dim
}

/// The coordinate opposite `x` across the middle of `dim` positions.
pub open spec fn mirrored(x: int, dim: int) -> int {
    dim - 1 - x
}

/// Stepping forward leads to the next position, and from the last position
/// to the first.
pub proof fn lemma_ring_next(x: int, dim: int)
    requires
        0 <= x < dim,
    ensures
        x + 1 < dim ==> ring_next(x, dim) == x + 1,
        x + 1 == dim ==> ring_next(x, dim) == 0,
        0 <= ring_next(x, dim) < dim,
{
    if x + 1 < dim {
        lemma_small_mod((x + 1) as nat, dim as nat);
    } else {
        lemma_mod_self_0(dim);
    }
}

/// Stepping backward leads to the position before, and from the first
/// position to the last.
pub proof fn lemma_ring_prev(x: int, dim: int)
    requires
        0 <= x < dim,
    ensures
        x > 0 ==> ring_prev(x, dim) == x - 1,
        x == 0 ==> ring_prev(x, dim) == dim - 1,
        0 <= ring_prev(x, dim) < dim,
{
    if x > 0 {
        lemma_mod_add_multiples_vanish(x - 1, dim);
        lemma_small_mod((x - 1) as nat, dim as nat);
    } else {
        lemma_small_mod((dim - 1) as nat, dim as nat);
    }
}

/// A row and a column on the grid.
#[derive(Clone, Copy, Debug, PartialEq, Eq, Structural)]
pub struct Address {
    pub row: usize,
    pub column: usize,
}

impl Address {
    /// The address of `(row, column)`.
    pub fn new(row: usize, column: usize) -> (address: Address)
        ensures
            address == (Address { row, column }),
    {
        Address { row, column }
    }

    /// Whether the address lies on a grid of the given size.
    pub open spec fn within(self, height: usize, width: usize) -> bool {
        self.row < height && self.column < width
    }

    /// The address one step away in `direction` on a torus of the given
    /// size.
    pub open spec fn neighbor(self, direction: Direction, height: usize, width: usize) -> Address {
        match direction {
            Direction::Down => Address {
                row: ring_next(self.row as int, height as int) as usize,
                column: self.column,
            },
            Direction::Up => Address {
                row: ring_prev(self.row as int, height as int) as usize,
                column: self.column,
            },
            Direction::Right => Address {
                row: self.row,
                column: ring_next(self.column as int, width as int) as usize,
            },
            Direction::Left => Address {
                row: self.row,
                column: ring_prev(self.column as int, width as int) as usize,
            },
        }
    }

    /// The address reflected across the middle of the grid: the row when
    /// `vertically` is set, the column when `horizontally` is set.
    pub open spec fn reflected(
        self,
        vertically: bool,
        horizontally: bool,
        height: usize,
        width: usize,
    ) -> Address {
        Address {
            row: if vertically {
                mirrored(self.row as int, height as int) as usize
            } else {
                self.row
            },
            column: if horizontally {
                mirrored(self.column as int, width as int) as usize
            } else {
                self.column
            },
        }
    }
}

/// The four neighbors of a cell.
#[derive(Clone, Copy, Debug, PartialEq, Eq, Structural)]
pub enum Direction {
    Down,
    Up,
    Right,
    Left,
}

impl Direction {
    /// The place of the direction in a cell's table of neighbors.
    pub open spec fn slot(self) -> int {
        match self {
            Direction::Down => 0,
            Direction::Up => 1,
            Direction::Right => 2,
            Direction::Left => 3,
        }
    }

    /// The place of the direction in a cell's table of neighbors.
    pub fn index(self) -> (slot: usize)
        ensures
            slot == self.slot(),
    {
        match self {
            Direction::Down => 0,
            Direction::Up => 1,
            Direction::Right => 2,
            Direction::Left => 3,
        }
    }
}

/// The position after `x` on a ring of `dim` positions.
pub fn step_forward(x: usize, dim: usize) -> (next: usize)
    requires
        x < dim,
    ensures
        next == ring_next(x as int, dim as int),
        next < dim,
{
    proof {
        lemma_ring_next(x as int, dim as int);
    }
    (x + 1) % dim
}

/// The position before `x` on a ring of `dim` positions.
pub fn step_backward(x: usize, dim: usize) -> (previous: usize)
    requires
        x < dim,
    ensures
        previous == ring_prev(x as int, dim as int),
        previous < dim,
{
    proof {
        lemma_ring_prev(x as int, dim as int);
    }
    if x == 0 {
        dim - 1
    } else {
        x - 1
    }
}

/// Every neighbor of an address on the grid lies on the grid.
pub proof fn lemma_neighbor_within(
    address: Address,
    direction: Direction,
    height: usize,
    width: usize,
)
    requires
        address.within(height, width),
    ensures
        address.neighbor(direction, height, width).within(height, width),
{
    lemma_ring_next(address.row as int, height as int);
    lemma_ring_prev(address.row as int, height as int);
    lemma_ring_next(address.column as int, width as int);
    lemma_ring_prev(address.column as int, width as int);
}

/// The grid wraps around at its edges: below the last row lies the first,
/// above the first row the last, right of the last column the first, and
/// left of the first column the last.
pub proof fn lemma_neighbors_wrap(address: Address, height: usize, width: usize)
    requires
        address.within(height, width),
    ensures
        address.row == height - 1 ==> address.neighbor(Direction::Down, height, width) == (Address {
            row: 0,
            column: address.column,
        }),
        address.row == 0 ==> address.neighbor(Direction::Up, height, width) == (Address {
            row: (height - 1) as usize,
            column: address.column,
        }),
        address.column == width - 1 ==> address.neighbor(Direction::Right, height, width) == (
        Address { row: address.row, column: 0 }),
        address.column == 0 ==> address.neighbor(Direction::Left, height, width) == (Address {
            row: address.row,
            column: (width - 1) as usize,
        }),
{
    lemma_ring_next(address.row as int, height as int);
    lemma_ring_prev(address.row as int, height as int);
    lemma_ring_next(address.column as int, width as int);
    lemma_ring_prev(address.column as int, width as int);
}

} // verus!
