//! The grid: a dense array of cells, each holding a color and the addresses
//! of its four neighbors on the torus.

use crate::topology::step_backward;
use crate::topology::step_forward;
use crate::topology::Address;
use crate::topology::Direction;
use vstd::prelude::*;

verus! {

/// One cell of the grid. The color changes from generation to generation;
/// the address and the neighbors are fixed when the cell is made.
pub struct Cell {
    color: u64,
    address: Address,
    neighbors: [Address; 4],
}

impl Cell {
    /// The color of the cell.
    pub closed spec fn spec_color(&self) -> u64 {
        self.color
    }

    /// The address that the cell holds as its own.
    pub closed spec fn spec_address(&self) -> Address {
        self.address
    }

    /// The address that the cell holds for its neighbor in `direction`.
    pub closed spec fn spec_neighbor(&self, direction: Direction) -> Address {
        self.neighbors[direction.slot()]
    }

    /// Whether the cell knows itself to stand at `(row, column)` on a torus
    /// of the given size, with the four neighbors that position has there.
    pub open spec fn placed(&self, row: int, column: int, height: usize, width: usize) -> bool {
        let address = Address { row: row as usize, column: column as usize };
        &&& self.spec_address() == address
        &&& forall|direction: Direction| #[trigger]
            self.spec_neighbor(direction) == address.neighbor(direction, height, width)
    }

    /// Whether two cells stand at the same place with the same neighbors.
    pub open spec fn same_place(&self, other: &Cell) -> bool {
        &&& self.spec_address() == other.spec_address()
        &&& forall|direction: Direction| #[trigger]
            self.spec_neighbor(direction) == other.spec_neighbor(direction)
    }

    /// A cell of the given color at `(row, column)` on a torus of the given
    /// size, with the addresses of its four neighbors worked out.
    pub fn new(color: u64, row: usize, column: usize, width: usize, height: usize) -> (cell: Cell)
        requires
            row < height,
            column < width,
        ensures
            cell.spec_color() == color,
            cell.placed(row as int, column as int, height, width),
    {
        let address = Address::new(row, column);
        let down = Address::new(step_forward(row, height), column);
        let up = Address::new(step_backward(row, height), column);
        let right = Address::new(row, step_forward(column, width));
        let left = Address::new(row, step_backward(column, width));
        let neighbors = [down, up, right, left];
        Cell { color, address, neighbors }
    }

    /// The color of the cell.
    #[verifier::when_used_as_spec(spec_color)]
    pub fn color(&self) -> (color: u64)
        ensures
            color == self.spec_color(),
    {
        self.color
    }

    /// The address that the cell holds as its own.
    #[verifier::when_used_as_spec(spec_address)]
    pub fn address(&self) -> (address: Address)
        ensures
            address == self.spec_address(),
    {
        self.address
    }

    /// The address that the cell holds for its neighbor in `direction`.
    #[verifier::when_used_as_spec(spec_neighbor)]
    pub fn neighbor(&self, direction: Direction) -> (address: Address)
        ensures
            address == self.spec_neighbor(direction),
    {
        self.neighbors[direction.index()]
    }

    /// Gives the cell a new color and leaves its place alone.
    pub fn set_color(&mut self, color: u64)
        ensures
            final(self).color() == color,
            final(self).same_place(old(self)),
    {
        self.color = color;
    }
}

/// The place of `(row, column)` in a row-major array of rows `width` long.
pub open spec fn flat_index(row: int, column: int, width: int) -> int {
    row * width + column
}

/// Every position on the grid has a place in the array.
pub proof fn lemma_flat_index_bound(row: int, column: int, height: int, width: int)
    requires
        0 <= row < height,
        0 <= column < width,
    ensures
        0 <= flat_index(row, column, width) < height * width,
{
    assert(0 <= row * width && (row + 1) * width <= height * width && (row + 1) * width == row
        * width + width) by (nonlinear_arith)
        requires
            0 <= row < height,
            0 <= width,
    ;
}

/// Earlier rows come first in the array, and within a row earlier columns.
pub proof fn lemma_flat_index_order(row1: int, column1: int, row2: int, column2: int, width: int)
    requires
        0 <= row1,
        0 <= column1 < width,
        0 <= column2,
        row1 < row2 || (row1 == row2 && column1 < column2),
    ensures
        flat_index(row1, column1, width) < flat_index(row2, column2, width),
{
    if row1 < row2 {
        assert((row1 + 1) * width <= row2 * width && (row1 + 1) * width == row1 * width + width)
            by (nonlinear_arith)
            requires
                row1 + 1 <= row2,
                0 <= width,
        ;
    }
}

/// Different positions have different places in the array.
pub proof fn lemma_flat_index_distinct(
    row1: int,
    column1: int,
    row2: int,
    column2: int,
    width: int,
)
    requires
        0 <= row1,
        0 <= row2,
        0 <= column1 < width,
        0 <= column2 < width,
        row1 != row2 || column1 != column2,
    ensures
        flat_index(row1, column1, width) != flat_index(row2, column2, width),
{
    if row1 < row2 || (row1 == row2 && column1 < column2) {
        lemma_flat_index_order(row1, column1, row2, column2, width);
    } else {
        lemma_flat_index_order(row2, column2, row1, column1, width);
    }
}

/// Whether `colors` has `height` rows of `width` colors each.
pub open spec fn rectangular(colors: Seq<Seq<u64>>, height: int, width: int) -> bool {
    &&& colors.len() == height
    &&& forall|row: int| 0 <= row < height ==> (#[trigger] colors[row]).len() == width
}

/// The colors of a grid of the given size whose cells are all zero.
pub open spec fn blank(height: usize, width: usize) -> Seq<Seq<u64>> {
    Seq::new(height as nat, |row: int| Seq::new(width as nat, |column: int| 0u64))
}

/// The cell that a row-major array of rows `width` long holds for
/// `(row, column)`.
spec fn lookup(cells: Seq<Cell>, width: int, row: int, column: int) -> Cell {
    cells[flat_index(row, column, width)]
}

/// The colors of the cells of a row-major array, row by row.
spec fn colors_of(cells: Seq<Cell>, height: usize, width: usize) -> Seq<Seq<u64>> {
    Seq::new(
        height as nat,
        |row: int|
            Seq::new(width as nat, |column: int| lookup(cells, width as int, row, column).color),
    )
}

/// Whether a row-major array holds one cell for each position of a grid of
/// the given size, each knowing its place and its neighbors.
spec fn cells_placed(cells: Seq<Cell>, height: usize, width: usize) -> bool {
    &&& cells.len() == height * width
    &&& forall|row: int, column: int|
        0 <= row < height && 0 <= column < width ==> (#[trigger] lookup(
            cells,
            width as int,
            row,
            column,
        )).placed(row, column, height, width)
}

/// Replacing the cell of one position leaves the cells of all others as
/// they were.
proof fn lemma_lookup_update(cells: Seq<Cell>, height: int, width: int, row: int, column: int)
    requires
        0 <= row < height,
        0 <= column < width,
        cells.len() == height * width,
    ensures
        0 <= flat_index(row, column, width) < cells.len(),
        forall|cell: Cell, r: int, c: int|
            0 <= r < height && 0 <= c < width ==> #[trigger] lookup(
                cells.update(flat_index(row, column, width), cell),
                width,
                r,
                c,
            ) == if r == row && c == column {
                cell
            } else {
                lookup(cells, width, r, c)
            },
{
    lemma_flat_index_bound(row, column, height, width);
    assert forall|cell: Cell, r: int, c: int|
        0 <= r < height && 0 <= c < width implies #[trigger] lookup(
        cells.update(flat_index(row, column, width), cell),
        width,
        r,
        c,
    ) == if r == row && c == column {
        cell
    } else {
        lookup(cells, width, r, c)
    } by {
        lemma_flat_index_bound(r, c, height, width);
        if r != row || c != column {
            lemma_flat_index_distinct(r, c, row, column, width);
        }
    }
}

/// Replacing a cell by one that stands at the same place keeps every cell
/// in its place.
proof fn lemma_update_keeps_placed(
    cells: Seq<Cell>,
    height: usize,
    width: usize,
    row: int,
    column: int,
)
    requires
        0 <= row < height,
        0 <= column < width,
        cells_placed(cells, height, width),
    ensures
        forall|cell: Cell|
            cell.same_place(&lookup(cells, width as int, row, column)) ==> cells_placed(
                #[trigger] cells.update(flat_index(row, column, width as int), cell),
                height,
                width,
            ),
{
    lemma_lookup_update(cells, height as int, width as int, row, column);
    assert forall|cell: Cell|
        cell.same_place(&lookup(cells, width as int, row, column)) implies cells_placed(
        #[trigger] cells.update(flat_index(row, column, width as int), cell),
        height,
        width,
    ) by {
        let updated = cells.update(flat_index(row, column, width as int), cell);
        let before = lookup(cells, width as int, row, column);
        assert forall|r: int, c: int| 0 <= r < height && 0 <= c < width implies (#[trigger] lookup(
            updated,
            width as int,
            r,
            c,
        )).placed(r, c, height, width) by {
            if r == row && c == column {
                assert(cell.same_place(&before));
            }
        }
    }
}

/// Replacing the cell of one position changes the color of that position
/// and no other.
proof fn lemma_update_colors(cells: Seq<Cell>, height: usize, width: usize, row: int, column: int)
    requires
        0 <= row < height,
        0 <= column < width,
        cells.len() == height * width,
    ensures
        forall|cell: Cell| #[trigger]
            colors_of(cells.update(flat_index(row, column, width as int), cell), height, width)
                == colors_of(cells, height, width).update(
                row,
                colors_of(cells, height, width)[row].update(column, cell.color),
            ),
{
    lemma_lookup_update(cells, height as int, width as int, row, column);
    assert forall|cell: Cell| #[trigger]
        colors_of(cells.update(flat_index(row, column, width as int), cell), height, width)
            == colors_of(cells, height, width).update(
            row,
            colors_of(cells, height, width)[row].update(column, cell.color),
        ) by {
        let before = colors_of(cells, height, width);
        let after = colors_of(
            cells.update(flat_index(row, column, width as int), cell),
            height,
            width,
        );
        assert(after =~~= before.update(row, before[row].update(column, cell.color)));
    }
}

/// A grid of colored cells on a torus.
pub struct AutonImage {
    height: usize,
    width: usize,
    cells: Vec<Cell>,
}

impl View for AutonImage {
    type V = Seq<Seq<u64>>;

    /// The colors of the grid, row by row.
    closed spec fn view(&self) -> Seq<Seq<u64>> {
        colors_of(self.cells@, self.height, self.width)
    }
}

impl AutonImage {
    /// The number of rows.
    pub closed spec fn spec_height(&self) -> usize {
        self.height
    }

    /// The number of columns.
    pub closed spec fn spec_width(&self) -> usize {
        self.width
    }

    /// The cell at `(row, column)`.
    pub closed spec fn cell_at(&self, row: int, column: int) -> Cell {
        lookup(self.cells@, self.width as int, row, column)
    }

    /// Whether `(row, column)` lies on the grid.
    pub open spec fn on_grid(&self, row: int, column: int) -> bool {
        0 <= row < self.spec_height() && 0 <= column < self.spec_width()
    }

    /// The grid holds one cell for each position, and each cell knows its
    /// place and its neighbors on the torus.
    pub closed spec fn wf(&self) -> bool {
        &&& self.height * self.width <= usize::MAX
        &&& cells_placed(self.cells@, self.height, self.width)
    }

    /// The colors of a grid have the shape of the grid, whatever the grid
    /// holds.
    pub proof fn lemma_view_shape(&self)
        ensures
            rectangular(self@, self.spec_height() as int, self.spec_width() as int),
    {
    }

    /// What well-formedness says of the size and of each cell: the cells
    /// fit in memory, and the cell at each position has that position's
    /// color, address and neighbors.
    pub proof fn lemma_wf_cells(&self)
        requires
            self.wf(),
        ensures
            self.spec_height() * self.spec_width() <= usize::MAX,
            forall|row: int, column: int|
                self.on_grid(row, column) ==> {
                    let cell = #[trigger] self.cell_at(row, column);
                    &&& cell.placed(row, column, self.spec_height(), self.spec_width())
                    &&& cell.color() == self@[row][column]
                },
    {
    }

    /// Wraparound: on a well-formed grid the cell in the last row names the
    /// cell in the first row of its column as its neighbor below, the cell
    /// in the first row names the one in the last row as its neighbor above,
    /// and likewise from the last column to the right and from the first
    /// column to the left.
    pub proof fn lemma_neighbors_wrap(&self, row: int, column: int)
        requires
            self.wf(),
            self.on_grid(row, column),
        ensures
            row == self.height() - 1 ==> self.cell_at(row, column).neighbor(Direction::Down) == (
            Address { row: 0, column: column as usize }),
            row == 0 ==> self.cell_at(row, column).neighbor(Direction::Up) == (Address {
                row: (self.height() - 1) as usize,
                column: column as usize,
            }),
            column == self.width() - 1 ==> self.cell_at(row, column).neighbor(Direction::Right)
                == (Address { row: row as usize, column: 0 }),
            column == 0 ==> self.cell_at(row, column).neighbor(Direction::Left) == (Address {
                row: row as usize,
                column: (self.width() - 1) as usize,
            }),
    {
        self.lemma_wf_cells();
        crate::topology::lemma_neighbors_wrap(
            Address { row: row as usize, column: column as usize },
            self.height(),
            self.width(),
        );
    }

    /// A grid of the given size whose cells are all zero, each with the
    /// addresses of its four neighbors worked out.
    pub fn new(height: usize, width: usize) -> (image: AutonImage)
        requires
            height * width <= usize::MAX,
        ensures
            image.wf(),
            image.height() == height,
            image.width() == width,
            image@ == blank(height, width),
    {
        let mut cells: Vec<Cell> = Vec::with_capacity(height * width);
        proof {
            assert(0 * width == 0) by (nonlinear_arith);
        }
        for row in 0..height
            invariant
                cells@.len() == row * width,
                forall|r: int, c: int|
                    0 <= r < row && 0 <= c < width ==> {
                        let cell = #[trigger] lookup(cells@, width as int, r, c);
                        cell.placed(r, c, height, width) && cell.color == 0
                    },
        {
            for column in 0..width
                invariant
                    row < height,
                    cells@.len() == row * width + column,
                    forall|r: int, c: int|
                        (0 <= r < row && 0 <= c < width) || (r == row && 0 <= c < column) ==> {
                            let cell = #[trigger] lookup(cells@, width as int, r, c);
                            cell.placed(r, c, height, width) && cell.color == 0
                        },
            {
                let ghost before = cells@;
                cells.push(Cell::new(0, row, column, width, height));
                proof {
                    assert forall|r: int, c: int|
                        (0 <= r < row && 0 <= c < width) || (r == row && 0 <= c < column + 1) implies {
                        let cell = #[trigger] lookup(cells@, width as int, r, c);
                        cell.placed(r, c, height, width) && cell.color == 0
                    } by {
                        if r != row || c != column {
                            lemma_flat_index_order(r, c, row as int, column as int, width as int);
                            assert(lookup(cells@, width as int, r, c) == lookup(
                                before,
                                width as int,
                                r,
                                c,
                            ));
                        }
                    }
                }
            }
            proof {
                assert((row + 1) * width == row * width + width) by (nonlinear_arith);
            }
        }
        let image = AutonImage { height, width, cells };
        proof {
            assert(image@ =~~= blank(height, width));
        }
        image
    }

    /// The number of rows.
    #[verifier::when_used_as_spec(spec_height)]
    pub fn height(&self) -> (height: usize)
        ensures
            height == self.spec_height(),
    {
        self.height
    }

    /// The number of columns.
    #[verifier::when_used_as_spec(spec_width)]
    pub fn width(&self) -> (width: usize)
        ensures
            width == self.spec_width(),
    {
        self.width
    }

    /// The cell at `(row, column)`.
    pub fn get_cell(&self, row: usize, column: usize) -> (cell: &Cell)
        requires
            self.wf(),
            row < self.height(),
            column < self.width(),
        ensures
            *cell == self.cell_at(row as int, column as int),
            cell.color() == self@[row as int][column as int],
            cell.placed(row as int, column as int, self.height(), self.width()),
    {
        proof {
            lemma_flat_index_bound(row as int, column as int, self.height as int, self.width as int);
            assert(self.cell_at(row as int, column as int).placed(
                row as int,
                column as int,
                self.height,
                self.width,
            ));
        }
        &self.cells[row * self.width + column]
    }

    /// Hands out the cell at `(row, column)` for writing. The grid stays
    /// well formed as long as the cell is left in its place.
    pub fn get_mut_cell(&mut self, row: usize, column: usize) -> (cell: &mut Cell)
        requires
            old(self).wf(),
            row < old(self).height(),
            column < old(self).width(),
        ensures
            *cell == old(self).cell_at(row as int, column as int),
            cell.color() == old(self)@[row as int][column as int],
            cell.placed(row as int, column as int, old(self).height(), old(self).width()),
            final(self).height() == old(self).height(),
            final(self).width() == old(self).width(),
            final(self)@ == old(self)@.update(
                row as int,
                old(self)@[row as int].update(column as int, final(cell).color()),
            ),
            final(cell).same_place(cell) ==> final(self).wf(),
    {
        proof {
            lemma_lookup_update(
                self.cells@,
                self.height as int,
                self.width as int,
                row as int,
                column as int,
            );
            lemma_update_keeps_placed(
                self.cells@,
                self.height,
                self.width,
                row as int,
                column as int,
            );
            lemma_update_colors(self.cells@, self.height, self.width, row as int, column as int);
            assert(self.cell_at(row as int, column as int).placed(
                row as int,
                column as int,
                self.height,
                self.width,
            ));
        }
        &mut self.cells[row * self.width + column]
    }

    /// The cell at `address`.
    pub fn find_cell(&self, address: Address) -> (cell: &Cell)
        requires
            self.wf(),
            address.within(self.height(), self.width()),
        ensures
            *cell == self.cell_at(address.row as int, address.column as int),
            cell.color() == self@[address.row as int][address.column as int],
            cell.placed(address.row as int, address.column as int, self.height(), self.width()),
    {
        self.get_cell(address.row, address.column)
    }

    /// Hands out the cell at `address` for writing. The grid stays well
    /// formed as long as the cell is left in its place.
    pub fn find_mut_cell(&mut self, address: Address) -> (cell: &mut Cell)
        requires
            old(self).wf(),
            address.within(old(self).height(), old(self).width()),
        ensures
            *cell == old(self).cell_at(address.row as int, address.column as int),
            cell.color() == old(self)@[address.row as int][address.column as int],
            cell.placed(
                address.row as int,
                address.column as int,
                old(self).height(),
                old(self).width(),
            ),
            final(self).height() == old(self).height(),
            final(self).width() == old(self).width(),
            final(self)@ == old(self)@.update(
                address.row as int,
                old(self)@[address.row as int].update(address.column as int, final(cell).color()),
            ),
            final(cell).same_place(cell) ==> final(self).wf(),
    {
        self.get_mut_cell(address.row, address.column)
    }

    /// The cell that `cell` names as its neighbor in `direction`.
    pub fn find_neighbor(&self, cell: &Cell, direction: Direction) -> (neighbor: &Cell)
        requires
            self.wf(),
            cell.neighbor(direction).within(self.height(), self.width()),
        ensures
            *neighbor == self.cell_at(
                cell.neighbor(direction).row as int,
                cell.neighbor(direction).column as int,
            ),
            neighbor.color() == self@[cell.neighbor(direction).row as int][cell.neighbor(
                direction,
            ).column as int],
            neighbor.placed(
                cell.neighbor(direction).row as int,
                cell.neighbor(direction).column as int,
                self.height(),
                self.width(),
            ),
    {
        self.find_cell(cell.neighbor(direction))
    }

    /// Copies the colors of `source`, a grid of the same size, cell by cell.
    pub fn fill_from(&mut self, source: &AutonImage)
        requires
            old(self).wf(),
            source.wf(),
            old(self).height() == source.height(),
            old(self).width() == source.width(),
        ensures
            final(self).wf(),
            final(self).height() == old(self).height(),
            final(self).width() == old(self).width(),
            final(self)@ == source@,
    {
        for row in 0..source.height
            invariant
                self.wf(),
                source.wf(),
                self.height() == source.height(),
                self.width() == source.width(),
                forall|r: int, c: int|
                    0 <= r < row && 0 <= c < source.width() ==> #[trigger] self@[r][c]
                        == source@[r][c],
        {
            for column in 0..source.width
                invariant
                    row < source.height(),
                    self.wf(),
                    source.wf(),
                    self.height() == source.height(),
                    self.width() == source.width(),
                    forall|r: int, c: int|
                        (0 <= r < row && 0 <= c < source.width()) || (r == row && 0 <= c < column)
                            ==> #[trigger] self@[r][c] == source@[r][c],
            {
                let color = source.get_cell(row, column).color();
                self.get_mut_cell(row, column).set_color(color);
            }
        }
        assert(self@ =~~= source@);
    }

    /// The address reflected across the middle of the grid: its row is
    /// mirrored when `vertically` is set, its column when `horizontally` is.
    pub fn symmetry_address(&self, address: Address, vertically: bool, horizontally: bool) -> (reflected:
        Address)
        requires
            vertically ==> address.row < self.height(),
            horizontally ==> address.column < self.width(),
        ensures
            reflected == address.reflected(vertically, horizontally, self.height(), self.width()),
    {
        let mut address = address;
        if vertically {
            address.row = self.height - 1 - address.row;
        }
        if horizontally {
            address.column = self.width - 1 - address.column;
        }
        address
    }
}

} // verus!
