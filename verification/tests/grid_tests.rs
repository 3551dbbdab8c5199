use auton::topology::step_backward;
use auton::topology::step_forward;
use auton::Address;
use auton::AutonImage;
use auton::Cell;
use auton::Direction;

#[test]
fn address_new_keeps_row_and_column() {
    let address = Address::new(3, 7);
    assert_eq!(address.row, 3);
    assert_eq!(address.column, 7);
    assert_eq!(address, Address { row: 3, column: 7 });
}

#[test]
fn direction_slots_are_down_up_right_left() {
    assert_eq!(Direction::Down.index(), 0);
    assert_eq!(Direction::Up.index(), 1);
    assert_eq!(Direction::Right.index(), 2);
    assert_eq!(Direction::Left.index(), 3);
}

#[test]
fn stepping_wraps_at_both_ends() {
    assert_eq!(step_forward(0, 5), 1);
    assert_eq!(step_forward(3, 5), 4);
    assert_eq!(step_forward(4, 5), 0);
    assert_eq!(step_backward(4, 5), 3);
    assert_eq!(step_backward(1, 5), 0);
    assert_eq!(step_backward(0, 5), 4);
}

#[test]
fn stepping_on_a_ring_of_one_stays_put() {
    assert_eq!(step_forward(0, 1), 0);
    assert_eq!(step_backward(0, 1), 0);
}

#[test]
fn stepping_backward_does_not_overflow_on_the_largest_ring() {
    assert_eq!(step_backward(0, usize::MAX), usize::MAX - 1);
    assert_eq!(step_backward(usize::MAX - 1, usize::MAX), usize::MAX - 2);
    assert_eq!(step_forward(usize::MAX - 1, usize::MAX), 0);
}

#[test]
fn cell_new_computes_the_four_neighbors() {
    let cell = Cell::new(9, 1, 2, 4, 3);
    assert_eq!(cell.color(), 9);
    assert_eq!(cell.address(), Address::new(1, 2));
    assert_eq!(cell.neighbor(Direction::Down), Address::new(2, 2));
    assert_eq!(cell.neighbor(Direction::Up), Address::new(0, 2));
    assert_eq!(cell.neighbor(Direction::Right), Address::new(1, 3));
    assert_eq!(cell.neighbor(Direction::Left), Address::new(1, 1));
}

#[test]
fn cell_set_color_leaves_the_neighbors() {
    let mut cell = Cell::new(0, 0, 0, 4, 3);
    cell.set_color(11);
    assert_eq!(cell.color(), 11);
    assert_eq!(cell.address(), Address::new(0, 0));
    assert_eq!(cell.neighbor(Direction::Down), Address::new(1, 0));
    assert_eq!(cell.neighbor(Direction::Up), Address::new(2, 0));
    assert_eq!(cell.neighbor(Direction::Right), Address::new(0, 1));
    assert_eq!(cell.neighbor(Direction::Left), Address::new(0, 3));
}

#[test]
fn new_grid_is_all_zero_with_the_size_asked_for() {
    let image = AutonImage::new(3, 5);
    assert_eq!(image.height(), 3);
    assert_eq!(image.width(), 5);
    for row in 0..3 {
        for column in 0..5 {
            let cell = image.get_cell(row, column);
            assert_eq!(cell.color(), 0);
            assert_eq!(cell.address(), Address::new(row, column));
        }
    }
}

#[test]
fn empty_grids_are_allowed() {
    let no_rows = AutonImage::new(0, 4);
    assert_eq!(no_rows.height(), 0);
    assert_eq!(no_rows.width(), 4);
    let no_columns = AutonImage::new(4, 0);
    assert_eq!(no_columns.height(), 4);
    assert_eq!(no_columns.width(), 0);
}

#[test]
fn neighbors_wrap_around_at_the_edges() {
    let height = 3;
    let width = 5;
    let image = AutonImage::new(height, width);
    for column in 0..width {
        let bottom = image.get_cell(height - 1, column);
        assert_eq!(bottom.neighbor(Direction::Down), Address::new(0, column));
        let top = image.get_cell(0, column);
        assert_eq!(top.neighbor(Direction::Up), Address::new(height - 1, column));
    }
    for row in 0..height {
        let last = image.get_cell(row, width - 1);
        assert_eq!(last.neighbor(Direction::Right), Address::new(row, 0));
        let first = image.get_cell(row, 0);
        assert_eq!(first.neighbor(Direction::Left), Address::new(row, width - 1));
    }
}

#[test]
fn neighbors_inside_the_grid_are_adjacent() {
    let image = AutonImage::new(4, 6);
    let cell = image.get_cell(2, 3);
    assert_eq!(cell.neighbor(Direction::Down), Address::new(3, 3));
    assert_eq!(cell.neighbor(Direction::Up), Address::new(1, 3));
    assert_eq!(cell.neighbor(Direction::Right), Address::new(2, 4));
    assert_eq!(cell.neighbor(Direction::Left), Address::new(2, 2));
}

#[test]
fn a_grid_of_one_cell_is_its_own_neighbor() {
    let image = AutonImage::new(1, 1);
    let cell = image.get_cell(0, 0);
    assert_eq!(cell.neighbor(Direction::Down), Address::new(0, 0));
    assert_eq!(cell.neighbor(Direction::Up), Address::new(0, 0));
    assert_eq!(cell.neighbor(Direction::Right), Address::new(0, 0));
    assert_eq!(cell.neighbor(Direction::Left), Address::new(0, 0));
}

#[test]
fn get_mut_cell_writes_one_cell_only() {
    let mut image = AutonImage::new(3, 4);
    image.get_mut_cell(1, 2).set_color(7);
    for row in 0..3 {
        for column in 0..4 {
            let expected = if row == 1 && column == 2 { 7 } else { 0 };
            assert_eq!(image.get_cell(row, column).color(), expected);
        }
    }
}

#[test]
fn find_cell_and_find_mut_cell_go_by_address() {
    let mut image = AutonImage::new(3, 4);
    image.find_mut_cell(Address::new(2, 1)).set_color(5);
    assert_eq!(image.find_cell(Address::new(2, 1)).color(), 5);
    assert_eq!(image.get_cell(2, 1).color(), 5);
    assert_eq!(image.find_cell(Address::new(1, 2)).color(), 0);
}

#[test]
fn find_neighbor_follows_the_precomputed_address() {
    let mut image = AutonImage::new(3, 4);
    image.get_mut_cell(0, 0).set_color(1);
    image.get_mut_cell(2, 3).set_color(2);
    image.get_mut_cell(1, 3).set_color(3);
    image.get_mut_cell(2, 0).set_color(4);
    image.get_mut_cell(2, 2).set_color(6);
    let corner = image.get_cell(2, 3);
    assert_eq!(image.find_neighbor(corner, Direction::Down).address(), Address::new(0, 3));
    assert_eq!(image.find_neighbor(corner, Direction::Up).color(), 3);
    assert_eq!(image.find_neighbor(corner, Direction::Right).color(), 4);
    assert_eq!(image.find_neighbor(corner, Direction::Left).color(), 6);
    let origin = image.get_cell(0, 0);
    assert_eq!(image.find_neighbor(origin, Direction::Up).color(), 4);
    assert_eq!(image.find_neighbor(origin, Direction::Left).address(), Address::new(0, 3));
}

#[test]
fn fill_from_copies_every_color_and_leaves_the_source() {
    let mut source = AutonImage::new(2, 3);
    let mut value = 1;
    for row in 0..2 {
        for column in 0..3 {
            source.get_mut_cell(row, column).set_color(value);
            value += 1;
        }
    }
    let mut target = AutonImage::new(2, 3);
    target.get_mut_cell(1, 1).set_color(99);
    target.fill_from(&source);
    let mut expected = 1;
    for row in 0..2 {
        for column in 0..3 {
            assert_eq!(target.get_cell(row, column).color(), expected);
            assert_eq!(source.get_cell(row, column).color(), expected);
            assert_eq!(target.get_cell(row, column).address(), Address::new(row, column));
            expected += 1;
        }
    }
    assert_eq!(target.get_cell(1, 2).neighbor(Direction::Right), Address::new(1, 0));
}

#[test]
fn symmetry_address_mirrors_rows_and_columns() {
    let image = AutonImage::new(4, 6);
    let address = Address::new(1, 2);
    assert_eq!(image.symmetry_address(address, false, false), Address::new(1, 2));
    assert_eq!(image.symmetry_address(address, false, true), Address::new(1, 3));
    assert_eq!(image.symmetry_address(address, true, false), Address::new(2, 2));
    assert_eq!(image.symmetry_address(address, true, true), Address::new(2, 3));
    assert_eq!(image.symmetry_address(Address::new(0, 0), true, true), Address::new(3, 5));
}

#[test]
fn symmetry_address_undoes_itself() {
    let image = AutonImage::new(5, 7);
    for row in 0..5 {
        for column in 0..7 {
            let address = Address::new(row, column);
            let once = image.symmetry_address(address, true, true);
            assert_eq!(image.symmetry_address(once, true, true), address);
        }
    }
}

#[test]
fn symmetry_address_keeps_the_middle_of_an_odd_grid() {
    let image = AutonImage::new(5, 7);
    assert_eq!(image.symmetry_address(Address::new(2, 3), true, true), Address::new(2, 3));
}
