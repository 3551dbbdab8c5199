use auton::Address;
use auton::Alteration;
use auton::AutonImage;
use rand::rngs::StdRng;
use rand::Rng;
use rand::SeedableRng;

fn rows_of(image: &AutonImage) -> Vec<Vec<u64>> {
    let mut rows = Vec::new();
    for row in 0..image.height() {
        let mut colors = Vec::new();
        for column in 0..image.width() {
            colors.push(image.get_cell(row, column).color());
        }
        rows.push(colors);
    }
    rows
}

#[test]
fn alteration_new_keeps_color_and_addresses() {
    let addresses =
        [Address::new(0, 0), Address::new(0, 3), Address::new(1, 0), Address::new(1, 3)];
    let alteration = Alteration::new(6, addresses);
    assert_eq!(alteration.color, 6);
    assert_eq!(alteration.addresses, addresses);
}

#[test]
fn quadrant_addresses_cover_the_top_left_quadrant_row_by_row() {
    let image = AutonImage::new(4, 6);
    let addresses = image.quadrant_addresses();
    assert_eq!(
        addresses,
        vec![
            Address::new(0, 0),
            Address::new(0, 1),
            Address::new(0, 2),
            Address::new(1, 0),
            Address::new(1, 1),
            Address::new(1, 2),
        ]
    );
}

#[test]
fn quadrant_addresses_drop_the_middle_of_odd_sizes() {
    let image = AutonImage::new(5, 7);
    let addresses = image.quadrant_addresses();
    assert_eq!(addresses.len(), 6);
    assert_eq!(addresses[0], Address::new(0, 0));
    assert_eq!(addresses[5], Address::new(1, 2));
}

#[test]
fn quadrant_addresses_are_empty_below_two_rows_or_columns() {
    assert!(AutonImage::new(1, 8).quadrant_addresses().is_empty());
    assert!(AutonImage::new(8, 1).quadrant_addresses().is_empty());
    assert!(AutonImage::new(0, 0).quadrant_addresses().is_empty());
}

#[test]
fn symmetric_alteration_lists_the_address_and_its_three_mirror_images() {
    let image = AutonImage::new(4, 8);
    let alteration = image.symmetric_alteration(Address::new(1, 2), 9);
    assert_eq!(alteration.color, 9);
    assert_eq!(
        alteration.addresses,
        [Address::new(1, 2), Address::new(1, 5), Address::new(2, 2), Address::new(2, 5)]
    );
}

#[test]
fn plan_alterations_looks_each_index_up_in_the_quadrant() {
    let image = AutonImage::new(4, 8);
    let alterations = image.plan_alterations(&vec![(0, 3), (7, 4), (5, 1)]);
    assert_eq!(alterations.len(), 3);
    assert_eq!(alterations[0].color, 3);
    assert_eq!(
        alterations[0].addresses,
        [Address::new(0, 0), Address::new(0, 7), Address::new(3, 0), Address::new(3, 7)]
    );
    assert_eq!(alterations[1].color, 4);
    assert_eq!(
        alterations[1].addresses,
        [Address::new(1, 3), Address::new(1, 4), Address::new(2, 3), Address::new(2, 4)]
    );
    assert_eq!(alterations[2].color, 1);
    assert_eq!(
        alterations[2].addresses,
        [Address::new(1, 1), Address::new(1, 6), Address::new(2, 1), Address::new(2, 6)]
    );
}

#[test]
fn apply_alterations_writes_all_four_cells() {
    let mut image = AutonImage::new(2, 4);
    let alteration = image.symmetric_alteration(Address::new(0, 1), 7);
    image.apply_alterations(&vec![alteration]);
    assert_eq!(rows_of(&image), vec![vec![0, 7, 7, 0], vec![0, 7, 7, 0]]);
}

#[test]
fn apply_alterations_lets_the_later_round_win() {
    let mut image = AutonImage::new(4, 4);
    let first = image.symmetric_alteration(Address::new(0, 0), 3);
    let second = image.symmetric_alteration(Address::new(1, 1), 5);
    let third = image.symmetric_alteration(Address::new(0, 0), 9);
    image.apply_alterations(&vec![first, second, third]);
    assert_eq!(
        rows_of(&image),
        vec![vec![9, 0, 0, 9], vec![0, 5, 5, 0], vec![0, 5, 5, 0], vec![9, 0, 0, 9]]
    );
}

#[test]
fn apply_alterations_keeps_cells_that_no_alteration_touches() {
    let mut image = AutonImage::new(2, 4);
    image.get_mut_cell(0, 1).set_color(11);
    let alteration = image.symmetric_alteration(Address::new(0, 0), 2);
    image.apply_alterations(&vec![alteration]);
    assert_eq!(rows_of(&image), vec![vec![2, 11, 0, 2], vec![2, 0, 0, 2]]);
}

#[test]
fn apply_alterations_goes_by_the_addresses_given() {
    let mut image = AutonImage::new(3, 3);
    let alteration = Alteration::new(
        4,
        [Address::new(0, 0), Address::new(1, 1), Address::new(1, 1), Address::new(2, 0)],
    );
    image.apply_alterations(&vec![alteration]);
    assert_eq!(rows_of(&image), vec![vec![4, 0, 0], vec![0, 4, 0], vec![4, 0, 0]]);
}

#[test]
fn apply_alterations_with_no_alteration_changes_nothing() {
    let mut image = AutonImage::new(2, 2);
    image.get_mut_cell(1, 0).set_color(3);
    image.apply_alterations(&Vec::new());
    assert_eq!(rows_of(&image), vec![vec![0, 0], vec![3, 0]]);
}

#[test]
fn make_unique_follows_the_draws_of_the_stream() {
    let height = 8;
    let width = 16;
    let mut expected_rng = StdRng::seed_from_u64(7);
    let mut picks = Vec::new();
    for _round in 0..height / 2 {
        let index: usize = expected_rng.gen_range(0..(height / 2) * (width / 2));
        let color: u64 = expected_rng.gen_range(0..16u64);
        picks.push((index, color));
    }
    let mut expected = AutonImage::new(height, width);
    let alterations = expected.plan_alterations(&picks);
    expected.apply_alterations(&alterations);

    let mut rng = StdRng::seed_from_u64(7);
    let mut image = AutonImage::new(height, width);
    image.make_unique(&mut rng, 16);
    assert_eq!(rows_of(&image), rows_of(&expected));
    assert_eq!(rng, expected_rng);
}

#[test]
fn make_unique_gives_four_fold_symmetry() {
    let height = 10;
    let width = 14;
    let mut rng = StdRng::seed_from_u64(3);
    let mut image = AutonImage::new(height, width);
    image.make_unique(&mut rng, 16);
    let mut touched = 0;
    for row in 0..height {
        for column in 0..width {
            let color = image.get_cell(row, column).color();
            assert!(color < 16);
            assert_eq!(image.get_cell(row, width - 1 - column).color(), color);
            assert_eq!(image.get_cell(height - 1 - row, column).color(), color);
            assert_eq!(image.get_cell(height - 1 - row, width - 1 - column).color(), color);
            if color != 0 {
                touched += 1;
            }
        }
    }
    assert!(touched <= 4 * (height / 2));
}

#[test]
fn make_unique_leaves_a_grid_below_two_rows_all_zero() {
    let mut rng = StdRng::seed_from_u64(0);
    let mut image = AutonImage::new(1, 6);
    image.make_unique(&mut rng, 16);
    assert_eq!(rows_of(&image), vec![vec![0, 0, 0, 0, 0, 0]]);
    assert_eq!(rng, StdRng::seed_from_u64(0));
}

#[test]
fn make_unique_leaves_a_grid_below_two_columns_all_zero() {
    let mut rng = StdRng::seed_from_u64(0);
    let mut image = AutonImage::new(6, 1);
    image.make_unique(&mut rng, 16);
    assert_eq!(rows_of(&image), vec![vec![0], vec![0], vec![0], vec![0], vec![0], vec![0]]);
    assert_eq!(rng, StdRng::seed_from_u64(0));
}

#[test]
fn make_unique_on_an_empty_grid_does_nothing() {
    let mut rng = StdRng::seed_from_u64(0);
    let mut image = AutonImage::new(0, 0);
    image.make_unique(&mut rng, 16);
    assert_eq!(image.height(), 0);
    assert_eq!(rng, StdRng::seed_from_u64(0));
}

#[test]
fn make_unique_never_touches_the_middle_row_of_an_odd_height() {
    let mut rng = StdRng::seed_from_u64(11);
    let mut image = AutonImage::new(5, 6);
    image.make_unique(&mut rng, 16);
    for column in 0..6 {
        assert_eq!(image.get_cell(2, column).color(), 0);
    }
}

#[test]
fn make_unique_with_modulus_one_draws_only_zero() {
    let mut rng = StdRng::seed_from_u64(5);
    let mut image = AutonImage::new(4, 4);
    image.get_mut_cell(0, 0).set_color(9);
    image.make_unique(&mut rng, 1);
    for row in 0..4 {
        for column in 0..4 {
            let color = image.get_cell(row, column).color();
            assert!(color == 0 || (color == 9 && row == 0 && column == 0));
        }
    }
}
