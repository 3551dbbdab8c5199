use auton::build_colors;
use auton::palette_from;
use auton::Color;
use rand::rngs::StdRng;
use rand::Rng;
use rand::SeedableRng;

fn degrees(color: &Color) -> f64 {
    color.hue_numerator as f64 / color.hue_denominator as f64
}

#[test]
fn palette_of_sixteen_steps_by_twenty_two_and_a_half_degrees() {
    let colors = palette_from(0, 16);
    assert_eq!(colors.len(), 16);
    for (entry, color) in colors.iter().enumerate() {
        assert_eq!(color.hue_denominator, 16);
        assert_eq!(color.saturation_percent, 75);
        assert_eq!(color.value_percent, 100);
        assert_eq!(color.hue_numerator, (360 * (entry as u128 + 1)) % 5760);
    }
    assert_eq!(degrees(&colors[0]), 22.5);
    assert_eq!(degrees(&colors[1]), 45.0);
    assert_eq!(degrees(&colors[14]), 337.5);
    assert_eq!(degrees(&colors[15]), 0.0);
}

#[test]
fn palette_wraps_at_a_full_turn() {
    let colors = palette_from(350, 16);
    assert_eq!(colors[0].hue_numerator, 350 * 16 + 360 - 5760);
    assert_eq!(degrees(&colors[0]), 12.5);
    assert_eq!(degrees(&colors[1]), 35.0);
    assert_eq!(degrees(&colors[15]), 350.0);
    for color in &colors {
        assert!(degrees(color) >= 0.0);
        assert!(degrees(color) < 360.0);
    }
}

#[test]
fn consecutive_hues_differ_by_one_step_around_the_wheel() {
    for start in [0, 1, 137, 359] {
        let colors = palette_from(start, 16);
        for entry in 0..15 {
            let step = (degrees(&colors[entry + 1]) - degrees(&colors[entry])).rem_euclid(360.0);
            assert_eq!(step, 22.5);
        }
        assert_eq!(degrees(&colors[15]), start as f64);
    }
}

#[test]
fn palette_hues_match_a_running_sum_in_floating_point() {
    let colors = palette_from(211, 16);
    let adder: f32 = 360f32 / 16f32;
    let mut hue = 211f32;
    for color in &colors {
        hue += adder;
        hue %= 360.0;
        assert_eq!(color.hue_numerator as f32 / color.hue_denominator as f32, hue);
    }
}

#[test]
fn palette_of_other_sizes_keeps_exact_hues() {
    let colors = palette_from(10, 3);
    assert_eq!(colors.len(), 3);
    assert_eq!(colors[0].hue_numerator, 30 + 360);
    assert_eq!(colors[1].hue_numerator, 30 + 720);
    assert_eq!(colors[2].hue_numerator, 30);
    assert_eq!(colors[2].hue_denominator, 3);
}

#[test]
fn palette_of_no_colors_is_empty() {
    assert!(palette_from(5, 0).is_empty());
}

#[test]
fn build_colors_takes_one_draw_of_whole_degrees() {
    let mut expected_rng = StdRng::seed_from_u64(0);
    let start: i32 = expected_rng.gen_range(0..360);
    let mut rng = StdRng::seed_from_u64(0);
    let colors = build_colors(&mut rng, 16);
    assert_eq!(colors, palette_from(start, 16));
    assert_eq!(rng, expected_rng);
}

#[test]
fn build_colors_draws_even_for_an_empty_palette() {
    let mut expected_rng = StdRng::seed_from_u64(4);
    let _start: i32 = expected_rng.gen_range(0..360);
    let mut rng = StdRng::seed_from_u64(4);
    assert!(build_colors(&mut rng, 0).is_empty());
    assert_eq!(rng, expected_rng);
}
