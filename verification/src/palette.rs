//! The palette: a fixed number of colors whose hues are spread evenly
//! around the color wheel, starting from a random hue.
//!
//! Hues are kept exact. A palette of `n` colors steps by `360 / n` degrees,
//! so each hue is held as a count of `n`-ths of a degree.

use crate::random::gen_range_i32;
use rand::rngs::StdRng;
use vstd::arithmetic::div_mod::lemma_add_mod_noop_right;
use vstd::arithmetic::div_mod::lemma_mod_bound;
use vstd::arithmetic::div_mod::lemma_small_mod;
use vstd::prelude::*;

verus! {

/// The degrees of a full turn of the color wheel.
pub const FULL_TURN: u128 = 360;

/// The saturation of every palette color, in hundredths.
pub const SATURATION_PERCENT: u8 = 75;

/// The value of every palette color, in hundredths.
pub const VALUE_PERCENT: u8 = 100;

/// A color by hue, saturation and value. The hue is
/// `hue_numerator / hue_denominator` degrees; saturation and value are in
/// hundredths.
#[derive(Clone, Copy, Debug, PartialEq, Eq, Structural)]
pub struct Color {
    pub hue_numerator: u128,
    pub hue_denominator: usize,
    pub saturation_percent: u8,
    pub value_percent: u8,
}

/// The hue of palette entry `entry`, in `count`-ths of a degree: the
/// starting hue advanced by `entry + 1` steps of `360 / count` degrees and
/// wrapped at a full turn.
pub open spec fn hue_numerator(start: int, count: int, entry: int) -> int {
    (start * count + FULL_TURN * (entry + 1)) % (FULL_TURN * count)
}

/// Palette entry `entry` of a palette of `count` colors that starts from
/// `start` degrees.
pub open spec fn palette_entry(start: int, count: usize, entry: int) -> Color {
    Color {
        hue_numerator: hue_numerator(start, count as int, entry) as u128,
        hue_denominator: count,
        saturation_percent: SATURATION_PERCENT,
        value_percent: VALUE_PERCENT,
    }
}

/// The palette of `count` colors that starts from `start` degrees.
pub open spec fn palette(start: int, count: usize) -> Seq<Color> {
    Seq::new(count as nat, |entry: int| palette_entry(start, count, entry))
}

/// A running hue that is advanced by one step and wrapped is the hue of the
/// next entry.
proof fn lemma_hue_advances(start: int, count: int, entry: int)
    requires
        0 <= start < FULL_TURN,
        0 < count,
        0 <= entry,
    ensures
        0 <= hue_numerator(start, count, entry) < FULL_TURN * count,
        hue_numerator(start, count, 0) == (start * count + FULL_TURN) % (FULL_TURN * count),
        hue_numerator(start, count, entry + 1) == (hue_numerator(start, count, entry) + FULL_TURN)
            % (FULL_TURN * count),
        start * count == (start * count) % (FULL_TURN * count),
{
    let turn = 360 * count;
    assert(0 <= start * count < turn) by (nonlinear_arith)
        requires
            0 <= start < 360,
            0 < count,
            turn == 360 * count,
    ;
    lemma_small_mod((start * count) as nat, turn as nat);
    lemma_mod_bound(start * count + 360 * (entry + 1), turn);
    lemma_add_mod_noop_right(360, start * count + 360 * (entry + 1), turn);
}

/// Palette shape: a palette has as many entries as asked for; each hue lies
/// within a full turn, and from one entry to the next the hue advances by
/// a full turn divided by the number of entries and wraps at a full turn;
/// every entry has the saturation and the value that all palette colors
/// share.
pub proof fn lemma_palette_shape(start: int, count: usize)
    requires
        0 <= start < FULL_TURN,
    ensures
        palette(start, count).len() == count,
        forall|entry: int|
            0 <= entry < count ==> {
                let color = #[trigger] palette(start, count)[entry];
                &&& color.hue_denominator == count
                &&& color.hue_numerator < FULL_TURN * count
                &&& color.saturation_percent == SATURATION_PERCENT
                &&& color.value_percent == VALUE_PERCENT
            },
        forall|entry: int|
            0 <= entry && entry + 1 < count ==> (#[trigger] palette(start, count)[entry
                + 1]).hue_numerator == (palette(start, count)[entry].hue_numerator + FULL_TURN) % (
            FULL_TURN * count),
{
    assert forall|entry: int| 0 <= entry < count implies {
        let color = #[trigger] palette(start, count)[entry];
        &&& color.hue_denominator == count
        &&& color.hue_numerator < FULL_TURN * count
        &&& color.saturation_percent == SATURATION_PERCENT
        &&& color.value_percent == VALUE_PERCENT
    } by {
        lemma_hue_advances(start, count as int, entry);
    }
    assert forall|entry: int| 0 <= entry && entry + 1 < count implies (#[trigger] palette(
        start,
        count,
    )[entry + 1]).hue_numerator == (palette(start, count)[entry].hue_numerator + FULL_TURN) % (
    FULL_TURN * count) by {
        lemma_hue_advances(start, count as int, entry);
        lemma_hue_advances(start, count as int, entry + 1);
    }
}

/// The palette of `colors_count` colors whose hues start from `start`
/// degrees.
pub fn palette_from(start: i32, colors_count: usize) -> (colors: Vec<Color>)
    requires
        0 <= start < FULL_TURN,
    ensures
        colors@ == palette(start as int, colors_count),
{
    let mut colors: Vec<Color> = Vec::with_capacity(colors_count);
    let turn: u128 = FULL_TURN * (colors_count as u128);
    proof {
        assert(0 <= start * colors_count <= 360 * colors_count) by (nonlinear_arith)
            requires
                0 <= start < 360,
                0 <= colors_count,
        ;
    }
    let mut hue: u128 = (start as u128) * (colors_count as u128);
    for entry in 0..colors_count
        invariant
            0 <= start < FULL_TURN,
            turn == FULL_TURN * colors_count,
            hue <= turn,
            entry == 0 ==> hue == start * colors_count,
            entry > 0 ==> hue == hue_numerator(start as int, colors_count as int, entry - 1),
            colors@.len() == entry,
            forall|k: int|
                0 <= k < entry ==> #[trigger] colors@[k] == palette_entry(
                    start as int,
                    colors_count,
                    k,
                ),
    {
        proof {
            lemma_hue_advances(start as int, colors_count as int, entry as int);
            if entry > 0 {
                lemma_hue_advances(start as int, colors_count as int, entry - 1);
            }
        }
        hue += FULL_TURN;
        hue %= turn;
        colors.push(
            Color {
                hue_numerator: hue,
                hue_denominator: colors_count,
                saturation_percent: SATURATION_PERCENT,
                value_percent: VALUE_PERCENT,
            },
        );
    }
    colors
}

/// Builds the palette. One draw picks the starting hue, a whole number of
/// degrees below 360; the colors follow from it.
pub fn build_colors(rng: &mut StdRng, colors_count: usize) -> (colors: Vec<Color>)
    ensures
        exists|start: int|
            0 <= start < FULL_TURN && colors@ == #[trigger] palette(start, colors_count),
{
    let start = gen_range_i32(rng, 0, FULL_TURN as i32);
    palette_from(start, colors_count)
}

} // verus!
