//! The simulation: a state grid with its snapshot, a trace grid, a palette
//! and the random stream that construction draws from.

use crate::generation::at_least_one_not_zero;
use crate::generation::colors_below;
use crate::generation::lemma_generations_add;
use crate::generation::lemma_step_keeps_shape;
use crate::generation::neighborhood;
use crate::generation::next_color;
use crate::generation::next_state;
use crate::generation::next_trace;
use crate::generation::state_after;
use crate::generation::trace_after;
use crate::grid::blank;
use crate::grid::rectangular;
use crate::grid::AutonImage;
use crate::palette::build_colors;
use crate::palette::palette;
use crate::palette::palette_from;
use crate::palette::Color;
use crate::palette::FULL_TURN;
use crate::random::seeded_rng;
use crate::seeding::drawn_picks;
use crate::seeding::lemma_planned_mirror;
use crate::seeding::lemma_seeded_color_bounds;
use crate::seeding::lemma_seeding_keeps_symmetry;
use crate::seeding::picks_within;
use crate::seeding::planned;
use crate::seeding::seeded;
use crate::seeding::symmetric;
use crate::topology::lemma_neighbor_within;
use crate::topology::lemma_ring_next;
use crate::topology::lemma_ring_prev;
use crate::topology::Address;
use crate::topology::Direction;
use rand::rngs::StdRng;
use vstd::prelude::*;

verus! {

/// How many colors the palette has, and so the modulus of the update rule.
pub const COLORS_COUNT: usize = 16;

/// The seed of the random stream.
pub const SEED: u64 = 0;

/// A simulation: the state grid `front_a` with its snapshot `back_a`, the
/// trace grid `front_b`, the palette, and the random stream as construction
/// left it.
pub struct Auton {
    height: usize,
    width: usize,
    front_a: AutonImage,
    back_a: AutonImage,
    front_b: AutonImage,
    colors: Vec<Color>,
    colors_count: usize,
    color_modulus: u64,
    #[allow(dead_code)]
    rng: StdRng,
}

impl Auton {
    /// The number of rows of each grid.
    pub closed spec fn spec_height(&self) -> usize {
        self.height
    }

    /// The number of columns of each grid.
    pub closed spec fn spec_width(&self) -> usize {
        self.width
    }

    /// The state grid.
    pub closed spec fn spec_state(&self) -> AutonImage {
        self.front_a
    }

    /// The grid that holds the state as it was before the last step.
    pub closed spec fn spec_snapshot(&self) -> AutonImage {
        self.back_a
    }

    /// The trace grid.
    pub closed spec fn spec_trace(&self) -> AutonImage {
        self.front_b
    }

    /// The palette.
    pub closed spec fn spec_colors(&self) -> Seq<Color> {
        self.colors@
    }

    /// The modulus of the update rule.
    pub closed spec fn spec_color_modulus(&self) -> u64 {
        self.color_modulus
    }

    /// The three grids are well formed and of the simulation's size, the
    /// palette has one color for each value below the modulus, and every
    /// color of the state and of the trace is below the modulus.
    pub closed spec fn wf(&self) -> bool {
        &&& self.front_a.wf()
        &&& self.back_a.wf()
        &&& self.front_b.wf()
        &&& self.front_a.height() == self.height
        &&& self.back_a.height() == self.height
        &&& self.front_b.height() == self.height
        &&& self.front_a.width() == self.width
        &&& self.back_a.width() == self.width
        &&& self.front_b.width() == self.width
        &&& self.colors_count == COLORS_COUNT
        &&& self.colors@.len() == self.colors_count
        &&& self.color_modulus == self.colors_count
        &&& colors_below(self.front_a@, self.color_modulus)
        &&& colors_below(self.front_b@, self.color_modulus)
    }

    /// What well-formedness says of the parts.
    pub proof fn lemma_wf_parts(&self)
        requires
            self.wf(),
        ensures
            self.spec_state().wf(),
            self.spec_snapshot().wf(),
            self.spec_trace().wf(),
            self.spec_state().height() == self.spec_height(),
            self.spec_snapshot().height() == self.spec_height(),
            self.spec_trace().height() == self.spec_height(),
            self.spec_state().width() == self.spec_width(),
            self.spec_snapshot().width() == self.spec_width(),
            self.spec_trace().width() == self.spec_width(),
            self.spec_colors().len() == COLORS_COUNT,
            self.spec_color_modulus() == COLORS_COUNT,
            colors_below(self.spec_state()@, self.spec_color_modulus()),
            colors_below(self.spec_trace()@, self.spec_color_modulus()),
    {
    }

    /// Whether the simulation is the one that is built on `height` rows
    /// from a palette that starts at `start` degrees and from `picks` for
    /// the seeding: twice as many columns as rows, the state seeded from a
    /// blank grid, the snapshot and the trace blank.
    pub open spec fn built_from(&self, height: usize, start: int, picks: Seq<(usize, u64)>) -> bool {
        let width = (2 * height) as usize;
        &&& self.spec_height() == height
        &&& self.spec_width() == width
        &&& self.spec_colors() == palette(start, COLORS_COUNT)
        &&& self.spec_color_modulus() == COLORS_COUNT
        &&& self.spec_state()@ == seeded(blank(height, width), planned(picks, height, width))
        &&& self.spec_snapshot()@ == blank(height, width)
        &&& self.spec_trace()@ == blank(height, width)
    }

    /// Whether this simulation is `earlier` after `generations` more
    /// generations: the same size, palette and modulus, and the state and
    /// the trace that the rule gives.
    pub open spec fn carries_on(&self, earlier: &Auton, generations: nat) -> bool {
        &&& self.spec_height() == earlier.spec_height()
        &&& self.spec_width() == earlier.spec_width()
        &&& self.spec_colors() == earlier.spec_colors()
        &&& self.spec_color_modulus() == earlier.spec_color_modulus()
        &&& self.spec_state()@ == state_after(
            earlier.spec_state()@,
            earlier.spec_color_modulus(),
            generations,
        )
        &&& self.spec_trace()@ == trace_after(
            earlier.spec_state()@,
            earlier.spec_trace()@,
            earlier.spec_color_modulus(),
            generations,
        )
    }

    /// Generations add up: what carries on from a simulation that itself
    /// carries on from an earlier one carries on from the earlier one.
    pub proof fn lemma_carries_on_further(
        &self,
        middle: &Auton,
        earlier: &Auton,
        first: nat,
        second: nat,
    )
        requires
            middle.carries_on(earlier, first),
            self.carries_on(middle, second),
        ensures
            self.carries_on(earlier, first + second),
    {
        lemma_generations_add(
            earlier.spec_state()@,
            earlier.spec_trace()@,
            earlier.spec_color_modulus(),
            first,
            second,
        );
    }

    /// A simulation on a grid of `height` rows and twice as many columns.
    /// The random stream starts from the fixed seed; the palette draws from
    /// it first, then the seeding of the state. The trace starts at zero.
    pub fn new(height: usize) -> (auton: Auton)
        requires
            2 * height * height <= usize::MAX,
        ensures
            auton.wf(),
            exists|start: int, picks: Seq<(usize, u64)>|
                {
                    &&& 0 <= start < FULL_TURN
                    &&& drawn_picks(picks, height, (2 * height) as usize, COLORS_COUNT as u64)
                    &&& #[trigger] auton.built_from(height, start, picks)
                },
            symmetric(auton.spec_state()@, height as int, 2 * height),
    {
        let mut rng = seeded_rng(SEED);
        proof {
            lemma_size_fits(height);
        }
        let width = height * 2;
        let mut front_a = AutonImage::new(height, width);
        let back_a = AutonImage::new(height, width);
        let front_b = AutonImage::new(height, width);
        let colors_count = COLORS_COUNT;
        let colors = build_colors(&mut rng, colors_count);
        let color_modulus = colors_count as u64;
        front_a.make_unique(&mut rng, color_modulus);
        let auton = Auton {
            height,
            width,
            front_a,
            back_a,
            front_b,
            colors,
            colors_count,
            color_modulus,
            rng,
        };
        proof {
            let picks = choose|picks: Seq<(usize, u64)>|
                #[trigger] drawn_picks(picks, height, width, color_modulus) && auton.front_a@
                    == seeded(blank(height, width), planned(picks, height, width));
            let start = choose|start: int|
                0 <= start < FULL_TURN && auton.colors@ == #[trigger] palette(start, colors_count);
            lemma_seeded_blank(picks, height, width, color_modulus);
            assert(auton.built_from(height, start, picks));
        }
        auton
    }

    /// The simulation on `height` rows that construction makes when the
    /// palette's draw gives `start` degrees and the seeding draws `picks`,
    /// each an index into the list of the top left quadrant and a color.
    /// The simulation's own random stream is left fresh from the seed.
    pub fn from_draws(height: usize, start: i32, picks: &Vec<(usize, u64)>) -> (auton: Auton)
        requires
            2 * height * height <= usize::MAX,
            0 <= start < FULL_TURN,
            picks_within(picks@, height, (2 * height) as usize),
            forall|i: int| 0 <= i < picks@.len() ==> (#[trigger] picks@[i]).1 < COLORS_COUNT,
        ensures
            auton.wf(),
            auton.built_from(height, start as int, picks@),
            symmetric(auton.spec_state()@, height as int, 2 * height),
    {
        let rng = seeded_rng(SEED);
        proof {
            lemma_size_fits(height);
        }
        let width = height * 2;
        let mut front_a = AutonImage::new(height, width);
        let back_a = AutonImage::new(height, width);
        let front_b = AutonImage::new(height, width);
        let colors_count = COLORS_COUNT;
        let colors = palette_from(start, colors_count);
        let color_modulus = colors_count as u64;
        let alterations = front_a.plan_alterations(picks);
        proof {
            lemma_planned_mirror(picks@, height, width);
            lemma_seeded_blank(picks@, height, width, color_modulus);
        }
        front_a.apply_alterations(&alterations);
        Auton { height, width, front_a, back_a, front_b, colors, colors_count, color_modulus, rng }
    }

    /// The number of rows of each grid.
    #[verifier::when_used_as_spec(spec_height)]
    pub fn height(&self) -> (height: usize)
        ensures
            height == self.spec_height(),
    {
        self.height
    }

    /// The number of columns of each grid.
    #[verifier::when_used_as_spec(spec_width)]
    pub fn width(&self) -> (width: usize)
        ensures
            width == self.spec_width(),
    {
        self.width
    }

    /// The state grid.
    pub fn state(&self) -> (image: &AutonImage)
        ensures
            *image == self.spec_state(),
    {
        &self.front_a
    }

    /// The grid that holds the state as it was before the last step.
    pub fn snapshot(&self) -> (image: &AutonImage)
        ensures
            *image == self.spec_snapshot(),
    {
        &self.back_a
    }

    /// The trace grid.
    pub fn trace(&self) -> (image: &AutonImage)
        ensures
            *image == self.spec_trace(),
    {
        &self.front_b
    }

    /// The palette.
    pub fn colors(&self) -> (colors: &Vec<Color>)
        ensures
            colors@ == self.spec_colors(),
    {
        &self.colors
    }

    /// The number of colors of the palette.
    pub fn colors_count(&self) -> (colors_count: usize)
        requires
            self.wf(),
        ensures
            colors_count == COLORS_COUNT,
            colors_count == self.spec_colors().len(),
    {
        self.colors_count
    }

    /// The modulus of the update rule.
    #[verifier::when_used_as_spec(spec_color_modulus)]
    pub fn color_modulus(&self) -> (color_modulus: u64)
        ensures
            color_modulus == self.spec_color_modulus(),
    {
        self.color_modulus
    }

    /// Advances the simulation by one generation. The state is first copied
    /// to the snapshot; every cell is then computed from the snapshot alone,
    /// so no cell sees a neighbor that this step has already changed.
    pub fn iterate(&mut self)
        requires
            old(self).wf(),
        ensures
            final(self).wf(),
            final(self).spec_height() == old(self).spec_height(),
            final(self).spec_width() == old(self).spec_width(),
            final(self).spec_colors() == old(self).spec_colors(),
            final(self).spec_color_modulus() == old(self).spec_color_modulus(),
            final(self).spec_snapshot()@ == old(self).spec_state()@,
            final(self).spec_state()@ == next_state(
                old(self).spec_state()@,
                old(self).spec_color_modulus(),
            ),
            final(self).spec_trace()@ == next_trace(
                old(self).spec_state()@,
                old(self).spec_trace()@,
                old(self).spec_color_modulus(),
            ),
    {
        self.back_a.fill_from(&self.front_a);
        let ghost before = self.back_a@;
        let ghost traced = self.front_b@;
        proof {
            self.front_a.lemma_view_shape();
            self.back_a.lemma_view_shape();
            self.front_b.lemma_view_shape();
        }
        let height = self.height;
        let width = self.width;
        for row in 0..height
            invariant
                self.height == height,
                self.width == width,
                self.front_a.wf(),
                self.back_a.wf(),
                self.front_b.wf(),
                self.front_a.height() == self.height,
                self.back_a.height() == self.height,
                self.front_b.height() == self.height,
                self.front_a.width() == self.width,
                self.back_a.width() == self.width,
                self.front_b.width() == self.width,
                self.height == old(self).height,
                self.width == old(self).width,
                self.colors == old(self).colors,
                self.colors_count == old(self).colors_count,
                self.color_modulus == old(self).color_modulus,
                self.color_modulus == COLORS_COUNT,
                self.back_a@ == before,
                before == old(self).front_a@,
                traced == old(self).front_b@,
                rectangular(before, height as int, width as int),
                rectangular(traced, height as int, width as int),
                colors_below(before, self.color_modulus),
                colors_below(traced, self.color_modulus),
                forall|r: int, c: int|
                    0 <= r < self.height && 0 <= c < self.width ==> #[trigger] self.front_a@[r][c]
                        == if r < row {
                        next_color(before, r, c, self.color_modulus)
                    } else {
                        before[r][c]
                    },
                forall|r: int, c: int|
                    0 <= r < self.height && 0 <= c < self.width ==> #[trigger] self.front_b@[r][c]
                        == if r < row {
                        next_trace(before, traced, self.color_modulus)[r][c]
                    } else {
                        traced[r][c]
                    },
        {
            for column in 0..width
                invariant
                    row < height,
                    self.height == height,
                    self.width == width,
                    self.front_a.wf(),
                    self.back_a.wf(),
                    self.front_b.wf(),
                    self.front_a.height() == self.height,
                    self.back_a.height() == self.height,
                    self.front_b.height() == self.height,
                    self.front_a.width() == self.width,
                    self.back_a.width() == self.width,
                    self.front_b.width() == self.width,
                    self.height == old(self).height,
                    self.width == old(self).width,
                    self.colors == old(self).colors,
                    self.colors_count == old(self).colors_count,
                    self.color_modulus == old(self).color_modulus,
                    self.color_modulus == COLORS_COUNT,
                    self.back_a@ == before,
                    before == old(self).front_a@,
                    traced == old(self).front_b@,
                    rectangular(before, height as int, width as int),
                    rectangular(traced, height as int, width as int),
                    colors_below(before, self.color_modulus),
                    colors_below(traced, self.color_modulus),
                    forall|r: int, c: int|
                        0 <= r < self.height && 0 <= c < self.width
                            ==> #[trigger] self.front_a@[r][c] == if r < row || (r == row && c
                            < column) {
                            next_color(before, r, c, self.color_modulus)
                        } else {
                            before[r][c]
                        },
                    forall|r: int, c: int|
                        0 <= r < self.height && 0 <= c < self.width
                            ==> #[trigger] self.front_b@[r][c] == if r < row || (r == row && c
                            < column) {
                            next_trace(before, traced, self.color_modulus)[r][c]
                        } else {
                            traced[r][c]
                        },
            {
                let back_cell = self.back_a.get_cell(row, column);
                proof {
                    self.front_a.lemma_view_shape();
                    self.front_b.lemma_view_shape();
                    let here = Address { row, column };
                    lemma_neighbor_within(here, Direction::Down, self.height, self.width);
                    lemma_neighbor_within(here, Direction::Up, self.height, self.width);
                    lemma_neighbor_within(here, Direction::Right, self.height, self.width);
                    lemma_neighbor_within(here, Direction::Left, self.height, self.width);
                    lemma_ring_next(row as int, self.height as int);
                    lemma_ring_prev(row as int, self.height as int);
                    lemma_ring_next(column as int, self.width as int);
                    lemma_ring_prev(column as int, self.width as int);
                }
                let a = back_cell.color();
                let b = self.back_a.find_neighbor(back_cell, Direction::Down).color();
                let c = self.back_a.find_neighbor(back_cell, Direction::Up).color();
                let d = self.back_a.find_neighbor(back_cell, Direction::Right).color();
                let e = self.back_a.find_neighbor(back_cell, Direction::Left).color();
                let color = (a + b + c + d + e) % self.color_modulus;
                self.front_a.get_mut_cell(row, column).set_color(color);
                let numbers = vec![a, b, c, d, e];
                assert(numbers@ =~= neighborhood(before, row as int, column as int));
                if at_least_one_not_zero(&numbers) {
                    if color == 0 {
                        let front_b_cell = self.front_b.get_mut_cell(row, column);
                        let traced_color = front_b_cell.color();
                        front_b_cell.set_color((traced_color + 1) % self.color_modulus);
                    }
                }
            }
        }
        proof {
            lemma_step_keeps_shape(
                before,
                traced,
                self.color_modulus,
                self.height as int,
                self.width as int,
            );
            self.front_a.lemma_view_shape();
            self.front_b.lemma_view_shape();
            assert(self.front_a@ =~~= next_state(before, self.color_modulus));
            assert(self.front_b@ =~~= next_trace(before, traced, self.color_modulus));
        }
    }
}

/// A grid whose cells fit in memory twice over has a width and a cell count
/// that fit too.
proof fn lemma_size_fits(height: usize)
    requires
        2 * height * height <= usize::MAX,
    ensures
        height * 2 <= usize::MAX,
        height * (height * 2) <= usize::MAX,
{
    assert(height * 2 <= 2 * height * height || height == 0) by (nonlinear_arith);
    assert(height * (height * 2) == 2 * height * height) by (nonlinear_arith);
}

/// A blank grid seeded from picks has the shape of the grid, mirrors
/// itself, and holds only colors below the modulus.
proof fn lemma_seeded_blank(
    picks: Seq<(usize, u64)>,
    height: usize,
    width: usize,
    color_modulus: u64,
)
    requires
        picks_within(picks, height, width),
        forall|i: int| 0 <= i < picks.len() ==> (#[trigger] picks[i]).1 < color_modulus,
        color_modulus > 0,
    ensures
        symmetric(seeded(blank(height, width), planned(picks, height, width)), height as int, width as int),
        colors_below(seeded(blank(height, width), planned(picks, height, width)), color_modulus),
        colors_below(blank(height, width), color_modulus),
{
    let alterations = planned(picks, height, width);
    let after = seeded(blank(height, width), alterations);
    lemma_planned_mirror(picks, height, width);
    lemma_seeding_keeps_symmetry(blank(height, width), alterations, height, width);
    assert forall|row: int, column: int|
        0 <= row < after.len() && 0 <= column < after[row].len() implies #[trigger] after[row][column]
        < color_modulus by {
        lemma_seeded_color_bounds(
            0,
            alterations,
            Address { row: row as usize, column: column as usize },
            color_modulus,
        );
    }
}

} // verus!
