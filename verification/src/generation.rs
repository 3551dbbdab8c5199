//! The update rule: each cell becomes the sum of itself and its four
//! neighbors, reduced by the color modulus, and a trace counts the times a
//! cell returns to zero from a neighborhood that was not all zero.
//!
//! The rule is stated here over the colors of a grid, row by row.

use crate::grid::rectangular;
use crate::topology::ring_next;
use crate::topology::ring_prev;
use vstd::arithmetic::div_mod::lemma_add_mod_noop_right;
use vstd::arithmetic::div_mod::lemma_mod_bound;
use vstd::arithmetic::div_mod::lemma_small_mod;
use vstd::prelude::*;

verus! {

/// Whether every color is below `modulus`.
pub open spec fn colors_below(colors: Seq<Seq<u64>>, modulus: u64) -> bool {
    forall|row: int, column: int|
        0 <= row < colors.len() && 0 <= column < colors[row].len() ==> #[trigger] colors[row][column]
            < modulus
}

/// The colors that the rule reads for the cell at `(row, column)`: its own,
/// then those below, above, right and left of it on the torus.
pub open spec fn neighborhood(colors: Seq<Seq<u64>>, row: int, column: int) -> Seq<u64> {
    let height = colors.len() as int;
    let width = colors[row].len() as int;
    seq![
        colors[row][column],
        colors[ring_next(row, height)][column],
        colors[ring_prev(row, height)][column],
        colors[row][ring_next(column, width)],
        colors[row][ring_prev(column, width)],
    ]
}

/// The sum of the five colors of a neighborhood.
pub open spec fn neighborhood_sum(colors: Seq<Seq<u64>>, row: int, column: int) -> int {
    let around = neighborhood(colors, row, column);
    around[0] + around[1] + around[2] + around[3] + around[4]
}

/// The color of the cell at `(row, column)` in the next generation.
pub open spec fn next_color(colors: Seq<Seq<u64>>, row: int, column: int, modulus: u64) -> u64 {
    (neighborhood_sum(colors, row, column) % (modulus as int)) as u64
}

/// Whether the trace of the cell at `(row, column)` advances in the step
/// from `colors`: its neighborhood is not all zero, and its next color is
/// zero.
pub open spec fn trace_advances(colors: Seq<Seq<u64>>, row: int, column: int, modulus: u64) -> bool {
    &&& exists|i: int| 0 <= i < 5 && #[trigger] neighborhood(colors, row, column)[i] != 0
    &&& next_color(colors, row, column, modulus) == 0
}

/// The next generation of `colors`.
pub open spec fn next_state(colors: Seq<Seq<u64>>, modulus: u64) -> Seq<Seq<u64>> {
    Seq::new(
        colors.len(),
        |row: int|
            Seq::new(colors[row].len(), |column: int| next_color(colors, row, column, modulus)),
    )
}

/// The trace after the step from `colors`: one more, reduced by the
/// modulus, where the trace advances, and unchanged elsewhere.
pub open spec fn next_trace(colors: Seq<Seq<u64>>, trace: Seq<Seq<u64>>, modulus: u64) -> Seq<
    Seq<u64>,
> {
    Seq::new(
        trace.len(),
        |row: int|
            Seq::new(
                trace[row].len(),
                |column: int|
                    if trace_advances(colors, row, column, modulus) {
                        ((trace[row][column] + 1) % (modulus as int)) as u64
                    } else {
                        trace[row][column]
                    },
            ),
    )
}

/// The state after `generations` steps from `colors`.
pub open spec fn state_after(colors: Seq<Seq<u64>>, modulus: u64, generations: nat) -> Seq<
    Seq<u64>,
>
    decreases generations,
{
    if generations == 0 {
        colors
    } else {
        next_state(state_after(colors, modulus, (generations - 1) as nat), modulus)
    }
}

/// The trace after `generations` steps from `colors` and `trace`.
pub open spec fn trace_after(
    colors: Seq<Seq<u64>>,
    trace: Seq<Seq<u64>>,
    modulus: u64,
    generations: nat,
) -> Seq<Seq<u64>>
    decreases generations,
{
    if generations == 0 {
        trace
    } else {
        next_trace(
            state_after(colors, modulus, (generations - 1) as nat),
            trace_after(colors, trace, modulus, (generations - 1) as nat),
            modulus,
        )
    }
}

/// In how many of the first `generations` steps from `colors` the trace of
/// the cell at `(row, column)` advances.
pub open spec fn advances_within(
    colors: Seq<Seq<u64>>,
    modulus: u64,
    generations: nat,
    row: int,
    column: int,
) -> nat
    decreases generations,
{
    if generations == 0 {
        0
    } else {
        let earlier = advances_within(colors, modulus, (generations - 1) as nat, row, column);
        if trace_advances(
            state_after(colors, modulus, (generations - 1) as nat),
            row,
            column,
            modulus,
        ) {
            earlier + 1
        } else {
            earlier
        }
    }
}

/// One generation is one step, and no generation changes nothing.
pub proof fn lemma_single_generation(colors: Seq<Seq<u64>>, trace: Seq<Seq<u64>>, modulus: u64)
    ensures
        state_after(colors, modulus, 0) == colors,
        trace_after(colors, trace, modulus, 0) == trace,
        state_after(colors, modulus, 1) == next_state(colors, modulus),
        trace_after(colors, trace, modulus, 1) == next_trace(colors, trace, modulus),
{
    reveal_with_fuel(state_after, 2);
    reveal_with_fuel(trace_after, 2);
}

/// Generations add up: `second` steps from where `first` steps lead are
/// `first + second` steps.
pub proof fn lemma_generations_add(
    colors: Seq<Seq<u64>>,
    trace: Seq<Seq<u64>>,
    modulus: u64,
    first: nat,
    second: nat,
)
    ensures
        state_after(state_after(colors, modulus, first), modulus, second) == state_after(
            colors,
            modulus,
            first + second,
        ),
        trace_after(
            state_after(colors, modulus, first),
            trace_after(colors, trace, modulus, first),
            modulus,
            second,
        ) == trace_after(colors, trace, modulus, first + second),
    decreases second,
{
    if second > 0 {
        lemma_generations_add(colors, trace, modulus, first, (second - 1) as nat);
    }
}

/// A step keeps the shape of the state and of the trace, and leaves every
/// color of the state below the modulus, and every color of a trace that
/// was below the modulus below it.
pub proof fn lemma_step_keeps_shape(
    colors: Seq<Seq<u64>>,
    trace: Seq<Seq<u64>>,
    modulus: u64,
    height: int,
    width: int,
)
    requires
        modulus > 0,
        rectangular(colors, height, width),
        rectangular(trace, height, width),
    ensures
        rectangular(next_state(colors, modulus), height, width),
        rectangular(next_trace(colors, trace, modulus), height, width),
        colors_below(next_state(colors, modulus), modulus),
        colors_below(trace, modulus) ==> colors_below(next_trace(colors, trace, modulus), modulus),
{
    assert forall|row: int, column: int|
        0 <= row < next_state(colors, modulus).len() && 0 <= column < next_state(
            colors,
            modulus,
        )[row].len() implies #[trigger] next_state(colors, modulus)[row][column] < modulus by {
        lemma_mod_bound(neighborhood_sum(colors, row, column), modulus as int);
    }
    if colors_below(trace, modulus) {
        assert forall|row: int, column: int|
            0 <= row < next_trace(colors, trace, modulus).len() && 0 <= column < next_trace(
                colors,
                trace,
                modulus,
            )[row].len() implies #[trigger] next_trace(colors, trace, modulus)[row][column]
            < modulus by {
            lemma_mod_bound(trace[row][column] + 1, modulus as int);
        }
    }
}

/// Any number of steps keeps the shape of the state and of the trace.
pub proof fn lemma_run_keeps_shape(
    colors: Seq<Seq<u64>>,
    trace: Seq<Seq<u64>>,
    modulus: u64,
    height: int,
    width: int,
    generations: nat,
)
    requires
        modulus > 0,
        rectangular(colors, height, width),
        rectangular(trace, height, width),
    ensures
        rectangular(state_after(colors, modulus, generations), height, width),
        rectangular(trace_after(colors, trace, modulus, generations), height, width),
    decreases generations,
{
    if generations > 0 {
        let earlier = (generations - 1) as nat;
        lemma_run_keeps_shape(colors, trace, modulus, height, width, earlier);
        lemma_step_keeps_shape(
            state_after(colors, modulus, earlier),
            trace_after(colors, trace, modulus, earlier),
            modulus,
            height,
            width,
        );
    }
}

/// Trace monotonicity. In each generation the trace of a cell moves on by
/// one, around the modulus, if the cell's rule holds in that generation, and
/// stays as it is otherwise. So over any number of generations the count of
/// a cell's advances never falls, and a trace color that began below the
/// modulus is at every time its first value plus that count, reduced by the
/// modulus: a trace is never set back.
pub proof fn lemma_trace_accumulates(
    colors: Seq<Seq<u64>>,
    trace: Seq<Seq<u64>>,
    modulus: u64,
    height: int,
    width: int,
    generations: nat,
    row: int,
    column: int,
)
    requires
        modulus > 0,
        rectangular(colors, height, width),
        rectangular(trace, height, width),
        0 <= row < height,
        0 <= column < width,
        trace[row][column] < modulus,
    ensures
        trace_after(colors, trace, modulus, generations + 1)[row][column] == if trace_advances(
            state_after(colors, modulus, generations),
            row,
            column,
            modulus,
        ) {
            (trace_after(colors, trace, modulus, generations)[row][column] + 1) % (modulus as int)
        } else {
            trace_after(colors, trace, modulus, generations)[row][column] as int
        },
        advances_within(colors, modulus, generations + 1, row, column) == advances_within(
            colors,
            modulus,
            generations,
            row,
            column,
        ) + if trace_advances(state_after(colors, modulus, generations), row, column, modulus) {
            1nat
        } else {
            0nat
        },
        trace_after(colors, trace, modulus, generations)[row][column] == (trace[row][column]
            + advances_within(colors, modulus, generations, row, column)) % (modulus as int),
    decreases generations,
{
    lemma_run_keeps_shape(colors, trace, modulus, height, width, generations);
    lemma_run_bounds_trace(colors, trace, modulus, height, width, generations, row, column);
    lemma_mod_bound(
        trace_after(colors, trace, modulus, generations)[row][column] + 1,
        modulus as int,
    );
    if generations == 0 {
        lemma_small_mod(trace[row][column] as nat, modulus as nat);
    } else {
        let earlier = (generations - 1) as nat;
        lemma_trace_accumulates(colors, trace, modulus, height, width, earlier, row, column);
        let count = advances_within(colors, modulus, earlier, row, column);
        lemma_add_mod_noop_right(1, trace[row][column] + count, modulus as int);
    }
}

/// A trace color that began below the modulus stays below it.
proof fn lemma_run_bounds_trace(
    colors: Seq<Seq<u64>>,
    trace: Seq<Seq<u64>>,
    modulus: u64,
    height: int,
    width: int,
    generations: nat,
    row: int,
    column: int,
)
    requires
        modulus > 0,
        rectangular(colors, height, width),
        rectangular(trace, height, width),
        0 <= row < height,
        0 <= column < width,
        trace[row][column] < modulus,
    ensures
        trace_after(colors, trace, modulus, generations)[row][column] < modulus,
    decreases generations,
{
    if generations > 0 {
        let earlier = (generations - 1) as nat;
        lemma_run_bounds_trace(colors, trace, modulus, height, width, earlier, row, column);
        lemma_run_keeps_shape(colors, trace, modulus, height, width, earlier);
        lemma_mod_bound(
            trace_after(colors, trace, modulus, earlier)[row][column] + 1,
            modulus as int,
        );
    }
}

/// Whether one of `numbers` is not zero.
pub fn at_least_one_not_zero(numbers: &Vec<u64>) -> (found: bool)
    ensures
        found == exists|i: int| 0 <= i < numbers@.len() && #[trigger] numbers@[i] != 0,
{
    for position in 0..numbers.len()
        invariant
            forall|i: int| 0 <= i < position ==> #[trigger] numbers@[i] == 0,
    {
        if numbers[position] != 0 {
            return true;
        }
    }
    false
}

} // verus!
