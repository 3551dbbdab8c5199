//! Rendering: the trace grid as a picture, and the run that hands out one
//! picture per generation.
//!
//! A run of `frame_count` generations hands out `frame_count + 1` frames:
//! frame 0 shows the trace as constructed, and each later frame shows it
//! after one more generation. The run is a small state machine, so that a
//! caller can store each frame before the next generation is computed.

use crate::generation::lemma_single_generation;
use crate::generation::state_after;
use crate::generation::trace_after;
use crate::grid::flat_index;
use crate::grid::lemma_flat_index_bound;
use crate::grid::rectangular;
use crate::simulation::Auton;
use crate::simulation::COLORS_COUNT;
use vstd::arithmetic::div_mod::lemma_fundamental_div_mod_converse;
use vstd::prelude::*;

verus! {

/// The picture of a trace: its cells row by row, each as the palette's
/// color for the cell's value.
pub open spec fn picture(trace: Seq<Seq<u64>>, width: int, palette: Seq<[u8; 3]>) -> Seq<[u8; 3]> {
    Seq::new(
        (trace.len() * width) as nat,
        |i: int| palette[trace[i / width][i % width] as int],
    )
}

/// How many generations a run takes where nothing else is asked for.
pub const DEFAULT_FRAME_COUNT: usize = 64;

/// Where a run stands.
#[derive(Clone, Copy, Debug, PartialEq, Eq, Structural)]
pub enum RenderState {
    /// No frame has been handed out.
    Constructed,
    /// Frame `frame` was the last to be handed out.
    Rendering { frame: usize },
    /// All frames have been handed out.
    Done,
}

impl RenderState {
    /// Whether the next step of a run of `frame_count` generations computes
    /// a generation: it does after every frame but the last.
    pub open spec fn advances(self, frame_count: usize) -> bool {
        self matches RenderState::Rendering { frame } && frame < frame_count
    }

    /// The state after the next step of a run of `frame_count` generations.
    pub open spec fn next(self, frame_count: usize) -> RenderState {
        match self {
            RenderState::Constructed => RenderState::Rendering { frame: 0 },
            RenderState::Rendering { frame } => if frame < frame_count {
                RenderState::Rendering { frame: (frame + 1) as usize }
            } else {
                RenderState::Done
            },
            RenderState::Done => RenderState::Done,
        }
    }

    /// Whether the next step of a run of `frame_count` generations hands
    /// out a frame.
    pub open spec fn emits(self, frame_count: usize) -> bool {
        self.next(frame_count) is Rendering
    }

    /// The state of a run of `frame_count` generations after `steps` steps.
    pub open spec fn after(frame_count: usize, steps: nat) -> RenderState
        decreases steps,
    {
        if steps == 0 {
            RenderState::Constructed
        } else {
            RenderState::after(frame_count, (steps - 1) as nat).next(frame_count)
        }
    }

    /// Frame count: a run of `frame_count` generations hands out a frame in
    /// each of its first `frame_count + 1` steps and in no later one, and
    /// the frame of step `k + 1` has index `k`. So the frames are exactly
    /// those with indices `0..=frame_count`.
    pub proof fn lemma_frame_count(frame_count: usize, steps: nat)
        ensures
            steps == 0 ==> RenderState::after(frame_count, steps) == RenderState::Constructed,
            1 <= steps <= frame_count + 1 ==> RenderState::after(frame_count, steps) == (
            RenderState::Rendering { frame: (steps - 1) as usize }),
            steps > frame_count + 1 ==> RenderState::after(frame_count, steps) == RenderState::Done,
            RenderState::after(frame_count, steps).emits(frame_count) <==> steps <= frame_count,
        decreases steps,
    {
        if steps > 0 {
            RenderState::lemma_frame_count(frame_count, (steps - 1) as nat);
        }
    }
}

/// Determinism: two simulations built on the same height from the same
/// draws have the same palette, and after any number of generations the
/// same state, the same trace and the same picture.
pub proof fn lemma_same_draws_same_frames(
    first: &Auton,
    second: &Auton,
    height: usize,
    start: int,
    picks: Seq<(usize, u64)>,
    palette: Seq<[u8; 3]>,
    generations: nat,
)
    requires
        first.built_from(height, start, picks),
        second.built_from(height, start, picks),
    ensures
        first.spec_colors() == second.spec_colors(),
        state_after(first.spec_state()@, first.color_modulus(), generations) == state_after(
            second.spec_state()@,
            second.color_modulus(),
            generations,
        ),
        picture(
            trace_after(
                first.spec_state()@,
                first.spec_trace()@,
                first.color_modulus(),
                generations,
            ),
            first.width() as int,
            palette,
        ) == picture(
            trace_after(
                second.spec_state()@,
                second.spec_trace()@,
                second.color_modulus(),
                generations,
            ),
            second.width() as int,
            palette,
        ),
{
}

impl Auton {
    /// The trace grid as a picture: one palette color for each cell, row by
    /// row. `palette` holds the color for each value a cell can have.
    pub fn render_picture(&self, palette: &Vec<[u8; 3]>) -> (pixels: Vec<[u8; 3]>)
        requires
            self.wf(),
            palette@.len() == COLORS_COUNT,
        ensures
            pixels@ == picture(self.spec_trace()@, self.width() as int, palette@),
    {
        let trace = self.trace();
        let height = self.height();
        let width = self.width();
        proof {
            self.lemma_wf_parts();
            trace.lemma_wf_cells();
            trace.lemma_view_shape();
            assert(0 * width == 0) by (nonlinear_arith);
        }
        let mut pixels: Vec<[u8; 3]> = Vec::with_capacity(height * width);
        for row in 0..height
            invariant
                self.wf(),
                *trace == self.spec_trace(),
                trace.wf(),
                trace.height() == height,
                trace.width() == width,
                height == self.height(),
                width == self.width(),
                palette@.len() == COLORS_COUNT,
                rectangular(trace@, height as int, width as int),
                pixels@.len() == row * width,
                forall|i: int|
                    0 <= i < pixels@.len() ==> #[trigger] pixels@[i] == picture(
                        trace@,
                        width as int,
                        palette@,
                    )[i],
        {
            for column in 0..width
                invariant
                    row < height,
                    self.wf(),
                    *trace == self.spec_trace(),
                    trace.wf(),
                    trace.height() == height,
                    trace.width() == width,
                    height == self.height(),
                    width == self.width(),
                    palette@.len() == COLORS_COUNT,
                    rectangular(trace@, height as int, width as int),
                    pixels@.len() == row * width + column,
                    forall|i: int|
                        0 <= i < pixels@.len() ==> #[trigger] pixels@[i] == picture(
                            trace@,
                            width as int,
                            palette@,
                        )[i],
            {
                proof {
                    self.lemma_wf_parts();
                    lemma_flat_index_bound(row as int, column as int, height as int, width as int);
                    lemma_fundamental_div_mod_converse(
                        flat_index(row as int, column as int, width as int),
                        width as int,
                        row as int,
                        column as int,
                    );
                }
                let color_index = trace.get_cell(row, column).color();
                pixels.push(palette[color_index as usize]);
            }
            proof {
                assert((row + 1) * width == row * width + width) by (nonlinear_arith);
            }
        }
        pixels
    }

    /// One step of a run of `frame_count` generations. After every frame
    /// but the last, the step first computes a generation; it then hands
    /// out the picture of the trace, until the last frame has been handed
    /// out. The frame that a step hands out has the index that the state it
    /// returns holds.
    pub fn render_step(
        &mut self,
        state: RenderState,
        frame_count: usize,
        palette: &Vec<[u8; 3]>,
    ) -> (step: (RenderState, Option<Vec<[u8; 3]>>))
        requires
            old(self).wf(),
            palette@.len() == COLORS_COUNT,
        ensures
            final(self).wf(),
            final(self).carries_on(old(self), if state.advances(frame_count) {
                1
            } else {
                0
            }),
            step.0 == state.next(frame_count),
            step.1 is Some <==> state.emits(frame_count),
            step.1 matches Some(pixels) ==> pixels@ == picture(
                final(self).spec_trace()@,
                final(self).width() as int,
                palette@,
            ),
    {
        proof {
            lemma_single_generation(
                self.spec_state()@,
                self.spec_trace()@,
                self.color_modulus(),
            );
        }
        match state {
            RenderState::Constructed => {
                let pixels = self.render_picture(palette);
                (RenderState::Rendering { frame: 0 }, Some(pixels))
            },
            RenderState::Rendering { frame } => {
                if frame < frame_count {
                    self.iterate();
                    let pixels = self.render_picture(palette);
                    (RenderState::Rendering { frame: frame + 1 }, Some(pixels))
                } else {
                    (RenderState::Done, None)
                }
            },
            RenderState::Done => (RenderState::Done, None),
        }
    }

    /// A whole run of `frame_count` generations: its `frame_count + 1`
    /// frames in order. Frame `i` is the picture of the trace after `i`
    /// generations.
    pub fn render(&mut self, palette: &Vec<[u8; 3]>, frame_count: usize) -> (frames: Vec<
        Vec<[u8; 3]>,
    >)
        requires
            old(self).wf(),
            palette@.len() == COLORS_COUNT,
            frame_count < usize::MAX,
        ensures
            final(self).wf(),
            final(self).carries_on(old(self), frame_count as nat),
            frames@.len() == frame_count + 1,
            forall|i: int|
                0 <= i <= frame_count ==> (#[trigger] frames@[i])@ == picture(
                    trace_after(
                        old(self).spec_state()@,
                        old(self).spec_trace()@,
                        old(self).color_modulus(),
                        i as nat,
                    ),
                    old(self).width() as int,
                    palette@,
                ),
    {
        let mut frames: Vec<Vec<[u8; 3]>> = Vec::new();
        let mut state = RenderState::Constructed;
        let mut steps: usize = 0;
        while steps <= frame_count
            invariant
                self.wf(),
                palette@.len() == COLORS_COUNT,
                frame_count < usize::MAX,
                steps <= frame_count + 1,
                state == RenderState::after(frame_count, steps as nat),
                self.carries_on(old(self), if steps == 0 {
                    0nat
                } else {
                    (steps - 1) as nat
                }),
                frames@.len() == steps,
                forall|i: int|
                    0 <= i < steps ==> (#[trigger] frames@[i])@ == picture(
                        trace_after(
                            old(self).spec_state()@,
                            old(self).spec_trace()@,
                            old(self).color_modulus(),
                            i as nat,
                        ),
                        old(self).width() as int,
                        palette@,
                    ),
            decreases frame_count + 1 - steps,
        {
            proof {
                RenderState::lemma_frame_count(frame_count, steps as nat);
                RenderState::lemma_frame_count(frame_count, (steps + 1) as nat);
            }
            let ghost entered = *self;
            let (next, frame) = self.render_step(state, frame_count, palette);
            proof {
                self.lemma_carries_on_further(&entered, old(self), if steps == 0 {
                    0nat
                } else {
                    (steps - 1) as nat
                }, if steps == 0 {
                    0nat
                } else {
                    1nat
                });
            }
            state = next;
            match frame {
                Some(pixels) => {
                    frames.push(pixels);
                },
                None => {},
            }
            steps = steps + 1;
        }
        frames
    }
}

} // verus!
