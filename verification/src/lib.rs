//! A toroidal cellular automaton: a colored grid that wraps around at its
//! edges, a seeding procedure that gives it four-fold mirror symmetry, and a
//! synchronous update rule that sums each cell with its four neighbors.

pub mod generation;
pub mod grid;
pub mod palette;
pub mod random;
pub mod render;
pub mod seeding;
pub mod simulation;
pub mod topology;

pub use crate::generation::at_least_one_not_zero;
pub use crate::grid::AutonImage;
pub use crate::grid::Cell;
pub use crate::palette::build_colors;
pub use crate::palette::palette_from;
pub use crate::palette::Color;
pub use crate::render::RenderState;
pub use crate::seeding::Alteration;
pub use crate::simulation::Auton;
pub use crate::topology::Address;
pub use crate::topology::Direction;
