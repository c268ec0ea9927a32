//! Index arithmetic, buffer layout and configuration checks for numerical
//! solvers of SIR-type population models on periodic grids.
//!
//! Everything here is integer or layout logic that the floating-point
//! right-hand-side evaluators and the adaptive integrator build on: periodic
//! neighbour indices, the partition of grid points among workers, the layout
//! of the flattened state vector, the Cartesian order of 2D grid points and
//! the validation of grid shapes.

mod convolution;
mod grid;
mod layout;
mod partition;
mod state_buffer;
mod stencil;

pub use convolution::{circular_distance, convolution_terms, term_step, visits};
pub use grid::{
    cartesian_points, check_axis, check_grid_1d, check_grid_2d, check_square_grid, sample_three,
    sample_two, square_grid_check, GridError, MIN_AXIS_POINTS, MIN_SOLVER_POINTS,
};
pub use layout::{
    flatten_three_fields, flatten_two_fields, lemma_three_fields_cover, lemma_three_fields_round_trip,
    lemma_two_fields_cover, lemma_two_fields_round_trip, three_fields, two_fields, view_three_fields,
    view_two_fields,
};
pub use partition::{chunk_len, is_chunking, lemma_chunking_partitions, worker_ranges};
pub use state_buffer::StateBuffer;
pub use stencil::{
    calc_indices, ceil_div, flat_index, is_ceil_div, lemma_flat_index, lemma_flat_index_injective,
    min_int, nearest_image_sq_dist, periodic_sq_distance, transpose_2d, wrap,
};
