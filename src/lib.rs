//! Simulated bifurcation for Ising-type problems on a complete weighted graph.
//!
//! The numerical work is generic over [`Real`], a small arithmetic interface that
//! a caller implements for its floating-point type; each of its operations is
//! named by a spec function. The contracts state, over those names, the
//! coupling matrix built from one weight per pair, the validation of the
//! parameters, the control value of every outer step, the integration
//! recurrence of each step, and the spins read from the final positions.

mod graph;
mod params;
mod scalar;
mod solver;
mod spin;

pub use params::{SolveError, SbParameters, parameter_error, check_parameters};
pub use graph::{CouplingGraph, row_start, pair_count, pair_index, matrix_entry, is_coupling_matrix, pair_count_of, lemma_pair_index_bounds, lemma_pair_index_injective, lemma_coupling_symmetric};
pub use scalar::{Real, Sign};
pub use spin::{spins_match, lemma_spins_match_unique, spin_of, all_decided, is_first_undecided, spins_from_signs, spin_value, lemma_spins_shape_and_domain};
pub use solver::{
    OscillatorState, SbSolver, solve, control_fraction, fraction_le, lemma_control_ramp, GAIN_NUMERATOR,
    GAIN_DENOMINATOR, control_at, coupling_gain_of, sub_time_step_of, coupling_sum, impulse_of, sub_step_of,
    sub_steps_of, oscillator_after, outer_step_of, run_of, final_positions, signs_of, is_solve_result,
    lemma_solve_deterministic, lemma_single_node_coupling,
};
