//! Trace generation and row constraints for the wide Poseidon2 permutation
//! over the Baby Bear field.
//!
//! One invocation of the permutation is recorded in one row of 812 columns:
//! the input, the output, and for every round the state it starts from and
//! the third and seventh power of the S-box. The rows of all invocations,
//! padded with zero rows to a power-of-two height, form the trace.
//!
//! - [`field`], [`constants`], [`linear`]: field arithmetic, round constants
//!   and the two linear layers, all computed by Plonky3 and SP1.
//! - [`round`]: the S-box, one full and one partial round, the permutation.
//! - [`columns`], [`row`]: the layout of a row and what its columns hold.
//! - [`schedule`]: the round schedule written into a row.
//! - [`air`]: the constraints between the columns, and their evaluation.
//! - [`trace`], [`matrix`], [`chip`]: the padded trace and the chip that
//!   hands it to the proving machine.

pub mod air;
pub mod chip;
pub mod columns;
pub mod constants;
pub mod field;
pub mod linear;
pub mod matrix;
pub mod record;
pub mod round;
pub mod row;
pub mod schedule;
pub mod trace;

pub use chip::Poseidon2WideChip;
pub use columns::Poseidon2WideCols;
pub use columns::NUM_POSEIDON2_WIDE_COLS;
pub use constants::NUM_EXTERNAL_ROUNDS;
pub use constants::NUM_INTERNAL_ROUNDS;
pub use constants::NUM_ROUNDS;
pub use constants::WIDTH;
pub use record::ExecutionRecord;
pub use record::Poseidon2Event;
