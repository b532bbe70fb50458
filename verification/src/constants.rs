//! Shape parameters of the permutation and its table of round constants.

use crate::field::reduce;
use crate::field::ORDER;
use sp1_primitives::RC_16_30_U32;
use vstd::prelude::*;

verus! {

/// The width of the permutation: the number of lanes of its state.
pub const WIDTH: usize = 16;

/// The number of external (full) rounds, half before and half after the
/// internal rounds.
pub const NUM_EXTERNAL_ROUNDS: usize = 8;

/// The number of internal (partial) rounds.
pub const NUM_INTERNAL_ROUNDS: usize = 22;

/// The number of rounds, and of rows in the table of round constants.
pub const NUM_ROUNDS: usize = NUM_EXTERNAL_ROUNDS + NUM_INTERNAL_ROUNDS;

/// The raw 32-bit word that the table of round constants holds for `round`
/// and `lane`. The table has `NUM_ROUNDS` rows of `WIDTH` words.
pub uninterp spec fn round_constant_word(round: int, lane: int) -> u32;

/// The round constant for `round` and `lane` as a reduced field element.
pub open spec fn round_constant(round: int, lane: int) -> u32 {
    (round_constant_word(round, lane) % ORDER) as u32
}

/// Reads `sp1_primitives::RC_16_30_U32[round][lane]`. Trusted: the word read
/// is the one the table holds at that place, the same on every call.
#[verifier::external_body]
fn load_round_constant_word(round: usize, lane: usize) -> (word: u32)
    requires
        round < NUM_ROUNDS,
        lane < WIDTH,
    ensures
        word == round_constant_word(round as int, lane as int),
{
    RC_16_30_U32[round][lane]
}

/// The round constant for `round` and `lane`, converted into the field.
pub fn load_round_constant(round: usize, lane: usize) -> (rc: u32)
    requires
        round < NUM_ROUNDS,
        lane < WIDTH,
    ensures
        rc == round_constant(round as int, lane as int),
        rc < ORDER,
{
    reduce(load_round_constant_word(round, lane))
}

} // verus!
