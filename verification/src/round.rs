//! The round engine: the S-box of one round, and the permutation as the
//! fixed schedule of external and internal rounds.

use crate::constants::load_round_constant;
use crate::constants::round_constant;
use crate::constants::NUM_EXTERNAL_ROUNDS;
use crate::constants::NUM_INTERNAL_ROUNDS;
use crate::constants::NUM_ROUNDS;
use crate::constants::WIDTH;
use crate::field::add_elements;
use crate::field::add_mod;
use crate::field::all_reduced;
use crate::field::lemma_powers_by_multiplication;
use crate::field::mul_elements;
use crate::field::mul_mod;
use crate::field::pow_mod;
use crate::field::ORDER;
use crate::linear::external_linear_layer;
use crate::linear::external_linear_layer_spec;
use crate::linear::internal_linear_layer;
use crate::linear::internal_linear_layer_spec;
use vstd::prelude::*;

verus! {

/// The third power of the lane `x` after the round constant `rc` is added.
pub open spec fn sbox_deg_3(x: u32, rc: u32) -> u32 {
    pow_mod(add_mod(x as int, rc as int), 3) as u32
}

/// The seventh power of the lane `x` after the round constant `rc` is
/// added: the S-box of the permutation.
pub open spec fn sbox_deg_7(x: u32, rc: u32) -> u32 {
    pow_mod(add_mod(x as int, rc as int), 7) as u32
}

/// The third powers that a full round records, lane by lane.
pub open spec fn full_round_deg_3(state: Seq<u32>, round: int) -> Seq<u32> {
    Seq::new(WIDTH as nat, |j: int| sbox_deg_3(state[j], round_constant(round, j)))
}

/// The seventh powers that a full round records, lane by lane. They are
/// also what the round hands to the external linear layer.
pub open spec fn full_round_deg_7(state: Seq<u32>, round: int) -> Seq<u32> {
    Seq::new(WIDTH as nat, |j: int| sbox_deg_7(state[j], round_constant(round, j)))
}

/// What a partial round hands to the internal linear layer: the state with
/// the S-box applied to lane 0 and every other lane as it was.
pub open spec fn partial_round_mix_input(state: Seq<u32>, round: int) -> Seq<u32> {
    state.update(0, sbox_deg_7(state[0], round_constant(round, 0)))
}

/// The state after one external round.
pub open spec fn external_round(state: Seq<u32>, round: int) -> Seq<u32> {
    external_linear_layer_spec(full_round_deg_7(state, round))
}

/// The state after one internal round.
pub open spec fn internal_round(state: Seq<u32>, round: int) -> Seq<u32> {
    internal_linear_layer_spec(partial_round_mix_input(state, round))
}

/// The state after the external rounds `from..to`, applied in order.
pub open spec fn external_rounds(state: Seq<u32>, from: int, to: int) -> Seq<u32>
    decreases to - from,
{
    if to <= from {
        state
    } else {
        external_round(external_rounds(state, from, to - 1), to - 1)
    }
}

/// The state after the internal rounds `0..count`, applied in order.
pub open spec fn internal_rounds(state: Seq<u32>, count: int) -> Seq<u32>
    decreases count,
{
    if count <= 0 {
        state
    } else {
        internal_round(internal_rounds(state, count - 1), count - 1)
    }
}

/// The state that the internal rounds start from: the input mixed once and
/// taken through the first half of the external rounds.
pub open spec fn state_before_internal_rounds(input: Seq<u32>) -> Seq<u32> {
    external_rounds(external_linear_layer_spec(input), 0, NUM_EXTERNAL_ROUNDS as int / 2)
}

/// The state that the second half of the external rounds starts from.
pub open spec fn state_after_internal_rounds(input: Seq<u32>) -> Seq<u32> {
    internal_rounds(state_before_internal_rounds(input), NUM_INTERNAL_ROUNDS as int)
}

/// The permutation: one external linear layer, four external rounds,
/// twenty-two internal rounds, four external rounds. Each phase reads the
/// table of round constants by its own round index.
pub open spec fn permute_spec(input: Seq<u32>) -> Seq<u32> {
    external_rounds(
        state_after_internal_rounds(input),
        NUM_EXTERNAL_ROUNDS as int / 2,
        NUM_EXTERNAL_ROUNDS as int,
    )
}

/// The multiplications by which the two powers are computed give the powers
/// themselves: the cube is the sum times itself twice, and the seventh power
/// is the square of the cube times the sum.
pub proof fn lemma_sbox_by_multiplication(x: u32, rc: u32)
    ensures
        sbox_deg_3(x, rc) == mul_mod(
            mul_mod(add_mod(x as int, rc as int), add_mod(x as int, rc as int)),
            add_mod(x as int, rc as int),
        ),
        sbox_deg_7(x, rc) == mul_mod(
            mul_mod(sbox_deg_3(x, rc) as int, sbox_deg_3(x, rc) as int),
            add_mod(x as int, rc as int),
        ),
        sbox_deg_3(x, rc) < ORDER,
        sbox_deg_7(x, rc) < ORDER,
{
    lemma_powers_by_multiplication(add_mod(x as int, rc as int));
}

/// Adds the round constant `rc` to the lane `x` and raises the sum to the
/// third and to the seventh power.
pub fn sbox(x: u32, rc: u32) -> (powers: (u32, u32))
    ensures
        powers.0 == sbox_deg_3(x, rc),
        powers.1 == sbox_deg_7(x, rc),
        powers.0 < ORDER,
        powers.1 < ORDER,
{
    let add_rc = add_elements(x, rc);
    let deg_3 = mul_elements(mul_elements(add_rc, add_rc), add_rc);
    let deg_7 = mul_elements(mul_elements(deg_3, deg_3), add_rc);
    proof {
        lemma_sbox_by_multiplication(x, rc);
    }
    (deg_3, deg_7)
}

/// One full round on `state`: the third and seventh power of every lane
/// after its round constant is added, and the lanes to be mixed by the
/// external linear layer, which are the seventh powers.
pub fn full_round(state: &[u32; WIDTH], round: usize) -> (out: (
    [u32; WIDTH],
    [u32; WIDTH],
    [u32; WIDTH],
))
    requires
        round < NUM_ROUNDS,
    ensures
        out.0@ == full_round_deg_3(state@, round as int),
        out.1@ == full_round_deg_7(state@, round as int),
        out.2@ == full_round_deg_7(state@, round as int),
        all_reduced(out.0@),
        all_reduced(out.1@),
{
    let mut deg_3 = [0u32; WIDTH];
    let mut deg_7 = [0u32; WIDTH];
    for j in 0..WIDTH
        invariant
            round < NUM_ROUNDS,
            forall|i: int|
                0 <= i < j ==> deg_3[i] == sbox_deg_3(state[i], round_constant(round as int, i)),
            forall|i: int|
                0 <= i < j ==> deg_7[i] == sbox_deg_7(state[i], round_constant(round as int, i)),
            forall|i: int| 0 <= i < j ==> deg_3[i] < ORDER && deg_7[i] < ORDER,
    {
        let powers = sbox(state[j], load_round_constant(round, j));
        deg_3[j] = powers.0;
        deg_7[j] = powers.1;
    }
    assert(deg_3@ =~= full_round_deg_3(state@, round as int));
    assert(deg_7@ =~= full_round_deg_7(state@, round as int));
    (deg_3, deg_7, deg_7)
}

/// One partial round on `state`: the third and seventh power of lane 0
/// after its round constant is added, and the lanes to be mixed by the
/// internal linear layer, which are the state with lane 0 replaced by its
/// seventh power.
pub fn partial_round(state: &[u32; WIDTH], round: usize) -> (out: (u32, u32, [u32; WIDTH]))
    requires
        round < NUM_ROUNDS,
    ensures
        out.0 == sbox_deg_3(state[0], round_constant(round as int, 0)),
        out.1 == sbox_deg_7(state[0], round_constant(round as int, 0)),
        out.2@ == partial_round_mix_input(state@, round as int),
        out.0 < ORDER,
        out.1 < ORDER,
{
    let powers = sbox(state[0], load_round_constant(round, 0));
    let mut mix_input = *state;
    mix_input[0] = powers.1;
    (powers.0, powers.1, mix_input)
}

/// Applies the permutation to `input`, keeping no intermediate value.
pub fn permute(input: &[u32; WIDTH]) -> (output: [u32; WIDTH])
    ensures
        output@ == permute_spec(input@),
        all_reduced(output@),
{
    let mut state = external_linear_layer(input);
    for r in 0..NUM_EXTERNAL_ROUNDS / 2
        invariant
            state@ == external_rounds(external_linear_layer_spec(input@), 0, r as int),
            all_reduced(state@),
    {
        let round = full_round(&state, r);
        state = external_linear_layer(&round.2);
    }
    for r in 0..NUM_INTERNAL_ROUNDS
        invariant
            state@ == internal_rounds(state_before_internal_rounds(input@), r as int),
            all_reduced(state@),
    {
        let round = partial_round(&state, r);
        state = internal_linear_layer(&round.2);
    }
    for r in NUM_EXTERNAL_ROUNDS / 2..NUM_EXTERNAL_ROUNDS
        invariant
            state@ == external_rounds(
                state_after_internal_rounds(input@),
                NUM_EXTERNAL_ROUNDS as int / 2,
                r as int,
            ),
            all_reduced(state@),
    {
        let round = full_round(&state, r);
        state = external_linear_layer(&round.2);
    }
    state
}

} // verus!
