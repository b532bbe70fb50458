//! The round schedule written into a row: each round fills its own columns
//! and the state that the next step starts from.

use crate::air::lemma_constraints_characterise_rows;
use crate::chip::Poseidon2WideChip;
use crate::columns::Poseidon2WideCols;
use crate::columns::Poseidon2WideExternalRoundCols;
use crate::columns::Poseidon2WideInternalRoundCols;
use crate::constants::round_constant;
use crate::constants::NUM_EXTERNAL_ROUNDS;
use crate::constants::NUM_INTERNAL_ROUNDS;
use crate::constants::WIDTH;
use crate::field::all_reduced;
use crate::field::ORDER;
use crate::linear::external_linear_layer;
use crate::linear::external_linear_layer_spec;
use crate::linear::internal_linear_layer;
use crate::linear::internal_linear_layer_spec;
use crate::record::Poseidon2Event;
use crate::round::full_round;
use crate::round::full_round_deg_3;
use crate::round::full_round_deg_7;
use crate::round::partial_round;
use crate::round::partial_round_mix_input;
use crate::round::permute_spec;
use crate::round::sbox_deg_3;
use crate::round::sbox_deg_7;
use crate::row::external_round_state;
use crate::row::internal_round_state;
use crate::row::zeros;
use vstd::prelude::*;

verus! {

/// External round `round` has been written into `pre`, giving `post`: the
/// two powers of the round and the state mixed from them are set, and every
/// other column is as it was.
pub open spec fn external_round_written(
    pre: Poseidon2WideCols<u32>,
    post: Poseidon2WideCols<u32>,
    round: int,
) -> bool {
    let half = NUM_EXTERNAL_ROUNDS as int / 2;
    &&& post.input == pre.input
    &&& round != NUM_EXTERNAL_ROUNDS - 1 ==> post.output == pre.output
    &&& forall|i: int|
        0 <= i < NUM_EXTERNAL_ROUNDS && i != round ==> {
            &&& (#[trigger] post.external_rounds[i]).sbox_deg_3 == pre.external_rounds[i].sbox_deg_3
            &&& post.external_rounds[i].sbox_deg_7 == pre.external_rounds[i].sbox_deg_7
        }
    &&& forall|i: int|
        0 <= i < NUM_EXTERNAL_ROUNDS && (i != round + 1 || round == half - 1) ==> (
        #[trigger] post.external_rounds[i]).state == pre.external_rounds[i].state
    &&& forall|i: int|
        0 <= i < NUM_INTERNAL_ROUNDS ==> {
            &&& (#[trigger] post.internal_rounds[i]).sbox_deg_3 == pre.internal_rounds[i].sbox_deg_3
            &&& post.internal_rounds[i].sbox_deg_7 == pre.internal_rounds[i].sbox_deg_7
        }
    &&& forall|i: int|
        0 <= i < NUM_INTERNAL_ROUNDS && (i != 0 || round != half - 1) ==> (
        #[trigger] post.internal_rounds[i]).state == pre.internal_rounds[i].state
    &&& post.external_rounds[round].sbox_deg_3@ == full_round_deg_3(
        pre.external_rounds[round].state@,
        round,
    )
    &&& post.external_rounds[round].sbox_deg_7@ == full_round_deg_7(
        pre.external_rounds[round].state@,
        round,
    )
    &&& post.state_after_external_round(round)@ == external_linear_layer_spec(
        post.external_rounds[round].sbox_deg_7@,
    )
}

/// Internal round `round` has been written into `pre`, giving `post`: the
/// two powers of the round and the state mixed from them are set, and every
/// other column is as it was.
pub open spec fn internal_round_written(
    pre: Poseidon2WideCols<u32>,
    post: Poseidon2WideCols<u32>,
    round: int,
) -> bool {
    let half = NUM_EXTERNAL_ROUNDS as int / 2;
    let last = NUM_INTERNAL_ROUNDS as int - 1;
    &&& post.input == pre.input
    &&& post.output == pre.output
    &&& forall|i: int|
        0 <= i < NUM_EXTERNAL_ROUNDS ==> {
            &&& (#[trigger] post.external_rounds[i]).sbox_deg_3 == pre.external_rounds[i].sbox_deg_3
            &&& post.external_rounds[i].sbox_deg_7 == pre.external_rounds[i].sbox_deg_7
        }
    &&& forall|i: int|
        0 <= i < NUM_EXTERNAL_ROUNDS && (i != half || round != last) ==> (
        #[trigger] post.external_rounds[i]).state == pre.external_rounds[i].state
    &&& forall|i: int|
        0 <= i < NUM_INTERNAL_ROUNDS && i != round ==> {
            &&& (#[trigger] post.internal_rounds[i]).sbox_deg_3 == pre.internal_rounds[i].sbox_deg_3
            &&& post.internal_rounds[i].sbox_deg_7 == pre.internal_rounds[i].sbox_deg_7
        }
    &&& forall|i: int|
        0 <= i < NUM_INTERNAL_ROUNDS && (i != round + 1 || round == last) ==> (
        #[trigger] post.internal_rounds[i]).state == pre.internal_rounds[i].state
    &&& post.internal_rounds[round].sbox_deg_3 == sbox_deg_3(
        pre.internal_rounds[round].state[0],
        round_constant(round, 0),
    )
    &&& post.internal_rounds[round].sbox_deg_7 == sbox_deg_7(
        pre.internal_rounds[round].state[0],
        round_constant(round, 0),
    )
    &&& post.state_after_internal_round(round)@ == internal_linear_layer_spec(
        partial_round_mix_input(pre.internal_rounds[round].state@, round),
    )
}

/// The rounds written so far are those of the permutation of `input`: the
/// external rounds below `external` and the internal rounds below
/// `internal`.
pub open spec fn recorded_up_to(
    cols: Poseidon2WideCols<u32>,
    input: Seq<u32>,
    external: int,
    internal: int,
) -> bool {
    &&& cols.input@ == input
    &&& forall|r: int|
        0 <= r < external ==> (#[trigger] cols.external_rounds[r]).records(input, r)
    &&& forall|r: int|
        0 <= r < internal ==> (#[trigger] cols.internal_rounds[r]).records(input, r)
}

/// The rounds written so far hold reduced field elements only.
pub open spec fn reduced_up_to(cols: Poseidon2WideCols<u32>, external: int, internal: int) -> bool {
    &&& forall|r: int| 0 <= r < external ==> (#[trigger] cols.external_rounds[r]).is_reduced()
    &&& forall|r: int| 0 <= r < internal ==> (#[trigger] cols.internal_rounds[r]).is_reduced()
}

impl Poseidon2WideChip {
    /// Runs external round `r` on the state that the row holds for it:
    /// writes the two powers of every lane into the round's columns, and the
    /// seventh powers, mixed by the external linear layer, into the state
    /// that the next step of the schedule starts from.
    pub fn generate_external_round(cols: &mut Poseidon2WideCols<u32>, r: usize)
        requires
            r < NUM_EXTERNAL_ROUNDS,
        ensures
            external_round_written(*old(cols), *final(cols), r as int),
            all_reduced(final(cols).external_rounds[r as int].sbox_deg_3@),
            all_reduced(final(cols).external_rounds[r as int].sbox_deg_7@),
            all_reduced(final(cols).state_after_external_round(r as int)@),
    {
        let round = full_round(&cols.external_rounds[r].state, r);
        cols.external_rounds[r].sbox_deg_3 = round.0;
        cols.external_rounds[r].sbox_deg_7 = round.1;
        let next_state = external_linear_layer(&round.2);
        if r == NUM_EXTERNAL_ROUNDS / 2 - 1 {
            cols.internal_rounds[0].state = next_state;
        } else if r == NUM_EXTERNAL_ROUNDS - 1 {
            cols.output = next_state;
        } else {
            cols.external_rounds[r + 1].state = next_state;
        }
    }

    /// Runs internal round `r` on the state that the row holds for it:
    /// writes the two powers of lane 0 into the round's columns, and the
    /// state with lane 0 replaced by its seventh power, mixed by the
    /// internal linear layer, into the state that the next step of the
    /// schedule starts from.
    pub fn generate_internal_round(cols: &mut Poseidon2WideCols<u32>, r: usize)
        requires
            r < NUM_INTERNAL_ROUNDS,
        ensures
            internal_round_written(*old(cols), *final(cols), r as int),
            final(cols).internal_rounds[r as int].sbox_deg_3 < ORDER,
            final(cols).internal_rounds[r as int].sbox_deg_7 < ORDER,
            all_reduced(final(cols).state_after_internal_round(r as int)@),
    {
        let round = partial_round(&cols.internal_rounds[r].state, r);
        cols.internal_rounds[r].sbox_deg_3 = round.0;
        cols.internal_rounds[r].sbox_deg_7 = round.1;
        let next_state = internal_linear_layer(&round.2);
        if r == NUM_INTERNAL_ROUNDS - 1 {
            cols.external_rounds[NUM_EXTERNAL_ROUNDS / 2].state = next_state;
        } else {
            cols.internal_rounds[r + 1].state = next_state;
        }
    }

    /// A row with every column zero.
    pub fn zero_row() -> (cols: Poseidon2WideCols<u32>)
        ensures
            cols.is_zero(),
    {
        let external = Poseidon2WideExternalRoundCols {
            state: [0u32; WIDTH],
            sbox_deg_3: [0u32; WIDTH],
            sbox_deg_7: [0u32; WIDTH],
        };
        let internal = Poseidon2WideInternalRoundCols {
            state: [0u32; WIDTH],
            sbox_deg_3: 0u32,
            sbox_deg_7: 0u32,
        };
        let cols = Poseidon2WideCols {
            input: [0u32; WIDTH],
            output: [0u32; WIDTH],
            external_rounds: [external; NUM_EXTERNAL_ROUNDS],
            internal_rounds: [internal; NUM_INTERNAL_ROUNDS],
        };
        proof {
            assert(cols.input@ =~= zeros(WIDTH as nat));
            assert(cols.output@ =~= zeros(WIDTH as nat));
            assert(external.flatten() =~= zeros(3 * WIDTH as nat));
            assert(internal.flatten() =~= zeros((WIDTH + 2) as nat));
            cols.lemma_zero_columns();
        }
        cols
    }

    /// Records the permutation of the event's input: runs the round
    /// schedule and writes every intermediate value into its column.
    pub fn generate_row(event: &Poseidon2Event) -> (cols: Poseidon2WideCols<u32>)
        ensures
            cols.is_row_of(event.input@),
            cols.satisfies_constraints(),
            all_reduced(event.input@) ==> cols.is_reduced(),
    {
        let ghost input = event.input@;
        let half = NUM_EXTERNAL_ROUNDS / 2;
        let mut cols = Self::zero_row();
        cols.input = event.input;
        cols.external_rounds[0].state = external_linear_layer(&cols.input);

        for r in 0..half
            invariant
                half == NUM_EXTERNAL_ROUNDS / 2,
                recorded_up_to(cols, input, r as int, 0),
                reduced_up_to(cols, r as int, 0),
                r < half ==> cols.external_rounds[r as int].state@ == external_round_state(
                    input,
                    r as int,
                ) && all_reduced(cols.external_rounds[r as int].state@),
                r == half ==> cols.internal_rounds[0].state@ == internal_round_state(input, 0)
                    && all_reduced(cols.internal_rounds[0].state@),
        {
            Self::generate_external_round(&mut cols, r);
        }

        for r in 0..NUM_INTERNAL_ROUNDS
            invariant
                half == NUM_EXTERNAL_ROUNDS / 2,
                recorded_up_to(cols, input, half as int, r as int),
                reduced_up_to(cols, half as int, r as int),
                r < NUM_INTERNAL_ROUNDS ==> cols.internal_rounds[r as int].state@
                    == internal_round_state(input, r as int) && all_reduced(
                    cols.internal_rounds[r as int].state@,
                ),
                r == NUM_INTERNAL_ROUNDS ==> cols.external_rounds[half as int].state@
                    == external_round_state(input, half as int) && all_reduced(
                    cols.external_rounds[half as int].state@,
                ),
        {
            Self::generate_internal_round(&mut cols, r);
        }

        for r in half..NUM_EXTERNAL_ROUNDS
            invariant
                half == NUM_EXTERNAL_ROUNDS / 2,
                recorded_up_to(cols, input, r as int, NUM_INTERNAL_ROUNDS as int),
                reduced_up_to(cols, r as int, NUM_INTERNAL_ROUNDS as int),
                r < NUM_EXTERNAL_ROUNDS ==> cols.external_rounds[r as int].state@
                    == external_round_state(input, r as int) && all_reduced(
                    cols.external_rounds[r as int].state@,
                ),
                r == NUM_EXTERNAL_ROUNDS ==> cols.output@ == permute_spec(input) && all_reduced(
                    cols.output@,
                ),
        {
            Self::generate_external_round(&mut cols, r);
        }
        proof {
            lemma_constraints_characterise_rows(cols);
        }
        cols
    }
}

} // verus!
