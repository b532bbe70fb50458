//! The constraints of a row: the identities between its columns that hold
//! exactly when the row records a permutation.
//!
//! Every identity is of degree at most three in the columns. That is what
//! the columns for the third and seventh power are there for: the seventh
//! power is constrained as the square of the witnessed third power times
//! the lane, and the state after a round as a linear map of the witnessed
//! seventh powers.

use crate::chip::Poseidon2WideChip;
use crate::columns::Poseidon2WideCols;
use crate::constants::load_round_constant;
use crate::constants::round_constant;
use crate::constants::NUM_EXTERNAL_ROUNDS;
use crate::constants::NUM_INTERNAL_ROUNDS;
use crate::constants::WIDTH;
use crate::field::add_elements;
use crate::field::add_mod;
use crate::field::mul_elements;
use crate::field::mul_mod;
use crate::linear::external_linear_layer;
use crate::linear::external_linear_layer_spec;
use crate::linear::internal_linear_layer;
use crate::linear::internal_linear_layer_spec;
use crate::round::full_round_deg_3;
use crate::round::full_round_deg_7;
use crate::round::lemma_sbox_by_multiplication;
use crate::round::permute_spec;
use crate::round::sbox_deg_3;
use crate::round::sbox_deg_7;
use crate::row::external_round_state;
use crate::row::internal_round_state;
use vstd::prelude::*;

verus! {

/// The two identities of the S-box on one lane: `deg_3` is the cube of the
/// lane `x` plus the round constant `rc`, and `deg_7` is the square of
/// `deg_3` times that sum.
pub open spec fn sbox_constraint(x: u32, rc: u32, deg_3: u32, deg_7: u32) -> bool {
    let add_rc = add_mod(x as int, rc as int);
    &&& deg_3 == mul_mod(mul_mod(add_rc, add_rc), add_rc)
    &&& deg_7 == mul_mod(mul_mod(deg_3 as int, deg_3 as int), add_rc)
}

impl Poseidon2WideCols<u32> {
    /// The identities of external round `round`: the S-box on every lane,
    /// and the next state as the external linear layer of the seventh
    /// powers.
    pub open spec fn external_round_holds(self, round: int) -> bool {
        let cols = self.external_rounds[round];
        &&& forall|lane: int|
            0 <= lane < WIDTH ==> sbox_constraint(
                #[trigger] cols.state[lane],
                round_constant(round, lane),
                cols.sbox_deg_3[lane],
                cols.sbox_deg_7[lane],
            )
        &&& self.state_after_external_round(round)@ == external_linear_layer_spec(
            cols.sbox_deg_7@,
        )
    }

    /// The identities of internal round `round`: the S-box on lane 0, and
    /// the next state as the internal linear layer of the state with lane 0
    /// replaced by its seventh power and every other lane copied.
    pub open spec fn internal_round_holds(self, round: int) -> bool {
        let cols = self.internal_rounds[round];
        &&& sbox_constraint(
            cols.state[0],
            round_constant(round, 0),
            cols.sbox_deg_3,
            cols.sbox_deg_7,
        )
        &&& self.state_after_internal_round(round)@ == internal_linear_layer_spec(
            cols.state@.update(0, cols.sbox_deg_7),
        )
    }

    /// All identities of the row: the first state is the external linear
    /// layer of the input, and every round holds. The output is constrained
    /// as the state after the last external round.
    pub open spec fn satisfies_constraints(self) -> bool {
        &&& self.external_rounds[0].state@ == external_linear_layer_spec(self.input@)
        &&& forall|r: int| 0 <= r < NUM_EXTERNAL_ROUNDS ==> #[trigger] self.external_round_holds(r)
        &&& forall|r: int| 0 <= r < NUM_INTERNAL_ROUNDS ==> #[trigger] self.internal_round_holds(r)
    }
}

/// The S-box identities hold of a lane exactly when the two columns are the
/// third and the seventh power of the lane plus the round constant.
pub proof fn lemma_sbox_constraint(x: u32, rc: u32, deg_3: u32, deg_7: u32)
    ensures
        sbox_constraint(x, rc, deg_3, deg_7) <==> (deg_3 == sbox_deg_3(x, rc) && deg_7
            == sbox_deg_7(x, rc)),
{
    lemma_sbox_by_multiplication(x, rc);
}

/// In a row whose external round `round` holds, the power columns of the
/// round are the powers of its state.
pub proof fn lemma_external_round_powers(cols: Poseidon2WideCols<u32>, round: int)
    requires
        0 <= round < NUM_EXTERNAL_ROUNDS,
    ensures
        (forall|lane: int|
            0 <= lane < WIDTH ==> sbox_constraint(
                #[trigger] cols.external_rounds[round].state[lane],
                round_constant(round, lane),
                cols.external_rounds[round].sbox_deg_3[lane],
                cols.external_rounds[round].sbox_deg_7[lane],
            )) <==> (cols.external_rounds[round].sbox_deg_3@ == full_round_deg_3(
            cols.external_rounds[round].state@,
            round,
        ) && cols.external_rounds[round].sbox_deg_7@ == full_round_deg_7(
            cols.external_rounds[round].state@,
            round,
        )),
{
    let c = cols.external_rounds[round];
    let holds = forall|lane: int|
        0 <= lane < WIDTH ==> sbox_constraint(
            #[trigger] c.state[lane],
            round_constant(round, lane),
            c.sbox_deg_3[lane],
            c.sbox_deg_7[lane],
        );
    assert forall|lane: int| 0 <= lane < WIDTH implies (sbox_constraint(
        c.state[lane],
        round_constant(round, lane),
        c.sbox_deg_3[lane],
        c.sbox_deg_7[lane],
    ) <==> (c.sbox_deg_3[lane] == full_round_deg_3(c.state@, round)[lane] && c.sbox_deg_7[lane]
        == full_round_deg_7(c.state@, round)[lane])) by {
        lemma_sbox_constraint(
            c.state[lane],
            round_constant(round, lane),
            c.sbox_deg_3[lane],
            c.sbox_deg_7[lane],
        );
    }
    if holds {
        assert(c.sbox_deg_3@ =~= full_round_deg_3(c.state@, round));
        assert(c.sbox_deg_7@ =~= full_round_deg_7(c.state@, round));
    }
    if c.sbox_deg_3@ == full_round_deg_3(c.state@, round) && c.sbox_deg_7@ == full_round_deg_7(
        c.state@,
        round,
    ) {
        assert forall|lane: int| 0 <= lane < WIDTH implies sbox_constraint(
            #[trigger] c.state[lane],
            round_constant(round, lane),
            c.sbox_deg_3[lane],
            c.sbox_deg_7[lane],
        ) by {
            assert(c.sbox_deg_3[lane] == c.sbox_deg_3@[lane]);
            assert(c.sbox_deg_7[lane] == c.sbox_deg_7@[lane]);
        }
    }
}

/// In a row that satisfies the constraints, external round `round` of the
/// first half starts from the state that the schedule gives it.
proof fn lemma_first_half_states(cols: Poseidon2WideCols<u32>, round: nat)
    requires
        cols.satisfies_constraints(),
        round < NUM_EXTERNAL_ROUNDS / 2,
    ensures
        cols.external_rounds[round as int].state@ == external_round_state(
            cols.input@,
            round as int,
        ),
    decreases round,
{
    if round > 0 {
        lemma_first_half_states(cols, (round - 1) as nat);
        assert(cols.external_round_holds(round - 1));
        lemma_external_round_powers(cols, round - 1);
    }
}

/// In a row that satisfies the constraints, internal round `round` starts
/// from the state that the schedule gives it.
proof fn lemma_internal_states(cols: Poseidon2WideCols<u32>, round: nat)
    requires
        cols.satisfies_constraints(),
        round < NUM_INTERNAL_ROUNDS,
    ensures
        cols.internal_rounds[round as int].state@ == internal_round_state(
            cols.input@,
            round as int,
        ),
    decreases round,
{
    if round == 0 {
        let last = NUM_EXTERNAL_ROUNDS as int / 2 - 1;
        lemma_first_half_states(cols, last as nat);
        assert(cols.external_round_holds(last));
        lemma_external_round_powers(cols, last);
    } else {
        lemma_internal_states(cols, (round - 1) as nat);
        assert(cols.internal_round_holds(round - 1));
        let c = cols.internal_rounds[round - 1];
        lemma_sbox_constraint(c.state[0], round_constant(round - 1, 0), c.sbox_deg_3, c.sbox_deg_7);
    }
}

/// In a row that satisfies the constraints, external round `round` of the
/// second half starts from the state that the schedule gives it.
proof fn lemma_second_half_states(cols: Poseidon2WideCols<u32>, round: nat)
    requires
        cols.satisfies_constraints(),
        NUM_EXTERNAL_ROUNDS / 2 <= round < NUM_EXTERNAL_ROUNDS,
    ensures
        cols.external_rounds[round as int].state@ == external_round_state(
            cols.input@,
            round as int,
        ),
    decreases round,
{
    if round == NUM_EXTERNAL_ROUNDS / 2 {
        let last = NUM_INTERNAL_ROUNDS as int - 1;
        lemma_internal_states(cols, last as nat);
        assert(cols.internal_round_holds(last));
        let c = cols.internal_rounds[last];
        lemma_sbox_constraint(c.state[0], round_constant(last, 0), c.sbox_deg_3, c.sbox_deg_7);
    } else {
        lemma_second_half_states(cols, (round - 1) as nat);
        assert(cols.external_round_holds(round - 1));
        lemma_external_round_powers(cols, round - 1);
    }
}

/// The constraints pin the row down: a row satisfies them exactly when it
/// records the permutation of its own input, every column holding what the
/// round schedule gives it.
pub proof fn lemma_constraints_characterise_rows(cols: Poseidon2WideCols<u32>)
    ensures
        cols.satisfies_constraints() <==> cols.is_row_of(cols.input@),
{
    let input = cols.input@;
    if cols.satisfies_constraints() {
        assert forall|r: int| 0 <= r < NUM_EXTERNAL_ROUNDS implies (
        #[trigger] cols.external_rounds[r]).records(input, r) by {
            if r < NUM_EXTERNAL_ROUNDS / 2 {
                lemma_first_half_states(cols, r as nat);
            } else {
                lemma_second_half_states(cols, r as nat);
            }
            assert(cols.external_round_holds(r));
            lemma_external_round_powers(cols, r);
        }
        assert forall|r: int| 0 <= r < NUM_INTERNAL_ROUNDS implies (
        #[trigger] cols.internal_rounds[r]).records(input, r) by {
            lemma_internal_states(cols, r as nat);
            assert(cols.internal_round_holds(r));
            let c = cols.internal_rounds[r];
            lemma_sbox_constraint(c.state[0], round_constant(r, 0), c.sbox_deg_3, c.sbox_deg_7);
        }
        let last = NUM_EXTERNAL_ROUNDS as int - 1;
        assert(cols.external_round_holds(last));
        assert(cols.external_rounds[last].records(input, last));
    }
    if cols.is_row_of(input) {
        assert forall|r: int| 0 <= r < NUM_EXTERNAL_ROUNDS implies #[trigger] cols.external_round_holds(
            r,
        ) by {
            assert(cols.external_rounds[r].records(input, r));
            lemma_external_round_powers(cols, r);
            if r == NUM_EXTERNAL_ROUNDS / 2 - 1 {
                assert(cols.internal_rounds[0].records(input, 0));
            } else if r < NUM_EXTERNAL_ROUNDS - 1 {
                assert(cols.external_rounds[r + 1].records(input, r + 1));
            }
        }
        assert forall|r: int| 0 <= r < NUM_INTERNAL_ROUNDS implies #[trigger] cols.internal_round_holds(
            r,
        ) by {
            assert(cols.internal_rounds[r].records(input, r));
            let c = cols.internal_rounds[r];
            lemma_sbox_constraint(c.state[0], round_constant(r, 0), c.sbox_deg_3, c.sbox_deg_7);
            if r == NUM_INTERNAL_ROUNDS - 1 {
                let half = NUM_EXTERNAL_ROUNDS as int / 2;
                assert(cols.external_rounds[half].records(input, half));
            } else {
                assert(cols.internal_rounds[r + 1].records(input, r + 1));
            }
        }
        assert(cols.external_rounds[0].records(input, 0));
    }
}

/// In a row that satisfies the constraints the output is the permutation of
/// the input.
pub proof fn lemma_constrained_output(cols: Poseidon2WideCols<u32>)
    requires
        cols.satisfies_constraints(),
    ensures
        cols.output@ == permute_spec(cols.input@),
{
    lemma_constraints_characterise_rows(cols);
}

/// Whether two states agree in every lane.
fn lanes_equal(a: &[u32; WIDTH], b: &[u32; WIDTH]) -> (equal: bool)
    ensures
        equal == (a@ == b@),
{
    for j in 0..WIDTH
        invariant
            forall|i: int| 0 <= i < j ==> a[i] == b[i],
    {
        if a[j] != b[j] {
            return false;
        }
    }
    assert(a@ =~= b@);
    true
}

/// Evaluates the two S-box identities on one lane.
pub fn check_sbox(x: u32, rc: u32, deg_3: u32, deg_7: u32) -> (ok: bool)
    ensures
        ok == sbox_constraint(x, rc, deg_3, deg_7),
{
    let add_rc = add_elements(x, rc);
    let cube = mul_elements(mul_elements(add_rc, add_rc), add_rc);
    let seventh = mul_elements(mul_elements(deg_3, deg_3), add_rc);
    deg_3 == cube && deg_7 == seventh
}

impl Poseidon2WideCols<u32> {
    /// Evaluates the identities of external round `round`.
    pub fn check_external_round(&self, round: usize) -> (ok: bool)
        requires
            round < NUM_EXTERNAL_ROUNDS,
        ensures
            ok == self.external_round_holds(round as int),
    {
        let cols = &self.external_rounds[round];
        for lane in 0..WIDTH
            invariant
                round < NUM_EXTERNAL_ROUNDS,
                *cols == self.external_rounds[round as int],
                forall|i: int|
                    0 <= i < lane ==> sbox_constraint(
                        #[trigger] cols.state[i],
                        round_constant(round as int, i),
                        cols.sbox_deg_3[i],
                        cols.sbox_deg_7[i],
                    ),
        {
            if !check_sbox(
                cols.state[lane],
                load_round_constant(round, lane),
                cols.sbox_deg_3[lane],
                cols.sbox_deg_7[lane],
            ) {
                return false;
            }
        }
        let mixed = external_linear_layer(&cols.sbox_deg_7);
        if round == NUM_EXTERNAL_ROUNDS / 2 - 1 {
            lanes_equal(&self.internal_rounds[0].state, &mixed)
        } else if round == NUM_EXTERNAL_ROUNDS - 1 {
            lanes_equal(&self.output, &mixed)
        } else {
            lanes_equal(&self.external_rounds[round + 1].state, &mixed)
        }
    }

    /// Evaluates the identities of internal round `round`.
    pub fn check_internal_round(&self, round: usize) -> (ok: bool)
        requires
            round < NUM_INTERNAL_ROUNDS,
        ensures
            ok == self.internal_round_holds(round as int),
    {
        let cols = &self.internal_rounds[round];
        if !check_sbox(
            cols.state[0],
            load_round_constant(round, 0),
            cols.sbox_deg_3,
            cols.sbox_deg_7,
        ) {
            return false;
        }
        let mut mix_input = cols.state;
        mix_input[0] = cols.sbox_deg_7;
        let mixed = internal_linear_layer(&mix_input);
        if round == NUM_INTERNAL_ROUNDS - 1 {
            lanes_equal(&self.external_rounds[NUM_EXTERNAL_ROUNDS / 2].state, &mixed)
        } else {
            lanes_equal(&self.internal_rounds[round + 1].state, &mixed)
        }
    }
}

impl Poseidon2WideChip {
    /// Evaluates the constraints on the row `local`: whether every identity
    /// between its columns holds.
    pub fn eval(&self, local: &Poseidon2WideCols<u32>) -> (ok: bool)
        ensures
            ok == local.satisfies_constraints(),
            ok == local.is_row_of(local.input@),
    {
        proof {
            lemma_constraints_characterise_rows(*local);
        }
        let first = external_linear_layer(&local.input);
        if !lanes_equal(&local.external_rounds[0].state, &first) {
            return false;
        }
        for r in 0..NUM_EXTERNAL_ROUNDS
            invariant
                local.satisfies_constraints() <==> local.is_row_of(local.input@),
                forall|i: int| 0 <= i < r ==> #[trigger] local.external_round_holds(i),
        {
            if !local.check_external_round(r) {
                return false;
            }
        }
        for r in 0..NUM_INTERNAL_ROUNDS
            invariant
                local.satisfies_constraints() <==> local.is_row_of(local.input@),
                forall|i: int|
                    0 <= i < NUM_EXTERNAL_ROUNDS ==> #[trigger] local.external_round_holds(i),
                forall|i: int| 0 <= i < r ==> #[trigger] local.internal_round_holds(i),
        {
            if !local.check_internal_round(r) {
                return false;
            }
        }
        true
    }
}

} // verus!
