//! What a row holds, as a function of the permutation input: column by
//! column, and as the flat sequence of values that stands in the trace.

use crate::air::lemma_constraints_characterise_rows;
use crate::columns::flatten_external_rounds;
use crate::columns::flatten_internal_rounds;
use crate::columns::lemma_flatten_external_round_at;
use crate::columns::lemma_flatten_internal_round_at;
use crate::columns::NUM_POSEIDON2_WIDE_COLS;
use crate::columns::Poseidon2WideCols;
use crate::columns::Poseidon2WideExternalRoundCols;
use crate::columns::Poseidon2WideInternalRoundCols;
use crate::constants::round_constant;
use crate::constants::NUM_EXTERNAL_ROUNDS;
use crate::constants::NUM_INTERNAL_ROUNDS;
use crate::constants::WIDTH;
use crate::field::add_mod;
use crate::field::all_reduced;
use crate::field::is_reduced;
use crate::field::pow_mod;
use crate::linear::external_linear_layer_spec;
use crate::round::external_rounds;
use crate::round::full_round_deg_3;
use crate::round::full_round_deg_7;
use crate::round::internal_rounds;
use crate::round::lemma_sbox_by_multiplication;
use crate::round::permute_spec;
use crate::round::sbox_deg_3;
use crate::round::sbox_deg_7;
use crate::round::state_after_internal_rounds;
use crate::round::state_before_internal_rounds;
use vstd::prelude::*;

verus! {

/// The state that external round `round` starts from when the permutation
/// runs on `input`.
pub open spec fn external_round_state(input: Seq<u32>, round: int) -> Seq<u32> {
    if round < NUM_EXTERNAL_ROUNDS as int / 2 {
        external_rounds(external_linear_layer_spec(input), 0, round)
    } else {
        external_rounds(state_after_internal_rounds(input), NUM_EXTERNAL_ROUNDS as int / 2, round)
    }
}

/// The state that internal round `round` starts from when the permutation
/// runs on `input`.
pub open spec fn internal_round_state(input: Seq<u32>, round: int) -> Seq<u32> {
    internal_rounds(state_before_internal_rounds(input), round)
}

/// A sequence of `n` zero lanes.
pub open spec fn zeros(n: nat) -> Seq<u32> {
    Seq::new(n, |k: int| 0u32)
}

/// The columns of external round `round` for the permutation of `input`, in
/// layout order.
pub open spec fn external_round_values(input: Seq<u32>, round: int) -> Seq<u32> {
    let state = external_round_state(input, round);
    state + full_round_deg_3(state, round) + full_round_deg_7(state, round)
}

/// The columns of internal round `round` for the permutation of `input`, in
/// layout order.
pub open spec fn internal_round_values(input: Seq<u32>, round: int) -> Seq<u32> {
    let state = internal_round_state(input, round);
    state.push(sbox_deg_3(state[0], round_constant(round, 0))).push(
        sbox_deg_7(state[0], round_constant(round, 0)),
    )
}

/// The columns of the external rounds `0..count`, one round after the other.
pub open spec fn external_rounds_values(input: Seq<u32>, count: nat) -> Seq<u32>
    decreases count,
{
    if count == 0 {
        Seq::empty()
    } else {
        external_rounds_values(input, (count - 1) as nat) + external_round_values(
            input,
            count - 1,
        )
    }
}

/// The columns of the internal rounds `0..count`, one round after the other.
pub open spec fn internal_rounds_values(input: Seq<u32>, count: nat) -> Seq<u32>
    decreases count,
{
    if count == 0 {
        Seq::empty()
    } else {
        internal_rounds_values(input, (count - 1) as nat) + internal_round_values(
            input,
            count - 1,
        )
    }
}

/// The row of the trace that records the permutation of `input`.
pub open spec fn row_values(input: Seq<u32>) -> Seq<u32> {
    input + permute_spec(input) + external_rounds_values(input, NUM_EXTERNAL_ROUNDS as nat)
        + internal_rounds_values(input, NUM_INTERNAL_ROUNDS as nat)
}

impl Poseidon2WideExternalRoundCols<u32> {
    /// The columns hold external round `round` of the permutation of
    /// `input`.
    pub open spec fn records(self, input: Seq<u32>, round: int) -> bool {
        &&& self.state@ == external_round_state(input, round)
        &&& self.sbox_deg_3@ == full_round_deg_3(self.state@, round)
        &&& self.sbox_deg_7@ == full_round_deg_7(self.state@, round)
    }

    /// Every column of the round is a reduced field element.
    pub open spec fn is_reduced(self) -> bool {
        &&& all_reduced(self.state@)
        &&& all_reduced(self.sbox_deg_3@)
        &&& all_reduced(self.sbox_deg_7@)
    }
}

impl Poseidon2WideInternalRoundCols<u32> {
    /// The columns hold internal round `round` of the permutation of
    /// `input`.
    pub open spec fn records(self, input: Seq<u32>, round: int) -> bool {
        &&& self.state@ == internal_round_state(input, round)
        &&& self.sbox_deg_3 == sbox_deg_3(self.state[0], round_constant(round, 0))
        &&& self.sbox_deg_7 == sbox_deg_7(self.state[0], round_constant(round, 0))
    }

    /// Every column of the round is a reduced field element.
    pub open spec fn is_reduced(self) -> bool {
        &&& all_reduced(self.state@)
        &&& is_reduced(self.sbox_deg_3)
        &&& is_reduced(self.sbox_deg_7)
    }
}

impl Poseidon2WideCols<u32> {
    /// The row is the record of the permutation of `input`: every column
    /// holds the value that the round schedule gives it.
    pub open spec fn is_row_of(self, input: Seq<u32>) -> bool {
        &&& self.input@ == input
        &&& self.output@ == permute_spec(input)
        &&& forall|r: int|
            0 <= r < NUM_EXTERNAL_ROUNDS ==> (#[trigger] self.external_rounds[r]).records(input, r)
        &&& forall|r: int|
            0 <= r < NUM_INTERNAL_ROUNDS ==> (#[trigger] self.internal_rounds[r]).records(input, r)
    }

    /// Every column of the row is a reduced field element.
    pub open spec fn is_reduced(self) -> bool {
        &&& all_reduced(self.input@)
        &&& all_reduced(self.output@)
        &&& forall|r: int|
            0 <= r < NUM_EXTERNAL_ROUNDS ==> (#[trigger] self.external_rounds[r]).is_reduced()
        &&& forall|r: int|
            0 <= r < NUM_INTERNAL_ROUNDS ==> (#[trigger] self.internal_rounds[r]).is_reduced()
    }

    /// Every column of the row is zero.
    pub open spec fn is_zero(self) -> bool {
        self.flatten() == zeros(NUM_POSEIDON2_WIDE_COLS as nat)
    }

    /// A row built from zero lanes alone is zero in every column.
    pub proof fn lemma_zero_columns(self)
        requires
            self.input@ == zeros(WIDTH as nat),
            self.output@ == zeros(WIDTH as nat),
            forall|r: int|
                0 <= r < NUM_EXTERNAL_ROUNDS ==> (#[trigger] self.external_rounds[r]).flatten()
                    == zeros(3 * WIDTH as nat),
            forall|r: int|
                0 <= r < NUM_INTERNAL_ROUNDS ==> (#[trigger] self.internal_rounds[r]).flatten()
                    == zeros((WIDTH + 2) as nat),
        ensures
            self.is_zero(),
    {
        self.lemma_flatten_len();
        lemma_zero_external_rounds(self.external_rounds@);
        lemma_zero_internal_rounds(self.internal_rounds@);
        assert(self.flatten() =~= zeros(NUM_POSEIDON2_WIDE_COLS as nat));
    }

    /// The state column that external round `round` writes: the state of
    /// the first internal round after the first half, the output after the
    /// last round, and the state of the next external round otherwise.
    pub open spec fn state_after_external_round(self, round: int) -> [u32; WIDTH] {
        if round == NUM_EXTERNAL_ROUNDS as int / 2 - 1 {
            self.internal_rounds[0].state
        } else if round == NUM_EXTERNAL_ROUNDS as int - 1 {
            self.output
        } else {
            self.external_rounds[round + 1].state
        }
    }

    /// The state column that internal round `round` writes: the state of
    /// the first external round of the second half after the last internal
    /// round, and the state of the next internal round otherwise.
    pub open spec fn state_after_internal_round(self, round: int) -> [u32; WIDTH] {
        if round == NUM_INTERNAL_ROUNDS as int - 1 {
            self.external_rounds[NUM_EXTERNAL_ROUNDS as int / 2].state
        } else {
            self.internal_rounds[round + 1].state
        }
    }
}

/// External rounds that are zero in every column flatten to zeros.
pub proof fn lemma_zero_external_rounds(rounds: Seq<Poseidon2WideExternalRoundCols<u32>>)
    requires
        forall|r: int|
            0 <= r < rounds.len() ==> (#[trigger] rounds[r]).flatten() == zeros(3 * WIDTH as nat),
    ensures
        flatten_external_rounds(rounds) == zeros(rounds.len() * (3 * WIDTH as nat)),
    decreases rounds.len(),
{
    if rounds.len() > 0 {
        lemma_zero_external_rounds(rounds.drop_last());
        assert(flatten_external_rounds(rounds) =~= zeros(rounds.len() * (3 * WIDTH as nat)));
    } else {
        assert(flatten_external_rounds(rounds) =~= zeros(0));
    }
}

/// Internal rounds that are zero in every column flatten to zeros.
pub proof fn lemma_zero_internal_rounds(rounds: Seq<Poseidon2WideInternalRoundCols<u32>>)
    requires
        forall|r: int|
            0 <= r < rounds.len() ==> (#[trigger] rounds[r]).flatten() == zeros(
                (WIDTH + 2) as nat,
            ),
    ensures
        flatten_internal_rounds(rounds) == zeros(rounds.len() * ((WIDTH + 2) as nat)),
    decreases rounds.len(),
{
    if rounds.len() > 0 {
        lemma_zero_internal_rounds(rounds.drop_last());
        assert(flatten_internal_rounds(rounds) =~= zeros(rounds.len() * ((WIDTH + 2) as nat)));
    } else {
        assert(flatten_internal_rounds(rounds) =~= zeros(0));
    }
}

/// Two rows that record the permutation of the same input are the same row,
/// column by column.
pub proof fn lemma_row_is_determined(
    a: Poseidon2WideCols<u32>,
    b: Poseidon2WideCols<u32>,
    input: Seq<u32>,
)
    requires
        a.is_row_of(input),
        b.is_row_of(input),
    ensures
        a == b,
{
    assert(a.input =~= b.input);
    assert(a.output =~= b.output);
    assert forall|r: int| 0 <= r < NUM_EXTERNAL_ROUNDS implies a.external_rounds[r]
        == b.external_rounds[r] by {
        let x = a.external_rounds[r];
        let y = b.external_rounds[r];
        assert(x.records(input, r) && y.records(input, r));
        assert(x.state =~= y.state);
        assert(x.sbox_deg_3 =~= y.sbox_deg_3);
        assert(x.sbox_deg_7 =~= y.sbox_deg_7);
    }
    assert forall|r: int| 0 <= r < NUM_INTERNAL_ROUNDS implies a.internal_rounds[r]
        == b.internal_rounds[r] by {
        let x = a.internal_rounds[r];
        let y = b.internal_rounds[r];
        assert(x.records(input, r) && y.records(input, r));
        assert(x.state =~= y.state);
    }
    assert(a.external_rounds =~= b.external_rounds);
    assert(a.internal_rounds =~= b.internal_rounds);
}

/// In a row that records a permutation, the power columns of every round
/// are the third and the seventh power of the state column plus the round
/// constant: of every lane in an external round, of lane 0 in an internal
/// round.
pub proof fn lemma_sbox_columns(cols: Poseidon2WideCols<u32>, input: Seq<u32>)
    requires
        cols.is_row_of(input),
    ensures
        forall|r: int, j: int|
            0 <= r < NUM_EXTERNAL_ROUNDS && 0 <= j < WIDTH ==> {
                let x = add_mod(
                    cols.external_rounds[r].state[j] as int,
                    round_constant(r, j) as int,
                );
                &&& #[trigger] cols.external_rounds[r].sbox_deg_3[j] == pow_mod(x, 3)
                &&& cols.external_rounds[r].sbox_deg_7[j] == pow_mod(x, 7)
            },
        forall|r: int|
            0 <= r < NUM_INTERNAL_ROUNDS ==> {
                let x = add_mod(
                    cols.internal_rounds[r].state[0] as int,
                    round_constant(r, 0) as int,
                );
                &&& (#[trigger] cols.internal_rounds[r]).sbox_deg_3 == pow_mod(x, 3)
                &&& cols.internal_rounds[r].sbox_deg_7 == pow_mod(x, 7)
            },
{
    assert forall|r: int, j: int| 0 <= r < NUM_EXTERNAL_ROUNDS && 0 <= j < WIDTH implies {
        let x = add_mod(cols.external_rounds[r].state[j] as int, round_constant(r, j) as int);
        &&& #[trigger] cols.external_rounds[r].sbox_deg_3[j] == pow_mod(x, 3)
        &&& cols.external_rounds[r].sbox_deg_7[j] == pow_mod(x, 7)
    } by {
        let c = cols.external_rounds[r];
        assert(c.records(input, r));
        assert(c.sbox_deg_3[j] == full_round_deg_3(c.state@, r)[j]);
        assert(c.sbox_deg_7[j] == full_round_deg_7(c.state@, r)[j]);
        lemma_sbox_by_multiplication(c.state[j], round_constant(r, j));
    }
    assert forall|r: int| 0 <= r < NUM_INTERNAL_ROUNDS implies {
        let x = add_mod(cols.internal_rounds[r].state[0] as int, round_constant(r, 0) as int);
        &&& (#[trigger] cols.internal_rounds[r]).sbox_deg_3 == pow_mod(x, 3)
        &&& cols.internal_rounds[r].sbox_deg_7 == pow_mod(x, 7)
    } by {
        let c = cols.internal_rounds[r];
        assert(c.records(input, r));
        lemma_sbox_by_multiplication(c.state[0], round_constant(r, 0));
    }
}

proof fn lemma_external_rounds_values_len(input: Seq<u32>, count: nat)
    ensures
        external_rounds_values(input, count).len() == count * (3 * WIDTH),
    decreases count,
{
    if count > 0 {
        lemma_external_rounds_values_len(input, (count - 1) as nat);
        assert(external_round_state(input, count - 1).len() == WIDTH);
    }
}

proof fn lemma_internal_rounds_values_len(input: Seq<u32>, count: nat)
    ensures
        internal_rounds_values(input, count).len() == count * (WIDTH + 2),
    decreases count,
{
    if count > 0 {
        lemma_internal_rounds_values_len(input, (count - 1) as nat);
        assert(internal_round_state(input, count - 1).len() == WIDTH);
    }
}

/// A row is as wide as the column layout.
pub proof fn lemma_row_values_len(input: Seq<u32>)
    requires
        input.len() == WIDTH,
    ensures
        row_values(input).len() == NUM_POSEIDON2_WIDE_COLS,
{
    lemma_external_rounds_values_len(input, NUM_EXTERNAL_ROUNDS as nat);
    lemma_internal_rounds_values_len(input, NUM_INTERNAL_ROUNDS as nat);
}

proof fn lemma_external_rounds_flatten(cols: Poseidon2WideCols<u32>, input: Seq<u32>, count: nat)
    requires
        cols.is_row_of(input),
        count <= NUM_EXTERNAL_ROUNDS,
    ensures
        flatten_external_rounds(cols.external_rounds@.take(count as int))
            == external_rounds_values(input, count),
    decreases count,
{
    let rounds = cols.external_rounds@.take(count as int);
    if count > 0 {
        lemma_external_rounds_flatten(cols, input, (count - 1) as nat);
        assert(rounds.drop_last() =~= cols.external_rounds@.take(count - 1));
        assert(rounds.last() == cols.external_rounds[count - 1]);
        assert(cols.external_rounds[count - 1].records(input, count - 1));
    }
}

proof fn lemma_internal_rounds_flatten(cols: Poseidon2WideCols<u32>, input: Seq<u32>, count: nat)
    requires
        cols.is_row_of(input),
        count <= NUM_INTERNAL_ROUNDS,
    ensures
        flatten_internal_rounds(cols.internal_rounds@.take(count as int))
            == internal_rounds_values(input, count),
    decreases count,
{
    let rounds = cols.internal_rounds@.take(count as int);
    if count > 0 {
        lemma_internal_rounds_flatten(cols, input, (count - 1) as nat);
        assert(rounds.drop_last() =~= cols.internal_rounds@.take(count - 1));
        assert(rounds.last() == cols.internal_rounds[count - 1]);
        assert(cols.internal_rounds[count - 1].records(input, count - 1));
    }
}

/// A row that records the permutation of `input` is, column after column,
/// the row of the trace for `input`.
pub proof fn lemma_row_flatten(cols: Poseidon2WideCols<u32>, input: Seq<u32>)
    requires
        cols.is_row_of(input),
    ensures
        cols.flatten() == row_values(input),
{
    lemma_external_rounds_flatten(cols, input, NUM_EXTERNAL_ROUNDS as nat);
    lemma_internal_rounds_flatten(cols, input, NUM_INTERNAL_ROUNDS as nat);
    assert(cols.external_rounds@.take(NUM_EXTERNAL_ROUNDS as int) =~= cols.external_rounds@);
    assert(cols.internal_rounds@.take(NUM_INTERNAL_ROUNDS as int) =~= cols.internal_rounds@);
}

/// Among the columns of the external rounds `0..count`, those of round `r`
/// are the stretch that starts at `r * (3 * WIDTH)`.
proof fn lemma_external_round_values_at(input: Seq<u32>, count: nat, r: int)
    requires
        0 <= r < count,
    ensures
        external_rounds_values(input, count).subrange(r * (3 * WIDTH), (r + 1) * (3 * WIDTH))
            == external_round_values(input, r),
    decreases count,
{
    let stride = 3 * WIDTH as int;
    assert((count - 1) * stride + stride == count * stride) by (nonlinear_arith);
    assert((r + 1) * stride == r * stride + stride) by (nonlinear_arith);
    assert((r + 1) * stride <= count * stride && 0 <= r * stride) by (nonlinear_arith)
        requires
            0 <= r < count,
            stride >= 0,
    ;
    lemma_external_rounds_values_len(input, count);
    lemma_external_rounds_values_len(input, (count - 1) as nat);
    assert(external_round_state(input, count - 1).len() == WIDTH);
    assert(external_round_state(input, r).len() == WIDTH);
    let block = external_rounds_values(input, count).subrange(r * stride, (r + 1) * stride);
    if r == count - 1 {
        assert(block =~= external_round_values(input, r));
    } else {
        lemma_external_round_values_at(input, (count - 1) as nat, r);
        assert((r + 1) * stride <= (count - 1) * stride) by (nonlinear_arith)
            requires
                r + 1 <= count - 1,
                stride >= 0,
        ;
        assert(block =~= external_rounds_values(input, (count - 1) as nat).subrange(
            r * stride,
            (r + 1) * stride,
        ));
    }
}

/// Among the columns of the internal rounds `0..count`, those of round `r`
/// are the stretch that starts at `r * (WIDTH + 2)`.
proof fn lemma_internal_round_values_at(input: Seq<u32>, count: nat, r: int)
    requires
        0 <= r < count,
    ensures
        internal_rounds_values(input, count).subrange(r * (WIDTH + 2), (r + 1) * (WIDTH + 2))
            == internal_round_values(input, r),
    decreases count,
{
    let stride = (WIDTH + 2) as int;
    assert((count - 1) * stride + stride == count * stride) by (nonlinear_arith);
    assert((r + 1) * stride == r * stride + stride) by (nonlinear_arith);
    assert((r + 1) * stride <= count * stride && 0 <= r * stride) by (nonlinear_arith)
        requires
            0 <= r < count,
            stride >= 0,
    ;
    lemma_internal_rounds_values_len(input, count);
    lemma_internal_rounds_values_len(input, (count - 1) as nat);
    assert(internal_round_state(input, count - 1).len() == WIDTH);
    assert(internal_round_state(input, r).len() == WIDTH);
    let block = internal_rounds_values(input, count).subrange(r * stride, (r + 1) * stride);
    if r == count - 1 {
        assert(block =~= internal_round_values(input, r));
    } else {
        lemma_internal_round_values_at(input, (count - 1) as nat, r);
        assert((r + 1) * stride <= (count - 1) * stride) by (nonlinear_arith)
            requires
                r + 1 <= count - 1,
                stride >= 0,
        ;
        assert(block =~= internal_rounds_values(input, (count - 1) as nat).subrange(
            r * stride,
            (r + 1) * stride,
        ));
    }
}

/// Columns whose flat row is the row of the trace for `input` record the
/// permutation of `input`: what is read back from a row of an event
/// satisfies the constraints.
pub proof fn lemma_row_read_back(cols: Poseidon2WideCols<u32>, input: Seq<u32>)
    requires
        input.len() == WIDTH,
        cols.flatten() == row_values(input),
    ensures
        cols.is_row_of(input),
        cols.satisfies_constraints(),
{
    let row = row_values(input);
    let external = external_rounds_values(input, NUM_EXTERNAL_ROUNDS as nat);
    let internal = internal_rounds_values(input, NUM_INTERNAL_ROUNDS as nat);
    cols.lemma_flatten_parts();
    lemma_external_rounds_values_len(input, NUM_EXTERNAL_ROUNDS as nat);
    lemma_internal_rounds_values_len(input, NUM_INTERNAL_ROUNDS as nat);
    assert(row.subrange(0, WIDTH as int) =~= input);
    assert(row.subrange(WIDTH as int, 2 * WIDTH) =~= permute_spec(input));
    assert(row.subrange(2 * WIDTH, 2 * WIDTH + NUM_EXTERNAL_ROUNDS * (3 * WIDTH)) =~= external);
    assert(row.subrange(
        2 * WIDTH + NUM_EXTERNAL_ROUNDS * (3 * WIDTH),
        NUM_POSEIDON2_WIDE_COLS as int,
    ) =~= internal);
    assert forall|r: int| 0 <= r < NUM_EXTERNAL_ROUNDS implies (
    #[trigger] cols.external_rounds[r]).records(input, r) by {
        let c = cols.external_rounds[r];
        let state = external_round_state(input, r);
        lemma_flatten_external_round_at(cols.external_rounds@, r);
        lemma_external_round_values_at(input, NUM_EXTERNAL_ROUNDS as nat, r);
        assert(c.flatten() == external_round_values(input, r));
        assert(c.flatten().subrange(0, WIDTH as int) =~= c.state@);
        assert(external_round_values(input, r).subrange(0, WIDTH as int) =~= state);
        assert(c.flatten().subrange(WIDTH as int, 2 * WIDTH) =~= c.sbox_deg_3@);
        assert(external_round_values(input, r).subrange(WIDTH as int, 2 * WIDTH)
            =~= full_round_deg_3(state, r));
        assert(c.flatten().subrange(2 * WIDTH, 3 * WIDTH) =~= c.sbox_deg_7@);
        assert(external_round_values(input, r).subrange(2 * WIDTH, 3 * WIDTH)
            =~= full_round_deg_7(state, r));
    }
    assert forall|r: int| 0 <= r < NUM_INTERNAL_ROUNDS implies (
    #[trigger] cols.internal_rounds[r]).records(input, r) by {
        let c = cols.internal_rounds[r];
        let state = internal_round_state(input, r);
        lemma_flatten_internal_round_at(cols.internal_rounds@, r);
        lemma_internal_round_values_at(input, NUM_INTERNAL_ROUNDS as nat, r);
        assert(c.flatten() == internal_round_values(input, r));
        assert(c.flatten().subrange(0, WIDTH as int) =~= c.state@);
        assert(internal_round_values(input, r).subrange(0, WIDTH as int) =~= state);
        assert(c.flatten()[WIDTH as int] == c.sbox_deg_3);
        assert(c.flatten()[WIDTH + 1] == c.sbox_deg_7);
    }
    lemma_constraints_characterise_rows(cols);
}

proof fn lemma_reduced_external_rounds(cols: Poseidon2WideCols<u32>, count: nat)
    requires
        cols.is_reduced(),
        count <= NUM_EXTERNAL_ROUNDS,
    ensures
        all_reduced(flatten_external_rounds(cols.external_rounds@.take(count as int))),
    decreases count,
{
    let rounds = cols.external_rounds@.take(count as int);
    if count > 0 {
        lemma_reduced_external_rounds(cols, (count - 1) as nat);
        assert(rounds.drop_last() =~= cols.external_rounds@.take(count - 1));
        assert(rounds.last() == cols.external_rounds[count - 1]);
        assert(cols.external_rounds[count - 1].is_reduced());
    }
}

proof fn lemma_reduced_internal_rounds(cols: Poseidon2WideCols<u32>, count: nat)
    requires
        cols.is_reduced(),
        count <= NUM_INTERNAL_ROUNDS,
    ensures
        all_reduced(flatten_internal_rounds(cols.internal_rounds@.take(count as int))),
    decreases count,
{
    let rounds = cols.internal_rounds@.take(count as int);
    if count > 0 {
        lemma_reduced_internal_rounds(cols, (count - 1) as nat);
        assert(rounds.drop_last() =~= cols.internal_rounds@.take(count - 1));
        assert(rounds.last() == cols.internal_rounds[count - 1]);
        assert(cols.internal_rounds[count - 1].is_reduced());
    }
}

/// The columns of a reduced row are reduced field elements.
pub proof fn lemma_reduced_row(cols: Poseidon2WideCols<u32>)
    requires
        cols.is_reduced(),
    ensures
        all_reduced(cols.flatten()),
{
    lemma_reduced_external_rounds(cols, NUM_EXTERNAL_ROUNDS as nat);
    lemma_reduced_internal_rounds(cols, NUM_INTERNAL_ROUNDS as nat);
    assert(cols.external_rounds@.take(NUM_EXTERNAL_ROUNDS as int) =~= cols.external_rounds@);
    assert(cols.internal_rounds@.take(NUM_INTERNAL_ROUNDS as int) =~= cols.internal_rounds@);
}

} // verus!
