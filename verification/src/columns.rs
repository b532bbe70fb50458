//! The column layout of one trace row.
//!
//! A row records one permutation: its input and output, and for every round
//! the state the round starts from together with the two powers that make up
//! the S-box. In the trace matrix a row is the flat sequence of these columns,
//! in the order of the fields below.

use crate::constants::NUM_EXTERNAL_ROUNDS;
use crate::constants::NUM_INTERNAL_ROUNDS;
use crate::constants::WIDTH;
use vstd::prelude::*;

verus! {

/// The number of columns of a row.
pub const NUM_POSEIDON2_WIDE_COLS: usize = 2 * WIDTH + NUM_EXTERNAL_ROUNDS * (3 * WIDTH)
    + NUM_INTERNAL_ROUNDS * (WIDTH + 2);

/// The columns of one external round: the S-box acts on every lane.
#[derive(Clone, Copy)]
pub struct Poseidon2WideExternalRoundCols<T> {
    pub state: [T; WIDTH],
    pub sbox_deg_3: [T; WIDTH],
    pub sbox_deg_7: [T; WIDTH],
}

/// The columns of one internal round: the S-box acts on lane 0 alone.
#[derive(Clone, Copy)]
pub struct Poseidon2WideInternalRoundCols<T> {
    pub state: [T; WIDTH],
    pub sbox_deg_3: T,
    pub sbox_deg_7: T,
}

/// All columns of a row: the input and the output of the permutation, and
/// the columns of every round.
#[derive(Clone, Copy)]
pub struct Poseidon2WideCols<T> {
    pub input: [T; WIDTH],
    pub output: [T; WIDTH],
    pub external_rounds: [Poseidon2WideExternalRoundCols<T>; NUM_EXTERNAL_ROUNDS],
    pub internal_rounds: [Poseidon2WideInternalRoundCols<T>; NUM_INTERNAL_ROUNDS],
}

impl<T> Poseidon2WideExternalRoundCols<T> {
    /// The columns of the round in layout order.
    pub open spec fn flatten(self) -> Seq<T> {
        self.state@ + self.sbox_deg_3@ + self.sbox_deg_7@
    }
}

impl<T> Poseidon2WideInternalRoundCols<T> {
    /// The columns of the round in layout order.
    pub open spec fn flatten(self) -> Seq<T> {
        self.state@.push(self.sbox_deg_3).push(self.sbox_deg_7)
    }
}

/// The columns of a run of external rounds, one round after the other.
pub open spec fn flatten_external_rounds<T>(
    rounds: Seq<Poseidon2WideExternalRoundCols<T>>,
) -> Seq<T>
    decreases rounds.len(),
{
    if rounds.len() == 0 {
        Seq::empty()
    } else {
        flatten_external_rounds(rounds.drop_last()) + rounds.last().flatten()
    }
}

/// The columns of a run of internal rounds, one round after the other.
pub open spec fn flatten_internal_rounds<T>(
    rounds: Seq<Poseidon2WideInternalRoundCols<T>>,
) -> Seq<T>
    decreases rounds.len(),
{
    if rounds.len() == 0 {
        Seq::empty()
    } else {
        flatten_internal_rounds(rounds.drop_last()) + rounds.last().flatten()
    }
}

/// A run of `n` external rounds takes `3 * WIDTH` columns for each round.
pub proof fn lemma_flatten_external_rounds_len<T>(rounds: Seq<Poseidon2WideExternalRoundCols<T>>)
    ensures
        flatten_external_rounds(rounds).len() == rounds.len() * (3 * WIDTH),
    decreases rounds.len(),
{
    if rounds.len() > 0 {
        lemma_flatten_external_rounds_len(rounds.drop_last());
    }
}

/// A run of `n` internal rounds takes `WIDTH + 2` columns for each round.
pub proof fn lemma_flatten_internal_rounds_len<T>(rounds: Seq<Poseidon2WideInternalRoundCols<T>>)
    ensures
        flatten_internal_rounds(rounds).len() == rounds.len() * (WIDTH + 2),
    decreases rounds.len(),
{
    if rounds.len() > 0 {
        lemma_flatten_internal_rounds_len(rounds.drop_last());
    }
}

/// In a run of external rounds, the columns of round `r` are the stretch of
/// `3 * WIDTH` columns that starts at `r * (3 * WIDTH)`.
pub proof fn lemma_flatten_external_round_at<T>(
    rounds: Seq<Poseidon2WideExternalRoundCols<T>>,
    r: int,
)
    requires
        0 <= r < rounds.len(),
    ensures
        (r + 1) * (3 * WIDTH) <= flatten_external_rounds(rounds).len(),
        flatten_external_rounds(rounds).subrange(r * (3 * WIDTH), (r + 1) * (3 * WIDTH))
            == rounds[r].flatten(),
    decreases rounds.len(),
{
    let head = rounds.drop_last();
    let stride = 3 * WIDTH as int;
    lemma_flatten_external_rounds_len(rounds);
    lemma_flatten_external_rounds_len(head);
    assert(head.len() * stride + stride == rounds.len() * stride) by (nonlinear_arith)
        requires
            head.len() + 1 == rounds.len(),
    ;
    assert((r + 1) * stride == r * stride + stride) by (nonlinear_arith);
    assert((r + 1) * stride <= rounds.len() * stride && 0 <= r * stride) by (nonlinear_arith)
        requires
            0 <= r < rounds.len(),
            stride >= 0,
    ;
    let block = flatten_external_rounds(rounds).subrange(r * stride, (r + 1) * stride);
    if r == rounds.len() - 1 {
        assert(block =~= rounds[r].flatten());
    } else {
        lemma_flatten_external_round_at(head, r);
        assert(block =~= flatten_external_rounds(head).subrange(r * stride, (r + 1) * stride));
    }
}

/// In a run of internal rounds, the columns of round `r` are the stretch of
/// `WIDTH + 2` columns that starts at `r * (WIDTH + 2)`.
pub proof fn lemma_flatten_internal_round_at<T>(
    rounds: Seq<Poseidon2WideInternalRoundCols<T>>,
    r: int,
)
    requires
        0 <= r < rounds.len(),
    ensures
        (r + 1) * (WIDTH + 2) <= flatten_internal_rounds(rounds).len(),
        flatten_internal_rounds(rounds).subrange(r * (WIDTH + 2), (r + 1) * (WIDTH + 2))
            == rounds[r].flatten(),
    decreases rounds.len(),
{
    let head = rounds.drop_last();
    let stride = (WIDTH + 2) as int;
    lemma_flatten_internal_rounds_len(rounds);
    lemma_flatten_internal_rounds_len(head);
    assert(head.len() * stride + stride == rounds.len() * stride) by (nonlinear_arith)
        requires
            head.len() + 1 == rounds.len(),
    ;
    assert((r + 1) * stride == r * stride + stride) by (nonlinear_arith);
    assert((r + 1) * stride <= rounds.len() * stride && 0 <= r * stride) by (nonlinear_arith)
        requires
            0 <= r < rounds.len(),
            stride >= 0,
    ;
    let block = flatten_internal_rounds(rounds).subrange(r * stride, (r + 1) * stride);
    if r == rounds.len() - 1 {
        assert(block =~= rounds[r].flatten());
    } else {
        lemma_flatten_internal_round_at(head, r);
        assert(block =~= flatten_internal_rounds(head).subrange(r * stride, (r + 1) * stride));
    }
}

impl<T> Poseidon2WideCols<T> {
    /// The row as it stands in the trace matrix: all columns in layout order.
    pub open spec fn flatten(self) -> Seq<T> {
        self.input@ + self.output@ + flatten_external_rounds(self.external_rounds@)
            + flatten_internal_rounds(self.internal_rounds@)
    }

    /// Every row has the same number of columns.
    pub proof fn lemma_flatten_len(self)
        ensures
            self.flatten().len() == NUM_POSEIDON2_WIDE_COLS,
    {
        lemma_flatten_external_rounds_len(self.external_rounds@);
        lemma_flatten_internal_rounds_len(self.internal_rounds@);
    }

    /// Where each group of columns lies in the row: the input, the output,
    /// the external rounds and the internal rounds, in this order.
    pub proof fn lemma_flatten_parts(self)
        ensures
            self.flatten().len() == NUM_POSEIDON2_WIDE_COLS,
            self.flatten().subrange(0, WIDTH as int) == self.input@,
            self.flatten().subrange(WIDTH as int, 2 * WIDTH) == self.output@,
            self.flatten().subrange(2 * WIDTH, 2 * WIDTH + NUM_EXTERNAL_ROUNDS * (3 * WIDTH))
                == flatten_external_rounds(self.external_rounds@),
            self.flatten().subrange(
                2 * WIDTH + NUM_EXTERNAL_ROUNDS * (3 * WIDTH),
                NUM_POSEIDON2_WIDE_COLS as int,
            ) == flatten_internal_rounds(self.internal_rounds@),
    {
        let flat = self.flatten();
        self.lemma_flatten_len();
        lemma_flatten_external_rounds_len(self.external_rounds@);
        lemma_flatten_internal_rounds_len(self.internal_rounds@);
        assert(flat.subrange(0, WIDTH as int) =~= self.input@);
        assert(flat.subrange(WIDTH as int, 2 * WIDTH) =~= self.output@);
        assert(flat.subrange(2 * WIDTH, 2 * WIDTH + NUM_EXTERNAL_ROUNDS * (3 * WIDTH))
            =~= flatten_external_rounds(self.external_rounds@));
        assert(flat.subrange(
            2 * WIDTH + NUM_EXTERNAL_ROUNDS * (3 * WIDTH),
            NUM_POSEIDON2_WIDE_COLS as int,
        ) =~= flatten_internal_rounds(self.internal_rounds@));
    }

    /// The row in the matrix determines every column: two layouts with the
    /// same flat row are the same.
    pub proof fn lemma_flatten_injective(self, other: Self)
        requires
            self.flatten() == other.flatten(),
        ensures
            self == other,
    {
        self.lemma_flatten_parts();
        other.lemma_flatten_parts();
        assert(self.input =~= other.input);
        assert(self.output =~= other.output);
        assert forall|r: int| 0 <= r < NUM_EXTERNAL_ROUNDS implies self.external_rounds[r]
            == other.external_rounds[r] by {
            let a = self.external_rounds[r];
            let b = other.external_rounds[r];
            lemma_flatten_external_round_at(self.external_rounds@, r);
            lemma_flatten_external_round_at(other.external_rounds@, r);
            assert(a.flatten() == b.flatten());
            assert(a.flatten().subrange(0, WIDTH as int) =~= a.state@);
            assert(b.flatten().subrange(0, WIDTH as int) =~= b.state@);
            assert(a.flatten().subrange(WIDTH as int, 2 * WIDTH) =~= a.sbox_deg_3@);
            assert(b.flatten().subrange(WIDTH as int, 2 * WIDTH) =~= b.sbox_deg_3@);
            assert(a.flatten().subrange(2 * WIDTH, 3 * WIDTH) =~= a.sbox_deg_7@);
            assert(b.flatten().subrange(2 * WIDTH, 3 * WIDTH) =~= b.sbox_deg_7@);
            assert(a.state =~= b.state);
            assert(a.sbox_deg_3 =~= b.sbox_deg_3);
            assert(a.sbox_deg_7 =~= b.sbox_deg_7);
        }
        assert forall|r: int| 0 <= r < NUM_INTERNAL_ROUNDS implies self.internal_rounds[r]
            == other.internal_rounds[r] by {
            let a = self.internal_rounds[r];
            let b = other.internal_rounds[r];
            lemma_flatten_internal_round_at(self.internal_rounds@, r);
            lemma_flatten_internal_round_at(other.internal_rounds@, r);
            assert(a.flatten() == b.flatten());
            assert(a.flatten().subrange(0, WIDTH as int) =~= a.state@);
            assert(b.flatten().subrange(0, WIDTH as int) =~= b.state@);
            assert(a.flatten()[WIDTH as int] == a.sbox_deg_3);
            assert(b.flatten()[WIDTH as int] == b.sbox_deg_3);
            assert(a.flatten()[WIDTH + 1] == a.sbox_deg_7);
            assert(b.flatten()[WIDTH + 1] == b.sbox_deg_7);
            assert(a.state =~= b.state);
        }
        assert(self.external_rounds =~= other.external_rounds);
        assert(self.internal_rounds =~= other.internal_rounds);
    }
}

/// Appends the sixteen lanes of `lanes` to `values`.
fn push_lanes<T: Copy>(values: &mut Vec<T>, lanes: &[T; WIDTH])
    ensures
        final(values)@ == old(values)@ + lanes@,
{
    let ghost before = values@;
    for j in 0..WIDTH
        invariant
            values@ == before + lanes@.take(j as int),
    {
        values.push(lanes[j]);
        assert(lanes@.take(j + 1) == lanes@.take(j as int).push(lanes@[j as int]));
    }
    assert(lanes@.take(WIDTH as int) == lanes@);
}

impl<T: Copy> Poseidon2WideExternalRoundCols<T> {
    /// Appends the columns of the round to `values`, in layout order.
    pub fn append_to(&self, values: &mut Vec<T>)
        ensures
            final(values)@ == old(values)@ + self.flatten(),
    {
        push_lanes(values, &self.state);
        push_lanes(values, &self.sbox_deg_3);
        push_lanes(values, &self.sbox_deg_7);
    }
}

impl<T: Copy> Poseidon2WideInternalRoundCols<T> {
    /// Appends the columns of the round to `values`, in layout order.
    pub fn append_to(&self, values: &mut Vec<T>)
        ensures
            final(values)@ == old(values)@ + self.flatten(),
    {
        push_lanes(values, &self.state);
        values.push(self.sbox_deg_3);
        values.push(self.sbox_deg_7);
    }
}

impl<T: Copy> Poseidon2WideCols<T> {
    /// Appends the row to `values`, all columns in layout order.
    pub fn append_to(&self, values: &mut Vec<T>)
        ensures
            final(values)@ == old(values)@ + self.flatten(),
    {
        let ghost before = values@;
        push_lanes(values, &self.input);
        push_lanes(values, &self.output);
        let ghost head = before + self.input@ + self.output@;
        for r in 0..NUM_EXTERNAL_ROUNDS
            invariant
                values@ == head + flatten_external_rounds(self.external_rounds@.take(r as int)),
        {
            self.external_rounds[r].append_to(values);
            assert(self.external_rounds@.take(r + 1).drop_last() == self.external_rounds@.take(
                r as int,
            ));
        }
        assert(self.external_rounds@.take(NUM_EXTERNAL_ROUNDS as int) == self.external_rounds@);
        let ghost middle = head + flatten_external_rounds(self.external_rounds@);
        for r in 0..NUM_INTERNAL_ROUNDS
            invariant
                values@ == middle + flatten_internal_rounds(self.internal_rounds@.take(r as int)),
        {
            self.internal_rounds[r].append_to(values);
            assert(self.internal_rounds@.take(r + 1).drop_last() == self.internal_rounds@.take(
                r as int,
            ));
        }
        assert(self.internal_rounds@.take(NUM_INTERNAL_ROUNDS as int) == self.internal_rounds@);
    }
}

/// External rounds that each hold their stretch of `row` hold, one after
/// the other, the stretch of `row` that starts at `base`.
proof fn lemma_external_rounds_of_row<T>(
    rounds: Seq<Poseidon2WideExternalRoundCols<T>>,
    row: Seq<T>,
    base: int,
)
    requires
        0 <= base,
        base + rounds.len() * (3 * WIDTH) <= row.len(),
        forall|r: int|
            0 <= r < rounds.len() ==> (#[trigger] rounds[r]).flatten() == row.subrange(
                base + r * (3 * WIDTH),
                base + (r + 1) * (3 * WIDTH),
            ),
    ensures
        flatten_external_rounds(rounds) == row.subrange(base, base + rounds.len() * (3 * WIDTH)),
    decreases rounds.len(),
{
    if rounds.len() > 0 {
        let head = rounds.drop_last();
        let stride = 3 * WIDTH as int;
        assert(head.len() * stride + stride == rounds.len() * stride) by (nonlinear_arith)
            requires
                head.len() + 1 == rounds.len(),
        ;
        assert(0 <= head.len() * stride) by (nonlinear_arith)
            requires
                stride >= 0,
        ;
        assert forall|r: int| 0 <= r < head.len() implies (#[trigger] head[r]).flatten()
            == row.subrange(base + r * (3 * WIDTH), base + (r + 1) * (3 * WIDTH)) by {
            assert(head[r] == rounds[r]);
        }
        lemma_external_rounds_of_row(head, row, base);
        assert(rounds.last() == rounds[rounds.len() - 1]);
        assert(flatten_external_rounds(rounds) =~= row.subrange(
            base,
            base + rounds.len() * (3 * WIDTH),
        ));
    } else {
        assert(flatten_external_rounds(rounds) =~= row.subrange(base, base));
    }
}

/// Internal rounds that each hold their stretch of `row` hold, one after
/// the other, the stretch of `row` that starts at `base`.
proof fn lemma_internal_rounds_of_row<T>(
    rounds: Seq<Poseidon2WideInternalRoundCols<T>>,
    row: Seq<T>,
    base: int,
)
    requires
        0 <= base,
        base + rounds.len() * (WIDTH + 2) <= row.len(),
        forall|r: int|
            0 <= r < rounds.len() ==> (#[trigger] rounds[r]).flatten() == row.subrange(
                base + r * (WIDTH + 2),
                base + (r + 1) * (WIDTH + 2),
            ),
    ensures
        flatten_internal_rounds(rounds) == row.subrange(base, base + rounds.len() * (WIDTH + 2)),
    decreases rounds.len(),
{
    if rounds.len() > 0 {
        let head = rounds.drop_last();
        let stride = (WIDTH + 2) as int;
        assert(head.len() * stride + stride == rounds.len() * stride) by (nonlinear_arith)
            requires
                head.len() + 1 == rounds.len(),
        ;
        assert(0 <= head.len() * stride) by (nonlinear_arith)
            requires
                stride >= 0,
        ;
        assert forall|r: int| 0 <= r < head.len() implies (#[trigger] head[r]).flatten()
            == row.subrange(base + r * (WIDTH + 2), base + (r + 1) * (WIDTH + 2)) by {
            assert(head[r] == rounds[r]);
        }
        lemma_internal_rounds_of_row(head, row, base);
        assert(rounds.last() == rounds[rounds.len() - 1]);
        assert(flatten_internal_rounds(rounds) =~= row.subrange(
            base,
            base + rounds.len() * (WIDTH + 2),
        ));
    } else {
        assert(flatten_internal_rounds(rounds) =~= row.subrange(base, base));
    }
}

/// Reads the sixteen lanes of `row` that start at `offset`.
fn read_lanes<T: Copy>(row: &[T], offset: usize) -> (lanes: [T; WIDTH])
    requires
        offset + WIDTH <= row@.len(),
    ensures
        lanes@ == row@.subrange(offset as int, offset + WIDTH),
{
    let end = row.len();
    let mut lanes = [row[offset]; WIDTH];
    for j in 0..WIDTH
        invariant
            offset + WIDTH <= row@.len(),
            row@.len() == end,
            forall|i: int| 0 <= i < j ==> lanes[i] == row@[offset + i],
    {
        lanes[j] = row[offset + j];
    }
    assert(lanes@ =~= row@.subrange(offset as int, offset + WIDTH));
    lanes
}

impl<T: Copy> Poseidon2WideExternalRoundCols<T> {
    /// Reads the columns of one external round from `row`, starting at
    /// `offset`.
    pub fn from_row(row: &[T], offset: usize) -> (cols: Self)
        requires
            offset + 3 * WIDTH <= row@.len(),
        ensures
            cols.flatten() == row@.subrange(offset as int, offset + 3 * WIDTH),
    {
        let end = row.len();
        let cols = Poseidon2WideExternalRoundCols {
            state: read_lanes(row, offset),
            sbox_deg_3: read_lanes(row, offset + WIDTH),
            sbox_deg_7: read_lanes(row, offset + 2 * WIDTH),
        };
        assert(cols.flatten() =~= row@.subrange(offset as int, offset + 3 * WIDTH));
        cols
    }
}

impl<T: Copy> Poseidon2WideInternalRoundCols<T> {
    /// Reads the columns of one internal round from `row`, starting at
    /// `offset`.
    pub fn from_row(row: &[T], offset: usize) -> (cols: Self)
        requires
            offset + WIDTH + 2 <= row@.len(),
        ensures
            cols.flatten() == row@.subrange(offset as int, offset + WIDTH + 2),
    {
        let end = row.len();
        let cols = Poseidon2WideInternalRoundCols {
            state: read_lanes(row, offset),
            sbox_deg_3: row[offset + WIDTH],
            sbox_deg_7: row[offset + WIDTH + 1],
        };
        assert(cols.flatten() =~= row@.subrange(offset as int, offset + WIDTH + 2));
        cols
    }
}

impl<T: Copy> Poseidon2WideCols<T> {
    /// Reads a row of the trace matrix into its columns. The row must have
    /// the width of the layout.
    pub fn from_row(row: &[T]) -> (cols: Self)
        requires
            row@.len() == NUM_POSEIDON2_WIDE_COLS,
        ensures
            cols.flatten() == row@,
    {
        let external_base = 2 * WIDTH;
        let internal_base = external_base + NUM_EXTERNAL_ROUNDS * (3 * WIDTH);
        let input = read_lanes(row, 0);
        let output = read_lanes(row, WIDTH);
        let mut external_rounds = [Poseidon2WideExternalRoundCols::from_row(row, external_base);
            NUM_EXTERNAL_ROUNDS];
        for r in 1..NUM_EXTERNAL_ROUNDS
            invariant
                row@.len() == NUM_POSEIDON2_WIDE_COLS,
                external_base == 2 * WIDTH,
                forall|i: int|
                    0 <= i < r ==> (#[trigger] external_rounds[i]).flatten() == row@.subrange(
                        external_base + i * (3 * WIDTH),
                        external_base + (i + 1) * (3 * WIDTH),
                    ),
        {
            external_rounds[r] = Poseidon2WideExternalRoundCols::from_row(
                row,
                external_base + r * (3 * WIDTH),
            );
        }
        let mut internal_rounds = [Poseidon2WideInternalRoundCols::from_row(row, internal_base);
            NUM_INTERNAL_ROUNDS];
        for r in 1..NUM_INTERNAL_ROUNDS
            invariant
                row@.len() == NUM_POSEIDON2_WIDE_COLS,
                internal_base == 2 * WIDTH + NUM_EXTERNAL_ROUNDS * (3 * WIDTH),
                forall|i: int|
                    0 <= i < r ==> (#[trigger] internal_rounds[i]).flatten() == row@.subrange(
                        internal_base + i * (WIDTH + 2),
                        internal_base + (i + 1) * (WIDTH + 2),
                    ),
        {
            internal_rounds[r] = Poseidon2WideInternalRoundCols::from_row(
                row,
                internal_base + r * (WIDTH + 2),
            );
        }
        let cols = Poseidon2WideCols { input, output, external_rounds, internal_rounds };
        proof {
            lemma_external_rounds_of_row(external_rounds@, row@, external_base as int);
            lemma_internal_rounds_of_row(internal_rounds@, row@, internal_base as int);
            assert(cols.flatten() =~= row@);
        }
        cols
    }
}

} // verus!
