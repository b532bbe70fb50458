//! The trace: the rows of all events in order, padded with zero rows to a
//! power-of-two height.

use crate::chip::Poseidon2WideChip;
use crate::columns::NUM_POSEIDON2_WIDE_COLS;
use crate::columns::Poseidon2WideCols;
use crate::field::all_reduced;
use crate::record::Poseidon2Event;
use crate::row::lemma_reduced_row;
use crate::row::lemma_row_flatten;
use crate::row::lemma_row_read_back;
use crate::row::lemma_row_values_len;
use crate::row::row_values;
use crate::row::zeros;
use vstd::arithmetic::power2::is_pow2;
use vstd::prelude::*;

verus! {

/// The rows of `events`, in order and without padding.
pub open spec fn trace_rows(events: Seq<Poseidon2Event>) -> Seq<u32>
    decreases events.len(),
{
    if events.len() == 0 {
        Seq::empty()
    } else {
        trace_rows(events.drop_last()) + row_values(events.last().input@)
    }
}

/// The least power of two that is at least `n`; it is 1 for `n == 0`.
pub open spec fn next_power_of_two(n: nat) -> nat
    decreases n,
{
    if n <= 1 {
        1
    } else {
        2 * next_power_of_two((n + 1) / 2)
    }
}

/// The trace of `events`: their rows, followed by zero rows up to the next
/// power of two.
pub open spec fn trace_values(events: Seq<Poseidon2Event>) -> Seq<u32> {
    trace_rows(events) + zeros(
        ((next_power_of_two(events.len()) - events.len()) * NUM_POSEIDON2_WIDE_COLS) as nat,
    )
}

/// `next_power_of_two(n)` is a power of two, is at least `n`, and is less
/// than twice `n` unless `n` is zero.
pub proof fn lemma_next_power_of_two(n: nat)
    ensures
        is_pow2(next_power_of_two(n) as int),
        n <= next_power_of_two(n),
        n >= 1 ==> next_power_of_two(n) < 2 * n,
    decreases n,
{
    reveal(is_pow2);
    if n > 1 {
        lemma_next_power_of_two((n + 1) / 2);
    }
}

/// No power of two lies between `n` and `next_power_of_two(n)`.
pub proof fn lemma_next_power_of_two_is_least(n: nat, p: nat)
    requires
        is_pow2(p as int),
        n <= p,
    ensures
        next_power_of_two(n) <= p,
    decreases n,
{
    reveal(is_pow2);
    if n > 1 {
        lemma_next_power_of_two_is_least((n + 1) / 2, p / 2);
    }
}

/// The rows of `n` events take `n` times the row width.
pub proof fn lemma_trace_rows_len(events: Seq<Poseidon2Event>)
    ensures
        trace_rows(events).len() == events.len() * NUM_POSEIDON2_WIDE_COLS,
    decreases events.len(),
{
    assert(NUM_POSEIDON2_WIDE_COLS == 812);
    if events.len() > 0 {
        lemma_trace_rows_len(events.drop_last());
        lemma_row_values_len(events.last().input@);
    }
}

/// The rows of a sequence of events followed by another are the rows of
/// the first followed by the rows of the second.
pub proof fn lemma_trace_rows_concat(a: Seq<Poseidon2Event>, b: Seq<Poseidon2Event>)
    ensures
        trace_rows(a + b) == trace_rows(a) + trace_rows(b),
    decreases b.len(),
{
    if b.len() == 0 {
        assert(a + b =~= a);
        assert(trace_rows(a) + trace_rows(b) =~= trace_rows(a));
    } else {
        lemma_trace_rows_concat(a, b.drop_last());
        assert((a + b).drop_last() =~= a + b.drop_last());
        assert((a + b).last() == b.last());
        assert(trace_rows(a + b) =~= trace_rows(a) + trace_rows(b));
    }
}

/// The trace of `events` has the height `next_power_of_two(events.len())`,
/// and every row from index `events.len()` on is zero in every column.
pub proof fn lemma_trace_values_shape(events: Seq<Poseidon2Event>)
    ensures
        trace_values(events).len() == next_power_of_two(events.len()) * NUM_POSEIDON2_WIDE_COLS,
        trace_values(events).subrange(0, events.len() * NUM_POSEIDON2_WIDE_COLS) == trace_rows(
            events,
        ),
        forall|k: int|
            events.len() * NUM_POSEIDON2_WIDE_COLS <= k < trace_values(events).len()
                ==> #[trigger] trace_values(events)[k] == 0,
{
    assert(NUM_POSEIDON2_WIDE_COLS == 812);
    lemma_trace_rows_len(events);
    lemma_next_power_of_two(events.len());
    assert(trace_values(events).subrange(0, events.len() * NUM_POSEIDON2_WIDE_COLS)
        =~= trace_rows(events));
}

/// Row `i` of the unpadded rows is the row of event `i`.
pub proof fn lemma_trace_rows_row(events: Seq<Poseidon2Event>, i: int)
    requires
        0 <= i < events.len(),
    ensures
        (i + 1) * NUM_POSEIDON2_WIDE_COLS <= trace_rows(events).len(),
        trace_rows(events).subrange(
            i * NUM_POSEIDON2_WIDE_COLS,
            (i + 1) * NUM_POSEIDON2_WIDE_COLS,
        ) == row_values(events[i].input@),
    decreases events.len(),
{
    assert(NUM_POSEIDON2_WIDE_COLS == 812);
    let head = events.drop_last();
    lemma_trace_rows_len(events);
    lemma_trace_rows_len(head);
    lemma_row_values_len(events.last().input@);
    let row = trace_rows(events).subrange(
        i * NUM_POSEIDON2_WIDE_COLS,
        (i + 1) * NUM_POSEIDON2_WIDE_COLS,
    );
    if i == events.len() - 1 {
        assert(row =~= row_values(events[i].input@));
    } else {
        lemma_trace_rows_row(head, i);
        assert(row =~= trace_rows(head).subrange(
            i * NUM_POSEIDON2_WIDE_COLS,
            (i + 1) * NUM_POSEIDON2_WIDE_COLS,
        ));
    }
}

/// Row `i` of the trace is the row of event `i`: padding comes after the
/// rows of all events and moves none of them.
pub proof fn lemma_trace_values_row(events: Seq<Poseidon2Event>, i: int)
    requires
        0 <= i < events.len(),
    ensures
        (i + 1) * NUM_POSEIDON2_WIDE_COLS <= trace_values(events).len(),
        trace_values(events).subrange(
            i * NUM_POSEIDON2_WIDE_COLS,
            (i + 1) * NUM_POSEIDON2_WIDE_COLS,
        ) == row_values(events[i].input@),
{
    assert(NUM_POSEIDON2_WIDE_COLS == 812);
    lemma_trace_rows_row(events, i);
    lemma_trace_values_shape(events);
    assert(trace_values(events).subrange(
        i * NUM_POSEIDON2_WIDE_COLS,
        (i + 1) * NUM_POSEIDON2_WIDE_COLS,
    ) =~= trace_rows(events).subrange(
        i * NUM_POSEIDON2_WIDE_COLS,
        (i + 1) * NUM_POSEIDON2_WIDE_COLS,
    ));
}

/// The columns read back from row `i` of the trace record the permutation
/// of event `i` and satisfy the constraints.
pub proof fn lemma_trace_row_read_back(
    events: Seq<Poseidon2Event>,
    i: int,
    cols: Poseidon2WideCols<u32>,
)
    requires
        0 <= i < events.len(),
        cols.flatten() == trace_values(events).subrange(
            i * NUM_POSEIDON2_WIDE_COLS,
            (i + 1) * NUM_POSEIDON2_WIDE_COLS,
        ),
    ensures
        cols.is_row_of(events[i].input@),
        cols.satisfies_constraints(),
{
    lemma_trace_values_row(events, i);
    lemma_row_read_back(cols, events[i].input@);
}

/// Computes the least power of two that is at least `n`.
pub fn padded_height(n: usize) -> (height: usize)
    requires
        next_power_of_two(n as nat) <= usize::MAX,
    ensures
        height == next_power_of_two(n as nat),
{
    let mut rest: usize = n;
    let mut height: usize = 1;
    while rest > 1
        invariant
            height >= 1,
            next_power_of_two(n as nat) == height * next_power_of_two(rest as nat),
            next_power_of_two(n as nat) <= usize::MAX,
        decreases rest,
    {
        proof {
            let half = next_power_of_two(((rest + 1) / 2) as nat);
            lemma_next_power_of_two(((rest + 1) / 2) as nat);
            assert(height * (2 * half) == (height * 2) * half) by (nonlinear_arith);
            assert(height * 2 <= (height * 2) * half) by (nonlinear_arith)
                requires
                    half >= 1,
                    height >= 1,
            ;
        }
        rest = rest - rest / 2;
        height = height * 2;
    }
    assert(height * 1 == height);
    height
}

/// Pads `values`, which holds whole rows of `N` values each, with zeros up
/// to the next power of two of rows. Nothing is added where the number of
/// rows is a power of two already; no rows become one zero row.
pub fn pad_to_power_of_two<const N: usize>(values: &mut Vec<u32>)
    requires
        N > 0,
        old(values).len() % N == 0,
        next_power_of_two((old(values).len() / N) as nat) * N <= usize::MAX,
    ensures
        final(values)@ == old(values)@ + zeros(
            (next_power_of_two((old(values).len() / N) as nat) * N - old(values).len()) as nat,
        ),
{
    let ghost before = values@;
    let n_real_rows = values.len() / N;
    proof {
        let h = next_power_of_two(n_real_rows as nat);
        lemma_next_power_of_two(n_real_rows as nat);
        assert(h <= h * N) by (nonlinear_arith)
            requires
                N >= 1,
                h >= 0,
        ;
        assert(n_real_rows * N <= h * N) by (nonlinear_arith)
            requires
                n_real_rows <= h,
        ;
        assert(before.len() == n_real_rows * N) by {
            vstd::arithmetic::div_mod::lemma_fundamental_div_mod(before.len() as int, N as int);
            assert(N * n_real_rows == n_real_rows * N) by (nonlinear_arith);
        }
    }
    let height = padded_height(n_real_rows);
    values.resize(height * N, 0);
    assert(values@ =~= before + zeros((height * N - before.len()) as nat));
}

/// Appends the rows of `events` to `values`, in order.
pub(crate) fn append_rows(values: &mut Vec<u32>, events: &[Poseidon2Event])
    ensures
        final(values)@ == old(values)@ + trace_rows(events@),
        all_reduced(old(values)@) && (forall|i: int|
            0 <= i < events.len() ==> all_reduced(#[trigger] events[i].input@)) ==> all_reduced(
            final(values)@,
        ),
{
    let ghost before = values@;
    for i in 0..events.len()
        invariant
            values@ == before + trace_rows(events@.take(i as int)),
            all_reduced(before) && (forall|k: int|
                0 <= k < events.len() ==> all_reduced(#[trigger] events[k].input@))
                ==> all_reduced(values@),
    {
        let cols = Poseidon2WideChip::generate_row(&events[i]);
        let ghost sofar = values@;
        cols.append_to(values);
        proof {
            lemma_row_flatten(cols, events[i as int].input@);
            assert(events@.take(i + 1).drop_last() =~= events@.take(i as int));
            assert(events@.take(i + 1).last() == events[i as int]);
            assert(values@ =~= before + trace_rows(events@.take(i + 1)));
            if all_reduced(before) && (forall|k: int|
                0 <= k < events.len() ==> all_reduced(#[trigger] events[k].input@)) {
                lemma_reduced_row(cols);
            }
        }
    }
    assert(events@.take(events.len() as int) =~= events@);
}

/// Builds the rows of `events`, in order and without padding.
pub fn generate_rows(events: &[Poseidon2Event]) -> (values: Vec<u32>)
    ensures
        values@ == trace_rows(events@),
        values.len() == events.len() * NUM_POSEIDON2_WIDE_COLS,
        (forall|i: int| 0 <= i < events.len() ==> all_reduced(#[trigger] events[i].input@))
            ==> all_reduced(values@),
{
    let mut values = Vec::new();
    append_rows(&mut values, events);
    proof {
        lemma_trace_rows_len(events@);
        assert(values@ =~= trace_rows(events@));
    }
    values
}

} // verus!
