//! The chip: what the proving machine asks of it.

use crate::columns::NUM_POSEIDON2_WIDE_COLS;
use crate::field::all_reduced;
use crate::matrix::matrix_values;
use crate::matrix::matrix_width;
use crate::matrix::new_matrix;
use crate::record::ExecutionRecord;
use crate::trace::append_rows;
use crate::trace::lemma_trace_rows_len;
use crate::trace::lemma_trace_values_shape;
use crate::trace::next_power_of_two;
use crate::trace::pad_to_power_of_two;
use crate::trace::padded_height;
use crate::trace::trace_rows;
use crate::trace::trace_values;
use p3_matrix::dense::RowMajorMatrix;
use vstd::arithmetic::div_mod::lemma_div_multiples_vanish;
use vstd::arithmetic::div_mod::lemma_mod_multiples_basic;
use vstd::prelude::*;

verus! {

/// A chip that records every invocation of the wide Poseidon2 permutation
/// in one row.
#[derive(Default)]
pub struct Poseidon2WideChip;

impl Poseidon2WideChip {
    /// The name by which the machine knows the chip.
    pub fn name(&self) -> (name: String)
        ensures
            name@ == "Poseidon2Wide"@,
    {
        "Poseidon2Wide".to_owned()
    }

    /// The number of columns of the trace, the same for every record.
    pub fn width(&self) -> (width: usize)
        ensures
            width == NUM_POSEIDON2_WIDE_COLS,
    {
        NUM_POSEIDON2_WIDE_COLS
    }

    /// The chip takes part in a proof exactly when the record holds at
    /// least one event; with none it is left out.
    pub fn included(&self, record: &ExecutionRecord) -> (included: bool)
        ensures
            included == (record.poseidon2_events.len() > 0),
    {
        record.poseidon2_events.len() > 0
    }

    /// Builds the trace of the events of `input`: one row for each event, in
    /// order, then zero rows up to the next power of two. A record without
    /// events gives a single zero row. The record `output` is left as it
    /// is.
    pub fn generate_trace(&self, input: &ExecutionRecord, output: &mut ExecutionRecord) -> (trace:
        RowMajorMatrix<u32>)
        requires
            next_power_of_two(input.poseidon2_events.len() as nat) * NUM_POSEIDON2_WIDE_COLS
                <= usize::MAX,
        ensures
            matrix_width(trace) == NUM_POSEIDON2_WIDE_COLS,
            matrix_values(trace) == trace_values(input.poseidon2_events@),
            matrix_values(trace).len() == next_power_of_two(input.poseidon2_events.len() as nat)
                * NUM_POSEIDON2_WIDE_COLS,
            forall|k: int|
                input.poseidon2_events.len() * NUM_POSEIDON2_WIDE_COLS <= k < matrix_values(
                    trace,
                ).len() ==> #[trigger] matrix_values(trace)[k] == 0,
            (forall|i: int|
                0 <= i < input.poseidon2_events.len() ==> all_reduced(
                    #[trigger] input.poseidon2_events[i].input@,
                )) ==> all_reduced(matrix_values(trace)),
            *final(output) == *old(output),
    {
        let events = input.poseidon2_events.as_slice();
        proof {
            assert(NUM_POSEIDON2_WIDE_COLS == 812);
            lemma_trace_values_shape(events@);
        }
        let height = padded_height(events.len());
        let mut values = Vec::with_capacity(height * NUM_POSEIDON2_WIDE_COLS);
        append_rows(&mut values, events);
        proof {
            assert(values@ =~= trace_rows(events@));
            lemma_trace_rows_len(events@);
            lemma_mod_multiples_basic(events.len() as int, NUM_POSEIDON2_WIDE_COLS as int);
            lemma_div_multiples_vanish(events.len() as int, NUM_POSEIDON2_WIDE_COLS as int);
        }
        pad_to_power_of_two::<NUM_POSEIDON2_WIDE_COLS>(&mut values);
        proof {
            lemma_mod_multiples_basic(height as int, NUM_POSEIDON2_WIDE_COLS as int);
        }
        new_matrix(values, NUM_POSEIDON2_WIDE_COLS)
    }
}

} // verus!
