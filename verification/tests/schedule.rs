use poseidon2_wide::chip::Poseidon2WideChip;
use poseidon2_wide::columns::Poseidon2WideCols;
use poseidon2_wide::constants::NUM_EXTERNAL_ROUNDS;
use poseidon2_wide::constants::NUM_INTERNAL_ROUNDS;
use poseidon2_wide::constants::WIDTH;
use poseidon2_wide::field::ORDER;
use poseidon2_wide::linear::external_linear_layer;
use poseidon2_wide::linear::internal_linear_layer;
use poseidon2_wide::record::Poseidon2Event;
use poseidon2_wide::round::full_round;
use poseidon2_wide::round::partial_round;

fn flat(cols: &Poseidon2WideCols<u32>) -> Vec<u32> {
    let mut values = Vec::new();
    cols.append_to(&mut values);
    values
}

/// A row whose columns all differ, so that a write to a wrong place shows.
fn marked_row() -> Poseidon2WideCols<u32> {
    let values: Vec<u32> = (0..812u32).map(|k| 1000 + 7 * k).collect();
    Poseidon2WideCols::from_row(&values)
}

/// The columns that differ between two rows, as ranges of the flat row.
fn changed_columns(before: &Poseidon2WideCols<u32>, after: &Poseidon2WideCols<u32>) -> Vec<usize> {
    let a = flat(before);
    let b = flat(after);
    (0..812).filter(|&k| a[k] != b[k]).collect()
}

fn external_base(round: usize) -> usize {
    32 + 48 * round
}

fn internal_base(round: usize) -> usize {
    416 + 18 * round
}

#[test]
fn external_round_writes_its_powers_and_the_next_state() {
    for round in 0..NUM_EXTERNAL_ROUNDS {
        let before = marked_row();
        let mut after = before;
        Poseidon2WideChip::generate_external_round(&mut after, round);

        let state = before.external_rounds[round].state;
        let (deg_3, deg_7, mix_input) = full_round(&state, round);
        assert_eq!(after.external_rounds[round].state, state);
        assert_eq!(after.external_rounds[round].sbox_deg_3, deg_3);
        assert_eq!(after.external_rounds[round].sbox_deg_7, deg_7);
        let mixed = external_linear_layer(&mix_input);
        let target = if round == 3 {
            assert_eq!(after.internal_rounds[0].state, mixed);
            internal_base(0)
        } else if round == 7 {
            assert_eq!(after.output, mixed);
            16
        } else {
            assert_eq!(after.external_rounds[round + 1].state, mixed);
            external_base(round + 1)
        };

        for k in changed_columns(&before, &after) {
            let in_powers = (external_base(round) + 16..external_base(round) + 48).contains(&k);
            let in_target = (target..target + 16).contains(&k);
            assert!(in_powers || in_target);
        }
    }
}

#[test]
fn internal_round_writes_its_powers_and_the_next_state() {
    for round in 0..NUM_INTERNAL_ROUNDS {
        let before = marked_row();
        let mut after = before;
        Poseidon2WideChip::generate_internal_round(&mut after, round);

        let state = before.internal_rounds[round].state;
        let (deg_3, deg_7, mix_input) = partial_round(&state, round);
        assert_eq!(after.internal_rounds[round].state, state);
        assert_eq!(after.internal_rounds[round].sbox_deg_3, deg_3);
        assert_eq!(after.internal_rounds[round].sbox_deg_7, deg_7);
        let mixed = internal_linear_layer(&mix_input);
        let target = if round == 21 {
            assert_eq!(after.external_rounds[4].state, mixed);
            external_base(4)
        } else {
            assert_eq!(after.internal_rounds[round + 1].state, mixed);
            internal_base(round + 1)
        };

        for k in changed_columns(&before, &after) {
            let in_powers = (internal_base(round) + 16..internal_base(round) + 18).contains(&k);
            let in_target = (target..target + 16).contains(&k);
            assert!(in_powers || in_target);
        }
    }
}

#[test]
fn row_holds_every_step_of_the_schedule() {
    let input: [u32; WIDTH] = [5, 4, 3, 2, 1, 0, 9, 8, 7, 6, 10, 11, 12, 13, 14, ORDER - 1];
    let row = Poseidon2WideChip::generate_row(&Poseidon2Event { input });
    assert_eq!(row.input, input);

    let mut state = external_linear_layer(&input);
    for round in 0..4 {
        assert_eq!(row.external_rounds[round].state, state);
        let (deg_3, deg_7, mix_input) = full_round(&state, round);
        assert_eq!(row.external_rounds[round].sbox_deg_3, deg_3);
        assert_eq!(row.external_rounds[round].sbox_deg_7, deg_7);
        state = external_linear_layer(&mix_input);
    }
    for round in 0..22 {
        assert_eq!(row.internal_rounds[round].state, state);
        let (deg_3, deg_7, mix_input) = partial_round(&state, round);
        assert_eq!(row.internal_rounds[round].sbox_deg_3, deg_3);
        assert_eq!(row.internal_rounds[round].sbox_deg_7, deg_7);
        state = internal_linear_layer(&mix_input);
    }
    for round in 4..8 {
        assert_eq!(row.external_rounds[round].state, state);
        let (deg_3, deg_7, mix_input) = full_round(&state, round);
        assert_eq!(row.external_rounds[round].sbox_deg_3, deg_3);
        assert_eq!(row.external_rounds[round].sbox_deg_7, deg_7);
        state = external_linear_layer(&mix_input);
    }
    assert_eq!(row.output, state);
}

#[test]
fn row_of_reduced_input_is_reduced() {
    let input = [ORDER - 1; WIDTH];
    let row = Poseidon2WideChip::generate_row(&Poseidon2Event { input });
    assert!(flat(&row).iter().all(|&x| x < ORDER));
}

#[test]
fn row_of_unreduced_input_keeps_the_input_and_reduces_the_rest() {
    let input = [ORDER + 3; WIDTH];
    let row = Poseidon2WideChip::generate_row(&Poseidon2Event { input });
    let reduced = Poseidon2WideChip::generate_row(&Poseidon2Event { input: [3; WIDTH] });
    assert_eq!(row.input, input);
    assert_eq!(flat(&row)[16..], flat(&reduced)[16..]);
    assert!(Poseidon2WideChip.eval(&row));
}
