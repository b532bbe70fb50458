use poseidon2_wide::air::check_sbox;
use poseidon2_wide::chip::Poseidon2WideChip;
use poseidon2_wide::columns::Poseidon2WideCols;
use poseidon2_wide::constants::NUM_EXTERNAL_ROUNDS;
use poseidon2_wide::constants::NUM_INTERNAL_ROUNDS;
use poseidon2_wide::constants::WIDTH;
use poseidon2_wide::field::ORDER;
use poseidon2_wide::linear::external_linear_layer;
use poseidon2_wide::record::Poseidon2Event;

fn event_from(seed: u32) -> Poseidon2Event {
    let mut word = seed;
    let mut input = [0u32; WIDTH];
    for lane in input.iter_mut() {
        word = word.wrapping_mul(1664525).wrapping_add(1013904223);
        *lane = word % ORDER;
    }
    Poseidon2Event { input }
}

fn bump(x: &mut u32) {
    *x = (*x + 1) % ORDER;
}

#[test]
fn check_sbox_accepts_the_powers_only() {
    assert!(check_sbox(1, 1, 8, 128));
    assert!(check_sbox(0, 0, 0, 0));
    assert!(check_sbox(ORDER - 1, 0, ORDER - 1, ORDER - 1));
    assert!(!check_sbox(1, 1, 8, 127));
    assert!(!check_sbox(1, 1, 9, 128));
    assert!(!check_sbox(1, 1, 128, 8));
    assert!(!check_sbox(1, 2, 8, 128));
    assert!(!check_sbox(0, 1, 0, 0));
    // The seventh power is held against the witnessed cube.
    assert!(!check_sbox(1, 1, 9, 9 * 9 * 2));
}

#[test]
fn generated_rows_satisfy_the_constraints() {
    let chip = Poseidon2WideChip;
    for seed in 0..50 {
        let row = Poseidon2WideChip::generate_row(&event_from(seed));
        assert!(chip.eval(&row));
        for round in 0..NUM_EXTERNAL_ROUNDS {
            assert!(row.check_external_round(round));
        }
        for round in 0..NUM_INTERNAL_ROUNDS {
            assert!(row.check_internal_round(round));
        }
    }
}

#[test]
fn first_state_is_the_mixed_input() {
    let event = event_from(5);
    let row = Poseidon2WideChip::generate_row(&event);
    assert_eq!(row.external_rounds[0].state, external_linear_layer(&event.input));
}

#[test]
fn zero_row_is_zero_and_fails_the_constraints() {
    let chip = Poseidon2WideChip;
    let zero = Poseidon2WideChip::zero_row();
    let mut values = Vec::new();
    zero.append_to(&mut values);
    assert_eq!(values, vec![0u32; 812]);
    assert!(!chip.eval(&zero));
    assert!(!zero.check_external_round(0));
}

#[test]
fn constraints_reject_a_changed_input() {
    let chip = Poseidon2WideChip;
    let mut row = Poseidon2WideChip::generate_row(&event_from(7));
    bump(&mut row.input[3]);
    assert!(!chip.eval(&row));
}

#[test]
fn constraints_reject_a_changed_output() {
    let chip = Poseidon2WideChip;
    let mut row = Poseidon2WideChip::generate_row(&event_from(7));
    bump(&mut row.output[15]);
    assert!(!chip.eval(&row));
    assert!(!row.check_external_round(NUM_EXTERNAL_ROUNDS - 1));
    assert!(row.check_external_round(NUM_EXTERNAL_ROUNDS - 2));
}

#[test]
fn constraints_reject_a_changed_external_column() {
    let chip = Poseidon2WideChip;
    for round in 0..NUM_EXTERNAL_ROUNDS {
        for lane in [0usize, 7, 15] {
            let row = Poseidon2WideChip::generate_row(&event_from(11));

            let mut changed = row;
            bump(&mut changed.external_rounds[round].state[lane]);
            assert!(!chip.eval(&changed));

            let mut changed = row;
            bump(&mut changed.external_rounds[round].sbox_deg_3[lane]);
            assert!(!chip.eval(&changed));
            assert!(!changed.check_external_round(round));

            let mut changed = row;
            bump(&mut changed.external_rounds[round].sbox_deg_7[lane]);
            assert!(!chip.eval(&changed));
            assert!(!changed.check_external_round(round));
        }
    }
}

#[test]
fn constraints_reject_a_changed_internal_column() {
    let chip = Poseidon2WideChip;
    for round in 0..NUM_INTERNAL_ROUNDS {
        let row = Poseidon2WideChip::generate_row(&event_from(13));

        for lane in [0usize, 1, 15] {
            let mut changed = row;
            bump(&mut changed.internal_rounds[round].state[lane]);
            assert!(!chip.eval(&changed));
        }

        let mut changed = row;
        bump(&mut changed.internal_rounds[round].sbox_deg_3);
        assert!(!chip.eval(&changed));
        assert!(!changed.check_internal_round(round));

        let mut changed = row;
        bump(&mut changed.internal_rounds[round].sbox_deg_7);
        assert!(!chip.eval(&changed));
        assert!(!changed.check_internal_round(round));
    }
}

#[test]
fn internal_round_copies_the_other_lanes() {
    // A state after an internal round that was mixed from a changed lane
    // is not the state the constraints ask for.
    let row = Poseidon2WideChip::generate_row(&event_from(17));
    let mut changed = row;
    bump(&mut changed.internal_rounds[4].state[9]);
    assert!(!changed.check_internal_round(4));
    assert!(!changed.check_internal_round(3));
    assert!(changed.check_internal_round(5));
}

#[test]
fn rows_read_back_from_values_satisfy_the_constraints() {
    let chip = Poseidon2WideChip;
    let row = Poseidon2WideChip::generate_row(&event_from(19));
    let mut values = Vec::new();
    row.append_to(&mut values);
    let read = Poseidon2WideCols::from_row(&values);
    assert!(chip.eval(&read));
    values[100] = (values[100] + 1) % ORDER;
    assert!(!chip.eval(&Poseidon2WideCols::from_row(&values)));
}
