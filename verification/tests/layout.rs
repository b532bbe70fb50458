use poseidon2_wide::columns::Poseidon2WideCols;
use poseidon2_wide::columns::Poseidon2WideExternalRoundCols;
use poseidon2_wide::columns::Poseidon2WideInternalRoundCols;
use poseidon2_wide::columns::NUM_POSEIDON2_WIDE_COLS;
use poseidon2_wide::constants::NUM_EXTERNAL_ROUNDS;
use poseidon2_wide::constants::NUM_INTERNAL_ROUNDS;
use poseidon2_wide::constants::WIDTH;

fn counting_row() -> Vec<u32> {
    (0..NUM_POSEIDON2_WIDE_COLS as u32).collect()
}

#[test]
fn columns_lie_in_layout_order() {
    let cols = Poseidon2WideCols::from_row(&counting_row());
    for lane in 0..WIDTH {
        assert_eq!(cols.input[lane] as usize, lane);
        assert_eq!(cols.output[lane] as usize, 16 + lane);
    }
    for round in 0..NUM_EXTERNAL_ROUNDS {
        let base = 32 + 48 * round;
        for lane in 0..WIDTH {
            assert_eq!(cols.external_rounds[round].state[lane] as usize, base + lane);
            assert_eq!(cols.external_rounds[round].sbox_deg_3[lane] as usize, base + 16 + lane);
            assert_eq!(cols.external_rounds[round].sbox_deg_7[lane] as usize, base + 32 + lane);
        }
    }
    for round in 0..NUM_INTERNAL_ROUNDS {
        let base = 416 + 18 * round;
        for lane in 0..WIDTH {
            assert_eq!(cols.internal_rounds[round].state[lane] as usize, base + lane);
        }
        assert_eq!(cols.internal_rounds[round].sbox_deg_3 as usize, base + 16);
        assert_eq!(cols.internal_rounds[round].sbox_deg_7 as usize, base + 17);
    }
    assert_eq!(cols.internal_rounds[21].sbox_deg_7, 811);
}

#[test]
fn a_row_read_and_written_is_the_same_row() {
    let row = counting_row();
    let cols = Poseidon2WideCols::from_row(&row);
    let mut written = vec![9999u32];
    cols.append_to(&mut written);
    assert_eq!(written[0], 9999);
    assert_eq!(&written[1..], &row[..]);
    assert_eq!(written.len(), 1 + 812);
}

#[test]
fn round_columns_read_from_an_offset() {
    let row = counting_row();
    let external = Poseidon2WideExternalRoundCols::from_row(&row, 100);
    assert_eq!(external.state[0], 100);
    assert_eq!(external.sbox_deg_3[0], 116);
    assert_eq!(external.sbox_deg_7[15], 147);
    let mut written = Vec::new();
    external.append_to(&mut written);
    assert_eq!(&written[..], &row[100..148]);

    let internal = Poseidon2WideInternalRoundCols::from_row(&row, 794);
    assert_eq!(internal.state[0], 794);
    assert_eq!(internal.sbox_deg_3, 810);
    assert_eq!(internal.sbox_deg_7, 811);
    let mut written = Vec::new();
    internal.append_to(&mut written);
    assert_eq!(&written[..], &row[794..812]);
}

#[test]
fn layout_holds_any_copy_type() {
    let row: Vec<u8> = (0..NUM_POSEIDON2_WIDE_COLS).map(|k| (k % 251) as u8).collect();
    let cols = Poseidon2WideCols::from_row(&row);
    let mut written = Vec::new();
    cols.append_to(&mut written);
    assert_eq!(written, row);

    let row: Vec<(u16, bool)> = (0..NUM_POSEIDON2_WIDE_COLS).map(|k| (k as u16, k % 2 == 0)).collect();
    let cols = Poseidon2WideCols::from_row(&row);
    assert_eq!(cols.output[0], (16, true));
    assert_eq!(cols.internal_rounds[0].sbox_deg_3, (432, true));
    let copy = cols;
    let mut written = Vec::new();
    copy.append_to(&mut written);
    assert_eq!(written, row);
}
