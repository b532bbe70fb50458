use p3_matrix::Matrix;
use poseidon2_wide::chip::Poseidon2WideChip;
use poseidon2_wide::columns::Poseidon2WideCols;
use poseidon2_wide::columns::NUM_POSEIDON2_WIDE_COLS;
use poseidon2_wide::constants::WIDTH;
use poseidon2_wide::field::ORDER;
use poseidon2_wide::record::ExecutionRecord;
use poseidon2_wide::record::Poseidon2Event;
use poseidon2_wide::trace::generate_rows;
use poseidon2_wide::trace::pad_to_power_of_two;
use poseidon2_wide::trace::padded_height;

fn events_from(seed: u32, count: usize) -> Vec<Poseidon2Event> {
    let mut word = seed;
    let mut events = Vec::new();
    for _ in 0..count {
        let mut input = [0u32; WIDTH];
        for lane in input.iter_mut() {
            word = word.wrapping_mul(1664525).wrapping_add(1013904223);
            *lane = word % ORDER;
        }
        events.push(Poseidon2Event { input });
    }
    events
}

fn record_of(events: Vec<Poseidon2Event>) -> ExecutionRecord {
    ExecutionRecord { poseidon2_events: events }
}

#[test]
fn generate_trace() {
    let chip = Poseidon2WideChip;
    let mut input_exec = ExecutionRecord::default();
    for _i in 0..108173 {
        input_exec.poseidon2_events.push(Poseidon2Event { input: [1u32; WIDTH] });
    }
    let trace = chip.generate_trace(&input_exec, &mut ExecutionRecord::default());
    assert_eq!(trace.width(), NUM_POSEIDON2_WIDE_COLS);
    assert_eq!(trace.height(), 131072);
    println!("{:?}", &trace.values[..NUM_POSEIDON2_WIDE_COLS])
}

#[test]
fn prove_babybear() {
    let chip = Poseidon2WideChip;

    let mut input_exec = ExecutionRecord::default();
    for _i in 0..108173 {
        input_exec.poseidon2_events.push(Poseidon2Event { input: [1u32; WIDTH] });
    }
    let trace = chip.generate_trace(&input_exec, &mut ExecutionRecord::default());

    // Every row of an event satisfies the constraints of the chip.
    let first = Poseidon2WideCols::from_row(&trace.values[..NUM_POSEIDON2_WIDE_COLS]);
    assert!(chip.eval(&first));
    for row in 0..108173 {
        let values = &trace.values[row * NUM_POSEIDON2_WIDE_COLS..(row + 1) * NUM_POSEIDON2_WIDE_COLS];
        assert!(chip.eval(&Poseidon2WideCols::from_row(values)));
    }
}

#[test]
fn chip_name_and_width() {
    let chip = Poseidon2WideChip;
    assert_eq!(chip.name(), "Poseidon2Wide");
    assert_eq!(chip.width(), 812);
    assert_eq!(NUM_POSEIDON2_WIDE_COLS, 2 * 16 + 8 * 48 + 22 * 18);
}

#[test]
fn chip_is_included_only_with_events() {
    let chip = Poseidon2WideChip;
    assert!(!chip.included(&ExecutionRecord::default()));
    assert!(chip.included(&record_of(events_from(1, 1))));
    assert!(chip.included(&record_of(events_from(1, 3))));
}

#[test]
fn padded_height_is_the_next_power_of_two() {
    let expected = [
        (0usize, 1usize),
        (1, 1),
        (2, 2),
        (3, 4),
        (4, 4),
        (5, 8),
        (7, 8),
        (8, 8),
        (9, 16),
        (1023, 1024),
        (1024, 1024),
        (1025, 2048),
        (108173, 131072),
    ];
    for (n, height) in expected {
        assert_eq!(padded_height(n), height);
    }
    for n in 1usize..3000 {
        assert_eq!(padded_height(n), n.next_power_of_two());
    }
}

#[test]
fn trace_height_is_the_next_power_of_two() {
    let chip = Poseidon2WideChip;
    for (count, height) in [(0usize, 1usize), (1, 1), (2, 2), (3, 4), (4, 4), (5, 8), (8, 8), (9, 16), (17, 32)] {
        let record = record_of(events_from(41, count));
        let trace = chip.generate_trace(&record, &mut ExecutionRecord::default());
        assert_eq!(trace.height(), height);
        assert_eq!(trace.width(), 812);
        assert_eq!(trace.width, 812);
        assert_eq!(trace.values.len(), height * 812);
    }
}

#[test]
fn trace_of_no_events_is_one_zero_row() {
    let chip = Poseidon2WideChip;
    let trace = chip.generate_trace(&ExecutionRecord::default(), &mut ExecutionRecord::default());
    assert_eq!(trace.height(), 1);
    assert_eq!(trace.values, vec![0u32; 812]);
}

#[test]
fn padding_rows_are_zero() {
    let chip = Poseidon2WideChip;
    for count in [1usize, 3, 5, 6, 9] {
        let record = record_of(events_from(43, count));
        let trace = chip.generate_trace(&record, &mut ExecutionRecord::default());
        let real = count * NUM_POSEIDON2_WIDE_COLS;
        assert!(trace.values.len() > real || count == 1);
        assert!(trace.values[real..].iter().all(|&x| x == 0));
        for row in 0..count {
            let values = &trace.values[row * 812..(row + 1) * 812];
            assert!(values.iter().any(|&x| x != 0));
        }
    }
}

#[test]
fn power_of_two_counts_get_no_padding() {
    let chip = Poseidon2WideChip;
    for count in [1usize, 2, 4, 8, 16] {
        let events = events_from(47, count);
        let rows = generate_rows(&events);
        let trace = chip.generate_trace(&record_of(events), &mut ExecutionRecord::default());
        assert_eq!(trace.values, rows);
    }
}

#[test]
fn trace_rows_are_the_event_rows_in_order() {
    let chip = Poseidon2WideChip;
    let events = events_from(53, 5);
    let trace = chip.generate_trace(&record_of(events.clone()), &mut ExecutionRecord::default());
    for (i, event) in events.iter().enumerate() {
        let mut row = Vec::new();
        Poseidon2WideChip::generate_row(event).append_to(&mut row);
        assert_eq!(row.len(), 812);
        assert_eq!(&trace.values[i * 812..(i + 1) * 812], &row[..]);
        assert_eq!(&trace.values[i * 812..i * 812 + 16], &event.input[..]);
    }
}

#[test]
fn rows_of_a_concatenation_are_the_concatenated_rows() {
    for (left, right) in [(0usize, 0usize), (0, 3), (3, 0), (1, 1), (2, 5), (4, 4)] {
        let a = events_from(59, left);
        let b = events_from(61, right);
        let mut both = a.clone();
        both.extend(b.iter().copied());
        let mut expected = generate_rows(&a);
        expected.extend(generate_rows(&b));
        assert_eq!(generate_rows(&both), expected);
        assert_eq!(expected.len(), (left + right) * 812);
    }
}

#[test]
fn trace_leaves_the_output_record_alone() {
    let chip = Poseidon2WideChip;
    let mut output = record_of(events_from(67, 2));
    let before: Vec<[u32; WIDTH]> = output.poseidon2_events.iter().map(|e| e.input).collect();
    let _ = chip.generate_trace(&record_of(events_from(71, 3)), &mut output);
    let after: Vec<[u32; WIDTH]> = output.poseidon2_events.iter().map(|e| e.input).collect();
    assert_eq!(before, after);
}

#[test]
fn trace_lanes_are_reduced() {
    let chip = Poseidon2WideChip;
    let trace = chip.generate_trace(&record_of(events_from(73, 7)), &mut ExecutionRecord::default());
    assert!(trace.values.iter().all(|&x| x < ORDER));
}

#[test]
fn pad_to_power_of_two_appends_zero_rows() {
    let mut values: Vec<u32> = Vec::new();
    pad_to_power_of_two::<3>(&mut values);
    assert_eq!(values, vec![0, 0, 0]);

    let mut values: Vec<u32> = vec![1, 2, 3];
    pad_to_power_of_two::<3>(&mut values);
    assert_eq!(values, vec![1, 2, 3]);

    let mut values: Vec<u32> = (1..=9).collect();
    pad_to_power_of_two::<3>(&mut values);
    assert_eq!(values, vec![1, 2, 3, 4, 5, 6, 7, 8, 9, 0, 0, 0]);

    let mut values: Vec<u32> = (1..=10).collect();
    pad_to_power_of_two::<2>(&mut values);
    assert_eq!(values, vec![1, 2, 3, 4, 5, 6, 7, 8, 9, 10, 0, 0, 0, 0, 0, 0]);

    let mut values: Vec<u32> = vec![7; 4];
    pad_to_power_of_two::<1>(&mut values);
    assert_eq!(values, vec![7; 4]);
}
