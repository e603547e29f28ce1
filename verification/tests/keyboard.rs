use hid_matrix::report::{find_code, keycodes_equal, press_key, release_key, KeyReport};
use hid_matrix::scanner::{build_keycodes, default_layout, MatrixCell, MatrixScanner};

fn samples(bits: &[bool]) -> Vec<bool> {
    bits.to_vec()
}

#[test]
fn single_cell_press_fills_exactly_one_slot() {
    let cells = default_layout();
    let expected = [4u8, 5, 6, 7];
    for i in 0..4 {
        let mut scanner = MatrixScanner::new(cells.clone());
        let mut pressed = vec![false; 4];
        pressed[i] = true;
        let report = scanner.scan_cycle(&pressed).expect("a fresh press must be emitted");
        assert_eq!(report.keycodes[0], expected[i]);
        assert_eq!(&report.keycodes[1..], &[0, 0, 0, 0, 0]);
    }
}

#[test]
fn two_keys_in_column_zero_scan_order() {
    // cells (col0,row0) -> 4 and (col0,row1) -> 5 both pressed, others released
    let mut scanner = MatrixScanner::new(default_layout());
    let report = scanner
        .scan_cycle(&samples(&[true, true, false, false]))
        .expect("a change from the all-clear report must be emitted");
    assert_eq!(report.modifier, 0);
    assert_eq!(report.reserved, 0);
    assert_eq!(report.keycodes, [4, 5, 0, 0, 0, 0]);
}

#[test]
fn steady_keys_emit_exactly_once() {
    let mut scanner = MatrixScanner::new(default_layout());
    let held = samples(&[true, false, true, false]);
    let mut emissions = 0;
    for _ in 0..5 {
        if scanner.scan_cycle(&held).is_some() {
            emissions += 1;
            scanner.confirm_transmitted();
        }
    }
    assert_eq!(emissions, 1);
}

#[test]
fn steady_all_released_emits_nothing() {
    let mut scanner = MatrixScanner::new(default_layout());
    let idle = samples(&[false, false, false, false]);
    for _ in 0..3 {
        assert!(scanner.scan_cycle(&idle).is_none());
    }
}

#[test]
fn press_then_release_round_trips_to_all_clear() {
    let mut scanner = MatrixScanner::new(default_layout());
    let down = scanner.scan_cycle(&samples(&[false, true, false, false]));
    assert_eq!(down.unwrap().keycodes, [5, 0, 0, 0, 0, 0]);
    scanner.confirm_transmitted();
    let up = scanner.scan_cycle(&samples(&[false, false, false, false]));
    assert_eq!(up.unwrap().keycodes, [0, 0, 0, 0, 0, 0]);
}

#[test]
fn release_clears_code_from_middle_slot() {
    let mut slots = [3u8, 9, 5, 0, 0, 0];
    release_key(&mut slots, 9);
    assert_eq!(slots, [3, 0, 5, 0, 0, 0]);
}

#[test]
fn release_of_absent_code_changes_nothing() {
    let mut slots = [3u8, 0, 5, 0, 0, 0];
    release_key(&mut slots, 9);
    assert_eq!(slots, [3, 0, 5, 0, 0, 0]);
}

#[test]
fn press_lands_in_first_empty_slot() {
    let mut slots = [3u8, 0, 5, 0, 0, 0];
    press_key(&mut slots, 9);
    assert_eq!(slots, [3, 9, 5, 0, 0, 0]);
}

#[test]
fn seventh_press_is_dropped() {
    let mut slots = [10u8, 11, 12, 13, 14, 15];
    press_key(&mut slots, 16);
    assert_eq!(slots, [10, 11, 12, 13, 14, 15]);
}

fn wide_layout(n: u8) -> Vec<MatrixCell> {
    (0..n)
        .map(|i| MatrixCell { col: i as usize, row: 0, keycode: 4 + i })
        .collect()
}

#[test]
fn more_than_six_pressed_cells_cap_at_six_slots() {
    let cells = wide_layout(8);
    let pressed = vec![true; 8];
    let out = build_keycodes(&cells, &pressed);
    assert_eq!(out, [4, 5, 6, 7, 8, 9]);
}

#[test]
fn excess_press_does_not_disturb_occupied_slots() {
    let cells = wide_layout(7);
    let mut scanner = MatrixScanner::new(cells);
    let six = scanner.scan_cycle(&vec![true, true, true, true, true, true, false]).unwrap();
    assert_eq!(six.keycodes, [4, 5, 6, 7, 8, 9]);
    scanner.confirm_transmitted();
    // the seventh press changes nothing, so nothing is emitted
    assert!(scanner.scan_cycle(&vec![true; 7]).is_none());
}

#[test]
fn failed_transmit_is_retried_with_fresh_samples() {
    let mut scanner = MatrixScanner::new(default_layout());
    let held = samples(&[true, false, false, false]);
    let first = scanner.scan_cycle(&held).expect("a fresh press must be emitted");
    assert_eq!(first.keycodes, [4, 0, 0, 0, 0, 0]);
    // the transport rejected it: no confirmation, so the unchanged matrix
    // offers the same report again next cycle
    let retry = scanner.scan_cycle(&held).expect("an unacknowledged report must be re-emitted");
    assert_eq!(retry.keycodes, [4, 0, 0, 0, 0, 0]);
    scanner.confirm_transmitted();
    assert!(scanner.scan_cycle(&held).is_none());
}

#[test]
fn key_released_before_retry_is_never_seen() {
    let mut scanner = MatrixScanner::new(default_layout());
    let down = scanner.scan_cycle(&samples(&[true, false, false, false]));
    assert!(down.is_some());
    // transmit failed and the key came back up: the retry works with
    // current state, which now matches the last transmitted report, so the
    // host never sees the keystroke
    assert!(scanner.scan_cycle(&samples(&[false, false, false, false])).is_none());
}

#[test]
fn serialized_report_is_boot_protocol_layout() {
    let report = KeyReport { modifier: 2, reserved: 0, leds: 0xff, keycodes: [4, 5, 0, 0, 0, 0] };
    // leds travels host to device only: it is not part of the 8 wire bytes
    assert_eq!(report.serialize(), vec![2, 0, 4, 5, 0, 0, 0, 0]);
}

#[test]
fn empty_report_serializes_to_zeros() {
    assert_eq!(KeyReport::empty().serialize(), vec![0; 8]);
}

#[test]
fn indicator_follows_previous_cycle_occupancy() {
    let mut scanner = MatrixScanner::new(default_layout());
    assert!(!scanner.held_indicator());
    scanner.scan_cycle(&samples(&[true, false, false, false]));
    assert!(scanner.held_indicator());
    scanner.scan_cycle(&samples(&[false, false, false, false]));
    assert!(!scanner.held_indicator());
}

#[test]
fn any_key_held_reads_the_slots() {
    let mut report = KeyReport::empty();
    assert!(!report.any_key_held());
    report.keycodes[3] = 40;
    assert!(report.any_key_held());
}

#[test]
fn find_code_reports_first_occurrence() {
    let slots = [0u8, 7, 0, 7, 0, 0];
    assert_eq!(find_code(&slots, 7), Some(1));
    assert_eq!(find_code(&slots, 0), Some(0));
    assert_eq!(find_code(&slots, 9), None);
}

#[test]
fn keycodes_equal_is_byte_for_byte() {
    let a = [4u8, 5, 0, 0, 0, 0];
    let mut b = a;
    assert!(keycodes_equal(&a, &b));
    b[5] = 1;
    assert!(!keycodes_equal(&a, &b));
}

#[test]
fn cell_count_matches_layout() {
    let scanner = MatrixScanner::new(default_layout());
    assert_eq!(scanner.cell_count(), 4);
}
