use mtui::app::unit::UnitProbeOutcome;
use mtui::register::RegisterType;
use mtui::state::{MessageKind, ScanState, UnitField, UnitParams};

/// Answers like the simulated meter: units 0..10 respond, input register 38
/// raises an exception, every other unit stays silent.
fn meter(p: &UnitParams, unit_id: u8) -> UnitProbeOutcome {
    if unit_id > 10 {
        UnitProbeOutcome::Silent
    } else if p.register_type == RegisterType::Input && p.address == 38 {
        UnitProbeOutcome::Exception("IllegalDataAddress".to_string())
    } else {
        UnitProbeOutcome::Response(vec![unit_id as u16; p.amount as usize])
    }
}

fn drive_scan(p: &mut UnitParams) {
    let mut next = p.scan_action(true, true);
    while let Some(id) = next {
        let outcome = meter(p, id);
        next = p.apply_probe(Some((id, outcome)));
    }
}

fn ids(p: &UnitParams) -> Vec<u8> {
    p.hits.iter().map(|h| h.unit_id).collect()
}

#[test]
fn scan_lists_responding_units() {
    let mut p = UnitParams::default();
    p.from = 1;
    p.to = 3;
    drive_scan(&mut p);
    assert_eq!(p.scan, ScanState::Done);
    assert_eq!(p.status, None, "progress is not a status message");
    assert_eq!(ids(&p), vec![1, 2, 3]);
    assert!(p.hits.iter().all(|h| h.result.is_ok()));
}

#[test]
fn unit_scan_scan_stops_at_first_hit() {
    let mut p = UnitParams::default();
    p.from = 2;
    p.to = 247;
    p.stop_at_first = true;
    drive_scan(&mut p);
    assert_eq!(p.scan, ScanState::Done);
    assert_eq!(ids(&p), vec![2]);
}

#[test]
fn selecting_a_hit_applies_that_unit_id() {
    let mut p = UnitParams::default();
    p.from = 4;
    p.to = 5;
    drive_scan(&mut p);
    let hit_index = p.fields().iter().position(|f| *f == UnitField::Hit(1)).unwrap();
    for _ in 0..hit_index {
        p.move_selection(true);
    }
    assert_eq!(p.current_field(), UnitField::Hit(1));
    assert_eq!(p.hit_unit(1), Some(5));
    assert_eq!(p.hit_unit(2), None);
}

#[test]
fn an_exception_entry_sets_the_unit_id_too() {
    let mut p = UnitParams::default();
    p.register_type = RegisterType::Input;
    p.address = 38;
    p.amount = 1;
    p.from = 7;
    p.to = 7;
    drive_scan(&mut p);
    assert_eq!(p.hits.len(), 1);
    assert!(p.hits[0].result.is_err());
    assert_eq!(p.hit_unit(0), Some(7));
}

#[test]
fn a_reversed_range_is_scanned_upwards() {
    let mut p = UnitParams::default();
    p.from = 9;
    p.to = 7;
    drive_scan(&mut p);
    assert_eq!((p.from, p.to), (7, 9));
    assert_eq!(ids(&p), vec![7, 8, 9]);
}

#[test]
fn silent_units_leave_no_hit() {
    let mut p = UnitParams::default();
    p.from = 9;
    p.to = 12;
    drive_scan(&mut p);
    assert_eq!(ids(&p), vec![9, 10]);
    assert_eq!(p.current, 12, "the upper end was probed last");
}

#[test]
fn the_scan_button_stops_a_running_scan() {
    let mut p = UnitParams::default();
    assert_eq!(p.scan_action(true, true), Some(1));
    assert!(p.active());
    assert_eq!(p.scan_action(true, true), None);
    assert_eq!(p.scan, ScanState::Stopped);
    assert_eq!(p.apply_probe(Some((1, UnitProbeOutcome::Silent))), None, "a stopped scan takes no probe");
}

#[test]
fn a_scan_needs_a_free_device() {
    let mut p = UnitParams::default();
    assert_eq!(p.scan_action(false, true), None);
    let status = p.status.clone().unwrap();
    assert_eq!(status.text, "No device connected");
    assert_eq!(status.kind, MessageKind::Failure);
    assert_eq!(p.scan_action(true, false), None);
    assert_eq!(p.status.clone().unwrap().text, "Device is busy.");
    assert_eq!(p.scan, ScanState::Idle);
}

#[test]
fn a_dead_probe_fails_the_scan() {
    let mut p = UnitParams::default();
    p.scan_action(true, true);
    assert_eq!(p.apply_probe(None), None);
    assert_eq!(p.scan, ScanState::Failed);
}

#[test]
fn the_unit_form_takes_digits_and_switches() {
    let mut p = UnitParams::default();
    p.type_digit(UnitField::Id, '2');
    p.type_digit(UnitField::Id, '5');
    p.type_digit(UnitField::Id, '6');
    assert_eq!(p.id, 25, "256 does not fit a unit id");
    p.backspace(UnitField::To);
    assert_eq!(p.to, 24);
    p.type_digit(UnitField::Scan, '1');
    p.type_digit(UnitField::From, 'a');
    assert_eq!(p.from, 1);
    p.toggle(UnitField::Mode);
    p.toggle(UnitField::Exceptions);
    p.toggle(UnitField::Id);
    assert!(p.stop_at_first);
    assert!(!p.show_exceptions);
    assert!(!p.ascii);
}
