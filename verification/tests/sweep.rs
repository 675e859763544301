use mtui::app::SweepState;
use mtui::state::{SweepConfigParams, SweepField};

fn sweeping(from: u16, to: u16, continuous: bool) -> SweepState {
    SweepState { active: true, from, to, continuous, current: from, errored: false }
}

fn step(sweep: &mut SweepState, batch: u16, errored: bool) -> (u16, u16) {
    let window = sweep.window(batch);
    sweep.advance(window.0, window.1, errored);
    window
}

#[test]
fn the_last_window_stops_at_the_upper_bound() {
    let mut s = sweeping(0, 10, false);
    assert_eq!(step(&mut s, 4, false), (0, 4));
    assert_eq!(step(&mut s, 4, false), (4, 4));
    assert_eq!(step(&mut s, 4, false), (8, 3));
    assert!(!s.active, "complete once the bound is covered");
}

#[test]
fn an_exact_multiple_is_not_read_twice() {
    let mut s = sweeping(0, 7, false);
    assert_eq!(step(&mut s, 4, false), (0, 4));
    assert_eq!(step(&mut s, 4, false), (4, 4));
    assert!(!s.active);
}

#[test]
fn a_continuous_sweep_wraps_to_from() {
    let mut s = sweeping(5, 6, true);
    assert_eq!(step(&mut s, 4, false), (5, 2));
    assert!(s.active);
    assert_eq!(s.current, 5);
}

#[test]
fn errors_step_one_register_until_a_read_succeeds() {
    let mut s = sweeping(0, 10, false);
    assert_eq!(step(&mut s, 4, true), (0, 4));
    assert_eq!(s.current, 1);
    assert_eq!(step(&mut s, 4, false), (1, 1));
    assert_eq!(step(&mut s, 4, false), (2, 4));
    assert_eq!(s.current, 6);
}

#[test]
fn a_batch_wider_than_the_range_reads_it_in_one_go() {
    let mut s = sweeping(0, 10, false);
    assert_eq!(step(&mut s, 20, false), (0, 11));
    assert!(!s.active);

    let mut s = sweeping(0, 10, true);
    assert_eq!(step(&mut s, 20, false), (0, 11));
    assert!(s.active);
    assert_eq!(s.current, 0);
}

#[test]
fn a_single_register_range_completes_in_one_read() {
    let mut s = sweeping(65535, 65535, false);
    assert_eq!(step(&mut s, 10, false), (65535, 1));
    assert!(!s.active);
}

#[test]
fn a_zero_batch_still_reads_one_register() {
    let mut s = sweeping(3, 9, false);
    assert_eq!(step(&mut s, 0, false), (3, 1));
    assert_eq!(s.current, 4);
}

#[test]
fn applying_the_popup_orders_the_ends_and_starts_at_the_lower_one() {
    let mut s = SweepState::default();
    assert!(s.apply_config(50, 20, false));
    assert_eq!((s.from, s.to, s.continuous), (20, 50, false));
    assert!(s.active);
    assert_eq!(s.current, 20);
    assert!(!s.apply_config(1, 2, true), "a running sweep stops");
    assert!(!s.active);
    assert_eq!((s.from, s.to), (1, 2));
}

#[test]
fn a_looping_sweep_keeps_running_inside_its_range() {
    let mut s = sweeping(10, 20, true);
    for _ in 0..50 {
        let errored = s.current % 3 == 0;
        step(&mut s, 4, errored);
        assert!(s.active);
        assert!(s.from <= s.current && s.current <= s.to);
    }
}

#[test]
fn the_sweep_popup_edits_its_fields() {
    let s = SweepState::default();
    let mut p = s.config_params();
    assert_eq!(p, SweepConfigParams { from: 0, to: 100, continuous: true, selected: 3 });
    p.move_selection(true);
    assert_eq!(p.selected, 0);
    p.move_selection(false);
    assert_eq!(p.selected, 3);
    p.type_digit(SweepField::From, '4');
    p.type_digit(SweepField::From, '2');
    p.type_digit(SweepField::From, 'x');
    p.type_digit(SweepField::Mode, '7');
    assert_eq!(p.from, 42);
    p.backspace(SweepField::To);
    assert_eq!(p.to, 10);
    p.type_digit(SweepField::To, '9');
    p.type_digit(SweepField::To, '9');
    p.type_digit(SweepField::To, '9');
    assert_eq!(p.to, 10999);
    p.type_digit(SweepField::To, '9');
    assert_eq!(p.to, 10999, "a digit that does not fit is dropped");
    p.toggle_mode();
    assert!(!p.continuous);
}
