use mtui::app::lifecycle::{
    cells_with_values, finish_reconnect, pair_run, quit_asks_first, read_runs_of, reconnect_step,
    refresh_due, start_reconnect, startup_read_params, tick_action, ReconnectState, ReconnectStep,
    TickAction,
};
use mtui::config::Startup;
use mtui::register::RegisterType::{Coil, Holding, Input};
use mtui::state::{ConnectionStatus, ReadPanel};

#[test]
fn pinned_registers_are_read_in_contiguous_runs() {
    let regs = vec![(Holding, 1), (Holding, 2), (Holding, 3), (Holding, 5), (Input, 6), (Coil, 7)];
    assert_eq!(
        read_runs_of(&regs, 10),
        vec![((Holding, 1), 3), ((Holding, 5), 1), ((Input, 6), 1), ((Coil, 7), 1)]
    );
}

#[test]
fn a_run_stops_at_the_batch_size() {
    let regs: Vec<_> = (0u16..7).map(|a| (Input, a)).collect();
    assert_eq!(read_runs_of(&regs, 3), vec![((Input, 0), 3), ((Input, 3), 3), ((Input, 6), 1)]);
    assert_eq!(read_runs_of(&regs, 0).len(), 7);
}

#[test]
fn a_run_does_not_wrap_past_the_last_address() {
    let regs = vec![(Holding, 65535), (Holding, 0)];
    assert_eq!(read_runs_of(&regs, 10), vec![((Holding, 65535), 1), ((Holding, 0), 1)]);
    assert!(read_runs_of(&Vec::new(), 4).is_empty());
}

#[test]
fn a_run_answered_with_the_wrong_count_is_an_error() {
    let cells = [(Holding, 4), (Holding, 5)];
    assert_eq!(pair_run(&cells, &vec![7, 8]), Ok(vec![((Holding, 4), 7), ((Holding, 5), 8)]));
    assert_eq!(pair_run(&cells, &vec![7]), Err("Expected 2 value(s) at 4, got 1".to_string()));
}

#[test]
fn read_values_are_paired_with_their_addresses() {
    assert_eq!(
        cells_with_values(Coil, 10, &vec![1, 0, 1]),
        vec![((Coil, 10), 1), ((Coil, 11), 0), ((Coil, 12), 1)]
    );
}

#[test]
fn reconnects_happen_only_for_a_failed_network_device() {
    let r = ReconnectState::default();
    let err = ConnectionStatus::Error("x".to_string());
    assert_eq!(reconnect_step(true, true, true, &err, &r, 0), ReconnectStep::Start);
    assert_eq!(reconnect_step(true, true, false, &err, &r, 0), ReconnectStep::Idle);
    assert_eq!(reconnect_step(false, true, true, &err, &r, 0), ReconnectStep::Idle);
    assert_eq!(reconnect_step(true, false, true, &err, &r, 0), ReconnectStep::Idle);
    assert_eq!(
        reconnect_step(true, true, true, &ConnectionStatus::Connected, &r, 0),
        ReconnectStep::Idle
    );
    let later = ReconnectState { attempts: 2, next_at: Some(500) };
    assert_eq!(
        reconnect_step(true, true, true, &ConnectionStatus::Reconnecting, &later, 499),
        ReconnectStep::Wait
    );
    assert_eq!(
        reconnect_step(true, true, true, &ConnectionStatus::Reconnecting, &later, 500),
        ReconnectStep::Start
    );
}

#[test]
fn failed_reconnects_back_off_and_success_resets() {
    let mut r = ReconnectState { attempts: 0, next_at: Some(9) };
    assert_eq!(start_reconnect(&mut r), ConnectionStatus::Reconnecting);
    assert_eq!(r.next_at, None);
    let status = finish_reconnect(&mut r, Some(Err("refused")), 1_000);
    assert_eq!(status, ConnectionStatus::Error("refused".to_string()));
    assert_eq!(r, ReconnectState { attempts: 1, next_at: Some(2_000) });
    let status = finish_reconnect(&mut r, None, 2_000);
    assert_eq!(status, ConnectionStatus::Error("reconnect task stopped unexpectedly".to_string()));
    assert_eq!(r, ReconnectState { attempts: 2, next_at: Some(4_000) });
    let mut many = ReconnectState { attempts: u32::MAX, next_at: None };
    finish_reconnect(&mut many, None, 0);
    assert_eq!(many, ReconnectState { attempts: u32::MAX, next_at: Some(30_000) });
    assert_eq!(finish_reconnect(&mut r, Some(Ok(())), 5_000), ConnectionStatus::Unknown);
    assert_eq!(r, ReconnectState::default());
}

#[test]
fn quitting_with_unsaved_changes_asks_first() {
    assert!(quit_asks_first(true, false));
    assert!(!quit_asks_first(true, true));
    assert!(!quit_asks_first(false, false));
}

#[test]
fn the_refresh_is_due_once_the_interval_passed() {
    assert!(refresh_due(false, false, true, Some(500), 500));
    assert!(!refresh_due(false, false, true, Some(500), 499));
    assert!(!refresh_due(false, false, true, None, 10_000));
    assert!(!refresh_due(true, false, true, Some(0), 1));
    assert!(!refresh_due(false, true, true, Some(0), 1));
    assert!(!refresh_due(false, false, false, Some(0), 1));
}

#[test]
fn a_tick_checks_work_then_connection_then_sweep_then_refresh() {
    assert_eq!(tick_action(true, ReconnectStep::Start, true, true, true), TickAction::Nothing);
    assert_eq!(tick_action(false, ReconnectStep::Wait, true, true, true), TickAction::WaitForReconnect);
    assert_eq!(tick_action(false, ReconnectStep::Start, true, true, true), TickAction::Reconnect);
    assert_eq!(tick_action(false, ReconnectStep::Idle, true, true, true), TickAction::SweepRead);
    assert_eq!(tick_action(false, ReconnectStep::Idle, true, false, true), TickAction::SweepPaused);
    assert_eq!(tick_action(false, ReconnectStep::Idle, false, true, true), TickAction::Refresh);
    assert_eq!(tick_action(false, ReconnectStep::Idle, false, true, false), TickAction::Nothing);
}

#[test]
fn the_view_opens_at_the_startup_position() {
    let r = startup_read_params(&Startup { address: 300, register_type: Input, panel: ReadPanel::Labeled });
    assert_eq!((r.position, r.window_start), (300, 300));
    assert_eq!(r.register_type, Input);
    assert_eq!(r.panel, ReadPanel::Labeled);
    assert!(r.popup.is_none() && !r.loading);
}
