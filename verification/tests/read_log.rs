use mtui::app::read_log::{apply_refresh, ReadLog, RefreshApplied};
use mtui::register::RegisterType::{Coil, Holding, Input};
use mtui::state::{ConnectionStatus, ReadParams};

#[test]
fn a_read_value_is_read_back_with_its_change_and_history() {
    let mut log = ReadLog::new();
    assert_eq!(log.value((Holding, 1)), None);
    log.record((Holding, 1), 10, 100, 3);
    let e = log.get((Holding, 1)).unwrap();
    assert_eq!((e.value, e.at, e.changed, e.history.clone()), (10, 100, false, vec![10]));
    log.record((Holding, 1), 10, 200, 3);
    assert!(!log.get((Holding, 1)).unwrap().changed, "the same value is no change");
    log.record((Holding, 1), 11, 300, 3);
    log.record((Holding, 1), 12, 400, 3);
    let e = log.get((Holding, 1)).unwrap();
    assert!(e.changed);
    assert_eq!(e.history, vec![10, 11, 12], "only the last three are kept");
    assert_eq!(log.value((Holding, 1)), Some(12));
    assert_eq!(log.value((Input, 1)), None);
    log.clear();
    assert_eq!(log.value((Holding, 1)), None);
}

#[test]
fn a_batch_of_values_is_recorded_in_order() {
    let mut log = ReadLog::new();
    log.record_all(&[((Input, 5), 1), ((Coil, 0), 1), ((Input, 5), 2)], 7, 10);
    assert_eq!(log.get((Input, 5)).unwrap().history, vec![1, 2]);
    assert!(log.get((Input, 5)).unwrap().changed);
    assert_eq!(log.value((Coil, 0)), Some(1));
}

#[test]
fn a_refresh_records_its_values_and_sets_the_connection() {
    let mut read = ReadParams::default();
    read.register_type = Holding;
    read.loading = true;
    let mut log = ReadLog::new();
    let r = apply_refresh(
        &mut read,
        &mut log,
        Holding,
        Some(Ok(vec![((Holding, 0), 5), ((Holding, 1), 6)])),
        None,
        12,
        1000,
        0,
        &ConnectionStatus::Reading,
    );
    assert_eq!(r, RefreshApplied::Applied { connection: ConnectionStatus::Connected, main_failed: Some(false) });
    assert_eq!(log.value((Holding, 1)), Some(6));
    assert_eq!(log.get((Holding, 0)).unwrap().history, vec![5]);
    assert_eq!((read.loading, read.read_duration, read.read_error.clone()), (false, Some(12), None));

    let r = apply_refresh(
        &mut read,
        &mut log,
        Holding,
        Some(Err("timeout".to_string())),
        None,
        30,
        2000,
        5,
        &ConnectionStatus::Connected,
    );
    assert_eq!(
        r,
        RefreshApplied::Applied { connection: ConnectionStatus::Error("timeout".to_string()), main_failed: Some(true) }
    );
    assert_eq!(read.read_error.as_deref(), Some("timeout"));
    assert_eq!(log.value((Holding, 1)), Some(6), "a failed read leaves the values");
}

#[test]
fn a_result_for_another_type_is_stale() {
    let mut read = ReadParams::default();
    read.register_type = Input;
    read.loading = true;
    let mut log = ReadLog::new();
    let r = apply_refresh(&mut read, &mut log, Holding, Some(Ok(vec![((Holding, 0), 5)])), None, 1, 1, 5, &ConnectionStatus::Unknown);
    assert_eq!(r, RefreshApplied::Stale);
    assert!(!read.loading);
    assert_eq!(log.value((Holding, 0)), None);
}

#[test]
fn a_panel_refresh_keeps_the_main_error_and_the_state_without_reads() {
    let mut read = ReadParams::default();
    read.read_error = Some("old".to_string());
    let mut log = ReadLog::new();
    let r = apply_refresh(&mut read, &mut log, Coil, None, Some(Ok(vec![((Coil, 3), 1)])), 4, 9, 5, &ConnectionStatus::Unknown);
    assert_eq!(r, RefreshApplied::Applied { connection: ConnectionStatus::Connected, main_failed: None });
    assert_eq!(read.read_error.as_deref(), Some("old"));
    let r = apply_refresh(&mut read, &mut log, Coil, None, None, 4, 9, 5, &ConnectionStatus::Reconnecting);
    assert_eq!(r, RefreshApplied::Applied { connection: ConnectionStatus::Reconnecting, main_failed: None });
}
