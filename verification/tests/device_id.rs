use mtui::modbus::DeviceIdAccess;
use mtui::state::{DeviceIdParams, MessageKind};

fn objects(access: DeviceIdAccess) -> Vec<(u8, String)> {
    match access {
        DeviceIdAccess::Basic => vec![(0, "mtui".to_string()), (1, "meter".to_string()), (2, "1.0".to_string())],
        _ => vec![(0, "mtui".to_string()), (3, "https://example.invalid".to_string())],
    }
}

#[test]
fn cycling_during_a_read_shows_the_new_access_level_objects() {
    let mut p = DeviceIdParams::default();
    assert_eq!(p.begin_read(true, true), Some(DeviceIdAccess::Basic));
    assert!(p.loading);

    assert!(!p.cycle_access(true), "no second read while one is under way");
    assert_eq!(p.access, DeviceIdAccess::Regular);
    assert!(p.loading, "the pending read keeps loading");

    assert!(p.apply_result(Some((DeviceIdAccess::Basic, Ok(objects(DeviceIdAccess::Basic))))));
    assert!(p.loading);
    assert_eq!(p.begin_read(true, true), Some(DeviceIdAccess::Regular));
    assert!(!p.apply_result(Some((DeviceIdAccess::Regular, Ok(objects(DeviceIdAccess::Regular))))));

    assert_ne!(objects(DeviceIdAccess::Regular), objects(DeviceIdAccess::Basic));
    assert_eq!(p.objects, objects(DeviceIdAccess::Regular));
    assert_eq!(p.access, DeviceIdAccess::Regular);
    assert!(!p.loading);
}

#[test]
fn a_result_for_the_selected_access_level_is_applied() {
    let mut p = DeviceIdParams::default();
    let access = p.begin_read(true, true).unwrap();
    assert!(!p.apply_result(Some((access, Ok(objects(access))))));
    assert_eq!(p.objects, objects(DeviceIdAccess::Basic));
    let status = p.status.clone().unwrap();
    assert_eq!(status.text, "Read 3 object(s)");
    assert_eq!(status.kind, MessageKind::Success);
}

#[test]
fn a_read_without_objects_or_with_an_error_says_so() {
    let mut p = DeviceIdParams::default();
    p.begin_read(true, true);
    p.apply_result(Some((DeviceIdAccess::Basic, Ok(Vec::new()))));
    assert_eq!(p.status.clone().unwrap().text, "No identification objects returned");
    assert_eq!(p.status.clone().unwrap().kind, MessageKind::Warn);

    p.objects = objects(DeviceIdAccess::Basic);
    p.begin_read(true, true);
    p.apply_result(Some((DeviceIdAccess::Basic, Err("timeout".to_string()))));
    assert!(p.objects.is_empty());
    assert_eq!(p.status.clone().unwrap().text, "Read failed: timeout");

    p.begin_read(true, true);
    p.apply_result(None);
    assert_eq!(p.status.clone().unwrap().text, "Read failed: task stopped unexpectedly");
    assert!(!p.loading);
}

#[test]
fn a_read_needs_a_free_device() {
    let mut p = DeviceIdParams::default();
    assert_eq!(p.begin_read(false, true), None);
    assert_eq!(p.status.clone().unwrap().text, "Device is busy.");
    assert!(!p.loading);
    p.objects = objects(DeviceIdAccess::Basic);
    assert_eq!(p.begin_read(true, false), None);
    assert_eq!(p.status.clone().unwrap().text, "No device connected");
    assert!(p.objects.is_empty());
}

#[test]
fn the_access_levels_cycle_and_reset_the_scroll() {
    let mut p = DeviceIdParams::default();
    p.h_offset = 16;
    assert!(p.cycle_access(false));
    assert_eq!(p.h_offset, 0);
    p.cycle_access(false);
    assert_eq!(p.access, DeviceIdAccess::Extended);
    p.cycle_access(false);
    assert_eq!(p.access, DeviceIdAccess::Basic);
    p.hscroll(20, true);
    p.hscroll(20, true);
    p.hscroll(20, true);
    assert_eq!(p.h_offset, 20);
    p.hscroll(20, false);
    assert_eq!(p.h_offset, 12);
}
