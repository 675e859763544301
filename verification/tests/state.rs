use mtui::register::RegisterType;
use mtui::settings::{SettingsCategory, SettingsField, SettingsFocus};
use mtui::state::{
    scroll_window, ScanState, SettingsParams, StatusMessage, UnitField, UnitParams, UnitScanHit,
};

fn run(cursor: u16, top: u16, rows: u16, len: u16) -> (u16, u16) {
    let (mut cursor, mut top) = (cursor, top);
    scroll_window(&mut cursor, &mut top, rows, len);
    (cursor, top)
}

#[test]
fn scroll_window_follows_cursor() {
    assert_eq!(run(25, 10, 10, 100), (25, 16));
    assert_eq!(run(5, 10, 10, 100), (5, 5));
    assert_eq!(run(12, 10, 10, 100), (12, 10));
}

#[test]
fn scroll_window_clamps_to_shorter_list() {
    assert_eq!(run(50, 45, 20, 4), (3, 0));
    assert_eq!(run(50, 45, 3, 10), (9, 7));
    assert_eq!(run(0, 0, 5, 0), (0, 0));
}

#[test]
fn hidden_exception_hits_leave_the_field_list_but_keep_their_index() {
    let hit = |id: u8, result: Result<Vec<u16>, String>| UnitScanHit { unit_id: id, result };
    let mut params = UnitParams {
        hits: vec![hit(1, Ok(vec![1])), hit(2, Err("IllegalDataAddress".into())), hit(3, Ok(vec![3]))],
        ..UnitParams::default()
    };
    let hits = |p: &UnitParams| -> Vec<UnitField> {
        p.fields().into_iter().filter(|f| matches!(f, UnitField::Hit(_))).collect()
    };
    assert_eq!(hits(&params), vec![UnitField::Hit(0), UnitField::Hit(1), UnitField::Hit(2)]);

    params.show_exceptions = false;
    assert_eq!(hits(&params), vec![UnitField::Hit(0), UnitField::Hit(2)]);
}

#[test]
fn a_remembered_scan_keeps_its_hits_but_follows_the_current_request() {
    let params = UnitParams {
        scan: ScanState::Probing,
        from: 3,
        to: 9,
        status: Some(StatusMessage::info("Device is busy.")),
        hits: vec![UnitScanHit { unit_id: 5, result: Ok(vec![1]) }],
        ..UnitParams::default()
    };
    let resumed = params.suspended().resumed(7, RegisterType::Input, 40, 2);
    assert_eq!(resumed.scan, ScanState::Stopped, "a closed popup ends its scan");
    assert_eq!(resumed.status, None);
    assert_eq!((resumed.from, resumed.to), (3, 9));
    assert_eq!(resumed.hits.len(), 1);
    assert_eq!(resumed.id, 7);
    assert_eq!((resumed.register_type, resumed.address, resumed.amount), (RegisterType::Input, 40, 2));

    let done = UnitParams { scan: ScanState::Done, ..UnitParams::default() };
    assert_eq!(done.suspended().scan, ScanState::Done);
}

#[test]
fn tab_jumps_between_the_form_and_the_hit_list() {
    let mut params = UnitParams { selected: 3, ..UnitParams::default() };
    params.switch_column();
    assert_eq!(params.current_field(), UnitField::Mode, "no hits, stay put");

    params.hits.push(UnitScanHit { unit_id: 5, result: Ok(vec![1]) });
    params.switch_column();
    assert_eq!(params.current_field(), UnitField::Hit(0));
    params.switch_column();
    assert_eq!(params.current_field(), UnitField::Id);
}

#[test]
fn the_save_position_toggle_sits_above_the_startup_fields() {
    let fields = SettingsCategory::Data.fields();
    let position = |field| fields.iter().position(|&f| f == field).unwrap();
    assert!(position(SettingsField::SavePositionOnExit) < position(SettingsField::StartupPanel));
    assert_eq!(fields.iter().filter(|f| f.is_startup()).count(), 3);
}

#[test]
fn cycling_categories_wraps_and_keeps_focus() {
    let last = SettingsCategory::ALL.len() as u16 - 1;
    let mut s = SettingsParams {
        category: last,
        field: 3,
        focus: SettingsFocus::Fields,
        ..SettingsParams::default()
    };
    s.cycle_category();
    assert_eq!((s.category, s.field, s.focus), (0, 0, SettingsFocus::Fields));
}

#[test]
fn search_is_the_last_category_and_lists_no_static_fields() {
    assert_eq!(*SettingsCategory::ALL.last().unwrap(), SettingsCategory::Search);
    assert!(SettingsCategory::Search.fields().is_empty());
}

#[test]
fn searching_matches_labels_and_descriptions_grouped_by_category() {
    let groups = SettingsCategory::search("clock");
    assert_eq!(groups.len(), 1);
    assert_eq!(groups[0].0, Some(SettingsCategory::Display));
    assert_eq!(groups[0].1, vec![SettingsField::ShowClock]);

    let by_description = SettingsCategory::search("auto-refresh");
    assert_eq!(by_description[0].1, vec![SettingsField::RefreshInterval]);

    let words = SettingsCategory::search("CYCLE panel");
    let fields: Vec<_> = words.iter().flat_map(|(_, f)| f.iter().copied()).collect();
    assert!(fields.contains(&SettingsField::CyclePinned));
    assert!(!fields.contains(&SettingsField::CycleHoldings));

    let colors = SettingsCategory::search("color");
    assert!(colors.iter().all(|(c, _)| *c != Some(SettingsCategory::Theme)));

    assert!(SettingsCategory::search("   ").is_empty());
    assert!(SettingsCategory::search("no such setting").is_empty());
}

#[test]
fn typing_a_query_resets_the_field_cursor() {
    let search = SettingsCategory::ALL.len() as u16 - 1;
    let mut s = SettingsParams { category: search, field: 4, ..SettingsParams::default() };
    for c in "memory".chars() {
        s.query_push(c);
    }
    assert_eq!(s.field, 0);
    assert_eq!(s.current_fields(), vec![SettingsField::ShowRam]);
    s.query_pop();
    assert_eq!(s.query, "memor");
}
