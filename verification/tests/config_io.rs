use mtui::app::config_io::{
    copy_summary, cycle_target, extend_entries, import_summary, load_outcome, startup_of,
};
use mtui::register::RegisterType::{Coil, Holding, Input};
use mtui::state::{MessageKind, ReadPanel, ReadParams};

#[test]
fn imported_entries_replace_those_of_their_register() {
    let mut labels = vec![((Holding, 1), "a".to_string()), ((Input, 3), "b".to_string())];
    extend_entries(
        &mut labels,
        vec![((Coil, 0), "c".to_string()), ((Holding, 1), "new".to_string())],
    );
    assert_eq!(
        labels,
        vec![
            ((Holding, 1), "new".to_string()),
            ((Input, 3), "b".to_string()),
            ((Coil, 0), "c".to_string()),
        ]
    );
}

#[test]
fn the_last_of_two_imported_entries_wins() {
    let mut list: Vec<((mtui::register::RegisterType, u16), u8)> = Vec::new();
    extend_entries(&mut list, vec![((Input, 7), 1), ((Holding, 2), 5), ((Input, 7), 9)]);
    assert_eq!(list, vec![((Holding, 2), 5), ((Input, 7), 9)]);
}

#[test]
fn an_import_reports_its_counts() {
    let m = import_summary(3, 0, 12);
    assert_eq!(m.kind, MessageKind::Success);
    assert_eq!(m.text, "Imported 3 pin(s), 0 label(s), 12 rule(s)");
}

#[test]
fn a_copy_reports_its_counts_or_the_missing_clipboard() {
    let m = copy_summary(true, 1, 2, 0);
    assert_eq!(m.kind, MessageKind::Success);
    assert_eq!(m.text, "Copied 1 pin(s), 2 label(s), 0 rule(s) to clipboard");
    let m = copy_summary(false, 1, 2, 0);
    assert_eq!(m.kind, MessageKind::Failure);
    assert_eq!(m.text, "Clipboard unavailable");
}

#[test]
fn the_cycle_key_prefers_the_next_configuration() {
    assert_eq!(cycle_target("  other.toml ", "a.toml", "a.toml"), Some("other.toml".to_string()));
    assert_eq!(cycle_target("   ", "b.toml", "a.toml"), Some("a.toml".to_string()));
    assert_eq!(cycle_target("", "a.toml", "a.toml"), None);
}

#[test]
fn the_startup_position_is_where_the_view_stands() {
    let mut read = ReadParams::default();
    read.position = 40;
    read.register_type = Coil;
    read.panel = ReadPanel::Pinned;
    let s = startup_of(&read);
    assert_eq!(s.address, 40);
    assert_eq!(s.register_type, Coil);
    assert_eq!(s.panel, ReadPanel::Pinned);
}

#[test]
fn a_load_reports_each_outcome() {
    let m = load_outcome("x.toml", Some(Ok(())));
    assert_eq!((m.kind, m.text.as_str()), (MessageKind::Success, "Loaded x.toml"));
    let m = load_outcome("x.toml", Some(Err("timeout")));
    assert_eq!((m.kind, m.text.as_str()), (MessageKind::Failure, "Load failed: device: timeout"));
    let m = load_outcome("x.toml", None);
    assert_eq!(
        (m.kind, m.text.as_str()),
        (MessageKind::Failure, "Load failed: task stopped unexpectedly")
    );
}
