use mtui::custom::{parse_enum, CustomOp, CustomRepr, OpKind};
use mtui::modbus::{DataBits, Parity, StopBits, WordOrder};
use mtui::register::{RegisterCell, RegisterType};
use mtui::settings::{SettingsCategory, SettingsField, SettingsFocus};
use mtui::state::{
    cycle_field, CustomField, CustomParams, DiscoveryField, DiscoveryParams, InspectMode,
    InterfaceKind, Popup, PopupKind, PopupPayload, ReadPanel, ReadParams, SettingsParams,
    StatusMessage,
};

#[test]
fn the_editor_shows_fields_for_its_representation() {
    let mut c = CustomParams::default();
    assert_eq!(
        c.fields(),
        vec![
            CustomField::Repr,
            CustomField::Ops,
            CustomField::Enum,
            CustomField::Bits,
            CustomField::Decimals,
            CustomField::Prefix,
            CustomField::Suffix
        ]
    );
    c.cycle(CustomField::Repr, true);
    assert_eq!(c.repr, CustomRepr::I16);
    c.cycle(CustomField::Repr, false);
    c.cycle(CustomField::Repr, false);
    assert_eq!(c.repr, CustomRepr::F64, "wraps");
    assert_eq!(c.fields()[1], CustomField::WordOrder);
    assert_eq!(c.current_field(), CustomField::Repr);
    c.cycle(CustomField::WordOrder, true);
    assert_eq!(c.word_order, Some(WordOrder::ABCD));
    assert_eq!(c.current_field(), CustomField::WordOrder);
}

#[test]
fn typing_and_backspacing_edit_the_buffers() {
    let mut c = CustomParams::default();
    c.error = Some("old".to_string());
    c.type_char(CustomField::Decimals, '2');
    c.type_char(CustomField::Decimals, 'x');
    c.type_char(CustomField::Decimals, '3');
    c.type_char(CustomField::Decimals, '4');
    assert_eq!(c.decimals, "23", "digits only, two at most");
    assert_eq!(c.error, None);
    for ch in "123456".chars() {
        c.type_char(CustomField::Next, ch);
    }
    assert_eq!(c.next_buffer, "12345");
    c.backspace(CustomField::Next);
    assert_eq!(c.next_buffer, "1234");
    c.next.push(9);
    c.next_buffer.clear();
    c.backspace(CustomField::Next);
    assert!(c.next.is_empty(), "an empty buffer drops the last entry");
}

#[test]
fn enter_adds_entries_or_reports_why_not() {
    let mut c = CustomParams::default();
    let no_op = Err("unused".to_string());
    assert!(!c.enter(CustomField::Prefix, no_op.clone()), "nothing to add: save");

    c.enum_buffer = "3=Running".to_string();
    assert!(c.enter(CustomField::Enum, no_op.clone()));
    assert_eq!(c.enum_map, vec![parse_enum("3=Running").unwrap()]);
    assert!(c.enum_buffer.is_empty());

    c.enum_buffer = "Running".to_string();
    assert!(c.enter(CustomField::Enum, no_op.clone()));
    assert_eq!(c.error.as_deref(), Some("enum: use value=text"));
    assert_eq!(c.enum_buffer, "Running");

    c.bit_buffer = "64=x".to_string();
    assert!(c.enter(CustomField::Bits, no_op.clone()));
    assert_eq!(c.error.as_deref(), Some("bit: bit must be 0-63"));

    c.op_buffer = "*2".to_string();
    let op = CustomOp { op: OpKind::Mul, v_bits: 2.0f64.to_bits() };
    assert!(c.enter(CustomField::Ops, Ok(op)));
    assert_eq!(c.ops, vec![op]);
    c.op_buffer = "*x".to_string();
    assert!(c.enter(CustomField::Ops, Err("invalid number".to_string())));
    assert_eq!(c.error.as_deref(), Some("op: invalid number"));

    c.next_buffer = "7".to_string();
    assert!(c.enter(CustomField::Next, no_op.clone()));
    assert_eq!(c.error.as_deref(), Some("next: u16 uses 1 register(s)"));

    c.repr = CustomRepr::U32;
    c.next_buffer = "x".to_string();
    assert!(c.enter(CustomField::Next, no_op.clone()));
    assert_eq!(c.error.as_deref(), Some("next: invalid address"));
    c.next_buffer = " 524 ".to_string();
    assert!(c.enter(CustomField::Next, no_op));
    assert_eq!(c.next, vec![524]);
    assert_eq!(c.current_field(), CustomField::Next);
}

#[test]
fn cycling_device_fields_wraps() {
    let mut d = DiscoveryParams::default();
    cycle_field(&mut d, DiscoveryField::Interface, true, true);
    assert_eq!(d.interface, InterfaceKind::Wired);
    cycle_field(&mut d, DiscoveryField::Interface, true, false);
    assert_eq!(d.interface, InterfaceKind::Network);
    cycle_field(&mut d, DiscoveryField::Interface, true, false);
    assert_eq!(d.interface, InterfaceKind::Wired, "wraps without the mock");
    cycle_field(&mut d, DiscoveryField::Parity, false, true);
    assert_eq!(d.parity, Parity::Even);
    cycle_field(&mut d, DiscoveryField::DataBits, true, true);
    assert_eq!(d.data_bits, DataBits::Five);
    cycle_field(&mut d, DiscoveryField::StopBits, true, true);
    assert_eq!(d.stop_bits, StopBits::Two);
    cycle_field(&mut d, DiscoveryField::WordOrder, false, true);
    assert_eq!(d.word_order, WordOrder::DCBA);
    cycle_field(&mut d, DiscoveryField::Baud, true, true);
    assert_eq!(d.baud_rate, 19200);
}

#[test]
fn status_messages_expire_after_four_seconds() {
    let mut r = ReadParams::default();
    assert!(r.active_status(0).is_none());
    r.set_status(StatusMessage::ok("saved"), 1_000);
    assert_eq!(r.active_status(4_999).map(|m| m.text.as_str()), Some("saved"));
    assert!(r.active_status(5_000).is_none());
    r.loading = true;
    r.finish_read(7_000);
    assert!(!r.loading);
    assert_eq!(r.refresh_timer, 7_000);
}

#[test]
fn the_window_centers_the_cursor() {
    let mut r = ReadParams { position: 100, ..ReadParams::default() };
    r.scroll_to_cursor(10, 1);
    assert_eq!(r.window_start, 95);
    r.position = 2;
    r.scroll_to_cursor(10, 1);
    assert_eq!(r.window_start, 0);
    r.position = u16::MAX;
    r.scroll_to_cursor(10, 1);
    assert_eq!(r.window_start, u16::MAX - 9);
    r.panel = ReadPanel::Matrix;
    r.position = 100;
    r.scroll_to_cursor(4, 8);
    assert_eq!(r.window_start, 80);
    r.pinned_index = 9;
    r.scroll_pinned(3, 5);
    assert_eq!((r.pinned_index, r.pinned_top), (4, 2));
}

#[test]
fn popups_hand_out_their_state() {
    let mut popup = Popup::Inspect(InspectMode::Max);
    assert_eq!(popup.kind(), PopupKind::Inspect);
    assert_eq!(InspectMode::from_popup(&popup), Some(&InspectMode::Max));
    assert!(CustomParams::from_popup(&popup).is_none());
    if let Some(mode) = InspectMode::from_popup_mut(&mut popup) {
        *mode = InspectMode::Avg;
    }
    assert_eq!(popup, Popup::Inspect(InspectMode::Avg));
    assert_eq!(Popup::Quit.kind(), PopupKind::Quit);
}

#[test]
fn settings_navigation() {
    let mut s = SettingsParams::default();
    assert_eq!(s.current_category(), SettingsCategory::Data);
    assert_eq!(s.current_field(), Some(SettingsField::BatchSize));
    assert_eq!(s.current_groups().len(), 5);
    s.enter_category();
    assert_eq!(s.focus, SettingsFocus::Fields);

    let mut kb = SettingsParams { category: 4, kb_selected: 7, kb_capturing: true, ..SettingsParams::default() };
    kb.enter_category();
    assert_eq!((kb.focus, kb.kb_selected, kb.kb_capturing), (SettingsFocus::Fields, 0, false));
    kb.kb_move(true, 32);
    assert_eq!(kb.kb_selected, 31);
    kb.kb_page(false, 32);
    assert_eq!(kb.kb_selected, 31);
    kb.kb_page(true, 32);
    assert_eq!(kb.kb_selected, 21);
    kb.kb_move(false, 0);
    assert_eq!(kb.kb_selected, 21);

    let mut empty = SettingsParams { category: 6, ..SettingsParams::default() };
    empty.enter_category();
    assert_eq!(empty.focus, SettingsFocus::Categories, "a search without results stays put");
}

#[test]
fn register_cells_order_by_type_then_address() {
    let a: RegisterCell = (RegisterType::Holding, 9);
    let b: RegisterCell = (RegisterType::Input, 0);
    assert!(a < b);
}
