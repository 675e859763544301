use mtui::config::KeybindAction;
use mtui::config::{Column, InterpretorConfig};
use mtui::handler::{edit_position, PositionEdit};
use mtui::handler::{route_key, KeyRoute, Screen};
use mtui::interpretator::Interpretor;
use mtui::modbus::WordOrder;
use mtui::state::ReadPanel;
use mtui::state::ReadParams;
use mtui::config::Keybinds;
use mtui::handler::{
    discovery_key, popup_key, write_edit, DiscoveryKeyAction, PopupAction, PopupFieldTag, WriteEdit,
};
use mtui::input::KeyCode;
use mtui::state::{
    CustomField, DiscoveryColumn, DiscoveryParams, InterfaceKind, PopupKind, SweepField, UnitField,
    WriteParams, WriteType,
};

fn kb() -> Keybinds {
    Keybinds::default()
}

#[test]
fn esc_enter_and_arrows_in_list_popups() {
    let kb = kb();
    for kind in [PopupKind::Help, PopupKind::Raw, PopupKind::Search] {
        assert_eq!(popup_key(kind, &kb, KeyCode::Esc, PopupFieldTag::NoField), PopupAction::Close);
        assert_eq!(popup_key(kind, &kb, KeyCode::Enter, PopupFieldTag::NoField), PopupAction::Commit);
        assert_eq!(popup_key(kind, &kb, KeyCode::Up, PopupFieldTag::NoField), PopupAction::Move(false));
        assert_eq!(popup_key(kind, &kb, KeyCode::Char('x'), PopupFieldTag::NoField), PopupAction::Char('x'));
    }
    assert_eq!(popup_key(PopupKind::Label, &kb, KeyCode::Down, PopupFieldTag::NoField), PopupAction::Nothing);
    assert_eq!(popup_key(PopupKind::Discovery, &kb, KeyCode::Esc, PopupFieldTag::NoField), PopupAction::Discovery);
}

#[test]
fn info_popups_close_on_their_own_key() {
    let kb = kb();
    assert_eq!(popup_key(PopupKind::About, &kb, KeyCode::Char('a'), PopupFieldTag::NoField), PopupAction::Close);
    assert_eq!(popup_key(PopupKind::About, &kb, KeyCode::Char('b'), PopupFieldTag::NoField), PopupAction::Nothing);
    assert_eq!(popup_key(PopupKind::Stats, &kb, KeyCode::Char('S'), PopupFieldTag::NoField), PopupAction::Close);
    assert_eq!(popup_key(PopupKind::Dump, &kb, KeyCode::Char('d'), PopupFieldTag::NoField), PopupAction::Close);
    assert_eq!(popup_key(PopupKind::Dump, &kb, KeyCode::Enter, PopupFieldTag::NoField), PopupAction::Commit);
    assert_eq!(popup_key(PopupKind::Inspect, &kb, KeyCode::Char('r'), PopupFieldTag::NoField), PopupAction::Refresh);
    assert_eq!(popup_key(PopupKind::Inspect, &kb, KeyCode::Char(','), PopupFieldTag::NoField), PopupAction::CursorKey(KeyCode::Char(',')));
    assert_eq!(popup_key(PopupKind::DeviceId, &kb, KeyCode::Tab, PopupFieldTag::NoField), PopupAction::Cycle(true));
    assert_eq!(popup_key(PopupKind::DeviceId, &kb, KeyCode::Right, PopupFieldTag::NoField), PopupAction::HScroll(true));
    assert_eq!(popup_key(PopupKind::Logs, &kb, KeyCode::Char('.'), PopupFieldTag::NoField), PopupAction::Scroll(16));
    assert_eq!(popup_key(PopupKind::Logs, &kb, KeyCode::Up, PopupFieldTag::NoField), PopupAction::Scroll(-1));
}

#[test]
fn write_popup_keys_edit_the_value() {
    let kb = kb();
    let k = |c| popup_key(PopupKind::Write, &kb, c, PopupFieldTag::NoField);
    assert_eq!(k(KeyCode::Char('w')), PopupAction::WriteToggleType);
    assert_eq!(k(KeyCode::Up), PopupAction::WriteEdit(WriteEdit::Decrement));
    assert_eq!(k(KeyCode::Char('-')), PopupAction::WriteEdit(WriteEdit::Negate));
    assert_eq!(k(KeyCode::Char('7')), PopupAction::WriteEdit(WriteEdit::AddDigit(7)));
    assert_eq!(k(KeyCode::Backspace), PopupAction::WriteEdit(WriteEdit::RemoveDigit));
    assert_eq!(k(KeyCode::Char(' ')), PopupAction::WriteToggleBit);
    assert_eq!(k(KeyCode::Left), PopupAction::WriteMoveBit(true));
}

#[test]
fn write_edits_are_clamped_to_the_kind() {
    let mut w = WriteParams { position: 0, result: None, value: Some(65535), write_type: WriteType::Word, bit_cursor: 3, force_multiple: false };
    write_edit(&mut w, WriteEdit::Increment);
    assert_eq!(w.value, Some(65535));
    write_edit(&mut w, WriteEdit::AddDigit(1));
    assert_eq!(w.value, Some(65535));
    write_edit(&mut w, WriteEdit::Negate);
    assert_eq!(w.value, Some(-32768));
    write_edit(&mut w, WriteEdit::RemoveDigit);
    assert_eq!(w.value, Some(-3276));
    w.value = None;
    write_edit(&mut w, WriteEdit::Decrement);
    assert_eq!(w.value, None);
    write_edit(&mut w, WriteEdit::AddDigit(4));
    assert_eq!(w.value, Some(4));
    w.write_type = WriteType::Coil;
    write_edit(&mut w, WriteEdit::AddDigit(2));
    assert_eq!(w.value, Some(1));
    assert_eq!(w.bit_cursor, 3);
}

#[test]
fn field_popups_follow_their_field() {
    let kb = kb();
    let unit = |c, f| popup_key(PopupKind::Unit, &kb, c, PopupFieldTag::Unit(f));
    assert_eq!(unit(KeyCode::Enter, UnitField::Id), PopupAction::UnitCommit);
    assert_eq!(unit(KeyCode::Enter, UnitField::Hit(2)), PopupAction::UnitCommitHit(2));
    assert_eq!(unit(KeyCode::Enter, UnitField::From), PopupAction::UnitScan);
    assert_eq!(unit(KeyCode::Enter, UnitField::Mode), PopupAction::Toggle);
    assert_eq!(unit(KeyCode::Left, UnitField::Repr), PopupAction::Toggle);
    assert_eq!(unit(KeyCode::Char('x'), UnitField::Id), PopupAction::Nothing);
    assert_eq!(unit(KeyCode::Char('i'), UnitField::Id), PopupAction::Close);
    let sweep = |c, f| popup_key(PopupKind::SweepConfig, &kb, c, PopupFieldTag::Sweep(f));
    assert_eq!(sweep(KeyCode::Char(' '), SweepField::Mode), PopupAction::Toggle);
    assert_eq!(sweep(KeyCode::Char(' '), SweepField::From), PopupAction::Nothing);
    assert_eq!(sweep(KeyCode::Char('4'), SweepField::From), PopupAction::Char('4'));
    let custom = |c| popup_key(PopupKind::Custom, &kb, c, PopupFieldTag::Custom(CustomField::Ops));
    assert_eq!(custom(KeyCode::Delete), PopupAction::RemoveRule);
    assert_eq!(custom(KeyCode::Right), PopupAction::Cycle(true));
    assert_eq!(popup_key(PopupKind::Custom, &kb, KeyCode::Esc, PopupFieldTag::NoField), PopupAction::Nothing);
}

#[test]
fn questions_confirm_or_cancel() {
    let kb = kb();
    for kind in [PopupKind::Import, PopupKind::CycleConfig, PopupKind::Quit] {
        assert_eq!(popup_key(kind, &kb, KeyCode::Enter, PopupFieldTag::NoField), PopupAction::Commit);
        assert_eq!(popup_key(kind, &kb, KeyCode::Backspace, PopupFieldTag::NoField), PopupAction::Cancel);
        assert_eq!(popup_key(kind, &kb, KeyCode::Char('y'), PopupFieldTag::NoField), PopupAction::Nothing);
    }
}

#[test]
fn discovery_keys_edit_and_act() {
    let kb = kb();
    let mut d = DiscoveryParams::default();
    assert_eq!(discovery_key(&mut d, &kb, KeyCode::Enter, true), DiscoveryKeyAction::Connect);
    assert_eq!(discovery_key(&mut d, &kb, KeyCode::Esc, true), DiscoveryKeyAction::Close);
    discovery_key(&mut d, &kb, KeyCode::Right, true);
    assert_eq!(d.interface, InterfaceKind::Wired);
    discovery_key(&mut d, &kb, KeyCode::Right, false);
    assert_eq!(d.interface, InterfaceKind::Network);
    discovery_key(&mut d, &kb, KeyCode::Down, true);
    assert_eq!(d.selected, 1);
    discovery_key(&mut d, &kb, KeyCode::Char('7'), true);
    assert_eq!(d.slave_id, 17);
    discovery_key(&mut d, &kb, KeyCode::Char('9'), true);
    assert_eq!(d.slave_id, 179);
    discovery_key(&mut d, &kb, KeyCode::Char('1'), true);
    assert_eq!(d.slave_id, 179);
    discovery_key(&mut d, &kb, KeyCode::Backspace, true);
    assert_eq!(d.slave_id, 17);
    discovery_key(&mut d, &kb, KeyCode::Tab, true);
    assert_eq!(d.column, DiscoveryColumn::Side);
    discovery_key(&mut d, &kb, KeyCode::Char('.'), true);
    discovery_key(&mut d, &kb, KeyCode::Char('x'), true);
    assert_eq!(d.ip, "127.0.0.1.");
    discovery_key(&mut d, &kb, KeyCode::Backspace, true);
    assert_eq!(d.ip, "127.0.0.1");
    discovery_key(&mut d, &kb, KeyCode::Down, true);
    discovery_key(&mut d, &kb, KeyCode::Down, true);
    assert_eq!(discovery_key(&mut d, &kb, KeyCode::Enter, true), DiscoveryKeyAction::ScanNetwork);
}

#[test]
fn moving_in_the_device_popup_changes_nothing_else() {
    let kb = kb();
    let mut d = DiscoveryParams::default();
    d.baud_rate = 19200;
    discovery_key(&mut d, &kb, KeyCode::Down, true);
    let mut expected = DiscoveryParams::default();
    expected.baud_rate = 19200;
    expected.selected = 1;
    assert_eq!(d, expected);
}

#[test]
fn keys_are_routed_by_screen_then_binding() {
    let kb = kb();
    let main = Screen::Read(ReadPanel::Main);
    assert_eq!(route_key(main, false, &kb, true, KeyCode::Char('c')), KeyRoute::Interrupt);
    assert_eq!(route_key(Screen::Settings, false, &kb, true, KeyCode::Char('c')), KeyRoute::Interrupt);
    assert_eq!(route_key(main, false, &kb, true, KeyCode::Char('p')), KeyRoute::Ignore);
    assert_eq!(route_key(Screen::Settings, false, &kb, false, KeyCode::Char('p')), KeyRoute::Settings);
    assert_eq!(route_key(Screen::LogView, false, &kb, false, KeyCode::Up), KeyRoute::LogView);
    assert_eq!(route_key(Screen::Popup(PopupKind::Help), false, &kb, false, KeyCode::Up), KeyRoute::Popup(PopupKind::Help));
    assert_eq!(route_key(main, true, &kb, false, KeyCode::Char('d')), KeyRoute::GraphInterpretation);
    assert_eq!(route_key(main, true, &kb, false, KeyCode::Char('p')), KeyRoute::GraphHold);
    assert_eq!(route_key(main, false, &kb, false, KeyCode::Char('p')), KeyRoute::Action(KeybindAction::Pin));
    assert_eq!(route_key(main, false, &kb, false, KeyCode::Left), KeyRoute::ScrollColumns(false));
    assert_eq!(route_key(Screen::Read(ReadPanel::Matrix), false, &kb, false, KeyCode::Left), KeyRoute::MatrixStep(true));
    assert_eq!(route_key(main, false, &kb, false, KeyCode::Char('4')), KeyRoute::Digit(4));
    assert_eq!(route_key(main, false, &kb, false, KeyCode::Char('!')), KeyRoute::Ignore);
    assert_eq!(route_key(main, false, &kb, false, KeyCode::Backspace), KeyRoute::RemoveDigit);
}

#[test]
fn the_address_is_edited_digit_by_digit() {
    let mut r = ReadParams::default();
    edit_position(&mut r, PositionEdit::Digit(6), 10, 8);
    edit_position(&mut r, PositionEdit::Digit(5), 10, 8);
    assert_eq!(r.position, 65);
    edit_position(&mut r, PositionEdit::Step(true), 10, 8);
    assert_eq!(r.position, 64);
    edit_position(&mut r, PositionEdit::RemoveDigit, 10, 8);
    assert_eq!(r.position, 6);
    r.position = 65535;
    edit_position(&mut r, PositionEdit::Step(false), 10, 8);
    assert_eq!(r.position, 65535);
    edit_position(&mut r, PositionEdit::Digit(1), 10, 8);
    assert_eq!(r.position, 65535);
}

#[test]
fn toggling_a_column_twice_restores_the_settings() {
    let mut cfg = InterpretorConfig::default();
    cfg.label_width = 33;
    let mut i = Interpretor::new(cfg.clone(), WordOrder::ABCD);
    let header = i.header().to_string();
    i.toggle(Column::F32);
    assert!(i.is_enabled(Column::F32));
    assert_eq!(i.config().label_width, 33);
    i.toggle(Column::F32);
    assert_eq!(i.config(), cfg);
    assert_eq!(i.header(), header);
}
