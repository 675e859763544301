use mtui::app::settings::{settings_adjust, Settings};
use mtui::config::{BatchAnchor, CyclePanels, CycleTypes, InterpretorConfig};
use mtui::register::RegisterType;
use mtui::settings::SettingsField;
use mtui::state::ReadPanel;

fn settings() -> Settings {
    Settings {
        skip_unsaved_warning: false,
        save_position_on_exit: false,
        show_mock_device: true,
        read_only: false,
        batch_anchor: BatchAnchor::Middle,
        read_full_customs: false,
        custom_by_registers: false,
        filter_panels_by_type: false,
        api_enabled: false,
        api_unit_id_override: false,
        log_writes: false,
        reconnect_on_timeout: true,
        show_rule_continuation: true,
        show_clock: true,
        show_frame_time: false,
        show_ram: false,
        show_connection_label: true,
        show_ascii_strip: false,
        show_inactive_tabs: true,
        show_matrix_context: true,
        show_read_window: false,
        graph_time_axis: false,
        startup_panel: ReadPanel::Main,
        startup_type: RegisterType::Holding,
        cycle_types: CycleTypes::default(),
        cycle_panels: CyclePanels::default(),
        batch_size: 10,
        refresh_interval_ms: 1000,
        changed_expiry_ms: 0,
        graph_history: 100,
        matrix_columns: 8,
        startup_address: 0,
        padding_horizontal: 1,
        padding_vertical: 0,
        api_port: 0,
    }
}

#[test]
fn a_flag_flips_and_nothing_else_changes() {
    let mut s = settings();
    let mut i = InterpretorConfig::default();
    settings_adjust(&mut s, &mut i, SettingsField::ReadOnly, 1, 40);
    let mut expected = settings();
    expected.read_only = true;
    assert_eq!(s, expected);
    assert_eq!(i, InterpretorConfig::default());
}

#[test]
fn choices_cycle_both_ways() {
    let mut s = settings();
    let mut i = InterpretorConfig::default();
    settings_adjust(&mut s, &mut i, SettingsField::BatchAnchor, 1, 40);
    assert_eq!(s.batch_anchor, BatchAnchor::End);
    settings_adjust(&mut s, &mut i, SettingsField::BatchAnchor, 1, 40);
    assert_eq!(s.batch_anchor, BatchAnchor::Start);
    settings_adjust(&mut s, &mut i, SettingsField::StartupPanel, -1, 40);
    assert_eq!(s.startup_panel, ReadPanel::Matrix);
    settings_adjust(&mut s, &mut i, SettingsField::TimeMode, 1, 40);
    assert!(i.ago);
    settings_adjust(&mut s, &mut i, SettingsField::AddressMode, -1, 40);
    assert!(i.address_hex);
    settings_adjust(&mut s, &mut i, SettingsField::CycleCoils, 1, 40);
    assert!(!s.cycle_types.coils && s.cycle_types.holdings);
}

#[test]
fn numbers_step_within_their_bounds() {
    let mut s = settings();
    let mut i = InterpretorConfig::default();
    settings_adjust(&mut s, &mut i, SettingsField::RefreshInterval, 3, 40);
    assert_eq!(s.refresh_interval_ms, 1300);
    settings_adjust(&mut s, &mut i, SettingsField::BatchSize, -20, 40);
    assert_eq!(s.batch_size, 1);
    settings_adjust(&mut s, &mut i, SettingsField::PaddingHorizontal, 100, 40);
    assert_eq!(s.padding_horizontal, 50);
    settings_adjust(&mut s, &mut i, SettingsField::LabelWidth, 30, 40);
    assert_eq!(i.label_width, 40);
    settings_adjust(&mut s, &mut i, SettingsField::ApiPort, -1, 40);
    assert_eq!(s.api_port, 0);
}

#[test]
fn locked_startup_fields_do_not_move() {
    let mut s = settings();
    s.save_position_on_exit = true;
    let before = s;
    let mut i = InterpretorConfig::default();
    settings_adjust(&mut s, &mut i, SettingsField::StartupAddress, 5, 40);
    settings_adjust(&mut s, &mut i, SettingsField::StartupType, 1, 40);
    assert_eq!(s, before);
}
