use mtui::app::settings::{
    erased_color_index, erased_setting, field_disabled, numeric_spec, stepped_setting, typed_color_index, typed_setting,
};
use mtui::settings::SettingsField;
use mtui::state::SettingsParams;

#[test]
fn numeric_settings_have_their_bounds_and_steps() {
    assert_eq!(numeric_spec(SettingsField::BatchSize, 60), Some((1, 65535, 1)));
    assert_eq!(numeric_spec(SettingsField::RefreshInterval, 60), Some((0, 4294967295, 100)));
    assert_eq!(numeric_spec(SettingsField::ApiPort, 60), Some((-1, 65535, 1)));
    assert_eq!(numeric_spec(SettingsField::LabelWidth, 60), Some((0, 60, 1)));
    assert_eq!(numeric_spec(SettingsField::ShowClock, 60), None);
}

#[test]
fn stepping_a_setting_stays_within_its_bounds() {
    let interval = numeric_spec(SettingsField::RefreshInterval, 60).unwrap();
    assert_eq!(stepped_setting(500, 1, interval), 600);
    assert_eq!(stepped_setting(50, -1, interval), 0);
    let batch = numeric_spec(SettingsField::BatchSize, 60).unwrap();
    assert_eq!(stepped_setting(1, -1, batch), 1);
    assert_eq!(stepped_setting(65535, 1, batch), 65535);
}

#[test]
fn typing_and_erasing_digits_edit_a_setting() {
    let port = numeric_spec(SettingsField::ApiPort, 60).unwrap();
    assert_eq!(typed_setting(-1, 8, port), 8, "no port counts as 0");
    assert_eq!(typed_setting(808, 0, port), 8080);
    assert_eq!(typed_setting(8080, 9, port), 65535, "at most the last port");
    assert_eq!(erased_setting(8080, port.0), 808);
    assert_eq!(erased_setting(8, port.0), -1);
    let batch = numeric_spec(SettingsField::BatchSize, 60).unwrap();
    assert_eq!(typed_setting(0, 0, batch), 1);
}

#[test]
fn palette_indices_take_digits_up_to_255() {
    assert_eq!(typed_color_index(None, 7), 7);
    assert_eq!(typed_color_index(Some(25), 3), 253);
    assert_eq!(typed_color_index(Some(25), 9), 255);
    assert_eq!(erased_color_index(Some(253)), Some(25));
    assert_eq!(erased_color_index(Some(0)), None);
    assert_eq!(erased_color_index(None), None);
}

#[test]
fn startup_fields_lock_while_the_position_is_saved() {
    assert!(field_disabled(SettingsField::StartupAddress, true));
    assert!(!field_disabled(SettingsField::StartupAddress, false));
    assert!(!field_disabled(SettingsField::BatchSize, true));
}

#[test]
fn the_load_path_is_typed_and_erased() {
    let mut s = SettingsParams::default();
    for c in "a.json".chars() {
        s.type_load_path(c);
    }
    s.erase_load_path();
    assert_eq!(s.load_path, "a.jso");
}
