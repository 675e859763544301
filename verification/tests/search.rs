use mtui::app::search::{parse_address, parse_target};

#[test]
fn parses_decimal_addresses() {
    assert_eq!(parse_address("111"), Some(111));
    assert_eq!(parse_address(" 42 "), Some(42));
    assert_eq!(parse_address("70000"), Some(u16::MAX));
}

#[test]
fn parses_hex_addresses_with_x_prefix() {
    assert_eq!(parse_address("x6F"), Some(0x6F));
    assert_eq!(parse_address("X6f"), Some(0x6F));
    assert_eq!(parse_address("0x6F"), Some(0x6F));
    assert_eq!(parse_address("xFFFF"), Some(u16::MAX));
    assert_eq!(parse_address("x10000"), Some(u16::MAX));
}

#[test]
fn relative_targets_move_from_the_cursor() {
    assert_eq!(parse_target("+69", 100), Some((169, "move by +69".to_string())));
    assert_eq!(parse_target("-100", 250), Some((150, "move by -100".to_string())));
    assert_eq!(parse_target("+x10", 0), Some((16, "move by +16".to_string())));
    assert_eq!(parse_target(" - 5 ", 10), Some((5, "move by -5".to_string())));
}

#[test]
fn relative_targets_clamp_to_the_address_range() {
    assert_eq!(parse_target("-100", 50).map(|t| t.0), Some(0));
    assert_eq!(parse_target("+100", 65500).map(|t| t.0), Some(u16::MAX));
}

#[test]
fn absolute_targets_keep_the_jump_text() {
    assert_eq!(parse_target("111", 0), Some((111, "jump to this address".to_string())));
    assert_eq!(parse_target("x6F", 0), Some((0x6F, "jump to this address".to_string())));
    assert_eq!(parse_target("+", 10), None);
    assert_eq!(parse_target("-", 10), None);
}

#[test]
fn rejects_non_numeric_input() {
    assert_eq!(parse_address(""), None);
    assert_eq!(parse_address("x"), None);
    assert_eq!(parse_address("xG1"), None);
    assert_eq!(parse_address("temp"), None);
    assert_eq!(parse_address("-5"), None);
}
