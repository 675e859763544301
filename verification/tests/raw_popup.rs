use mtui::state::{MessageKind, RawField, RawParams};

fn typed(code: &str, data: &str) -> RawParams {
    let mut p = RawParams::default();
    for c in code.chars() {
        p.type_char(c);
    }
    p.switch_field();
    for c in data.chars() {
        p.type_char(c);
    }
    p
}

#[test]
fn the_code_takes_three_digits_and_the_data_hex() {
    let p = typed("1x2345", "0a gZ FF");
    assert_eq!(p.code, "123");
    assert_eq!(p.data, "0a  FF");
    assert_eq!(p.field, RawField::Data);
}

#[test]
fn backspace_edits_the_current_field() {
    let mut p = typed("17", "01 02");
    p.backspace();
    assert_eq!(p.data, "01 0");
    p.switch_field();
    p.backspace();
    p.backspace();
    p.backspace();
    assert_eq!(p.code, "");
}

#[test]
fn a_valid_request_is_sent() {
    let mut p = typed("17", "01 0a FF");
    assert_eq!(p.send(false, true, true), Some((17, vec![0x01, 0x0A, 0xFF])));
    let status = p.status.clone().unwrap();
    assert_eq!((status.text.as_str(), status.kind), ("Sending...", MessageKind::Info));
}

#[test]
fn a_bad_request_says_why() {
    let mut p = typed("17", "01 0");
    assert_eq!(p.send(true, true, true), None);
    assert_eq!(p.status.clone().unwrap().text, "Read-only mode is on - custom calls may write and are disabled");
    assert_eq!(p.send(false, true, true), None);
    assert_eq!(p.status.clone().unwrap().text, "hex data needs an even number of digits");

    let mut p = typed("999", "");
    assert_eq!(p.send(false, true, true), None);
    assert_eq!(p.status.clone().unwrap().text, "Function code must be 0-255");

    let mut p = typed("", "");
    assert_eq!(p.send(false, true, true), None);
    assert_eq!(p.status.clone().unwrap().text, "Function code must be 0-255");

    let mut p = typed("8", "");
    assert_eq!(p.send(false, false, true), None);
    assert_eq!(p.status.clone().unwrap().text, "No device connected");
    assert_eq!(p.send(false, true, false), None);
    assert_eq!(p.status.clone().unwrap().text, "Device is busy.");
    assert_eq!(p.send(false, true, true), Some((8, vec![])));
}

#[test]
fn the_answer_is_shown_as_hex_pairs() {
    let mut p = RawParams::default();
    p.apply_result(Some(Ok(vec![0x00, 0x1F, 0xAB])));
    assert_eq!(p.response.as_deref(), Some("00 1F AB"));
    assert_eq!(p.status.clone().unwrap().text, "3 byte(s) returned");
    p.apply_result(Some(Ok(vec![])));
    assert_eq!(p.response.as_deref(), Some("(empty)"));
    p.apply_result(Some(Err("illegal function".to_string())));
    assert_eq!(p.response, None);
    assert_eq!(p.status.clone().unwrap().text, "Failed: illegal function");
    p.apply_result(None);
    assert_eq!(p.status.clone().unwrap().text, "Failed: task stopped unexpectedly");
}

#[test]
fn characters_beyond_ascii_are_no_hex_bytes() {
    assert_eq!(mtui::app::raw::parse_hex_bytes("éé"), Err("invalid hex byte 'é'".to_string()));
    assert_eq!(mtui::app::raw::parse_hex_bytes("zzé"), Err("invalid hex byte 'zz'".to_string()));
    assert_eq!(mtui::app::raw::parse_hex_bytes("0102é"), Err("invalid hex byte 'é'".to_string()));
    assert_eq!(
        mtui::app::raw::parse_hex_bytes("ab\u{20ac}"),
        Err("hex data needs an even number of digits".to_string())
    );
}
