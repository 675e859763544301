use mtui::app::write::open_write;
use mtui::register::RegisterType;
use mtui::state::{MessageKind, WriteParams, WriteType};

fn word_popup(value: Option<i64>) -> WriteParams {
    open_write(false, RegisterType::Holding, 10, None, value.map(|v| v as u16), None).unwrap()
}

#[test]
fn read_only_mode_refuses_the_write_popup() {
    let e = open_write(true, RegisterType::Holding, 10, None, Some(1), None).unwrap_err();
    assert_eq!(e.kind, MessageKind::Warn);
    assert_eq!(e.text, "Read-only mode is on \u{2014} writes are disabled (toggle in settings)");
}

#[test]
fn input_types_are_read_only() {
    let e = open_write(false, RegisterType::Input, 10, None, Some(1), None).unwrap_err();
    assert_eq!(e.text, "Input registers are read-only \u{2014} cannot write");
    let e = open_write(false, RegisterType::Discrete, 10, None, Some(1), None).unwrap_err();
    assert_eq!(e.text, "Discrete inputs are read-only \u{2014} cannot write");
}

#[test]
fn the_popup_opens_with_the_kind_and_value_of_the_register() {
    let w = word_popup(Some(7));
    assert_eq!((w.position, w.write_type, w.value, w.bit_cursor), (10, WriteType::Word, Some(7), 15));
    assert!(!w.force_multiple);
    assert_eq!(w.result, None);

    let w = open_write(false, RegisterType::Holding, 3, Some(2), Some(1), Some(70000)).unwrap();
    assert_eq!((w.write_type, w.value, w.bit_cursor), (WriteType::DWord, Some(70000), 31));

    let w = open_write(false, RegisterType::Holding, 3, Some(1), Some(1), Some(70000)).unwrap();
    assert_eq!(w.write_type, WriteType::Word);

    let w = open_write(false, RegisterType::Coil, 0, Some(4), Some(1), None).unwrap();
    assert_eq!((w.write_type, w.value, w.bit_cursor), (WriteType::Coil, Some(1), 0));
}

#[test]
fn the_type_key_cycles_word_forced_word_double() {
    let mut w = word_popup(Some(0));
    w.value = Some(-70000);
    w.toggle_type();
    assert_eq!((w.write_type, w.force_multiple), (WriteType::Word, true));
    assert_eq!(w.value, Some(-32768), "clamped into a word");
    w.toggle_type();
    assert_eq!((w.write_type, w.force_multiple), (WriteType::DWord, false));
    w.bit_cursor = 31;
    w.value = Some(5_000_000_000);
    w.toggle_type();
    assert_eq!((w.write_type, w.force_multiple), (WriteType::Word, false));
    assert_eq!(w.bit_cursor, 15);
    assert_eq!(w.value, Some(65535));
}

#[test]
fn a_coil_holds_zero_or_one() {
    let mut w = open_write(false, RegisterType::Coil, 0, None, Some(0), None).unwrap();
    w.value = Some(9);
    w.clamp_value();
    assert_eq!(w.value, Some(1));
    w.toggle_type();
    assert_eq!(w.write_type, WriteType::Coil);
}

#[test]
fn the_bit_cursor_stays_on_the_bits_of_the_kind() {
    let mut w = word_popup(Some(0));
    w.move_bit(true);
    assert_eq!(w.bit_cursor, 15);
    w.move_bit(false);
    w.move_bit(false);
    assert_eq!(w.bit_cursor, 13);
    w.bit_cursor = 0;
    w.move_bit(false);
    assert_eq!(w.bit_cursor, 0);
    w.move_bit(true);
    assert_eq!(w.bit_cursor, 1);
}

#[test]
fn toggling_a_bit_flips_it_in_the_value() {
    let mut w = word_popup(None);
    w.bit_cursor = 3;
    w.toggle_bit();
    assert_eq!(w.value, Some(8));
    w.toggle_bit();
    assert_eq!(w.value, Some(0));
    w.bit_cursor = 31;
    w.toggle_bit();
    assert_eq!(w.value, Some(0x8000_0000));
    w.value = Some(-1);
    w.bit_cursor = 0;
    w.toggle_bit();
    assert_eq!(w.value, Some(0xFFFF_FFFE), "only the low 32 bits are kept");
}
