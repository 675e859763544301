use mtui::app::{fuzzy_rank, fuzzy_score, reconnect_backoff, subnet_prefix_from, ApiBindState, PinnedRegisters};
use mtui::config::{demo_labels, Column, InterpretorConfig, KeybindAction, Keybinds};
use mtui::input::KeyCode;
use mtui::interpretator::{ascii_words, FloatTexts, Interpretor};
use mtui::logger::{LogBuffer, LogEntry, LogLevel, LogTime, CAP};
use mtui::mock::{m10k, mapped, qword, word, MockSetpoints};
use mtui::modbus::{DataBits, Parity, StopBits, WordOrder};
use mtui::num_ops::wrap_index;
use mtui::register::RegisterType;

fn entry(n: usize) -> LogEntry {
    LogEntry {
        time: LogTime { year: 2026, month: 1, day: 2, hour: 3, minute: 4, second: 5, millis: 6 },
        level: LogLevel::Warn,
        message: format!("m{n}"),
    }
}

#[test]
fn toggling_a_column_twice_restores_the_columns() {
    let mut c = InterpretorConfig::default();
    let before = c.visible.clone();
    c.toggle(Column::U32);
    assert!(c.is_visible(Column::U32));
    assert_eq!(
        c.visible,
        vec![Column::U16, Column::I16, Column::Hex, Column::U32, Column::Ascii, Column::Bits, Column::Custom]
    );
    c.toggle(Column::U32);
    assert_eq!(c.visible, before);
    c.toggle(Column::Hex);
    assert!(!c.is_visible(Column::Hex));
    c.toggle(Column::Hex);
    assert_eq!(c.visible, before);
}

#[test]
fn interpretor_toggle_redraws_the_header() {
    let mut i = Interpretor::new(InterpretorConfig::default(), WordOrder::ABCD);
    assert!(!i.header().contains("u64"));
    i.toggle(Column::U64);
    assert!(i.is_enabled(Column::U64));
    assert!(i.header().contains("u64"));
    for segment in i.row_segments() {
        assert_eq!(segment.text(i.header()), segment.name);
    }
}

#[test]
fn header_of_the_default_columns() {
    let i = Interpretor::new(InterpretorConfig::default(), WordOrder::ABCD);
    assert_eq!(
        i.header(),
        "time         address: u16   i16    hex  ascii bits                custom             label"
    );
    assert_eq!(i.prefix_width(), 22);
}

#[test]
fn rows_render_every_kind_of_cell() {
    let mut config = InterpretorConfig::default();
    config.time = false;
    config.label = false;
    config.visible = vec![
        Column::U8s, Column::I8s, Column::Hex32, Column::Bcd, Column::Bcd32, Column::U32,
        Column::I32, Column::U32M10K, Column::I32M10K, Column::U64, Column::I64,
    ];
    let i = Interpretor::new(config, WordOrder::ABCD);
    let floats = FloatTexts { half: String::new(), single: String::new(), double: String::new() };
    let row = i.format_row(1, 0x1234, [Some(0x5678), Some(0), Some(1)], "t", 0, None, None, &floats);
    let cell = |name: &str| {
        i.row_segments().into_iter().find(|s| s.name == name).expect("segment").text(&row)
    };
    assert_eq!(cell("u8"), "18/52");
    assert_eq!(cell("i8"), "18/52");
    assert_eq!(cell("hex32"), "12345678");
    assert_eq!(cell("bcd"), "1234");
    assert_eq!(cell("bcd32"), "12345678");
    assert_eq!(cell("u32"), "305419896");
    assert_eq!(cell("i32"), "305419896");
    assert_eq!(cell("u32 m10k"), "4660/22136");
    assert_eq!(cell("i32 m10k"), "4660/22136");
    assert_eq!(cell("u64"), "1311768464867721217");
    assert_eq!(cell("i64"), "1311768464867721217");

    let lone = i.format_row(1, 0xFFFF, [None, None, None], "t", 0, None, None, &floats);
    let cell = |name: &str| {
        i.row_segments().into_iter().find(|s| s.name == name).expect("segment").text(&lone)
    };
    assert_eq!(cell("i8"), "-1/-1");
    assert_eq!(cell("hex32"), "?");
    assert_eq!(cell("bcd"), "?");
    assert_eq!(cell("u64"), "?");
}

#[test]
fn interpret_all_lists_every_column_then_the_label() {
    let i = Interpretor::new(InterpretorConfig::default(), WordOrder::ABCD);
    let floats = FloatTexts { half: "1.5".to_string(), single: "2.5".to_string(), double: "3.5".to_string() };
    let all = i.interpret_all(0x4142, [Some(0x0A43), None, None], Some("x"), Some("pump"), &floats);
    assert_eq!(all.len(), 21);
    assert_eq!(all[0], ("u16", "16706".to_string()));
    assert_eq!(all[6], ("f16", "1.5".to_string()));
    assert_eq!(all[15], ("f32", "2.5".to_string()));
    assert_eq!(all[16], ("f64", "?".to_string()));
    assert_eq!(all[17], ("ascii", "AB.C".to_string()));
    assert_eq!(all[18], ("bits", "0100 0001 0100 0010".to_string()));
    assert_eq!(all[19], ("custom", "x".to_string()));
    assert_eq!(all[20], ("label", "pump".to_string()));
}

#[test]
fn ascii_words_show_printable_bytes() {
    assert_eq!(ascii_words(&[0x4869, 0x2100, 0x7F41]), "Hi!..A");
    assert_eq!(ascii_words(&[]), "");
}

#[test]
fn a_write_reads_back_from_the_mock() {
    let mut m = MockSetpoints::new();
    assert_eq!(m.setpoint(50), 2300);
    assert_eq!(m.setpoint(60), 0);
    assert!(m.write_single(50, 1234));
    assert_eq!(m.setpoint(50), 1234);
    assert_eq!(m.setpoint(51), 1500);
    assert_eq!(m.write_count(), 1);
    assert!(!m.write_single(200, 5), "outside the writable range");
    assert_eq!(m.setpoint(200), 0);
    assert_eq!(m.write_count(), 1);
    assert!(m.write_multiple(197, &[7, 8, 9]));
    assert_eq!((m.setpoint(197), m.setpoint(198), m.setpoint(199)), (7, 8, 9));
    assert_eq!(m.write_count(), 2);
    assert!(!m.write_multiple(198, &[1, 2, 3]), "one register past the range");
    assert_eq!(m.setpoint(198), 8);
}

#[test]
fn mock_register_helpers() {
    assert_eq!(word(0x1234_5678, 0), 0x1234);
    assert_eq!(word(0x1234_5678, 1), 0x5678);
    assert_eq!(qword(0x0102_0304_0506_0708, 0), 0x0102);
    assert_eq!(qword(0x0102_0304_0506_0708, 3), 0x0708);
    assert_eq!(m10k(123_456_789, 0), 2345);
    assert_eq!(m10k(123_456_789, 1), 6789);
    let zones = [(0u16, 499u16), (1000, 1199)];
    assert!(mapped(&zones, 495, 5));
    assert!(!mapped(&zones, 495, 6));
    assert!(mapped(&zones, 1199, 1));
    assert!(!mapped(&[(0u16, u16::MAX)], u16::MAX, 2), "no wrapping past the end");
    assert!(mapped(&zones, 700, 0));
}

#[test]
fn the_log_keeps_the_newest_entries() {
    let mut log = LogBuffer::new();
    for n in 0..CAP + 5 {
        log.push(entry(n));
    }
    assert_eq!(log.count(), CAP);
    let entries = log.snapshot();
    assert_eq!(entries[0].message, "m5");
    assert_eq!(entries[CAP - 1].message, format!("m{}", CAP + 4));
    assert_eq!(LogLevel::Error.tag(), "ERROR");
}

#[test]
fn serial_codes_round_trip() {
    for d in DataBits::ALL {
        assert_eq!(DataBits::from_code(d.code()), Ok(d));
    }
    for p in Parity::ALL {
        assert_eq!(Parity::from_code(p.code()), Ok(p));
    }
    for s in StopBits::ALL {
        assert_eq!(StopBits::from_code(s.code()), Ok(s));
    }
    assert!(DataBits::from_code(9).is_err());
}

#[test]
fn word_order_cycles_through_all_four() {
    let mut order = WordOrder::ABCD;
    for _ in 0..4 {
        order = order.next();
    }
    assert_eq!(order, WordOrder::ABCD);
    assert_eq!(WordOrder::ABCD.next(), WordOrder::BADC);
}

#[test]
fn register_type_toggle_cycles() {
    let mut t = RegisterType::Holding;
    for _ in 0..4 {
        t.toggle();
    }
    assert_eq!(t, RegisterType::Holding);
}

#[test]
fn key_names_round_trip() {
    for code in [KeyCode::Char('p'), KeyCode::Tab, KeyCode::Esc, KeyCode::PageDown] {
        assert_eq!(KeyCode::from_name(&code.name()), Some(code));
    }
    assert_eq!(KeyCode::from_name("nope"), None);
}

#[test]
fn keybinds_find_the_first_action_for_a_key() {
    let mut kb = Keybinds::default();
    assert_eq!(kb.action_for(KeyCode::Char('p')), Some(KeybindAction::Pin));
    kb.set(KeybindAction::Pin, KeyCode::Char('z'));
    assert_eq!(kb.get(KeybindAction::Pin), KeyCode::Char('z'));
    assert_eq!(kb.action_for(KeyCode::Char('p')), None);
}

#[test]
fn wrapping_back_and_forth_returns_to_the_start() {
    for len in 1..6u16 {
        for i in 0..len {
            assert_eq!(wrap_index(wrap_index(i, len, true), len, false), i);
            assert_eq!(wrap_index(wrap_index(i, len, false), len, true), i);
        }
    }
}

#[test]
fn pins_round_trip_through_cells() {
    let pins = PinnedRegisters {
        holdings: vec![1, 2],
        inputs: vec![3],
        coils: vec![],
        discretes: vec![4],
    };
    let cells = pins.clone().into_cells();
    assert_eq!(
        cells,
        vec![
            (RegisterType::Holding, 1),
            (RegisterType::Holding, 2),
            (RegisterType::Input, 3),
            (RegisterType::Discrete, 4)
        ]
    );
    assert_eq!(PinnedRegisters::from_cells(&cells), pins);
}

#[test]
fn api_bind_codes_round_trip() {
    for code in 0..3u8 {
        assert_eq!(ApiBindState::from_code(code).code(), code);
    }
    for state in [ApiBindState::Pending, ApiBindState::Bound, ApiBindState::Failed] {
        assert_eq!(ApiBindState::from_code(state.code()), state);
    }
}

#[test]
fn reconnects_back_off_to_a_cap() {
    assert_eq!(reconnect_backoff(0), 1_000);
    assert_eq!(reconnect_backoff(1), 1_000);
    assert_eq!(reconnect_backoff(2), 2_000);
    assert_eq!(reconnect_backoff(5), 16_000);
    assert_eq!(reconnect_backoff(6), 30_000);
    assert_eq!(reconnect_backoff(u32::MAX), 30_000);
}

#[test]
fn fuzzy_matches_rank_substrings_before_scattered_letters() {
    assert_eq!(fuzzy_score("", "anything"), Some(0));
    assert_eq!(fuzzy_score("pin", "Pin"), Some(1000));
    assert_eq!(fuzzy_score("in", "Pin"), Some(999));
    assert_eq!(fuzzy_score("pn", "Pin"), Some(0));
    assert_eq!(fuzzy_score("x", "Pin"), None);
    let items = [10, 20, 30, 40];
    let labels = ["Write", "Pin", "Panel", "Pin map"];
    assert_eq!(fuzzy_rank("pin", &items, &labels), vec![20, 40]);
    assert_eq!(fuzzy_rank("pn", &items, &labels), vec![20, 30, 40]);
    assert_eq!(fuzzy_rank("", &items, &labels), vec![10, 20, 30, 40]);
}

#[test]
fn the_subnet_prefix_comes_from_the_first_three_parts() {
    assert_eq!(subnet_prefix_from("192.168.1.20").as_deref(), Some("192.168.1."));
    assert_eq!(subnet_prefix_from("10.0.0"), Some("10.0.0.".to_string()));
    assert_eq!(subnet_prefix_from("10.0"), None);
    assert_eq!(subnet_prefix_from("300.1.1.1"), None);
}

#[test]
fn the_demo_labels_cover_the_simulated_meter() {
    let labels = demo_labels();
    assert_eq!(labels.len(), 47);
    assert_eq!(labels[0], ((RegisterType::Holding, 0), "model (ascii)".to_string()));
    assert_eq!(labels[46], ((RegisterType::Discrete, 8), "fault".to_string()));
    for pair in labels.windows(2) {
        assert!(pair[0].0 < pair[1].0, "sorted by register");
    }
}
