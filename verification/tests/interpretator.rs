use mtui::config::InterpretorConfig;
use mtui::interpretator::{format_ago, FloatTexts, Interpretor};
use mtui::modbus::WordOrder;

fn no_floats() -> FloatTexts {
    FloatTexts { half: "-".to_string(), single: "0".to_string(), double: "0".to_string() }
}

fn interpretor() -> Interpretor {
    let config = InterpretorConfig {
        time: true,
        ago: true,
        address_hex: false,
        ..InterpretorConfig::default()
    };
    Interpretor::new(config, WordOrder::ABCD)
}

#[test]
fn row_segments_line_up_with_the_header() {
    for (time, ago, label) in [(true, true, true), (false, false, false), (true, false, true)] {
        let config = InterpretorConfig { time, ago, label, ..InterpretorConfig::default() };
        let interpretor = Interpretor::new(config, WordOrder::ABCD);
        let header = interpretor.header();
        for segment in interpretor.row_segments() {
            assert_eq!(
                segment.text(header),
                segment.name,
                "segment {} is misaligned in {header:?}",
                segment.name
            );
        }
    }
}

#[test]
fn row_segments_line_up_with_a_rendered_row() {
    let interpretor = interpretor();
    let row = interpretor.format_row(
        42,
        0x1234,
        [Some(0), Some(0), Some(0)],
        "12:00:00.000",
        0,
        None,
        Some("pump"),
        &no_floats(),
    );
    let named = |name: &str| {
        interpretor
            .row_segments()
            .into_iter()
            .find(|s| s.name == name)
            .expect("segment")
            .text(&row)
    };
    assert_eq!(named("address"), "42");
    assert_eq!(named("u16"), "4660");
    assert_eq!(named("hex"), "1234");
    assert_eq!(named("time"), "12:00:00.000");
}

#[test]
fn row_prefix_pads_time_ago_and_address() {
    let row = interpretor().format_row(5, 1, [None; 3], "12:34:56.789", 3, None, None, &no_floats());
    assert!(row.starts_with("12:34:56.789 3s ago          5: "), "{row:?}");
}

#[test]
fn placeholder_prefix_matches_row_prefix_width() {
    let i = interpretor();
    let placeholder = i.placeholder(5, None);
    assert!(placeholder.starts_with("-            -               5: "), "{placeholder:?}");
    assert_eq!(placeholder.find("5: "), Some(i.prefix_width() as usize - 3));
}

#[test]
fn ago_text() {
    assert_eq!(format_ago(0), "now");
    assert_eq!(format_ago(59), "59s ago");
    assert_eq!(format_ago(125), "2m ago");
    assert_eq!(format_ago(3600), ">1h ago");
}
