use mtui::logger::{export, LogEntry, LogLevel, LogTime};

#[test]
fn exported_lines_carry_the_full_timestamp_and_a_padded_level() {
    let time = LogTime { year: 2026, month: 9, day: 18, hour: 13, minute: 5, second: 7, millis: 0 };
    let entries = [
        LogEntry { time, level: LogLevel::Info, message: "Connected".to_string() },
        LogEntry { time, level: LogLevel::Error, message: "Read error | timeout".to_string() },
    ];
    assert_eq!(
        export(&entries),
        "2026-09-18T13:05:07.000 INFO  Connected\n2026-09-18T13:05:07.000 ERROR Read error | timeout\n"
    );
    assert_eq!(export(&[]), "");
}
