use mtui::app::lifecycle::{lost_read, write_finished};
use mtui::mock::{
    answers, holding_register, id_answer, input_register, refusal, IdReadCode, InputReadings, MeterClock, MockRefusal,
    MockRequest, MockSetpoints,
};

fn clock(seconds: u32, energy_wh: u32) -> MeterClock {
    MeterClock { seconds, seconds_u16: seconds as u16, energy_wh, tariff: 2, current_peak: 1725, status: 0x8003, alarms: 4 }
}
use mtui::state::{ConnectionStatus, MessageKind, ReadParams};

#[test]
fn the_meter_names_itself_in_its_registers() {
    let sp = MockSetpoints::new();
    let name: Vec<u16> = (0..8).map(|a| holding_register(&sp, 1, a, clock(0, 0))).collect();
    let bytes: Vec<u8> = name.iter().flat_map(|w| w.to_be_bytes()).collect();
    assert_eq!(bytes, b"MTUI SIMULATOR  ");
    let vendor: Vec<u8> = (200..216).flat_map(|a| holding_register(&sp, 1, a, clock(0, 0)).to_be_bytes()).collect();
    assert_eq!(vendor, b"      POWER BUS SIMULATOR!      ");
    assert_eq!(holding_register(&sp, 1, 8, clock(0, 0)), 0x0142);
    assert_eq!(holding_register(&sp, 7, 11, clock(0, 0)), 7);
    assert_eq!(holding_register(&sp, 2, 14, clock(0, 0)), 3);
}

#[test]
fn counters_are_split_over_registers() {
    let sp = MockSetpoints::new();
    let serial = 24_000_000u32 + 1_111 * 2;
    assert_eq!(holding_register(&sp, 2, 9, clock(0, 0)), (serial >> 16) as u16);
    assert_eq!(holding_register(&sp, 2, 10, clock(0, 0)), (serial & 0xffff) as u16);
    assert_eq!(holding_register(&sp, 1, 12, clock(70_000, 0)), 1);
    assert_eq!(holding_register(&sp, 1, 1001, clock(0, 123_456)), (123_456u32 & 0xffff) as u16);
    assert_eq!(holding_register(&sp, 1, 1005, clock(0, 123_456)), 12);
    assert_eq!(holding_register(&sp, 1, 1006, clock(0, 123_456)), 3_456);
    assert_eq!(holding_register(&sp, 1, 50, clock(0, 0)), 2300);
    assert_eq!(holding_register(&sp, 1, 400, clock(0, 0)), 0);
}

#[test]
fn input_registers_take_the_measured_values() {
    let r = InputReadings {
        low: [2301, 2299, 2300, 150, 151, 152, 5000, 285],
        power_bits: 0x4048_0000,
        pf_bits: 0x3f6b_851f,
        apparent_va: 70_000,
        reactive_var: (-5i32) as u32,
        energy_wh: 98_765,
        kwh_bits: 0x1122_3344_5566_7788,
        signals: std::array::from_fn(|i| 1000 + i as u16),
        demand: 360,
        peak_demand: 450,
        peak_time: 0x0001_0002,
        waveform: std::array::from_fn(|i| 2000 + i as u16),
        harmonics: std::array::from_fn(|i| 100 + i as u16),
        profile: std::array::from_fn(|i| 30 + i as u16),
        counters: std::array::from_fn(|i| 7 * i as u16),
    };
    assert_eq!(input_register(1, &r), 2299);
    assert_eq!(input_register(6, &r), 5000);
    assert_eq!(input_register(8, &r), 0x4048);
    assert_eq!(input_register(12, &r), 1);
    assert_eq!(input_register(15, &r), 0xfffb);
    assert_eq!(input_register(17, &r), 8_765);
    assert_eq!(input_register(20, &r), 0x1122);
    assert_eq!(input_register(23, &r), 0x7788);
    assert_eq!(input_register(30, &r), 1000);
    assert_eq!(input_register(53, &r), 1023);
    assert_eq!(input_register(61, &r), 450);
    assert_eq!(input_register(63, &r), 2);
    assert_eq!(input_register(131, &r), 2031);
    assert_eq!(input_register(140, &r), 100);
    assert_eq!(input_register(223, &r), 53);
    assert_eq!(input_register(431, &r), 217);
    assert_eq!(input_register(24, &r), 0);
    assert_eq!(input_register(499, &r), 0);
}

#[test]
fn a_lost_read_task_fails_the_connection() {
    let mut read = ReadParams::default();
    read.loading = true;
    let status = lost_read(&mut read);
    assert_eq!(status, ConnectionStatus::Error("read task stopped unexpectedly".to_string()));
    assert_eq!(read.read_error.as_deref(), Some("read task stopped unexpectedly"));
    assert!(!read.loading);
}

#[test]
fn a_finished_write_reports_its_outcome() {
    let (ok, m) = write_finished(Some((true, "Wrote 5")));
    assert!(ok);
    assert_eq!((m.text.as_str(), m.kind), ("Wrote 5", MessageKind::Success));
    let (ok, m) = write_finished(Some((false, "timeout")));
    assert!(!ok);
    assert_eq!(m.kind, MessageKind::Failure);
    let (ok, m) = write_finished(None);
    assert!(!ok);
    assert_eq!((m.text.as_str(), m.kind), ("write task stopped unexpectedly", MessageKind::Failure));
}

#[test]
fn the_meter_reports_tariffs_limits_and_events() {
    let sp = MockSetpoints::new();
    let c = clock(100, 0);
    assert_eq!(holding_register(&sp, 3, 216, c), 10_021);
    assert_eq!(holding_register(&sp, 3, 218, c), 10_047);
    assert_eq!(holding_register(&sp, 3, 251, c), 183);
    assert_eq!(holding_register(&sp, 3, 254, c), 2);
    assert_eq!(holding_register(&sp, 3, 300, c), 2300 - 15 - 8);
    assert_eq!(holding_register(&sp, 3, 305, c), 2300 + 15 + 8 + 6);
    assert_eq!(holding_register(&sp, 3, 307, c), 1734);
    assert_eq!(holding_register(&sp, 3, 322, c), 7);
    assert_eq!(holding_register(&sp, 3, 323, c), 100 + 274);
    assert_eq!(holding_register(&sp, 3, 1100, c), 0x8003);
    assert_eq!(holding_register(&sp, 3, 1101, c), 4);
}

#[test]
fn only_units_up_to_nine_answer_and_unknown_requests_are_refused() {
    assert!(answers(0) && answers(9) && !answers(10));
    assert_eq!(refusal(MockRequest::ReadHolding(495, 5)), None);
    assert_eq!(refusal(MockRequest::ReadHolding(495, 6)), Some(MockRefusal::IllegalDataAddress));
    assert_eq!(refusal(MockRequest::ReadInput(1000, 1)), Some(MockRefusal::IllegalDataAddress));
    assert_eq!(refusal(MockRequest::WriteSingle(199)), None);
    assert_eq!(refusal(MockRequest::WriteMultiple(198, 3)), Some(MockRefusal::IllegalDataAddress));
    assert_eq!(refusal(MockRequest::WriteMultiple(50, 150)), None);
    assert_eq!(refusal(MockRequest::Other), Some(MockRefusal::IllegalFunction));
    assert_eq!(refusal(MockRequest::Custom), None);
}

#[test]
fn device_identification_gives_the_levels_asked_for() {
    let basic = id_answer(4, IdReadCode::Basic, 0).unwrap();
    assert_eq!(basic.iter().map(|o| o.0).collect::<Vec<_>>(), vec![0, 1, 2]);
    assert_eq!(basic[0].1, "POWER BUS SIMULATOR");
    let all = id_answer(4, IdReadCode::Regular, 0).unwrap();
    assert_eq!(all.len(), 8);
    assert_eq!(all[6].1, "Power Bus Sim Slave 4");
    assert_eq!(id_answer(4, IdReadCode::Specific, 2).unwrap(), vec![(2, "v1.42".to_string())]);
    assert_eq!(id_answer(4, IdReadCode::Specific, 8), Err(MockRefusal::IllegalDataAddress));
}
