use mtui::modbus::Interface;
use mtui::state::{DiscoveryColumn, DiscoveryField, DiscoveryParams, InterfaceKind};

fn wired_with_ports(ports: &[&str]) -> DiscoveryParams {
    let mut d = DiscoveryParams {
        ports: ports.iter().map(|p| p.to_string()).collect(),
        ..DiscoveryParams::default()
    };
    d.set_interface(InterfaceKind::Wired);
    d
}

#[test]
fn side_column_follows_the_interface() {
    let mut d = DiscoveryParams::default();
    assert!(d.side_fields().is_empty(), "the mock has nothing to configure");

    d.ports = vec!["/dev/ttyUSB0".to_string(), "/dev/ttyS0".to_string()];
    d.set_interface(InterfaceKind::Wired);
    assert_eq!(
        d.side_fields(),
        vec![
            DiscoveryField::Port(0),
            DiscoveryField::Port(1),
            DiscoveryField::CustomPath,
            DiscoveryField::Baud,
            DiscoveryField::DataBits,
            DiscoveryField::Parity,
            DiscoveryField::StopBits
        ]
    );

    d.set_found(vec!["10.0.0.5".to_string()]);
    d.set_interface(InterfaceKind::Network);
    assert_eq!(
        d.side_fields(),
        vec![
            DiscoveryField::Ip,
            DiscoveryField::NetPort,
            DiscoveryField::ScanNetwork,
            DiscoveryField::Found(0)
        ]
    );
}

#[test]
fn tab_switches_columns_only_when_there_is_a_side() {
    let mut d = DiscoveryParams::default();
    d.toggle_column();
    assert_eq!(d.column, DiscoveryColumn::Common, "nothing to switch to on the mock");

    let mut d = wired_with_ports(&["/dev/ttyUSB0"]);
    d.toggle_column();
    assert_eq!(d.column, DiscoveryColumn::Side);
    assert_eq!(d.current_field(), DiscoveryField::Port(0));
    d.move_cursor(true);
    assert_eq!(d.current_field(), DiscoveryField::CustomPath);
    d.move_cursor(true);
    assert_eq!(d.current_field(), DiscoveryField::Baud);
    d.move_cursor(false);
    d.move_cursor(false);
    d.move_cursor(false);
    assert_eq!(d.current_field(), DiscoveryField::StopBits, "wraps within the column");

    d.toggle_column();
    assert_eq!(d.current_field(), DiscoveryField::Interface);
    d.move_cursor(false);
    assert_eq!(d.current_field(), DiscoveryField::Connect, "wraps within the column");
}

#[test]
fn a_typed_path_wins_over_the_list() {
    let mut d = wired_with_ports(&["/dev/ttyUSB0", "/dev/ttyUSB1"]);
    d.port_index = 1;
    assert_eq!(d.serial_path().as_deref(), Some("/dev/ttyUSB1"));

    d.custom_path = "  /dev/ttyAMA0 ".to_string();
    assert!(d.custom_path_active());
    assert_eq!(d.serial_path().as_deref(), Some("/dev/ttyAMA0"));
    assert!(matches!(
        d.device_config().interface,
        Interface::Wired(ref w) if w.path == "/dev/ttyAMA0" && w.baud_rate == 9600
    ));

    d.custom_path = "   ".to_string();
    assert!(!d.custom_path_active(), "whitespace is not a path");
    assert_eq!(d.serial_path().as_deref(), Some("/dev/ttyUSB1"));
}

#[test]
fn baud_steps_to_the_nearest_preset_and_wraps() {
    let mut d = DiscoveryParams::default();
    assert_eq!(d.baud_rate, 9600);
    d.cycle_baud(true);
    assert_eq!(d.baud_rate, 19200);
    d.cycle_baud(false);
    d.cycle_baud(false);
    assert_eq!(d.baud_rate, 4800);

    d.baud_rate = 250_000;
    assert!(!d.is_preset_baud());
    d.cycle_baud(true);
    assert_eq!(d.baud_rate, 460_800);
    d.baud_rate = 250_000;
    d.cycle_baud(false);
    assert_eq!(d.baud_rate, 230_400);

    d.baud_rate = 921_600;
    d.cycle_baud(true);
    assert_eq!(d.baud_rate, 1200, "wraps past the top");
    d.cycle_baud(false);
    assert_eq!(d.baud_rate, 921_600, "wraps past the bottom");

    d.baud_rate = 0;
    d.cycle_baud(true);
    assert_eq!(d.baud_rate, 1200);
}

#[test]
fn a_typed_path_needs_no_enumerated_ports() {
    let mut d = wired_with_ports(&[]);
    assert_eq!(d.serial_path(), None);
    d.custom_path = "/dev/ttyAMA0".to_string();
    assert_eq!(d.serial_path().as_deref(), Some("/dev/ttyAMA0"));
}

#[test]
fn leaving_for_the_mock_drops_back_to_the_common_column() {
    let mut d = wired_with_ports(&["/dev/ttyUSB0"]);
    d.toggle_column();
    d.set_interface(InterfaceKind::Mock);
    assert_eq!(d.column, DiscoveryColumn::Common);
    assert_eq!(d.current_field(), DiscoveryField::Interface);
}

#[test]
fn a_shrinking_list_keeps_the_cursor_in_range() {
    let mut d = DiscoveryParams::default();
    d.set_interface(InterfaceKind::Network);
    d.set_found(vec!["10.0.0.1".to_string(), "10.0.0.2".to_string()]);
    d.toggle_column();
    d.side_selected = 4; // Found(1)
    assert_eq!(d.current_field(), DiscoveryField::Found(1));
    d.set_found(Vec::new());
    assert_eq!(d.current_field(), DiscoveryField::ScanNetwork);
}

fn wired_device(path: &str) -> mtui::modbus::DeviceConfig {
    let mut device = mtui::modbus::DeviceConfig::default();
    device.interface = Interface::Wired(mtui::modbus::InterfaceWiredParams {
        path: path.to_string(),
        baud_rate: 19200,
        data_bits: mtui::modbus::DataBits::Eight,
        parity: mtui::modbus::Parity::NoParity,
        stop_bits: mtui::modbus::StopBits::One,
    });
    device
}

fn network_device(ip: &str, port: u16, rtu: bool) -> mtui::modbus::DeviceConfig {
    let mut device = mtui::modbus::DeviceConfig::default();
    let params = mtui::modbus::InterfaceNetworkParams { ip: ip.to_string(), port };
    device.interface = if rtu { Interface::RtuOverTcp(params) } else { Interface::Network(params) };
    device
}

#[test]
fn an_unlisted_configured_path_shows_up_as_the_custom_path() {
    let device = wired_device("/dev/serial/by-id/usb-not-enumerated-here");
    let d = DiscoveryParams::from_device(&device, false, vec!["/dev/ttyUSB0".to_string()], None);
    assert_eq!(d.interface, InterfaceKind::Wired);
    assert_eq!(d.custom_path, "/dev/serial/by-id/usb-not-enumerated-here");
    assert_eq!(
        d.serial_path().as_deref(),
        Some("/dev/serial/by-id/usb-not-enumerated-here"),
        "the popup must not silently swap in a different port"
    );
    assert_eq!(d.baud_rate, 19200);
}

#[test]
fn a_listed_configured_path_is_picked_from_the_list() {
    let device = wired_device("/dev/ttyUSB1");
    let ports = vec!["/dev/ttyUSB0".to_string(), "/dev/ttyUSB1".to_string()];
    let d = DiscoveryParams::from_device(&device, true, ports, None);
    assert_eq!(d.port_index, 1);
    assert_eq!(d.custom_path, "");
    assert_eq!(d.serial_path().as_deref(), Some("/dev/ttyUSB1"));
}

#[test]
fn rtu_over_tcp_shares_the_network_side_and_maps_to_its_own_interface() {
    let mut d = DiscoveryParams { ip: "10.0.0.9".to_string(), net_port: 8899, ..DiscoveryParams::default() };
    d.set_interface(InterfaceKind::RtuOverTcp);
    assert_eq!(d.side_fields(), vec![DiscoveryField::Ip, DiscoveryField::NetPort, DiscoveryField::ScanNetwork]);
    assert!(matches!(
        d.device_config().interface,
        Interface::RtuOverTcp(ref n) if n.ip == "10.0.0.9" && n.port == 8899
    ));

    let d = DiscoveryParams::from_device(&network_device("10.0.0.9", 8899, true), true, Vec::new(), None);
    assert_eq!(d.interface, InterfaceKind::RtuOverTcp);
    assert_eq!(d.ip, "10.0.0.9");
    assert_eq!(d.net_port, 8899);
}

#[test]
fn configured_network_address_is_shown_as_is() {
    let d = DiscoveryParams::from_device(&network_device("10.1.2.3", 1502, false), true, Vec::new(), Some("192.168.1.".to_string()));
    assert_eq!(d.interface, InterfaceKind::Network);
    assert_eq!(d.ip, "10.1.2.3");
    assert_eq!(d.net_port, 1502);
}

#[test]
fn other_interfaces_prefill_a_subnet_or_loopback() {
    let mock = mtui::modbus::DeviceConfig::default();
    let d = DiscoveryParams::from_device(&mock, true, Vec::new(), Some("192.168.1.".to_string()));
    assert_eq!(d.ip, "192.168.1.");
    let d = DiscoveryParams::from_device(&mock, true, Vec::new(), None);
    assert_eq!(d.ip, "127.0.0.1");
    assert!(d.ip == "127.0.0.1" || d.ip.ends_with('.'), "unexpected prefill: {}", d.ip);
}

#[test]
fn a_hidden_mock_opens_as_a_serial_port() {
    let mock = mtui::modbus::DeviceConfig::default();
    assert_eq!(DiscoveryParams::from_device(&mock, false, Vec::new(), None).interface, InterfaceKind::Wired);
    assert_eq!(DiscoveryParams::from_device(&mock, true, Vec::new(), None).interface, InterfaceKind::Mock);
}

#[test]
fn using_a_port_row_picks_it_and_lands_on_connect() {
    let mut d = wired_with_ports(&["/dev/ttyUSB0", "/dev/ttyUSB1"]);
    d.custom_path = "/dev/ttyAMA0".to_string();
    d.choose_port(1);
    assert_eq!(d.port_index, 1);
    assert!(d.custom_path.is_empty(), "picking a port supersedes the typed path");
    assert_eq!(d.serial_path().as_deref(), Some("/dev/ttyUSB1"));
    assert_eq!(d.current_field(), DiscoveryField::Connect);
    d.choose_port(7);
    assert_eq!(d.port_index, 1, "out of range is ignored");
}

#[test]
fn using_a_found_address_fills_the_ip_and_lands_on_connect() {
    let mut d = DiscoveryParams::default();
    d.set_interface(InterfaceKind::Network);
    d.set_found(vec!["10.0.0.5".to_string()]);
    d.use_found_ip(0);
    assert_eq!(d.ip, "10.0.0.5");
    assert_eq!(d.current_field(), DiscoveryField::Connect);
}

#[test]
fn a_network_scan_covers_the_subnet_of_the_typed_address() {
    let mut d = DiscoveryParams::default();
    assert_eq!(d.begin_scan(false, None), None, "the mock has no network to scan");
    d.set_interface(InterfaceKind::Network);
    d.ip = "10.0.0.7".to_string();
    d.connect_timeout_ms = 50;
    let (prefix, port, per_host) = d.begin_scan(false, Some("192.168.1.".to_string())).unwrap();
    assert_eq!((prefix.as_str(), port, per_host), ("10.0.0.", 502, 100));
    assert_eq!(d.status.clone().unwrap().text, "Scanning 10.0.0.0/24\u{2026}");
    assert_eq!(d.begin_scan(true, None), None, "one scan at a time");
    d.ip = "host.local".to_string();
    assert_eq!(d.begin_scan(false, None), None);
    assert_eq!(d.status.clone().unwrap().text, "Couldn't determine a subnet to scan");
    let (prefix, _, _) = d.begin_scan(false, Some("192.168.1.".to_string())).unwrap();
    assert_eq!(prefix, "192.168.1.");
    d.finish_scan(vec!["192.168.1.20".to_string()]);
    assert_eq!(d.status.clone().unwrap().text, "Found 1 device(s)");
    d.finish_scan(Vec::new());
    assert_eq!(d.status.clone().unwrap().text, "No devices found on this subnet");
}

#[test]
fn connecting_needs_a_free_device_and_reports_failures() {
    let mut d = DiscoveryParams::default();
    assert!(d.begin_connect(false).is_none());
    assert_eq!(d.status.clone().unwrap().text, "Device is busy.");
    assert!(d.begin_connect(true).is_some());
    assert_eq!(d.status.clone().unwrap().text, "Connecting\u{2026}");
    d.connect_failed(Some("refused"));
    assert_eq!(d.status.clone().unwrap().text, "Connection failed: refused");
    d.connect_failed(None);
    assert_eq!(d.status.clone().unwrap().text, "Connection failed: task stopped unexpectedly");
}
