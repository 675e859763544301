use vstd::prelude::*;
use crate::app::{spec_subnet_prefix, subnet_prefix_from};
use crate::modbus::{DeviceConfig, Interface};
use crate::state::{DiscoveryParams, InterfaceKind, MessageKind, StatusMessage};
use crate::text::{dec, push_decimal, push_str, str_eq};

verus! {

/// The first index of a port named `path`, if one is.
pub open spec fn port_named(ports: Seq<String>, path: Seq<char>, i: int) -> bool {
    0 <= i < ports.len() && ports[i]@ == path && forall|j: int| 0 <= j < i ==> ports[j]@ != path
}

fn status(text: &str, kind: MessageKind) -> (r: StatusMessage)
    ensures
        r.text@ == text@,
        r.kind == kind,
{
    let mut s = String::new();
    push_str(&mut s, text);
    StatusMessage { text: s, kind }
}

impl DiscoveryParams {
    /// The device popup as it opens on the configured device `device`:
    /// its settings, the serial `ports` found (a configured path that is
    /// not among them shows as the typed path), the configured address of
    /// a network device or else `local_prefix` (the subnet of this
    /// machine, or the loopback address without one); the mock shows as a
    /// serial port where it is hidden.
    pub fn from_device(device: &DeviceConfig, show_mock: bool, ports: Vec<String>, local_prefix: Option<String>) -> (r: DiscoveryParams)
        ensures
            r.ports@ == ports@,
            r.slave_id == device.slave_id && r.connect_timeout_ms == device.timeout_connect_ms
                && r.command_timeout_ms == device.timeout_command_ms && r.between_commands_ms
                == device.time_between_commands_ms && r.word_order == device.word_order,
            r.ip@ == (match device.interface {
                Interface::Network(n) => n.ip@,
                Interface::RtuOverTcp(n) => n.ip@,
                _ => match local_prefix {
                    Some(p) => p@,
                    None => "127.0.0.1"@,
                },
            }),
            r.interface == (match device.interface {
                Interface::Wired(_) => InterfaceKind::Wired,
                Interface::Network(_) => InterfaceKind::Network,
                Interface::RtuOverTcp(_) => InterfaceKind::RtuOverTcp,
                Interface::Mock => if show_mock {
                    InterfaceKind::Mock
                } else {
                    InterfaceKind::Wired
                },
            }),
            device.interface matches Interface::Wired(w) ==> r.baud_rate == w.baud_rate && r.data_bits
                == w.data_bits && r.parity == w.parity && r.stop_bits == w.stop_bits && ((exists|i: int|
                port_named(ports@, w.path@, i)) ==> (exists|i: int| port_named(ports@, w.path@, i) && r.port_index == i as u16)
                && r.custom_path@.len() == 0) && (!(exists|i: int| port_named(ports@, w.path@, i))
                ==> r.custom_path@ == w.path@ && r.port_index == 0),
            device.interface matches Interface::Network(n) ==> r.net_port == n.port,
            device.interface matches Interface::RtuOverTcp(n) ==> r.net_port == n.port,
            r.found@.len() == 0 && r.status is None && r.selected == 0 && r.side_selected == 0,
    {
        let mut d = DiscoveryParams::default();
        d.slave_id = device.slave_id;
        d.connect_timeout_ms = device.timeout_connect_ms;
        d.command_timeout_ms = device.timeout_command_ms;
        d.between_commands_ms = device.time_between_commands_ms;
        d.word_order = device.word_order;
        match &device.interface {
            Interface::Network(n) => {
                d.ip = n.ip.clone();
            },
            Interface::RtuOverTcp(n) => {
                d.ip = n.ip.clone();
            },
            _ => match local_prefix {
                Some(p) => {
                    d.ip = p;
                },
                None => {},
            },
        }
        match &device.interface {
            Interface::Wired(w) => {
                d.interface = InterfaceKind::Wired;
                d.baud_rate = w.baud_rate;
                d.data_bits = w.data_bits;
                d.parity = w.parity;
                d.stop_bits = w.stop_bits;
                let mut i: usize = 0;
                let mut found = false;
                while i < ports.len()
                    invariant_except_break
                        !found,
                    invariant
                        i <= ports@.len(),
                        forall|j: int| 0 <= j < i ==> ports@[j]@ != w.path@,
                    ensures
                        found ==> port_named(ports@, w.path@, i as int),
                        !found ==> i == ports@.len(),
                    decreases ports@.len() - i,
                {
                    if str_eq(ports[i].as_str(), w.path.as_str()) {
                        found = true;
                        break;
                    }
                    i += 1;
                }
                if found {
                    d.port_index = i as u16;
                    assert(port_named(ports@, w.path@, i as int));
                } else {
                    d.custom_path = w.path.clone();
                    assert forall|k: int| !port_named(ports@, w.path@, k) by {
                        if 0 <= k < ports@.len() {
                            assert(ports@[k]@ != w.path@);
                        }
                    }
                }
            },
            Interface::Network(n) => {
                d.interface = InterfaceKind::Network;
                d.net_port = n.port;
            },
            Interface::RtuOverTcp(n) => {
                d.interface = InterfaceKind::RtuOverTcp;
                d.net_port = n.port;
            },
            Interface::Mock => {
                d.interface = if show_mock {
                    InterfaceKind::Mock
                } else {
                    InterfaceKind::Wired
                };
            },
        }
        d.ports = ports;
        d
    }

    /// Picks the listed serial port `index` over any typed path, and moves
    /// to Connect; an index past the list changes nothing.
    pub fn choose_port(&mut self, index: usize)
        ensures
            index < old(self).ports@.len() ==> final(self).port_index == index as u16 && final(self).custom_path@.len() == 0
                && final(self).spec_current_field() == crate::state::DiscoveryField::Connect,
            index >= old(self).ports@.len() ==> *final(self) == *old(self),
            final(self).ports == old(self).ports && final(self).interface == old(self).interface,
    {
        if index < self.ports.len() {
            self.port_index = index as u16;
            self.custom_path = String::new();
            self.focus_connect();
        }
    }

    /// Fills the address with the found host `index` and moves to Connect;
    /// an index past the list changes nothing.
    pub fn use_found_ip(&mut self, index: usize)
        ensures
            index < old(self).found@.len() ==> final(self).ip@ == old(self).found@[index as int]@
                && final(self).spec_current_field() == crate::state::DiscoveryField::Connect,
            index >= old(self).found@.len() ==> *final(self) == *old(self),
            final(self).found == old(self).found && final(self).interface == old(self).interface,
    {
        if index < self.found.len() {
            self.ip = self.found[index].clone();
            self.focus_connect();
        }
    }

    /// The connect key: with the device busy says so and returns nothing;
    /// else says it is connecting and returns the device settings to
    /// connect with.
    pub fn begin_connect(&mut self, slot_free: bool) -> (r: Option<DeviceConfig>)
        ensures
            final(self).status is Some,
            !slot_free ==> r is None && final(self).status->0.text@ == "Device is busy."@
                && final(self).status->0.kind == MessageKind::Info,
            slot_free ==> r is Some && final(self).status->0.text@ == "Connecting\u{2026}"@
                && final(self).status->0.kind == MessageKind::Warn,
            final(self).interface == old(self).interface && final(self).ip == old(self).ip
                && final(self).ports == old(self).ports,
    {
        if !slot_free {
            self.status = Some(status("Device is busy.", MessageKind::Info));
            return None;
        }
        self.status = Some(status("Connecting\u{2026}", MessageKind::Warn));
        Some(self.device_config())
    }

    /// Starts a scan of the subnet of the typed address (or of
    /// `local_prefix`, this machine's) for a network device: returns the
    /// prefix, the port and the time to give each host (the connect timeout
    /// within 100..=2000 ms), having cleared the hosts found and said what it
    /// scans. Nothing starts for a serial or mock device or while a scan
    /// runs; without a subnet it says so.
    pub fn begin_scan(&mut self, scanning: bool, local_prefix: Option<String>) -> (r: Option<(String, u16, u64)>)
        ensures
            scanning || !(old(self).interface == InterfaceKind::Network || old(self).interface == InterfaceKind::RtuOverTcp) ==> r is None && *final(self) == *old(self),
            !scanning && (old(self).interface == InterfaceKind::Network || old(self).interface == InterfaceKind::RtuOverTcp) ==> ({
                let prefix = match spec_subnet_prefix(old(self).ip@) {
                    Some(p) => Some(p),
                    None => match local_prefix {
                        Some(p) => Some(p@),
                        None => None,
                    },
                };
                match prefix {
                    None => r is None && final(self).status is Some && final(self).status->0.text@
                        == "Couldn't determine a subnet to scan"@ && final(self).status->0.kind
                        == MessageKind::Failure,
                    Some(p) => r is Some && (r->0).0@ == p && (r->0).1 == old(self).net_port && (r->0).2
                        == vstd::math::min(vstd::math::max(old(self).connect_timeout_ms as int, 100), 2000)
                        && final(self).found@.len() == 0 && final(self).status is Some && final(self).status->0.text@
                        == "Scanning "@ + p + "0/24\u{2026}"@ && final(self).status->0.kind == MessageKind::Warn,
                }
            }),
            final(self).interface == old(self).interface && final(self).ip == old(self).ip,
    {
        if scanning || !self.interface.uses_tcp() {
            return None;
        }
        let prefix = match subnet_prefix_from(self.ip.as_str()) {
            Some(p) => p,
            None => match local_prefix {
                Some(p) => p,
                None => {
                    self.status = Some(status("Couldn't determine a subnet to scan", MessageKind::Failure));
                    return None;
                },
            },
        };
        let t = self.connect_timeout_ms;
        let per_host = if t < 100 {
            100
        } else if t > 2000 {
            2000
        } else {
            t
        };
        self.set_found(Vec::new());
        let mut text = String::new();
        push_str(&mut text, "Scanning ");
        push_str(&mut text, prefix.as_str());
        push_str(&mut text, "0/24\u{2026}");
        self.status = Some(StatusMessage { text, kind: MessageKind::Warn });
        Some((prefix, self.net_port, per_host))
    }

    /// Lists the hosts a scan found and says how many.
    pub fn finish_scan(&mut self, found: Vec<String>)
        ensures
            final(self).found@ == found@,
            final(self).status is Some,
            found@.len() == 0 ==> final(self).status->0.text@ == "No devices found on this subnet"@
                && final(self).status->0.kind == MessageKind::Warn,
            found@.len() > 0 ==> final(self).status->0.text@ == "Found "@ + dec(found@.len()) + " device(s)"@
                && final(self).status->0.kind == MessageKind::Success,
            final(self).interface == old(self).interface,
    {
        let count = found.len();
        self.set_found(found);
        if count == 0 {
            self.status = Some(status("No devices found on this subnet", MessageKind::Warn));
        } else {
            let mut text = String::new();
            push_str(&mut text, "Found ");
            push_decimal(&mut text, count as u64);
            push_str(&mut text, " device(s)");
            self.status = Some(StatusMessage { text, kind: MessageKind::Success });
        }
    }

    /// Shows why connecting failed: the task died, or the device's error.
    pub fn connect_failed(&mut self, error: Option<&str>)
        ensures
            final(self).status is Some && final(self).status->0.kind == MessageKind::Failure,
            final(self).status->0.text@ == (match error {
                Some(e) => "Connection failed: "@ + e@,
                None => "Connection failed: task stopped unexpectedly"@,
            }),
            final(self).interface == old(self).interface && final(self).ip == old(self).ip,
    {
        let mut text = String::new();
        match error {
            Some(e) => {
                push_str(&mut text, "Connection failed: ");
                push_str(&mut text, e);
            },
            None => push_str(&mut text, "Connection failed: task stopped unexpectedly"),
        }
        self.status = Some(StatusMessage { text, kind: MessageKind::Failure });
    }
}

} // verus!
