use vstd::prelude::*;
use crate::modbus::{
    DataBits, DeviceConfig, Interface, InterfaceNetworkParams, InterfaceWiredParams, Parity,
    StopBits, WordOrder,
};
use crate::num_ops::wrap_index;
use crate::text::{is_blank, push_str, trimmed};
use crate::text;
use crate::num_ops;
use crate::modbus::DeviceIdAccess;
use crate::register::{RegisterCell, RegisterType};
use crate::custom::{BitEntry, CustomOp, CustomRepr, EnumEntry};
use crate::config::Column;
use crate::settings::{SettingsCategory, SettingsField, SettingsFocus};

verus! {

/// The panels of the read view.
#[derive(Debug, Clone, Copy, PartialEq, Eq, Structural)]
pub enum ReadPanel {
    Main,
    Pinned,
    Labeled,
    Custom,
    Matrix,
}

/// The kinds of interface the device popup offers.
#[derive(Debug, Clone, Copy, PartialEq, Eq, Structural)]
pub enum InterfaceKind {
    Mock,
    Wired,
    Network,
    RtuOverTcp,
}

pub open spec fn spec_interface_label(k: InterfaceKind) -> Seq<char> {
    match k {
        InterfaceKind::Mock => "Mock"@,
        InterfaceKind::Wired => "Serial"@,
        InterfaceKind::Network => "TCP"@,
        InterfaceKind::RtuOverTcp => "RTU over TCP"@,
    }
}

impl InterfaceKind {
    pub const ALL: [InterfaceKind; 4] = [
        InterfaceKind::Mock,
        InterfaceKind::Wired,
        InterfaceKind::Network,
        InterfaceKind::RtuOverTcp,
    ];

    pub fn label(self) -> (r: &'static str)
        ensures
            r@ == spec_interface_label(self),
    {
        match self {
            InterfaceKind::Mock => "Mock",
            InterfaceKind::Wired => "Serial",
            InterfaceKind::Network => "TCP",
            InterfaceKind::RtuOverTcp => "RTU over TCP",
        }
    }

    /// Whether the interface talks over a TCP connection.
    pub fn uses_tcp(self) -> (r: bool)
        ensures
            r <==> (self == InterfaceKind::Network || self == InterfaceKind::RtuOverTcp),
    {
        matches!(self, InterfaceKind::Network | InterfaceKind::RtuOverTcp)
    }
}

/// How the network scan probes hosts.
#[derive(Debug, Clone, Copy, PartialEq, Eq, Structural)]
pub enum ScanMethod {
    Ping,
    Port,
}

impl Default for ScanMethod {
    fn default() -> (r: Self)
        ensures
            r == ScanMethod::Ping,
    {
        ScanMethod::Ping
    }
}

impl ScanMethod {
    pub const ALL: [ScanMethod; 2] = [ScanMethod::Ping, ScanMethod::Port];

    pub fn label(self) -> (r: &'static str)
        ensures
            r@ == (match self {
                ScanMethod::Ping => "ICMP ping"@,
                ScanMethod::Port => "TCP port"@,
            }),
    {
        match self {
            ScanMethod::Ping => "ICMP ping",
            ScanMethod::Port => "TCP port",
        }
    }
}

/// The kinds of status messages.
#[derive(Debug, Clone, Copy, PartialEq, Eq, Structural)]
pub enum MessageKind {
    Success,
    Warn,
    Failure,
    Info,
}

/// A message shown in a popup or in the status line.
#[derive(Debug, Clone, PartialEq)]
pub struct StatusMessage {
    pub text: String,
    pub kind: MessageKind,
}

fn owned(text: &str) -> (r: String)
    ensures
        r@ == text@,
{
    let mut s = String::new();
    push_str(&mut s, text);
    s
}

impl StatusMessage {
    pub fn ok(text: &str) -> (r: StatusMessage)
        ensures
            r.text@ == text@,
            r.kind == MessageKind::Success,
    {
        StatusMessage { text: owned(text), kind: MessageKind::Success }
    }

    pub fn warn(text: &str) -> (r: StatusMessage)
        ensures
            r.text@ == text@,
            r.kind == MessageKind::Warn,
    {
        StatusMessage { text: owned(text), kind: MessageKind::Warn }
    }

    pub fn err(text: &str) -> (r: StatusMessage)
        ensures
            r.text@ == text@,
            r.kind == MessageKind::Failure,
    {
        StatusMessage { text: owned(text), kind: MessageKind::Failure }
    }

    pub fn info(text: &str) -> (r: StatusMessage)
        ensures
            r.text@ == text@,
            r.kind == MessageKind::Info,
    {
        StatusMessage { text: owned(text), kind: MessageKind::Info }
    }

    /// A success reports its text as ok, a failure as an error.
    pub fn from_outcome(result: Result<String, String>) -> (r: StatusMessage)
        ensures
            result matches Ok(t) ==> r.text@ == t@ && r.kind == MessageKind::Success,
            result matches Err(t) ==> r.text@ == t@ && r.kind == MessageKind::Failure,
    {
        match result {
            Ok(text) => StatusMessage { text, kind: MessageKind::Success },
            Err(text) => StatusMessage { text, kind: MessageKind::Failure },
        }
    }
}

/// The fields of the device popup.
#[derive(Debug, Clone, Copy, PartialEq, Eq, Structural)]
pub enum DiscoveryField {
    Interface,
    UnitId,
    ConnectTimeout,
    CommandTimeout,
    BetweenCommands,
    WordOrder,
    Connect,
    Port(usize),
    CustomPath,
    Baud,
    DataBits,
    Parity,
    StopBits,
    Ip,
    NetPort,
    ScanMethod,
    ScanNetwork,
    Found(usize),
}

/// The two columns of the device popup.
#[derive(Debug, Clone, Copy, PartialEq, Eq, Structural)]
pub enum DiscoveryColumn {
    Common,
    Side,
}

impl Default for DiscoveryColumn {
    fn default() -> (r: Self)
        ensures
            r == DiscoveryColumn::Common,
    {
        DiscoveryColumn::Common
    }
}

/// The fields every interface shows, in order.
pub open spec fn spec_common() -> Seq<DiscoveryField> {
    seq![
        DiscoveryField::Interface,
        DiscoveryField::UnitId,
        DiscoveryField::ConnectTimeout,
        DiscoveryField::CommandTimeout,
        DiscoveryField::BetweenCommands,
        DiscoveryField::WordOrder,
        DiscoveryField::Connect,
    ]
}

/// The interface-specific fields: nothing for the mock; one row per serial
/// port, then the custom path and the line settings for a wired device; the
/// address, port and scan action, then one row per found host, for a
/// network device.
pub open spec fn spec_side_fields(
    interface: InterfaceKind,
    ports: nat,
    found: nat,
) -> Seq<DiscoveryField> {
    match interface {
        InterfaceKind::Mock => Seq::empty(),
        InterfaceKind::Wired => Seq::new(ports, |i: int| DiscoveryField::Port(i as usize)) + seq![
            DiscoveryField::CustomPath,
            DiscoveryField::Baud,
            DiscoveryField::DataBits,
            DiscoveryField::Parity,
            DiscoveryField::StopBits,
        ],
        InterfaceKind::Network | InterfaceKind::RtuOverTcp => seq![
            DiscoveryField::Ip,
            DiscoveryField::NetPort,
            DiscoveryField::ScanNetwork,
        ] + Seq::new(found, |i: int| DiscoveryField::Found(i as usize)),
    }
}

/// The baud rates the baud field steps through.
pub open spec fn spec_baud_presets() -> Seq<u32> {
    seq![1200u32, 2400, 4800, 9600, 19200, 38400, 57600, 115200, 230400, 460800, 921600]
}

/// The first preset at or after index `i` above `current`, wrapping to the
/// lowest preset when there is none.
pub open spec fn spec_baud_up(current: u32, i: int) -> u32
    decreases 11 - i,
{
    if i >= 11 || i < 0 {
        spec_baud_presets()[0]
    } else if spec_baud_presets()[i] > current {
        spec_baud_presets()[i]
    } else {
        spec_baud_up(current, i + 1)
    }
}

/// The last preset before index `i` below `current`, wrapping to the
/// highest preset when there is none.
pub open spec fn spec_baud_down(current: u32, i: int) -> u32
    decreases i,
{
    if i <= 0 || i > 11 {
        spec_baud_presets()[10]
    } else if spec_baud_presets()[i - 1] < current {
        spec_baud_presets()[i - 1]
    } else {
        spec_baud_down(current, i - 1)
    }
}

/// The nearest preset above `current`, or below it, wrapping at the ends.
pub open spec fn spec_next_baud(current: u32, forward: bool) -> u32 {
    if forward {
        spec_baud_up(current, 0)
    } else {
        spec_baud_down(current, 11)
    }
}

/// The form of the device popup.
#[derive(Debug, PartialEq)]
pub struct DiscoveryParams {
    pub interface: InterfaceKind,
    pub column: DiscoveryColumn,
    pub selected: u16,
    pub side_selected: u16,
    pub ports: Vec<String>,
    pub ports_pending: bool,
    pub port_index: u16,
    pub custom_path: String,
    pub baud_rate: u32,
    pub data_bits: DataBits,
    pub parity: Parity,
    pub stop_bits: StopBits,
    pub ip: String,
    pub net_port: u16,
    pub scan_method: ScanMethod,
    pub slave_id: u8,
    pub connect_timeout_ms: u64,
    pub command_timeout_ms: u64,
    pub between_commands_ms: u64,
    pub word_order: WordOrder,
    pub found: Vec<String>,
    pub status: Option<StatusMessage>,
}

impl Default for DiscoveryParams {
    fn default() -> (r: Self)
        ensures
            r.interface == InterfaceKind::Mock,
            r.column == DiscoveryColumn::Common,
            r.selected == 0,
            r.side_selected == 0,
            r.ports@.len() == 0,
            !r.ports_pending,
            r.port_index == 0,
            r.custom_path@.len() == 0,
            r.baud_rate == 9600,
            r.data_bits == DataBits::Eight,
            r.parity == Parity::NoParity,
            r.stop_bits == StopBits::One,
            r.ip@ == "127.0.0.1"@,
            r.net_port == 502,
            r.scan_method == ScanMethod::Ping,
            r.slave_id == 1,
            r.connect_timeout_ms == 1000,
            r.command_timeout_ms == 2000,
            r.between_commands_ms == 3,
            r.word_order == WordOrder::ABCD,
            r.found@.len() == 0,
            r.status is None,
    {
        DiscoveryParams {
            interface: InterfaceKind::Mock,
            column: DiscoveryColumn::Common,
            selected: 0,
            side_selected: 0,
            ports: Vec::new(),
            ports_pending: false,
            port_index: 0,
            custom_path: String::new(),
            baud_rate: 9600,
            data_bits: DataBits::Eight,
            parity: Parity::NoParity,
            stop_bits: StopBits::One,
            ip: owned("127.0.0.1"),
            net_port: 502,
            scan_method: ScanMethod::Ping,
            slave_id: 1,
            connect_timeout_ms: 1000,
            command_timeout_ms: 2000,
            between_commands_ms: 3,
            word_order: WordOrder::ABCD,
            found: Vec::new(),
            status: None,
        }
    }
}

/// `items[min(selected, N - 1)]`.
fn clamp_pick<T: Copy>(selected: u16, all: &[T]) -> (r: T)
    requires
        all@.len() > 0,
    ensures
        r == all@[vstd::math::min(selected as int, all@.len() - 1)],
{
    let i = if (selected as usize) < all.len() - 1 {
        selected as usize
    } else {
        all.len() - 1
    };
    all[i]
}

proof fn lemma_baud_up_in(current: u32, i: int)
    ensures
        spec_baud_presets().contains(spec_baud_up(current, i)),
    decreases 11 - i,
{
    if !(i >= 11 || i < 0) && !(spec_baud_presets()[i] > current) {
        lemma_baud_up_in(current, i + 1);
    }
    if i >= 11 || i < 0 {
        assert(spec_baud_presets()[0] == spec_baud_up(current, i));
    } else if spec_baud_presets()[i] > current {
        assert(spec_baud_presets()[i] == spec_baud_up(current, i));
    }
}

proof fn lemma_baud_down_in(current: u32, i: int)
    ensures
        spec_baud_presets().contains(spec_baud_down(current, i)),
    decreases i,
{
    if !(i <= 0 || i > 11) && !(spec_baud_presets()[i - 1] < current) {
        lemma_baud_down_in(current, i - 1);
    }
    if i <= 0 || i > 11 {
        assert(spec_baud_presets()[10] == spec_baud_down(current, i));
    } else if spec_baud_presets()[i - 1] < current {
        assert(spec_baud_presets()[i - 1] == spec_baud_down(current, i));
    }
}

proof fn lemma_baud_in_presets(current: u32)
    ensures
        spec_baud_presets().contains(spec_next_baud(current, true)),
        spec_baud_presets().contains(spec_next_baud(current, false)),
{
    lemma_baud_up_in(current, 0);
    lemma_baud_down_in(current, 11);
}

impl DiscoveryParams {
    pub const COMMON: [DiscoveryField; 7] = [
        DiscoveryField::Interface,
        DiscoveryField::UnitId,
        DiscoveryField::ConnectTimeout,
        DiscoveryField::CommandTimeout,
        DiscoveryField::BetweenCommands,
        DiscoveryField::WordOrder,
        DiscoveryField::Connect,
    ];

    pub const BAUD_PRESETS: [u32; 11] = [
        1200,
        2400,
        4800,
        9600,
        19200,
        38400,
        57600,
        115200,
        230400,
        460800,
        921600,
    ];

    pub open spec fn side(&self) -> Seq<DiscoveryField> {
        spec_side_fields(self.interface, self.ports@.len(), self.found@.len())
    }

    /// The field the cursor is on.
    pub open spec fn spec_current_field(&self) -> DiscoveryField {
        let side = self.side();
        if self.column == DiscoveryColumn::Side && side.len() > 0 {
            side[vstd::math::min(self.side_selected as int, side.len() - 1)]
        } else {
            spec_common()[vstd::math::min(self.selected as int, 6)]
        }
    }

    pub fn side_fields(&self) -> (r: Vec<DiscoveryField>)
        ensures
            r@ == self.side(),
    {
        let mut v: Vec<DiscoveryField> = Vec::new();
        match self.interface {
            InterfaceKind::Mock => {},
            InterfaceKind::Wired => {
                let n = self.ports.len();
                let mut i: usize = 0;
                while i < n
                    invariant
                        i <= n,
                        n == self.ports@.len(),
                        v@ == Seq::new(i as nat, |k: int| DiscoveryField::Port(k as usize)),
                    decreases n - i,
                {
                    v.push(DiscoveryField::Port(i));
                    i += 1;
                    assert(v@ =~= Seq::new(i as nat, |k: int| DiscoveryField::Port(k as usize)));
                }
                v.push(DiscoveryField::CustomPath);
                v.push(DiscoveryField::Baud);
                v.push(DiscoveryField::DataBits);
                v.push(DiscoveryField::Parity);
                v.push(DiscoveryField::StopBits);
            },
            InterfaceKind::Network | InterfaceKind::RtuOverTcp => {
                v.push(DiscoveryField::Ip);
                v.push(DiscoveryField::NetPort);
                v.push(DiscoveryField::ScanNetwork);
                let n = self.found.len();
                let mut i: usize = 0;
                while i < n
                    invariant
                        i <= n,
                        n == self.found@.len(),
                        v@ == seq![
                            DiscoveryField::Ip,
                            DiscoveryField::NetPort,
                            DiscoveryField::ScanNetwork,
                        ] + Seq::new(i as nat, |k: int| DiscoveryField::Found(k as usize)),
                    decreases n - i,
                {
                    v.push(DiscoveryField::Found(i));
                    i += 1;
                    assert(v@ =~= seq![
                        DiscoveryField::Ip,
                        DiscoveryField::NetPort,
                        DiscoveryField::ScanNetwork,
                    ] + Seq::new(i as nat, |k: int| DiscoveryField::Found(k as usize)));
                }
            },
        }
        assert(v@ =~= self.side());
        v
    }

    /// A path typed by hand counts once it holds more than whitespace.
    pub fn custom_path_active(&self) -> (r: bool)
        ensures
            r == (text::trim(self.custom_path@).len() > 0),
    {
        !is_blank(self.custom_path.as_str())
    }

    /// Whether the baud rate is one of the presets.
    pub fn is_preset_baud(&self) -> (r: bool)
        ensures
            r == spec_baud_presets().contains(self.baud_rate),
    {
        let presets = Self::BAUD_PRESETS;
        assert(presets@ =~= spec_baud_presets());
        let mut i: usize = 0;
        while i < 11
            invariant
                i <= 11,
                presets@ == spec_baud_presets(),
                forall|j: int| 0 <= j < i ==> presets@[j] != self.baud_rate,
            decreases 11 - i,
        {
            if presets[i] == self.baud_rate {
                assert(presets@[i as int] == self.baud_rate);
                return true;
            }
            i += 1;
        }
        false
    }

    /// Steps the scan method, wrapping.
    pub fn cycle_scan_method(&mut self, forward: bool)
        ensures
            final(self).scan_method != old(self).scan_method,
            final(self).interface == old(self).interface,
    {
        self.scan_method = match self.scan_method {
            ScanMethod::Ping => ScanMethod::Port,
            ScanMethod::Port => ScanMethod::Ping,
        };
    }

    /// Steps the baud rate to the nearest preset above (or below) it,
    /// wrapping around at the ends of the preset list.
    pub fn cycle_baud(&mut self, forward: bool)
        ensures
            final(self).baud_rate == spec_next_baud(old(self).baud_rate, forward),
            spec_baud_presets().contains(final(self).baud_rate),
            *final(self) == (DiscoveryParams { baud_rate: final(self).baud_rate, ..*old(self) }),
    {
        let presets = Self::BAUD_PRESETS;
        assert(presets@ =~= spec_baud_presets());
        let current = self.baud_rate;
        let mut next = 0u32;
        if forward {
            let mut i: usize = 0;
            while i < 11
                invariant
                    i <= 11,
                    presets@ == spec_baud_presets(),
                    spec_baud_up(current, 0) == spec_baud_up(current, i as int),
                ensures
                    i <= 11,
                    spec_baud_up(current, 0) == spec_baud_up(current, i as int),
                    i < 11 ==> next == presets@[i as int] && presets@[i as int] > current,
                decreases 11 - i,
            {
                if presets[i] > current {
                    next = presets[i];
                    break;
                }
                i += 1;
            }
            if i == 11 {
                next = presets[0];
            }
            proof {
                assert(next == spec_baud_up(current, i as int));
            }
        } else {
            let mut i: usize = 11;
            while i > 0
                invariant
                    i <= 11,
                    presets@ == spec_baud_presets(),
                    spec_baud_down(current, 11) == spec_baud_down(current, i as int),
                ensures
                    i <= 11,
                    spec_baud_down(current, 11) == spec_baud_down(current, i as int),
                    i > 0 ==> next == presets@[i - 1] && presets@[i - 1] < current,
                decreases i,
            {
                if presets[i - 1] < current {
                    next = presets[i - 1];
                    break;
                }
                i -= 1;
            }
            if i == 0 {
                next = presets[10];
            }
            proof {
                assert(next == spec_baud_down(current, i as int));
            }
        }
        self.baud_rate = next;
        proof {
            lemma_baud_in_presets(current);
        }
    }

    /// The serial port to open: the typed path, trimmed, when there is one,
    /// else the picked port, if it still exists.
    pub fn serial_path(&self) -> (r: Option<String>)
        ensures
            text::trim(self.custom_path@).len() > 0 ==> (r matches Some(p) && p@ == text::trim(
                self.custom_path@,
            )),
            text::trim(self.custom_path@).len() == 0 ==> (if (self.port_index as int)
                < self.ports@.len() {
                r matches Some(p) && p@ == self.ports@[self.port_index as int]@
            } else {
                r is None
            }),
    {
        if self.custom_path_active() {
            return Some(trimmed(self.custom_path.as_str()));
        }
        let i = self.port_index as usize;
        if i < self.ports.len() {
            Some(self.ports[i].clone())
        } else {
            None
        }
    }

    fn network_params(&self) -> (r: InterfaceNetworkParams)
        ensures
            r.ip@ == self.ip@,
            r.port == self.net_port,
    {
        InterfaceNetworkParams { ip: self.ip.clone(), port: self.net_port }
    }

    /// The device configuration the form describes.
    pub fn device_config(&self) -> (r: DeviceConfig)
        ensures
            r.slave_id == self.slave_id,
            r.timeout_connect_ms == self.connect_timeout_ms,
            r.timeout_command_ms == self.command_timeout_ms,
            r.time_between_commands_ms == self.between_commands_ms,
            r.word_order == self.word_order,
            self.interface == InterfaceKind::Mock ==> r.interface == Interface::Mock,
            self.interface == InterfaceKind::Wired ==> (r.interface matches Interface::Wired(w) && w.baud_rate
                == self.baud_rate && w.data_bits == self.data_bits && w.parity == self.parity
                && w.stop_bits == self.stop_bits && (text::trim(self.custom_path@).len() > 0
                ==> w.path@ == text::trim(self.custom_path@))),
            self.interface == InterfaceKind::Network ==> (r.interface matches Interface::Network(n)
                && n.ip@ == self.ip@ && n.port == self.net_port),
            self.interface == InterfaceKind::RtuOverTcp ==> (r.interface matches Interface::RtuOverTcp(
                n,
            ) && n.ip@ == self.ip@ && n.port == self.net_port),
    {
        let interface = match self.interface {
            InterfaceKind::Mock => Interface::Mock,
            InterfaceKind::Wired => {
                let path = match self.serial_path() {
                    Some(p) => p,
                    None => String::new(),
                };
                Interface::Wired(
                    InterfaceWiredParams {
                        path,
                        baud_rate: self.baud_rate,
                        data_bits: self.data_bits,
                        parity: self.parity,
                        stop_bits: self.stop_bits,
                    },
                )
            },
            InterfaceKind::Network => Interface::Network(self.network_params()),
            InterfaceKind::RtuOverTcp => Interface::RtuOverTcp(self.network_params()),
        };
        DeviceConfig {
            interface,
            slave_id: self.slave_id,
            timeout_connect_ms: self.connect_timeout_ms,
            timeout_command_ms: self.command_timeout_ms,
            time_between_commands_ms: self.between_commands_ms,
            word_order: self.word_order,
        }
    }

    pub fn current_field(&self) -> (r: DiscoveryField)
        ensures
            r == self.spec_current_field(),
    {
        if matches!(self.column, DiscoveryColumn::Side) {
            let side = self.side_fields();
            if side.len() > 0 {
                let last = side.len() - 1;
                let index = if (self.side_selected as usize) < last {
                    self.side_selected as usize
                } else {
                    last
                };
                return side[index];
            }
        }
        let common = Self::COMMON;
        assert(common@ =~= spec_common());
        clamp_pick(self.selected, &common)
    }

    /// Moves the cursor one row within its column, wrapping.
    pub fn move_cursor(&mut self, down: bool)
        ensures
            old(self).column == DiscoveryColumn::Common ==> final(self).selected
                == num_ops::wrapped_index(old(self).selected as int, 7, down) && final(self).side_selected == old(self).side_selected,
            old(self).column == DiscoveryColumn::Side ==> final(self).side_selected
                == num_ops::wrapped_index(
                old(self).side_selected as int,
                (old(self).side().len() as u16) as int,
                down,
            ) && final(self).selected == old(self).selected,
            final(self).column == old(self).column,
            final(self).interface == old(self).interface,
            final(self).ports@ == old(self).ports@,
            final(self).found@ == old(self).found@,
            *final(self) == (DiscoveryParams {
                selected: final(self).selected,
                side_selected: final(self).side_selected,
                ..*old(self)
            }),
    {
        match self.column {
            DiscoveryColumn::Common => {
                self.selected = wrap_index(self.selected, 7, down);
            },
            DiscoveryColumn::Side => {
                let count = self.side_fields().len() as u16;
                self.side_selected = wrap_index(self.side_selected, count, down);
            },
        }
    }

    fn clamp_side(&mut self)
        ensures
            (old(self).side().len() as u16) == 0 ==> final(self).column == DiscoveryColumn::Common
                && final(self).side_selected == old(self).side_selected,
            (old(self).side().len() as u16) > 0 ==> final(self).column == old(self).column
                && final(self).side_selected == vstd::math::min(
                old(self).side_selected as int,
                (old(self).side().len() as u16) - 1,
            ),
            final(self).interface == old(self).interface,
            final(self).ports@ == old(self).ports@,
            final(self).found@ == old(self).found@,
            final(self).selected == old(self).selected,
            final(self).custom_path@ == old(self).custom_path@,
            final(self).port_index == old(self).port_index,
            final(self).ports_pending == old(self).ports_pending,
            *final(self) == (DiscoveryParams {
                column: final(self).column,
                side_selected: final(self).side_selected,
                ..*old(self)
            }),
    {
        let count = self.side_fields().len() as u16;
        if count == 0 {
            self.column = DiscoveryColumn::Common;
        } else if self.side_selected > count - 1 {
            self.side_selected = count - 1;
        }
    }

    /// Switches columns; the side column is only entered when it has fields.
    pub fn toggle_column(&mut self)
        ensures
            (old(self).column == DiscoveryColumn::Common && (old(self).side().len() as u16) > 0)
                ==> final(self).column == DiscoveryColumn::Side,
            !(old(self).column == DiscoveryColumn::Common && old(self).side().len() > 0)
                ==> final(self).column == DiscoveryColumn::Common,
            final(self).selected == old(self).selected,
            final(self).interface == old(self).interface,
            final(self).ports@ == old(self).ports@,
            final(self).found@ == old(self).found@,
            (old(self).side().len() as u16) > 0 ==> final(self).side_selected == vstd::math::min(
                old(self).side_selected as int,
                (old(self).side().len() as u16) - 1,
            ),
            *final(self) == (DiscoveryParams {
                column: final(self).column,
                side_selected: final(self).side_selected,
                ..*old(self)
            }),
    {
        let side_len = self.side_fields().len();
        self.column = if matches!(self.column, DiscoveryColumn::Common) && side_len > 0 {
            DiscoveryColumn::Side
        } else {
            DiscoveryColumn::Common
        };
        self.clamp_side();
    }

    /// Picks another interface; the side cursor starts over at its top.
    pub fn set_interface(&mut self, interface: InterfaceKind)
        ensures
            final(self).interface == interface,
            final(self).side_selected == 0,
            (final(self).side().len() as u16) == 0 ==> final(self).column == DiscoveryColumn::Common,
            (final(self).side().len() as u16) > 0 ==> final(self).column == old(self).column,
            final(self).selected == old(self).selected,
            final(self).ports@ == old(self).ports@,
            final(self).found@ == old(self).found@,
            *final(self) == (DiscoveryParams {
                interface,
                column: final(self).column,
                side_selected: 0,
                ..*old(self)
            }),
    {
        self.interface = interface;
        self.side_selected = 0;
        self.clamp_side();
    }

    /// Replaces the hosts found by a network scan, keeping the cursor on a
    /// field that still exists.
    pub fn set_found(&mut self, found: Vec<String>)
        ensures
            final(self).found@ == found@,
            final(self).interface == old(self).interface,
            final(self).ports@ == old(self).ports@,
            final(self).selected == old(self).selected,
            (final(self).side().len() as u16) == 0 ==> final(self).column == DiscoveryColumn::Common,
            (final(self).side().len() as u16) > 0 ==> final(self).column == old(self).column
                && final(self).side_selected == vstd::math::min(
                old(self).side_selected as int,
                (final(self).side().len() as u16) - 1,
            ),
            final(self).ip == old(self).ip && final(self).net_port == old(self).net_port
                && final(self).connect_timeout_ms == old(self).connect_timeout_ms && final(self).status
                == old(self).status,
    {
        self.found = found;
        self.clamp_side();
    }

    /// Replaces the enumerated serial ports. The side cursor keeps its place
    /// below the port rows; a typed path that names one of the new ports
    /// becomes a pick of that port.
    pub fn set_ports(&mut self, ports: Vec<String>)
        requires
            old(self).interface == InterfaceKind::Wired && old(self).side_selected >= (old(
                self,
            ).ports@.len() as u16) ==> old(self).side_selected - (old(self).ports@.len() as u16)
                + (ports@.len() as u16) <= u16::MAX,
        ensures
            final(self).ports@ == ports@,
            !final(self).ports_pending,
            final(self).interface == old(self).interface,
            (exists|i: int| 0 <= i < ports@.len() && ports@[i]@ == text::trim(old(self).custom_path@))
                ==> ({
                let i = final(self).port_index as int;
                &&& final(self).custom_path@.len() == 0
                &&& exists|k: int|
                    0 <= k < ports@.len() && ports@[k]@ == text::trim(old(self).custom_path@) && i
                        == (k as u16) && forall|j: int|
                        0 <= j < k ==> ports@[j]@ != text::trim(old(self).custom_path@)
            }),
            !(exists|i: int| 0 <= i < ports@.len() && ports@[i]@ == text::trim(old(self).custom_path@))
                ==> final(self).custom_path@ == old(self).custom_path@ && final(self).port_index
                == old(self).port_index,
    {
        let before = self.ports.len() as u16;
        let after = ports.len() as u16;
        if matches!(self.interface, InterfaceKind::Wired) && self.side_selected >= before {
            self.side_selected = self.side_selected - before + after;
        }
        let wanted = trimmed(self.custom_path.as_str());
        let n = ports.len();
        let mut i: usize = 0;
        let mut hit: Option<usize> = None;
        while i < n
            invariant_except_break
                hit is None,
            invariant
                i <= n,
                n == ports@.len(),
                forall|j: int| 0 <= j < i ==> ports@[j]@ != wanted@,
            ensures
                hit matches Some(k) ==> k < n && ports@[k as int]@ == wanted@ && forall|j: int|
                    0 <= j < k ==> ports@[j]@ != wanted@,
                hit is None ==> forall|j: int| 0 <= j < n ==> ports@[j]@ != wanted@,
            decreases n - i,
        {
            if ports[i] == wanted {
                hit = Some(i);
                break;
            }
            i += 1;
        }
        if let Some(k) = hit {
            self.port_index = k as u16;
            self.custom_path = String::new();
        }
        self.ports = ports;
        self.ports_pending = false;
        self.clamp_side();
    }

    /// Moves the cursor to the Connect field.
    pub fn focus_connect(&mut self)
        ensures
            final(self).column == DiscoveryColumn::Common,
            final(self).selected == 6,
            final(self).spec_current_field() == DiscoveryField::Connect,
            *final(self) == (DiscoveryParams { column: DiscoveryColumn::Common, selected: 6, ..*old(self) }),
    {
        self.column = DiscoveryColumn::Common;
        self.selected = 6;
    }
}


/// `cursor` clamped into a list of `len` items, and `top` moved so that the
/// cursor stays within the `rows` visible from it.
pub open spec fn spec_scroll(cursor: u16, top: u16, rows: u16, len: u16) -> (u16, u16) {
    let rows = if rows >= 1 {
        rows as int
    } else {
        1
    };
    if len == 0 {
        (0, 0)
    } else {
        let c = vstd::math::min(cursor as int, len - 1);
        let t = vstd::math::min(top as int, vstd::math::max(len - rows, 0));
        if c < t {
            (c as u16, c as u16)
        } else if c >= vstd::math::min(t + rows, u16::MAX as int) {
            (c as u16, (c - (rows - 1)) as u16)
        } else {
            (c as u16, t as u16)
        }
    }
}

/// Keeps a list cursor in range and its window in view.
pub fn scroll_window(cursor: &mut u16, top: &mut u16, rows: u16, len: u16)
    ensures
        (*final(cursor), *final(top)) == spec_scroll(*old(cursor), *old(top), rows, len),
        len > 0 ==> *final(cursor) < len,
        len > 0 ==> *final(top) <= *final(cursor) < *final(top) + vstd::math::max(rows as int, 1),
        len > 0 ==> *final(top) <= vstd::math::max(len - vstd::math::max(rows as int, 1), 0),
        len == 0 ==> *final(cursor) == 0 && *final(top) == 0,
{
    let rows = if rows >= 1 {
        rows
    } else {
        1
    };
    if len == 0 {
        *cursor = 0;
        *top = 0;
        return;
    }
    if *cursor > len - 1 {
        *cursor = len - 1;
    }
    let max_top = if len >= rows {
        len - rows
    } else {
        0
    };
    if *top > max_top {
        *top = max_top;
    }
    let end = if *top as u32 + rows as u32 <= u16::MAX as u32 {
        *top + rows
    } else {
        u16::MAX
    };
    if *cursor < *top {
        *top = *cursor;
    } else if *cursor >= end {
        *top = *cursor - (rows - 1);
    }
}

/// An entry of the write log, one written line of it.
#[derive(Debug, Clone, PartialEq)]
pub struct WriteEntry {
    pub text: String,
}

/// The write popup's value kinds: which registers a write covers.
#[derive(Debug, Clone, Copy, PartialEq, Eq, Structural)]
pub enum WriteType {
    Word,
    DWord,
    Coil,
}

impl Default for WriteType {
    fn default() -> (r: Self)
        ensures
            r == WriteType::Word,
    {
        WriteType::Word
    }
}

impl WriteType {
    /// How many bits a value of this kind has.
    pub fn bits(self) -> (r: u16)
        ensures
            r == (match self {
                WriteType::Coil => 1u16,
                WriteType::Word => 16u16,
                WriteType::DWord => 32u16,
            }),
    {
        match self {
            WriteType::Coil => 1,
            WriteType::Word => 16,
            WriteType::DWord => 32,
        }
    }
}

#[derive(Debug, PartialEq)]
pub struct WriteParams {
    pub position: u16,
    pub result: Option<StatusMessage>,
    pub value: Option<i64>,
    pub write_type: WriteType,
    pub bit_cursor: u16,
    pub force_multiple: bool,
}

#[derive(Debug, PartialEq)]
pub struct LabelParams {
    pub position: u16,
    pub register_type: RegisterType,
    pub text: String,
}

#[derive(Debug, PartialEq)]
pub struct DumpParams {
    pub result: Option<StatusMessage>,
}

#[derive(Debug, PartialEq)]
pub struct ImportParams {
    pub pins: usize,
    pub labels: usize,
    pub rules: usize,
}

#[derive(Debug, PartialEq)]
pub struct DeviceIdParams {
    pub access: DeviceIdAccess,
    pub objects: Vec<(u8, String)>,
    pub status: Option<StatusMessage>,
    pub loading: bool,
    pub h_offset: u16,
}

/// The two inputs of the raw request popup.
#[derive(Debug, Clone, Copy, PartialEq, Eq, Structural)]
pub enum RawField {
    Code,
    Data,
}

#[derive(Debug, PartialEq)]
pub struct RawParams {
    pub code: String,
    pub data: String,
    pub field: RawField,
    pub response: Option<String>,
    pub status: Option<StatusMessage>,
}

/// The fields of the sweep popup.
#[derive(Debug, Clone, Copy, PartialEq, Eq, Structural)]
pub enum SweepField {
    From,
    To,
    Mode,
    Action,
}

impl SweepField {
    pub const ALL: [SweepField; 4] = [SweepField::From, SweepField::To, SweepField::Mode, SweepField::Action];
}

#[derive(Debug, Clone, Copy, PartialEq, Eq)]
pub struct SweepConfigParams {
    pub from: u16,
    pub to: u16,
    pub continuous: bool,
    pub selected: u16,
}

impl SweepConfigParams {
    /// The field the cursor is on, the last one for a cursor past the end.
    pub fn current_field(&self) -> (r: SweepField)
        ensures
            r == seq![SweepField::From, SweepField::To, SweepField::Mode, SweepField::Action][vstd::math::min(
                self.selected as int,
                3,
            )],
    {
        let all = SweepField::ALL;
        assert(all@ =~= seq![SweepField::From, SweepField::To, SweepField::Mode, SweepField::Action]);
        clamp_pick(self.selected, &all)
    }
}

/// The fields of the unit id popup: the form, then one row per listed hit.
#[derive(Debug, Clone, Copy, PartialEq, Eq, Structural)]
pub enum UnitField {
    Id,
    From,
    To,
    Mode,
    Repr,
    Exceptions,
    Scan,
    Hit(usize),
}

impl UnitField {
    /// Whether Enter flips the field rather than editing it.
    pub fn is_toggle(self) -> (r: bool)
        ensures
            r <==> (self == UnitField::Mode || self == UnitField::Repr || self
                == UnitField::Exceptions),
    {
        matches!(self, UnitField::Mode | UnitField::Repr | UnitField::Exceptions)
    }
}

/// A unit id that answered a scan, with the registers it returned or the
/// exception it raised.
#[derive(Debug, PartialEq)]
pub struct UnitScanHit {
    pub unit_id: u8,
    pub result: Result<Vec<u16>, String>,
}

/// Where a unit id scan stands.
#[derive(Debug, Clone, Copy, PartialEq, Eq, Structural)]
pub enum ScanState {
    Idle,
    Probing,
    Done,
    Stopped,
    Failed,
}

impl Default for ScanState {
    fn default() -> (r: Self)
        ensures
            r == ScanState::Idle,
    {
        ScanState::Idle
    }
}

/// The unit id popup and its scan.
#[derive(Debug, PartialEq)]
pub struct UnitParams {
    pub id: u8,
    pub selected: u16,
    pub from: u8,
    pub to: u8,
    pub stop_at_first: bool,
    pub ascii: bool,
    pub show_exceptions: bool,
    pub scan: ScanState,
    pub current: u8,
    pub register_type: RegisterType,
    pub address: u16,
    pub amount: u16,
    pub hits: Vec<UnitScanHit>,
    pub status: Option<StatusMessage>,
}

impl Default for UnitParams {
    fn default() -> (r: Self)
        ensures
            r.id == 0 && r.selected == 0 && r.from == 1 && r.to == 247,
            !r.stop_at_first && !r.ascii && r.show_exceptions,
            r.scan == ScanState::Idle && r.current == 0,
            r.register_type == RegisterType::Holding && r.address == 0 && r.amount == 1,
            r.hits@.len() == 0 && r.status is None,
    {
        UnitParams {
            id: 0,
            selected: 0,
            from: 1,
            to: 247,
            stop_at_first: false,
            ascii: false,
            show_exceptions: true,
            scan: ScanState::Idle,
            current: 0,
            register_type: RegisterType::Holding,
            address: 0,
            amount: 1,
            hits: Vec::new(),
            status: None,
        }
    }
}

/// The indices of the first `n` hits that the list shows: all of them, or
/// only those that returned registers when exceptions are hidden.
pub open spec fn spec_visible_hits(hits: Seq<UnitScanHit>, show_exceptions: bool, n: int) -> Seq<
    usize,
>
    decreases n,
{
    if n <= 0 {
        Seq::empty()
    } else {
        let rest = spec_visible_hits(hits, show_exceptions, n - 1);
        if show_exceptions || hits[n - 1].result is Ok {
            rest.push((n - 1) as usize)
        } else {
            rest
        }
    }
}

/// The fixed fields of the unit popup.
pub open spec fn spec_unit_fixed() -> Seq<UnitField> {
    seq![
        UnitField::Id,
        UnitField::From,
        UnitField::To,
        UnitField::Mode,
        UnitField::Repr,
        UnitField::Exceptions,
        UnitField::Scan,
    ]
}

impl UnitParams {
    const FIXED: [UnitField; 7] = [
        UnitField::Id,
        UnitField::From,
        UnitField::To,
        UnitField::Mode,
        UnitField::Repr,
        UnitField::Exceptions,
        UnitField::Scan,
    ];

    pub open spec fn spec_fields(&self) -> Seq<UnitField> {
        spec_unit_fixed() + spec_visible_hits(self.hits@, self.show_exceptions, self.hits@.len() as int).map_values(
            |i: usize| UnitField::Hit(i),
        )
    }

    pub open spec fn spec_current(&self) -> UnitField {
        let f = self.spec_fields();
        f[vstd::math::min(self.selected as int, f.len() - 1)]
    }

    /// The indices of the hits the list shows, in order.
    pub fn visible_hits(&self) -> (r: Vec<usize>)
        ensures
            r@ == spec_visible_hits(self.hits@, self.show_exceptions, self.hits@.len() as int),
    {
        let mut v: Vec<usize> = Vec::new();
        let n = self.hits.len();
        let mut i: usize = 0;
        while i < n
            invariant
                i <= n,
                n == self.hits@.len(),
                v@ == spec_visible_hits(self.hits@, self.show_exceptions, i as int),
            decreases n - i,
        {
            if self.show_exceptions || self.hits[i].result.is_ok() {
                v.push(i);
            }
            i += 1;
        }
        v
    }

    /// The fields of the popup: the form, then the listed hits.
    pub fn fields(&self) -> (r: Vec<UnitField>)
        ensures
            r@ == self.spec_fields(),
    {
        let visible = self.visible_hits();
        let fixed = Self::FIXED;
        let mut v: Vec<UnitField> = Vec::new();
        let mut k: usize = 0;
        while k < 7
            invariant
                k <= 7,
                fixed@ == spec_unit_fixed(),
                v@ == spec_unit_fixed().take(k as int),
            decreases 7 - k,
        {
            v.push(fixed[k]);
            k += 1;
            assert(v@ =~= spec_unit_fixed().take(k as int));
        }
        assert(fixed@ =~= spec_unit_fixed());
        let n = visible.len();
        let mut i: usize = 0;
        while i < n
            invariant
                i <= n,
                n == visible@.len(),
                v@ == spec_unit_fixed() + visible@.take(i as int).map_values(
                    |j: usize| UnitField::Hit(j),
                ),
            decreases n - i,
        {
            v.push(UnitField::Hit(visible[i]));
            i += 1;
            assert(visible@.take(i as int) =~= visible@.take(i - 1).push(visible@[i - 1]));
            assert(v@ =~= spec_unit_fixed() + visible@.take(i as int).map_values(
                |j: usize| UnitField::Hit(j),
            ));
        }
        assert(visible@.take(n as int) =~= visible@);
        v
    }

    /// The field the cursor is on, the last one for a cursor past the end.
    pub fn current_field(&self) -> (r: UnitField)
        ensures
            r == self.spec_current(),
    {
        let fields = self.fields();
        let last = fields.len() - 1;
        let i = if (self.selected as usize) < last {
            self.selected as usize
        } else {
            last
        };
        fields[i]
    }

    /// Jumps between the form and the list of hits; with no hits listed the
    /// cursor stays where it is.
    pub fn switch_column(&mut self)
        ensures
            old(self).spec_current() is Hit ==> final(self).selected == 0,
            !(old(self).spec_current() is Hit) && (old(self).spec_fields().len() as u16) > 7
                ==> final(self).selected == 7,
            !(old(self).spec_current() is Hit) && (old(self).spec_fields().len() as u16) <= 7
                ==> final(self).selected == old(self).selected,
            final(self).hits@ == old(self).hits@,
            final(self).show_exceptions == old(self).show_exceptions,
    {
        let current = self.current_field();
        if matches!(current, UnitField::Hit(_)) {
            self.selected = 0;
        } else if self.fields().len() as u16 > 7 {
            self.selected = 7;
        }
    }

    /// Whether a scan is running.
    pub fn active(&self) -> (r: bool)
        ensures
            r == (self.scan == ScanState::Probing),
    {
        matches!(self.scan, ScanState::Probing)
    }

    /// Whether a scan was started since the popup was last reset.
    pub fn scanned(&self) -> (r: bool)
        ensures
            r == (self.scan != ScanState::Idle),
    {
        !matches!(self.scan, ScanState::Idle)
    }

    /// The popup as it is remembered when it closes: a running scan ends as
    /// stopped and the status line is dropped; everything else stays.
    pub fn suspended(self) -> (r: UnitParams)
        ensures
            r.scan == (if self.scan == ScanState::Probing {
                ScanState::Stopped
            } else {
                self.scan
            }),
            r.status is None,
            r.id == self.id && r.selected == self.selected && r.from == self.from && r.to
                == self.to,
            r.stop_at_first == self.stop_at_first && r.ascii == self.ascii && r.show_exceptions
                == self.show_exceptions,
            r.current == self.current && r.register_type == self.register_type && r.address
                == self.address && r.amount == self.amount,
            r.hits == self.hits,
    {
        let mut s = self;
        if s.active() {
            s.scan = ScanState::Stopped;
        }
        s.status = None;
        s
    }

    /// A remembered popup reopened for the current unit id and read request.
    pub fn resumed(self, id: u8, register_type: RegisterType, address: u16, amount: u16) -> (r:
        UnitParams)
        ensures
            r.id == id && r.register_type == register_type && r.address == address && r.amount
                == amount,
            r.scan == self.scan && r.status == self.status && r.selected == self.selected,
            r.from == self.from && r.to == self.to && r.stop_at_first == self.stop_at_first,
            r.ascii == self.ascii && r.show_exceptions == self.show_exceptions && r.current
                == self.current,
            r.hits == self.hits,
    {
        let mut s = self;
        s.id = id;
        s.register_type = register_type;
        s.address = address;
        s.amount = amount;
        s
    }
}

/// A search result: a labeled register, or the register an address names.
#[derive(Debug, PartialEq)]
pub struct SearchMatch {
    pub cell: RegisterCell,
    pub text: String,
    pub labeled: bool,
}

impl Clone for SearchMatch {
    fn clone(&self) -> (r: SearchMatch)
        ensures
            r == *self,
    {
        SearchMatch { cell: self.cell, text: self.text.clone(), labeled: self.labeled }
    }
}

impl SearchMatch {
    pub fn label(cell: RegisterCell, text: String) -> (r: SearchMatch)
        ensures
            r.cell == cell && r.text == text && r.labeled,
    {
        SearchMatch { cell, text, labeled: true }
    }

    pub fn hint(cell: RegisterCell, text: String) -> (r: SearchMatch)
        ensures
            r.cell == cell && r.text == text && !r.labeled,
    {
        SearchMatch { cell, text, labeled: false }
    }
}

#[derive(Debug, PartialEq)]
pub struct SearchParams {
    pub query: String,
    pub matches: Vec<SearchMatch>,
    pub selected: u16,
    pub top: u16,
}

impl SearchParams {
    /// Keeps the selected match in range and in view.
    pub fn scroll(&mut self, rows: u16)
        ensures
            (final(self).selected, final(self).top) == spec_scroll(
                old(self).selected,
                old(self).top,
                rows,
                old(self).matches@.len() as u16,
            ),
            final(self).matches == old(self).matches,
            final(self).query == old(self).query,
    {
        let len = self.matches.len() as u16;
        scroll_window(&mut self.selected, &mut self.top, rows, len);
    }
}

#[derive(Debug, PartialEq)]
pub struct HelpParams {
    pub query: String,
    pub selected: u16,
}

#[derive(Debug, PartialEq)]
pub struct ColumnsParams {
    pub query: String,
    pub selected: u16,
}

/// The write log viewer.
#[derive(Debug, PartialEq)]
pub struct LogsParams {
    pub path: String,
    pub entries: Vec<WriteEntry>,
    pub top: u16,
}

/// The highest top line for `len` entries with `LogsParams::VISIBLE` shown.
pub open spec fn spec_logs_max_top(len: int) -> int {
    vstd::math::max(len - 16, 0)
}

impl LogsParams {
    pub const VISIBLE: u16 = 16;

    /// Scrolls by `delta` lines, kept between the first line and the last
    /// full page.
    pub fn scroll(&mut self, delta: i32)
        requires
            old(self).entries@.len() <= u16::MAX,
        ensures
            final(self).top as int == vstd::math::min(
                vstd::math::max(old(self).top + delta, 0),
                spec_logs_max_top(old(self).entries@.len() as int),
            ),
            final(self).entries == old(self).entries,
    {
        let len = self.entries.len() as i64;
        let max_top = if len > 16 {
            len - 16
        } else {
            0
        };
        let wanted = self.top as i64 + delta as i64;
        let top = if wanted < 0 {
            0
        } else if wanted > max_top {
            max_top
        } else {
            wanted
        };
        self.top = top as u16;
    }

    /// Shows the last page.
    pub fn scroll_to_bottom(&mut self)
        requires
            old(self).entries@.len() <= u16::MAX,
        ensures
            final(self).top as int == spec_logs_max_top(old(self).entries@.len() as int),
            final(self).entries == old(self).entries,
    {
        self.scroll(i32::MAX);
    }
}

/// Which statistic the inspect popup shows.
#[derive(Debug, Clone, Copy, PartialEq, Eq, Structural)]
pub enum InspectMode {
    Now,
    Min,
    Max,
    Avg,
}

impl Default for InspectMode {
    fn default() -> (r: Self)
        ensures
            r == InspectMode::Now,
    {
        InspectMode::Now
    }
}

impl InspectMode {
    pub const ALL: [InspectMode; 4] = [InspectMode::Now, InspectMode::Min, InspectMode::Max, InspectMode::Avg];

    pub fn name(self) -> (r: &'static str)
        ensures
            r@ == (match self {
                InspectMode::Now => "now"@,
                InspectMode::Min => "min"@,
                InspectMode::Max => "max"@,
                InspectMode::Avg => "avg"@,
            }),
    {
        match self {
            InspectMode::Now => "now",
            InspectMode::Min => "min",
            InspectMode::Max => "max",
            InspectMode::Avg => "avg",
        }
    }
}

impl ReadPanel {
    pub const ALL: [ReadPanel; 5] = [
        ReadPanel::Main,
        ReadPanel::Pinned,
        ReadPanel::Labeled,
        ReadPanel::Custom,
        ReadPanel::Matrix,
    ];

    pub fn name(self) -> (r: &'static str)
        ensures
            r@ == (match self {
                ReadPanel::Main => "Main"@,
                ReadPanel::Pinned => "Pinned"@,
                ReadPanel::Labeled => "Labeled"@,
                ReadPanel::Custom => "Custom"@,
                ReadPanel::Matrix => "Matrix"@,
            }),
    {
        match self {
            ReadPanel::Main => "Main",
            ReadPanel::Pinned => "Pinned",
            ReadPanel::Labeled => "Labeled",
            ReadPanel::Custom => "Custom",
            ReadPanel::Matrix => "Matrix",
        }
    }
}

impl Default for ReadPanel {
    fn default() -> (r: Self)
        ensures
            r == ReadPanel::Main,
    {
        ReadPanel::Main
    }
}

/// The connection state shown in the status bar and reported by the API.
#[derive(Debug, Clone, PartialEq)]
pub enum ConnectionStatus {
    Unknown,
    Reading,
    Connected,
    Reconnecting,
    Error(String),
}

pub open spec fn spec_status_code(s: ConnectionStatus) -> u8 {
    match s {
        ConnectionStatus::Unknown => 0,
        ConnectionStatus::Reading => 1,
        ConnectionStatus::Connected => 2,
        ConnectionStatus::Reconnecting => 3,
        ConnectionStatus::Error(_) => 4,
    }
}

pub open spec fn spec_code_label(code: u8) -> Seq<char> {
    if code == 1 {
        "reading"@
    } else if code == 2 {
        "connected"@
    } else if code == 3 {
        "reconnecting"@
    } else if code == 4 {
        "error"@
    } else {
        "unknown"@
    }
}

impl ConnectionStatus {
    /// A one-byte code of the state, shared with the API server.
    pub fn code(&self) -> (r: u8)
        ensures
            r == spec_status_code(*self),
    {
        match self {
            ConnectionStatus::Unknown => 0,
            ConnectionStatus::Reading => 1,
            ConnectionStatus::Connected => 2,
            ConnectionStatus::Reconnecting => 3,
            ConnectionStatus::Error(_) => 4,
        }
    }

    pub fn label_from_code(code: u8) -> (r: &'static str)
        ensures
            r@ == spec_code_label(code),
    {
        match code {
            1 => "reading",
            2 => "connected",
            3 => "reconnecting",
            4 => "error",
            _ => "unknown",
        }
    }

    /// Whether the API serves requests in the state with this code.
    pub fn code_serving(code: u8) -> (r: bool)
        ensures
            r == (code <= 2),
    {
        code <= 2
    }
}

/// The code of a state names that state, and the API serves while the
/// connection is unknown, reading or connected, but not while it reconnects
/// or failed.
pub proof fn lemma_status_codes(s: ConnectionStatus)
    ensures
        spec_status_code(s) <= 4,
        spec_code_label(spec_status_code(s)) == (match s {
            ConnectionStatus::Unknown => "unknown"@,
            ConnectionStatus::Reading => "reading"@,
            ConnectionStatus::Connected => "connected"@,
            ConnectionStatus::Reconnecting => "reconnecting"@,
            ConnectionStatus::Error(_) => "error"@,
        }),
        (spec_status_code(s) <= 2) <==> (s is Unknown || s is Reading || s is Connected),
{
}

/// The fields of the custom rule editor.
#[derive(Debug, Clone, Copy, PartialEq, Eq, Structural)]
pub enum CustomField {
    Repr,
    WordOrder,
    Next,
    Ops,
    Enum,
    Bits,
    Decimals,
    Prefix,
    Suffix,
}

/// The state of the custom rule editor.
#[derive(Debug, Clone, PartialEq)]
pub struct CustomParams {
    pub address: u16,
    pub register_type: RegisterType,
    pub repr: CustomRepr,
    pub word_order: Option<WordOrder>,
    pub next: Vec<u16>,
    pub ops: Vec<CustomOp>,
    pub enum_map: Vec<EnumEntry>,
    pub bits: Vec<BitEntry>,
    pub decimals: String,
    pub prefix: String,
    pub suffix: String,
    pub op_buffer: String,
    pub enum_buffer: String,
    pub bit_buffer: String,
    pub next_buffer: String,
    pub selected: u16,
    pub existed: bool,
    pub error: Option<String>,
}

/// The contents of the custom rule editor as values.
pub ghost struct CustomParamsView {
    pub address: u16,
    pub register_type: RegisterType,
    pub repr: CustomRepr,
    pub word_order: Option<WordOrder>,
    pub next: Seq<u16>,
    pub ops: Seq<CustomOp>,
    pub enum_map: Seq<EnumEntry>,
    pub bits: Seq<BitEntry>,
    pub decimals: Seq<char>,
    pub prefix: Seq<char>,
    pub suffix: Seq<char>,
    pub op_buffer: Seq<char>,
    pub enum_buffer: Seq<char>,
    pub bit_buffer: Seq<char>,
    pub next_buffer: Seq<char>,
    pub selected: u16,
    pub existed: bool,
    pub error: Option<Seq<char>>,
}

impl View for CustomParams {
    type V = CustomParamsView;

    open spec fn view(&self) -> CustomParamsView {
        CustomParamsView {
            address: self.address,
            register_type: self.register_type,
            repr: self.repr,
            word_order: self.word_order,
            next: self.next@,
            ops: self.ops@,
            enum_map: self.enum_map@,
            bits: self.bits@,
            decimals: self.decimals@,
            prefix: self.prefix@,
            suffix: self.suffix@,
            op_buffer: self.op_buffer@,
            enum_buffer: self.enum_buffer@,
            bit_buffer: self.bit_buffer@,
            next_buffer: self.next_buffer@,
            selected: self.selected,
            existed: self.existed,
            error: match self.error {
                Some(e) => Some(e@),
                None => None,
            },
        }
    }
}

impl Default for CustomParams {
    fn default() -> (r: Self)
        ensures
            r@ == (CustomParamsView {
                address: 0,
                register_type: RegisterType::Holding,
                repr: CustomRepr::U16,
                word_order: None,
                next: seq![],
                ops: seq![],
                enum_map: seq![],
                bits: seq![],
                decimals: seq![],
                prefix: seq![],
                suffix: seq![],
                op_buffer: seq![],
                enum_buffer: seq![],
                bit_buffer: seq![],
                next_buffer: seq![],
                selected: 0,
                existed: false,
                error: None,
            }),
    {
        CustomParams {
            address: 0,
            register_type: RegisterType::Holding,
            repr: CustomRepr::U16,
            word_order: None,
            next: Vec::new(),
            ops: Vec::new(),
            enum_map: Vec::new(),
            bits: Vec::new(),
            decimals: String::new(),
            prefix: String::new(),
            suffix: String::new(),
            op_buffer: String::new(),
            enum_buffer: String::new(),
            bit_buffer: String::new(),
            next_buffer: String::new(),
            selected: 0,
            existed: false,
            error: None,
        }
    }
}

/// The editor's fields: the word order and the next registers only for a
/// representation of several registers (or where they were set), the
/// arithmetic and decimals only without bit names (or where they were set).
pub open spec fn spec_custom_fields(p: CustomParamsView) -> Seq<CustomField> {
    let multi = crate::custom::spec_register_count(p.repr) > 1;
    let bits_active = p.bits.len() > 0;
    seq![CustomField::Repr] + (if multi || p.word_order is Some {
        seq![CustomField::WordOrder]
    } else {
        seq![]
    }) + (if multi || p.next.len() > 0 {
        seq![CustomField::Next]
    } else {
        seq![]
    }) + (if !bits_active || p.ops.len() > 0 {
        seq![CustomField::Ops]
    } else {
        seq![]
    }) + seq![CustomField::Enum, CustomField::Bits] + (if !bits_active || p.decimals.len() > 0 {
        seq![CustomField::Decimals]
    } else {
        seq![]
    }) + seq![CustomField::Prefix, CustomField::Suffix]
}

/// The cursor after the fields changed: on `field` where it is listed,
/// else where it was, kept within the list.
pub open spec fn reselected(fields: Seq<CustomField>, selected: u16, field: CustomField) -> u16 {
    if fields.contains(field) {
        fields.index_of_first(field)->0 as u16
    } else if selected < fields.len() {
        selected
    } else {
        (fields.len() - 1) as u16
    }
}

/// The word orders a custom rule can pick, the device's own first.
pub open spec fn order_choices() -> Seq<Option<WordOrder>> {
    seq![None, Some(WordOrder::ABCD), Some(WordOrder::BADC), Some(WordOrder::CDAB), Some(WordOrder::DCBA)]
}

/// Whether Enter on `field` adds what its buffer holds, rather than
/// saving the rule.
pub open spec fn spec_custom_adding(p: CustomParamsView, field: CustomField) -> bool {
    match field {
        CustomField::Ops => text::trim(p.op_buffer).len() > 0,
        CustomField::Enum => text::trim(p.enum_buffer).len() > 0,
        CustomField::Bits => text::trim(p.bit_buffer).len() > 0,
        CustomField::Next => text::trim(p.next_buffer).len() > 0,
        _ => false,
    }
}

/// The ASCII decimal digits.
pub open spec fn is_digit(c: char) -> bool {
    '0' <= c <= '9'
}


/// The editor after typing `ch` into `field`.
pub open spec fn spec_type_char(p: CustomParamsView, field: CustomField, ch: char) -> CustomParamsView {
    let p = CustomParamsView { error: None, ..p };
    match field {
        CustomField::Ops => CustomParamsView { op_buffer: p.op_buffer.push(ch), ..p },
        CustomField::Enum => CustomParamsView { enum_buffer: p.enum_buffer.push(ch), ..p },
        CustomField::Bits => CustomParamsView { bit_buffer: p.bit_buffer.push(ch), ..p },
        CustomField::Next => if is_digit(ch) && text::utf8_bytes(p.next_buffer) < 5 {
            CustomParamsView { next_buffer: p.next_buffer.push(ch), ..p }
        } else {
            p
        },
        CustomField::Decimals => if is_digit(ch) && text::utf8_bytes(p.decimals) < 2 {
            CustomParamsView { decimals: p.decimals.push(ch), ..p }
        } else {
            p
        },
        CustomField::Prefix => CustomParamsView { prefix: p.prefix.push(ch), ..p },
        CustomField::Suffix => CustomParamsView { suffix: p.suffix.push(ch), ..p },
        _ => p,
    }
}

/// `s` without its last item, or `s` when it is empty.
pub open spec fn shortened<A>(s: Seq<A>) -> Seq<A> {
    if s.len() > 0 {
        s.drop_last()
    } else {
        s
    }
}

/// The editor after a backspace on `field`, before the cursor moves.
pub open spec fn spec_backspace(p: CustomParamsView, field: CustomField) -> CustomParamsView {
    let p = CustomParamsView { error: None, ..p };
    match field {
        CustomField::Ops => if p.op_buffer.len() > 0 {
            CustomParamsView { op_buffer: p.op_buffer.drop_last(), ..p }
        } else {
            CustomParamsView { ops: shortened(p.ops), ..p }
        },
        CustomField::Enum => if p.enum_buffer.len() > 0 {
            CustomParamsView { enum_buffer: p.enum_buffer.drop_last(), ..p }
        } else {
            CustomParamsView { enum_map: shortened(p.enum_map), ..p }
        },
        CustomField::Bits => if p.bit_buffer.len() > 0 {
            CustomParamsView { bit_buffer: p.bit_buffer.drop_last(), ..p }
        } else {
            CustomParamsView { bits: shortened(p.bits), ..p }
        },
        CustomField::Next => if p.next_buffer.len() > 0 {
            CustomParamsView { next_buffer: p.next_buffer.drop_last(), ..p }
        } else {
            CustomParamsView { next: shortened(p.next), ..p }
        },
        CustomField::Decimals => CustomParamsView { decimals: shortened(p.decimals), ..p },
        CustomField::Prefix => CustomParamsView { prefix: shortened(p.prefix), ..p },
        CustomField::Suffix => CustomParamsView { suffix: shortened(p.suffix), ..p },
        _ => p,
    }
}

/// What Enter on `field` did, the cursor aside: the entry its buffer
/// holds added and the buffer emptied, or the error set and all else kept.
pub open spec fn entered(
    old: CustomParamsView,
    new: CustomParamsView,
    field: CustomField,
    op: Result<CustomOp, Seq<char>>,
) -> bool {
    let kept = CustomParamsView { selected: new.selected, ..old };
    match field {
        CustomField::Ops => match op {
            Ok(o) => new == CustomParamsView { ops: old.ops.push(o), op_buffer: seq![], ..kept },
            Err(e) => new == CustomParamsView { error: Some("op: "@ + e), ..kept },
        },
        CustomField::Enum => match crate::custom::spec_enum_parse(old.enum_buffer) {
            Ok(x) => new.enum_map.len() == old.enum_map.len() + 1 && new.enum_map.drop_last()
                == old.enum_map && crate::custom::enum_entry_view(new.enum_map.last()) == x && new
                == CustomParamsView { enum_map: new.enum_map, enum_buffer: seq![], ..kept },
            Err(m) => new == CustomParamsView { error: Some("enum: "@ + m), ..kept },
        },
        CustomField::Bits => match crate::custom::spec_bit_parse(old.bit_buffer) {
            Ok(x) => new.bits.len() == old.bits.len() + 1 && new.bits.drop_last() == old.bits
                && crate::custom::bit_entry_view(new.bits.last()) == x && new == CustomParamsView {
                bits: new.bits,
                bit_buffer: seq![],
                ..kept
            },
            Err(m) => new == CustomParamsView { error: Some("bit: "@ + m), ..kept },
        },
        CustomField::Next => if old.next.len() + 1 >= crate::custom::spec_register_count(old.repr) {
            new == CustomParamsView {
                error: Some(
                    "next: "@ + crate::custom::spec_repr_label(old.repr) + " uses "@ + text::dec(
                        crate::custom::spec_register_count(old.repr),
                    ) + " register(s)"@,
                ),
                ..kept
            }
        } else {
            match crate::parse::spec_parse_unsigned(text::trim(old.next_buffer), 10, 65535) {
                Some(a) => new == CustomParamsView {
                    next: old.next.push(a as u16),
                    next_buffer: seq![],
                    ..kept
                },
                None => new == CustomParamsView { error: Some("next: invalid address"@), ..kept },
            }
        },
        _ => true,
    }
}

fn next_order_choice(current: Option<WordOrder>, forward: bool) -> (r: Option<WordOrder>)
    ensures
        r == num_ops::cycled(order_choices(), current, forward),
{
    let choices: [Option<WordOrder>; 5] = [None, Some(WordOrder::ABCD), Some(WordOrder::BADC), Some(WordOrder::CDAB), Some(WordOrder::DCBA)];
    let i: usize = match current {
        None => 0,
        Some(WordOrder::ABCD) => 1,
        Some(WordOrder::BADC) => 2,
        Some(WordOrder::CDAB) => 3,
        Some(WordOrder::DCBA) => 4,
    };
    proof {
        let cs = order_choices();
        assert(choices@ =~= cs);
        assert(cs[i as int] == current);
        assert(cs.contains(current));
        cs.index_of_first_ensures(current);
        let k = cs.index_of_first(current)->0;
        assert(k == i) by {
            if k < i {
                assert(cs[k] == current);
            } else if k > i {
                assert(cs[i as int] != current);
            }
        }
    }
    if forward {
        choices[(i + 1) % 5]
    } else {
        choices[(i + 4) % 5]
    }
}

fn next_repr(current: CustomRepr, forward: bool) -> (r: CustomRepr)
    ensures
        r == num_ops::cycled(crate::custom::spec_all_reprs(), current, forward),
{
    let all = CustomRepr::ALL;
    let i: usize = match current {
        CustomRepr::U16 => 0,
        CustomRepr::I16 => 1,
        CustomRepr::F16 => 2,
        CustomRepr::U32 => 3,
        CustomRepr::I32 => 4,
        CustomRepr::F32 => 5,
        CustomRepr::U64 => 6,
        CustomRepr::I64 => 7,
        CustomRepr::F64 => 8,
    };
    proof {
        let cs = crate::custom::spec_all_reprs();
        assert(all@ =~= cs);
        assert(cs[i as int] == current);
        assert(cs.contains(current));
        cs.index_of_first_ensures(current);
        let k = cs.index_of_first(current)->0;
        assert(k == i) by {
            if k < i {
                assert(cs[k] == current);
            } else if k > i {
                assert(cs[i as int] != current);
            }
        }
    }
    if forward {
        all[(i + 1) % 9]
    } else {
        all[(i + 8) % 9]
    }
}

impl CustomParams {
    /// The fields the editor shows, in order.
    pub fn fields(&self) -> (r: Vec<CustomField>)
        ensures
            r@ == spec_custom_fields(self@),
    {
        let multi = self.repr.register_count() > 1;
        let bits_active = self.bits.len() > 0;
        let mut fields: Vec<CustomField> = vec![CustomField::Repr];
        if multi || self.word_order.is_some() {
            fields.push(CustomField::WordOrder);
        }
        if multi || self.next.len() > 0 {
            fields.push(CustomField::Next);
        }
        if !bits_active || self.ops.len() > 0 {
            fields.push(CustomField::Ops);
        }
        fields.push(CustomField::Enum);
        fields.push(CustomField::Bits);
        if !bits_active || self.decimals.as_str().unicode_len() > 0 {
            fields.push(CustomField::Decimals);
        }
        fields.push(CustomField::Prefix);
        fields.push(CustomField::Suffix);
        assert(fields@ =~= spec_custom_fields(self@));
        fields
    }

    /// The field under the cursor.
    pub fn current_field(&self) -> (r: CustomField)
        ensures
            r == spec_custom_fields(self@)[if self.selected < spec_custom_fields(self@).len() {
                self.selected as int
            } else {
                spec_custom_fields(self@).len() - 1
            }],
    {
        let fields = self.fields();
        let i = if (self.selected as usize) < fields.len() {
            self.selected as usize
        } else {
            fields.len() - 1
        };
        fields[i]
    }

    /// Puts the cursor on `field` where it is shown, else keeps it within
    /// the fields.
    pub fn reselect(&mut self, field: CustomField)
        ensures
            final(self)@ == (CustomParamsView {
                selected: reselected(spec_custom_fields(old(self)@), old(self).selected, field),
                ..old(self)@
            }),
    {
        let fields = self.fields();
        let mut i: usize = 0;
        while i < fields.len()
            invariant
                i <= fields@.len(),
                *self == *old(self),
                fields@ == spec_custom_fields(self@),
                forall|k: int| 0 <= k < i ==> fields@[k] != field,
            decreases fields@.len() - i,
        {
            if fields[i] == field {
                proof {
                    assert(fields@.contains(field));
                    fields@.index_of_first_ensures(field);
                    let k = fields@.index_of_first(field)->0;
                    assert(k == i) by {
                        if k > i {
                            assert(fields@[i as int] != field);
                        }
                    }
                }
                self.selected = i as u16;
                return;
            }
            i += 1;
        }
        assert(!fields@.contains(field));
        if (self.selected as usize) >= fields.len() {
            self.selected = (fields.len() - 1) as u16;
        }
    }

    /// Moves the cursor one field down or up, wrapping, and clears the
    /// error.
    pub fn move_cursor(&mut self, down: bool)
        ensures
            final(self)@ == (CustomParamsView {
                error: None,
                selected: num_ops::wrapped_index(
                    if old(self).selected < spec_custom_fields(old(self)@).len() {
                        old(self).selected as int
                    } else {
                        spec_custom_fields(old(self)@).len() - 1
                    },
                    spec_custom_fields(old(self)@).len() as int,
                    down,
                ) as u16,
                ..old(self)@
            }),
    {
        self.error = None;
        let n = self.fields().len() as u16;
        let current = if self.selected < n {
            self.selected
        } else {
            n - 1
        };
        self.selected = wrap_index(current, n, down);
    }

    /// Steps the representation or the word order, for those fields, and
    /// clears the error.
    pub fn cycle(&mut self, field: CustomField, forward: bool)
        ensures
            ({
                let changed = CustomParamsView {
                    error: None,
                    repr: if field == CustomField::Repr {
                        num_ops::cycled(crate::custom::spec_all_reprs(), old(self).repr, forward)
                    } else {
                        old(self).repr
                    },
                    word_order: if field == CustomField::WordOrder {
                        num_ops::cycled(order_choices(), old(self).word_order, forward)
                    } else {
                        old(self).word_order
                    },
                    ..old(self)@
                };
                final(self)@ == (CustomParamsView {
                    selected: reselected(spec_custom_fields(changed), old(self).selected, field),
                    ..changed
                })
            }),
    {
        self.error = None;
        match field {
            CustomField::Repr => {
                self.repr = next_repr(self.repr, forward);
            },
            CustomField::WordOrder => {
                self.word_order = next_order_choice(self.word_order, forward);
            },
            _ => {},
        }
        self.reselect(field);
    }

    /// Types `ch` into `field` and clears the error: the number fields take
    /// digits only, the next register up to five bytes and the decimals up
    /// to two.
    pub fn type_char(&mut self, field: CustomField, ch: char)
        ensures
            final(self)@ == spec_type_char(old(self)@, field, ch),
    {
        self.error = None;
        match field {
            CustomField::Ops => text::push_char(&mut self.op_buffer, ch),
            CustomField::Enum => text::push_char(&mut self.enum_buffer, ch),
            CustomField::Bits => text::push_char(&mut self.bit_buffer, ch),
            CustomField::Next => {
                if '0' <= ch && ch <= '9' && text::bytes_below(self.next_buffer.as_str(), 5) {
                    text::push_char(&mut self.next_buffer, ch);
                }
            },
            CustomField::Decimals => {
                if '0' <= ch && ch <= '9' && text::bytes_below(self.decimals.as_str(), 2) {
                    text::push_char(&mut self.decimals, ch);
                }
            },
            CustomField::Prefix => text::push_char(&mut self.prefix, ch),
            CustomField::Suffix => text::push_char(&mut self.suffix, ch),
            _ => {},
        }
    }

    /// Deletes the last character of `field`, or, with its buffer empty,
    /// the last entry it added; clears the error.
    pub fn backspace(&mut self, field: CustomField)
        ensures
            ({
                let q = spec_backspace(old(self)@, field);
                final(self)@ == (CustomParamsView {
                    selected: reselected(spec_custom_fields(q), old(self).selected, field),
                    ..q
                })
            }),
    {
        self.error = None;
        match field {
            CustomField::Ops => {
                if text::pop_char(&mut self.op_buffer).is_none() {
                    self.ops.pop();
                }
            },
            CustomField::Enum => {
                if text::pop_char(&mut self.enum_buffer).is_none() {
                    self.enum_map.pop();
                }
            },
            CustomField::Bits => {
                if text::pop_char(&mut self.bit_buffer).is_none() {
                    self.bits.pop();
                }
            },
            CustomField::Next => {
                if text::pop_char(&mut self.next_buffer).is_none() {
                    self.next.pop();
                }
            },
            CustomField::Decimals => {
                text::pop_char(&mut self.decimals);
            },
            CustomField::Prefix => {
                text::pop_char(&mut self.prefix);
            },
            CustomField::Suffix => {
                text::pop_char(&mut self.suffix);
            },
            _ => {},
        }
        assert(self@ == spec_backspace(old(self)@, field));
        self.reselect(field);
    }

    /// Enter on `field`: adds what its buffer holds (the operation as
    /// `parsed_op` gives it, an enum entry, a bit name or a next register)
    /// and returns `true`, or, with nothing to add, returns `false`, for
    /// the caller to save the rule. A refused entry sets the error.
    pub fn enter(&mut self, field: CustomField, parsed_op: Result<CustomOp, String>) -> (r: bool)
        ensures
            r == spec_custom_adding(old(self)@, field),
            !r ==> final(self)@ == old(self)@,
            r ==> final(self).selected == reselected(
                spec_custom_fields(final(self)@),
                old(self).selected,
                field,
            ),
            r ==> entered(
                old(self)@,
                final(self)@,
                field,
                match parsed_op {
                    Ok(op) => Ok(op),
                    Err(e) => Err(e@),
                },
            ),
    {
        let adding = match field {
            CustomField::Ops => !is_blank(self.op_buffer.as_str()),
            CustomField::Enum => !is_blank(self.enum_buffer.as_str()),
            CustomField::Bits => !is_blank(self.bit_buffer.as_str()),
            CustomField::Next => !is_blank(self.next_buffer.as_str()),
            _ => false,
        };
        if !adding {
            return false;
        }
        let ghost before = self@;
        match field {
            CustomField::Ops => match parsed_op {
                Ok(op) => {
                    self.ops.push(op);
                    self.op_buffer = String::new();
                },
                Err(e) => {
                    let mut m = String::new();
                    push_str(&mut m, "op: ");
                    push_str(&mut m, e.as_str());
                    self.error = Some(m);
                },
            },
            CustomField::Enum => match crate::custom::parse_enum(self.enum_buffer.as_str()) {
                Ok(entry) => {
                    self.enum_map.push(entry);
                    self.enum_buffer = String::new();
                    assert(self.enum_map@.drop_last() =~= before.enum_map);
                },
                Err(e) => {
                    let mut m = String::new();
                    push_str(&mut m, "enum: ");
                    push_str(&mut m, e.as_str());
                    self.error = Some(m);
                },
            },
            CustomField::Bits => match crate::custom::parse_bit(self.bit_buffer.as_str()) {
                Ok(entry) => {
                    self.bits.push(entry);
                    self.bit_buffer = String::new();
                    assert(self.bits@.drop_last() =~= before.bits);
                },
                Err(e) => {
                    let mut m = String::new();
                    push_str(&mut m, "bit: ");
                    push_str(&mut m, e.as_str());
                    self.error = Some(m);
                },
            },
            _ => {
                let count = self.repr.register_count();
                if self.next.len() >= count - 1 {
                    let mut m = String::new();
                    push_str(&mut m, "next: ");
                    push_str(&mut m, self.repr.label());
                    push_str(&mut m, " uses ");
                    text::push_decimal(&mut m, count as u64);
                    push_str(&mut m, " register(s)");
                    self.error = Some(m);
                } else {
                    let digits = text::trimmed_chars(self.next_buffer.as_str());
                    match crate::parse::parse_unsigned(digits.as_slice(), 10, 65535) {
                        Some(address) => {
                            self.next.push(address as u16);
                            self.next_buffer = String::new();
                        },
                        None => {
                            let mut m = String::new();
                            push_str(&mut m, "next: invalid address");
                            self.error = Some(m);
                        },
                    }
                }
            },
        }
        self.reselect(field);
        true
    }
}

/// The popups over the read view, each with its state.
#[derive(Debug, PartialEq)]
pub enum Popup {
    Discovery(DiscoveryParams),
    Help(HelpParams),
    About,
    Dump(DumpParams),
    Search(SearchParams),
    Label(LabelParams),
    Custom(CustomParams),
    Columns(ColumnsParams),
    Write(WriteParams),
    Unit(UnitParams),
    Logs(LogsParams),
    SweepConfig(SweepConfigParams),
    Inspect(InspectMode),
    Stats,
    DeviceId(DeviceIdParams),
    Raw(RawParams),
    Import(ImportParams),
    CycleConfig,
    Quit,
}

/// Which popup is open, without its state.
#[derive(Debug, Clone, Copy, PartialEq, Eq, Structural)]
pub enum PopupKind {
    Discovery,
    Help,
    About,
    Dump,
    Search,
    Label,
    Custom,
    Columns,
    Write,
    Unit,
    Logs,
    SweepConfig,
    Inspect,
    Stats,
    DeviceId,
    Raw,
    Import,
    CycleConfig,
    Quit,
}

/// The kind of a popup.
pub open spec fn spec_popup_kind(p: &Popup) -> PopupKind {
    match p {
        Popup::Discovery(_) => PopupKind::Discovery,
        Popup::Help(_) => PopupKind::Help,
        Popup::About => PopupKind::About,
        Popup::Dump(_) => PopupKind::Dump,
        Popup::Search(_) => PopupKind::Search,
        Popup::Label(_) => PopupKind::Label,
        Popup::Custom(_) => PopupKind::Custom,
        Popup::Columns(_) => PopupKind::Columns,
        Popup::Write(_) => PopupKind::Write,
        Popup::Unit(_) => PopupKind::Unit,
        Popup::Logs(_) => PopupKind::Logs,
        Popup::SweepConfig(_) => PopupKind::SweepConfig,
        Popup::Inspect(_) => PopupKind::Inspect,
        Popup::Stats => PopupKind::Stats,
        Popup::DeviceId(_) => PopupKind::DeviceId,
        Popup::Raw(_) => PopupKind::Raw,
        Popup::Import(_) => PopupKind::Import,
        Popup::CycleConfig => PopupKind::CycleConfig,
        Popup::Quit => PopupKind::Quit,
    }
}

impl Popup {
    /// Which popup this is.
    pub fn kind(&self) -> (r: PopupKind)
        ensures
            r == spec_popup_kind(self),
    {
        match self {
            Popup::Discovery(_) => PopupKind::Discovery,
            Popup::Help(_) => PopupKind::Help,
            Popup::About => PopupKind::About,
            Popup::Dump(_) => PopupKind::Dump,
            Popup::Search(_) => PopupKind::Search,
            Popup::Label(_) => PopupKind::Label,
            Popup::Custom(_) => PopupKind::Custom,
            Popup::Columns(_) => PopupKind::Columns,
            Popup::Write(_) => PopupKind::Write,
            Popup::Unit(_) => PopupKind::Unit,
            Popup::Logs(_) => PopupKind::Logs,
            Popup::SweepConfig(_) => PopupKind::SweepConfig,
            Popup::Inspect(_) => PopupKind::Inspect,
            Popup::Stats => PopupKind::Stats,
            Popup::DeviceId(_) => PopupKind::DeviceId,
            Popup::Raw(_) => PopupKind::Raw,
            Popup::Import(_) => PopupKind::Import,
            Popup::CycleConfig => PopupKind::CycleConfig,
            Popup::Quit => PopupKind::Quit,
        }
    }
}


/// The state a popup carries, read out of a `Popup` of its kind.
pub trait PopupPayload: Sized {
    /// The state of `popup`, where it is of this kind.
    fn from_popup(popup: &Popup) -> Option<&Self>;

    /// The state of `popup`, for changing it, where it is of this kind.
    fn from_popup_mut(popup: &mut Popup) -> Option<&mut Self>;
}

impl PopupPayload for DiscoveryParams {
    fn from_popup(popup: &Popup) -> (r: Option<&DiscoveryParams>)
        ensures
            r == (match popup {
                Popup::Discovery(inner) => Some(inner),
                _ => None::<&DiscoveryParams>,
            }),
    {
        match popup {
            Popup::Discovery(inner) => Some(inner),
            _ => None,
        }
    }

    fn from_popup_mut(popup: &mut Popup) -> (r: Option<&mut DiscoveryParams>)
        ensures
            *old(popup) is Discovery <==> r is Some,
            r matches Some(inner) ==> *old(popup) == Popup::Discovery(*inner) && *final(popup) == Popup::Discovery(*final(inner)),
            r is None ==> *final(popup) == *old(popup),
    {
        match popup {
            Popup::Discovery(inner) => Some(inner),
            _ => None,
        }
    }
}

impl PopupPayload for HelpParams {
    fn from_popup(popup: &Popup) -> (r: Option<&HelpParams>)
        ensures
            r == (match popup {
                Popup::Help(inner) => Some(inner),
                _ => None::<&HelpParams>,
            }),
    {
        match popup {
            Popup::Help(inner) => Some(inner),
            _ => None,
        }
    }

    fn from_popup_mut(popup: &mut Popup) -> (r: Option<&mut HelpParams>)
        ensures
            *old(popup) is Help <==> r is Some,
            r matches Some(inner) ==> *old(popup) == Popup::Help(*inner) && *final(popup) == Popup::Help(*final(inner)),
            r is None ==> *final(popup) == *old(popup),
    {
        match popup {
            Popup::Help(inner) => Some(inner),
            _ => None,
        }
    }
}

impl PopupPayload for DumpParams {
    fn from_popup(popup: &Popup) -> (r: Option<&DumpParams>)
        ensures
            r == (match popup {
                Popup::Dump(inner) => Some(inner),
                _ => None::<&DumpParams>,
            }),
    {
        match popup {
            Popup::Dump(inner) => Some(inner),
            _ => None,
        }
    }

    fn from_popup_mut(popup: &mut Popup) -> (r: Option<&mut DumpParams>)
        ensures
            *old(popup) is Dump <==> r is Some,
            r matches Some(inner) ==> *old(popup) == Popup::Dump(*inner) && *final(popup) == Popup::Dump(*final(inner)),
            r is None ==> *final(popup) == *old(popup),
    {
        match popup {
            Popup::Dump(inner) => Some(inner),
            _ => None,
        }
    }
}

impl PopupPayload for SearchParams {
    fn from_popup(popup: &Popup) -> (r: Option<&SearchParams>)
        ensures
            r == (match popup {
                Popup::Search(inner) => Some(inner),
                _ => None::<&SearchParams>,
            }),
    {
        match popup {
            Popup::Search(inner) => Some(inner),
            _ => None,
        }
    }

    fn from_popup_mut(popup: &mut Popup) -> (r: Option<&mut SearchParams>)
        ensures
            *old(popup) is Search <==> r is Some,
            r matches Some(inner) ==> *old(popup) == Popup::Search(*inner) && *final(popup) == Popup::Search(*final(inner)),
            r is None ==> *final(popup) == *old(popup),
    {
        match popup {
            Popup::Search(inner) => Some(inner),
            _ => None,
        }
    }
}

impl PopupPayload for LabelParams {
    fn from_popup(popup: &Popup) -> (r: Option<&LabelParams>)
        ensures
            r == (match popup {
                Popup::Label(inner) => Some(inner),
                _ => None::<&LabelParams>,
            }),
    {
        match popup {
            Popup::Label(inner) => Some(inner),
            _ => None,
        }
    }

    fn from_popup_mut(popup: &mut Popup) -> (r: Option<&mut LabelParams>)
        ensures
            *old(popup) is Label <==> r is Some,
            r matches Some(inner) ==> *old(popup) == Popup::Label(*inner) && *final(popup) == Popup::Label(*final(inner)),
            r is None ==> *final(popup) == *old(popup),
    {
        match popup {
            Popup::Label(inner) => Some(inner),
            _ => None,
        }
    }
}

impl PopupPayload for CustomParams {
    fn from_popup(popup: &Popup) -> (r: Option<&CustomParams>)
        ensures
            r == (match popup {
                Popup::Custom(inner) => Some(inner),
                _ => None::<&CustomParams>,
            }),
    {
        match popup {
            Popup::Custom(inner) => Some(inner),
            _ => None,
        }
    }

    fn from_popup_mut(popup: &mut Popup) -> (r: Option<&mut CustomParams>)
        ensures
            *old(popup) is Custom <==> r is Some,
            r matches Some(inner) ==> *old(popup) == Popup::Custom(*inner) && *final(popup) == Popup::Custom(*final(inner)),
            r is None ==> *final(popup) == *old(popup),
    {
        match popup {
            Popup::Custom(inner) => Some(inner),
            _ => None,
        }
    }
}

impl PopupPayload for ColumnsParams {
    fn from_popup(popup: &Popup) -> (r: Option<&ColumnsParams>)
        ensures
            r == (match popup {
                Popup::Columns(inner) => Some(inner),
                _ => None::<&ColumnsParams>,
            }),
    {
        match popup {
            Popup::Columns(inner) => Some(inner),
            _ => None,
        }
    }

    fn from_popup_mut(popup: &mut Popup) -> (r: Option<&mut ColumnsParams>)
        ensures
            *old(popup) is Columns <==> r is Some,
            r matches Some(inner) ==> *old(popup) == Popup::Columns(*inner) && *final(popup) == Popup::Columns(*final(inner)),
            r is None ==> *final(popup) == *old(popup),
    {
        match popup {
            Popup::Columns(inner) => Some(inner),
            _ => None,
        }
    }
}

impl PopupPayload for WriteParams {
    fn from_popup(popup: &Popup) -> (r: Option<&WriteParams>)
        ensures
            r == (match popup {
                Popup::Write(inner) => Some(inner),
                _ => None::<&WriteParams>,
            }),
    {
        match popup {
            Popup::Write(inner) => Some(inner),
            _ => None,
        }
    }

    fn from_popup_mut(popup: &mut Popup) -> (r: Option<&mut WriteParams>)
        ensures
            *old(popup) is Write <==> r is Some,
            r matches Some(inner) ==> *old(popup) == Popup::Write(*inner) && *final(popup) == Popup::Write(*final(inner)),
            r is None ==> *final(popup) == *old(popup),
    {
        match popup {
            Popup::Write(inner) => Some(inner),
            _ => None,
        }
    }
}

impl PopupPayload for UnitParams {
    fn from_popup(popup: &Popup) -> (r: Option<&UnitParams>)
        ensures
            r == (match popup {
                Popup::Unit(inner) => Some(inner),
                _ => None::<&UnitParams>,
            }),
    {
        match popup {
            Popup::Unit(inner) => Some(inner),
            _ => None,
        }
    }

    fn from_popup_mut(popup: &mut Popup) -> (r: Option<&mut UnitParams>)
        ensures
            *old(popup) is Unit <==> r is Some,
            r matches Some(inner) ==> *old(popup) == Popup::Unit(*inner) && *final(popup) == Popup::Unit(*final(inner)),
            r is None ==> *final(popup) == *old(popup),
    {
        match popup {
            Popup::Unit(inner) => Some(inner),
            _ => None,
        }
    }
}

impl PopupPayload for LogsParams {
    fn from_popup(popup: &Popup) -> (r: Option<&LogsParams>)
        ensures
            r == (match popup {
                Popup::Logs(inner) => Some(inner),
                _ => None::<&LogsParams>,
            }),
    {
        match popup {
            Popup::Logs(inner) => Some(inner),
            _ => None,
        }
    }

    fn from_popup_mut(popup: &mut Popup) -> (r: Option<&mut LogsParams>)
        ensures
            *old(popup) is Logs <==> r is Some,
            r matches Some(inner) ==> *old(popup) == Popup::Logs(*inner) && *final(popup) == Popup::Logs(*final(inner)),
            r is None ==> *final(popup) == *old(popup),
    {
        match popup {
            Popup::Logs(inner) => Some(inner),
            _ => None,
        }
    }
}

impl PopupPayload for SweepConfigParams {
    fn from_popup(popup: &Popup) -> (r: Option<&SweepConfigParams>)
        ensures
            r == (match popup {
                Popup::SweepConfig(inner) => Some(inner),
                _ => None::<&SweepConfigParams>,
            }),
    {
        match popup {
            Popup::SweepConfig(inner) => Some(inner),
            _ => None,
        }
    }

    fn from_popup_mut(popup: &mut Popup) -> (r: Option<&mut SweepConfigParams>)
        ensures
            *old(popup) is SweepConfig <==> r is Some,
            r matches Some(inner) ==> *old(popup) == Popup::SweepConfig(*inner) && *final(popup) == Popup::SweepConfig(*final(inner)),
            r is None ==> *final(popup) == *old(popup),
    {
        match popup {
            Popup::SweepConfig(inner) => Some(inner),
            _ => None,
        }
    }
}

impl PopupPayload for InspectMode {
    fn from_popup(popup: &Popup) -> (r: Option<&InspectMode>)
        ensures
            r == (match popup {
                Popup::Inspect(inner) => Some(inner),
                _ => None::<&InspectMode>,
            }),
    {
        match popup {
            Popup::Inspect(inner) => Some(inner),
            _ => None,
        }
    }

    fn from_popup_mut(popup: &mut Popup) -> (r: Option<&mut InspectMode>)
        ensures
            *old(popup) is Inspect <==> r is Some,
            r matches Some(inner) ==> *old(popup) == Popup::Inspect(*inner) && *final(popup) == Popup::Inspect(*final(inner)),
            r is None ==> *final(popup) == *old(popup),
    {
        match popup {
            Popup::Inspect(inner) => Some(inner),
            _ => None,
        }
    }
}

impl PopupPayload for DeviceIdParams {
    fn from_popup(popup: &Popup) -> (r: Option<&DeviceIdParams>)
        ensures
            r == (match popup {
                Popup::DeviceId(inner) => Some(inner),
                _ => None::<&DeviceIdParams>,
            }),
    {
        match popup {
            Popup::DeviceId(inner) => Some(inner),
            _ => None,
        }
    }

    fn from_popup_mut(popup: &mut Popup) -> (r: Option<&mut DeviceIdParams>)
        ensures
            *old(popup) is DeviceId <==> r is Some,
            r matches Some(inner) ==> *old(popup) == Popup::DeviceId(*inner) && *final(popup) == Popup::DeviceId(*final(inner)),
            r is None ==> *final(popup) == *old(popup),
    {
        match popup {
            Popup::DeviceId(inner) => Some(inner),
            _ => None,
        }
    }
}

impl PopupPayload for RawParams {
    fn from_popup(popup: &Popup) -> (r: Option<&RawParams>)
        ensures
            r == (match popup {
                Popup::Raw(inner) => Some(inner),
                _ => None::<&RawParams>,
            }),
    {
        match popup {
            Popup::Raw(inner) => Some(inner),
            _ => None,
        }
    }

    fn from_popup_mut(popup: &mut Popup) -> (r: Option<&mut RawParams>)
        ensures
            *old(popup) is Raw <==> r is Some,
            r matches Some(inner) ==> *old(popup) == Popup::Raw(*inner) && *final(popup) == Popup::Raw(*final(inner)),
            r is None ==> *final(popup) == *old(popup),
    {
        match popup {
            Popup::Raw(inner) => Some(inner),
            _ => None,
        }
    }
}

impl PopupPayload for ImportParams {
    fn from_popup(popup: &Popup) -> (r: Option<&ImportParams>)
        ensures
            r == (match popup {
                Popup::Import(inner) => Some(inner),
                _ => None::<&ImportParams>,
            }),
    {
        match popup {
            Popup::Import(inner) => Some(inner),
            _ => None,
        }
    }

    fn from_popup_mut(popup: &mut Popup) -> (r: Option<&mut ImportParams>)
        ensures
            *old(popup) is Import <==> r is Some,
            r matches Some(inner) ==> *old(popup) == Popup::Import(*inner) && *final(popup) == Popup::Import(*final(inner)),
            r is None ==> *final(popup) == *old(popup),
    {
        match popup {
            Popup::Import(inner) => Some(inner),
            _ => None,
        }
    }
}

/// How long a status message stays up, in milliseconds.
pub const STATUS_TTL_MS: u64 = 4000;

/// The read view: cursor, window, panel, popup and the state of reading.
/// Times are milliseconds on the caller's monotonic clock.
#[derive(Debug, PartialEq)]
pub struct ReadParams {
    pub position: u16,
    pub window_start: u16,
    pub col_offset: u16,
    pub copy_column: Option<u16>,
    pub panel: ReadPanel,
    pub pinned_index: u16,
    pub pinned_top: u16,
    pub popup: Option<Popup>,
    pub graph: bool,
    pub graph_column: Column,
    pub graph_series: Vec<RegisterCell>,
    pub refresh_timer: u64,
    pub register_type: RegisterType,
    pub read_duration: Option<u64>,
    pub loading: bool,
    pub read_started: u64,
    pub read_error: Option<String>,
    pub status: Option<StatusMessage>,
    pub status_at: u64,
}

impl Default for ReadParams {
    fn default() -> (r: Self)
        ensures
            r.position == 0 && r.window_start == 0 && r.col_offset == 0,
            r.copy_column is None,
            r.panel == ReadPanel::Main,
            r.pinned_index == 0 && r.pinned_top == 0,
            r.popup is None,
            !r.graph,
            r.graph_column == Column::Custom,
            r.graph_series@.len() == 0,
            r.refresh_timer == 0 && r.read_started == 0 && r.status_at == 0,
            r.register_type == RegisterType::Holding,
            r.read_duration is None,
            !r.loading,
            r.read_error is None,
            r.status is None,
    {
        ReadParams {
            position: 0,
            window_start: 0,
            col_offset: 0,
            copy_column: None,
            panel: ReadPanel::Main,
            pinned_index: 0,
            pinned_top: 0,
            popup: None,
            graph: false,
            graph_column: Column::Custom,
            graph_series: Vec::new(),
            refresh_timer: 0,
            register_type: RegisterType::Holding,
            read_duration: None,
            loading: false,
            read_started: 0,
            read_error: None,
            status: None,
            status_at: 0,
        }
    }
}

/// The first row of a window of `rows` rows that keeps `position` in its
/// middle where it can; in the matrix panel, a window of `rows` rows of
/// `cols` registers.
pub open spec fn spec_window_start(position: u16, rows: u16, matrix: bool, matrix_cols: u16) -> u16 {
    let rows = if rows >= 1 {
        rows as int
    } else {
        1
    };
    if matrix {
        let cols = if matrix_cols >= 1 {
            matrix_cols as int
        } else {
            1
        };
        let last_row = u16::MAX as int / cols;
        let max_start_row = vstd::math::max(last_row - (rows - 1), 0);
        let row = position as int / cols;
        let start_row = vstd::math::min(vstd::math::max(row - rows / 2, 0), max_start_row);
        vstd::math::min(start_row * cols, u16::MAX as int) as u16
    } else {
        let max_start = u16::MAX as int - (rows - 1);
        vstd::math::min(vstd::math::max(position as int - rows / 2, 0), max_start) as u16
    }
}

impl ReadParams {
    /// Ends a read at `now`: no longer loading, and the refresh timer
    /// restarts.
    pub fn finish_read(&mut self, now: u64)
        ensures
            !final(self).loading,
            final(self).refresh_timer == now,
            final(self).status == old(self).status,
            final(self).status_at == old(self).status_at,
            final(self).position == old(self).position,
            final(self).window_start == old(self).window_start,
            final(self).panel == old(self).panel,
    {
        self.loading = false;
        self.refresh_timer = now;
    }

    /// Shows `message` from `now` on.
    pub fn set_status(&mut self, message: StatusMessage, now: u64)
        ensures
            final(self).status == Some(message),
            final(self).status_at == now,
            final(self).loading == old(self).loading,
            final(self).refresh_timer == old(self).refresh_timer,
            final(self).position == old(self).position,
            final(self).panel == old(self).panel,
    {
        self.status = Some(message);
        self.status_at = now;
    }

    /// The status message, while it is younger than four seconds at `now`.
    pub fn active_status(&self, now: u64) -> (r: Option<&StatusMessage>)
        ensures
            r == (if self.status is Some && (now < self.status_at || now - self.status_at
                < STATUS_TTL_MS) {
                Some(&self.status->0)
            } else {
                None::<&StatusMessage>
            }),
    {
        let elapsed = if now >= self.status_at {
            now - self.status_at
        } else {
            0
        };
        match &self.status {
            Some(m) => if elapsed < STATUS_TTL_MS {
                Some(m)
            } else {
                None
            },
            None => None,
        }
    }

    /// Moves the window so that the cursor sits in its middle, within the
    /// address range; in the matrix panel, by whole rows of `matrix_cols`.
    pub fn scroll_to_cursor(&mut self, rows: u16, matrix_cols: u16)
        ensures
            final(self).window_start == spec_window_start(
                old(self).position,
                rows,
                old(self).panel == ReadPanel::Matrix,
                matrix_cols,
            ),
            final(self).position == old(self).position,
            final(self).panel == old(self).panel,
            final(self).pinned_index == old(self).pinned_index,
            final(self).pinned_top == old(self).pinned_top,
            final(self).register_type == old(self).register_type,
            final(self).popup == old(self).popup,
            *final(self) == (ReadParams { window_start: final(self).window_start, ..*old(self) }),
    {
        let rows = if rows >= 1 {
            rows
        } else {
            1
        };
        if self.panel == ReadPanel::Matrix {
            let cols = if matrix_cols >= 1 {
                matrix_cols
            } else {
                1
            };
            let last_row = u16::MAX / cols;
            let max_start_row = last_row.saturating_sub(rows - 1);
            let row = self.position / cols;
            let start_row = row.saturating_sub(rows / 2);
            let start_row = if start_row < max_start_row {
                start_row
            } else {
                max_start_row
            };
            assert(start_row as u32 * cols as u32 <= 65535 * 65535) by (nonlinear_arith)
                requires
                    start_row <= 65535,
                    cols <= 65535,
            ;
            let product = start_row as u32 * cols as u32;
            self.window_start = if product <= u16::MAX as u32 {
                product as u16
            } else {
                u16::MAX
            };
            return;
        }
        let max_start = u16::MAX - (rows - 1);
        let start = self.position.saturating_sub(rows / 2);
        self.window_start = if start < max_start {
            start
        } else {
            max_start
        };
    }

    /// Keeps the pinned list's cursor in range and in view.
    pub fn scroll_pinned(&mut self, rows: u16, len: u16)
        ensures
            (final(self).pinned_index, final(self).pinned_top) == spec_scroll(
                old(self).pinned_index,
                old(self).pinned_top,
                rows,
                len,
            ),
            *final(self) == (ReadParams {
                pinned_index: final(self).pinned_index,
                pinned_top: final(self).pinned_top,
                ..*old(self)
            }),
    {
        let mut index = self.pinned_index;
        let mut top = self.pinned_top;
        scroll_window(&mut index, &mut top, rows, len);
        self.pinned_index = index;
        self.pinned_top = top;
    }
}

/// The log view over the read view it came from.
#[derive(Debug, PartialEq)]
pub struct LogViewParams {
    pub top: u16,
    pub follow: bool,
    pub h_offset: u16,
    pub wrap: bool,
    pub previous: ReadParams,
}

/// The screen the application shows.
#[derive(Debug, PartialEq)]
pub enum State {
    Read(ReadParams),
    Settings(SettingsParams),
    Logs(LogViewParams),
}

/// The settings screen over the read view it came from.
#[derive(Debug, PartialEq)]
pub struct SettingsParams {
    pub category: u16,
    pub field: u16,
    pub focus: SettingsFocus,
    pub status: Option<StatusMessage>,
    pub load_path: String,
    pub previous: ReadParams,
    pub kb_selected: u16,
    pub kb_capturing: bool,
    pub query: String,
}

impl Default for SettingsParams {
    fn default() -> (r: Self)
        ensures
            r.category == 0 && r.field == 0 && r.kb_selected == 0,
            r.focus == SettingsFocus::Categories,
            r.status is None,
            r.load_path@.len() == 0,
            r.query@.len() == 0,
            !r.kb_capturing,
            r.previous.position == 0 && r.previous.popup is None,
    {
        SettingsParams {
            category: 0,
            field: 0,
            focus: SettingsFocus::Categories,
            status: None,
            load_path: String::new(),
            previous: ReadParams::default(),
            kb_selected: 0,
            kb_capturing: false,
            query: String::new(),
        }
    }
}

/// The groups a category lists: the search results (each with its
/// category) for the search category, else the category's own groups.
pub open spec fn spec_current_groups(category: SettingsCategory, query: Seq<char>) -> Seq<
    (Option<SettingsCategory>, Seq<SettingsField>),
> {
    if category == SettingsCategory::Search {
        crate::settings::spec_search(query).map_values(
            |g: (SettingsCategory, Seq<SettingsField>)| (Some(g.0), g.1),
        )
    } else {
        crate::settings::spec_groups(category).map_values(
            |g: Seq<SettingsField>| (None::<SettingsCategory>, g),
        )
    }
}

/// The fields of `groups`, group after group.
pub open spec fn flatten_groups(groups: Seq<(Option<SettingsCategory>, Seq<SettingsField>)>) -> Seq<
    SettingsField,
>
    decreases groups.len(),
{
    if groups.len() == 0 {
        seq![]
    } else {
        flatten_groups(groups.drop_last()) + groups.last().1
    }
}

impl SettingsParams {
    /// The page the keybinding list moves by.
    pub const KB_PAGE: u16 = 10;

    /// The category under the cursor.
    pub fn current_category(&self) -> (r: SettingsCategory)
        requires
            self.category < 7,
        ensures
            r == crate::settings::spec_all_categories()[self.category as int],
    {
        let all = SettingsCategory::ALL;
        assert(all@ =~= crate::settings::spec_all_categories());
        all[self.category as usize]
    }

    /// The groups of fields the current category lists.
    pub fn current_groups(&self) -> (r: Vec<(Option<SettingsCategory>, Vec<SettingsField>)>)
        requires
            self.category < 7,
        ensures
            r@.len() == spec_current_groups(
                crate::settings::spec_all_categories()[self.category as int],
                self.query@,
            ).len(),
            forall|k: int|
                0 <= k < r@.len() ==> (#[trigger] r@[k]).0 == spec_current_groups(
                    crate::settings::spec_all_categories()[self.category as int],
                    self.query@,
                )[k].0 && r@[k].1@ == spec_current_groups(
                    crate::settings::spec_all_categories()[self.category as int],
                    self.query@,
                )[k].1,
    {
        let category = self.current_category();
        if category.is_search() {
            return SettingsCategory::search(self.query.as_str());
        }
        let groups = category.groups();
        let mut out: Vec<(Option<SettingsCategory>, Vec<SettingsField>)> = Vec::new();
        let mut i: usize = 0;
        let ghost spec = spec_current_groups(category, self.query@);
        while i < groups.len()
            invariant
                i <= groups@.len(),
                groups@.len() == crate::settings::spec_groups(category).len(),
                forall|k: int| 0 <= k < groups@.len() ==> #[trigger] groups@[k]@ == crate::settings::spec_groups(category)[k],
                category != SettingsCategory::Search,
                spec == spec_current_groups(category, self.query@),
                out@.len() == i,
                forall|k: int| 0 <= k < i ==> (#[trigger] out@[k]).0 == spec[k].0 && out@[k].1@ == spec[k].1,
            decreases groups@.len() - i,
        {
            let mut g: Vec<SettingsField> = Vec::new();
            let mut j: usize = 0;
            while j < groups[i].len()
                invariant
                    i < groups@.len(),
                    j <= groups@[i as int]@.len(),
                    g@ == groups@[i as int]@.subrange(0, j as int),
                decreases groups@[i as int]@.len() - j,
            {
                g.push(groups[i][j]);
                j += 1;
                assert(g@ =~= groups@[i as int]@.subrange(0, j as int));
            }
            assert(g@ =~= groups@[i as int]@);
            out.push((None, g));
            i += 1;
        }
        out
    }

    /// The fields the current category lists, group after group.
    pub fn current_fields(&self) -> (r: Vec<SettingsField>)
        requires
            self.category < 7,
        ensures
            r@ == flatten_groups(
                spec_current_groups(
                    crate::settings::spec_all_categories()[self.category as int],
                    self.query@,
                ),
            ),
    {
        let groups = self.current_groups();
        let ghost spec = spec_current_groups(
            crate::settings::spec_all_categories()[self.category as int],
            self.query@,
        );
        let mut out: Vec<SettingsField> = Vec::new();
        let mut i: usize = 0;
        while i < groups.len()
            invariant
                i <= groups@.len(),
                groups@.len() == spec.len(),
                forall|k: int| 0 <= k < groups@.len() ==> (#[trigger] groups@[k]).1@ == spec[k].1,
                out@ == flatten_groups(spec.take(i as int)),
            decreases groups@.len() - i,
        {
            let ghost before = out@;
            let mut j: usize = 0;
            while j < groups[i].1.len()
                invariant
                    i < groups@.len(),
                    j <= groups@[i as int].1@.len(),
                    out@ == before + groups@[i as int].1@.subrange(0, j as int),
                decreases groups@[i as int].1@.len() - j,
            {
                out.push(groups[i].1[j]);
                j += 1;
                assert(out@ =~= before + groups@[i as int].1@.subrange(0, j as int));
            }
            assert(spec.take(i + 1).drop_last() =~= spec.take(i as int));
            assert(out@ =~= flatten_groups(spec.take(i + 1)));
            i += 1;
        }
        assert(spec.take(groups@.len() as int) =~= spec);
        out
    }

    /// Types `c` into the search query; the cursor goes to the first field.
    pub fn query_push(&mut self, c: char)
        ensures
            final(self).query@ == old(self).query@.push(c),
            final(self).field == 0,
            final(self).category == old(self).category,
            final(self).focus == old(self).focus,
    {
        text::push_char(&mut self.query, c);
        self.field = 0;
    }

    /// Deletes the last character of the search query; the cursor goes to
    /// the first field.
    pub fn query_pop(&mut self)
        ensures
            final(self).query@ == shortened(old(self).query@),
            final(self).field == 0,
            final(self).category == old(self).category,
            final(self).focus == old(self).focus,
    {
        text::pop_char(&mut self.query);
        self.field = 0;
    }

    /// The field under the cursor, where there is one.
    pub fn current_field(&self) -> (r: Option<SettingsField>)
        requires
            self.category < 7,
        ensures
            ({
                let fs = flatten_groups(
                    spec_current_groups(
                        crate::settings::spec_all_categories()[self.category as int],
                        self.query@,
                    ),
                );
                r == (if (self.field as int) < fs.len() {
                    Some(fs[self.field as int])
                } else {
                    None::<SettingsField>
                })
            }),
    {
        let fields = self.current_fields();
        if (self.field as usize) < fields.len() {
            Some(fields[self.field as usize])
        } else {
            None
        }
    }

    /// Moves the focus into the current category's fields, where it has
    /// any (the keybindings always), at the first one.
    pub fn enter_category(&mut self)
        requires
            old(self).category < 7,
        ensures
            ({
                let c = crate::settings::spec_all_categories()[old(self).category as int];
                let empty = flatten_groups(spec_current_groups(c, old(self).query@)).len() == 0;
                if c != SettingsCategory::Keybinds && empty {
                    final(self).focus == old(self).focus && final(self).field == old(self).field
                        && final(self).kb_selected == old(self).kb_selected
                        && final(self).kb_capturing == old(self).kb_capturing
                } else {
                    final(self).focus == SettingsFocus::Fields && final(self).field == 0 && (if c
                        == SettingsCategory::Keybinds {
                        final(self).kb_selected == 0 && !final(self).kb_capturing
                    } else {
                        final(self).kb_selected == old(self).kb_selected
                            && final(self).kb_capturing == old(self).kb_capturing
                    })
                }
            }),
            final(self).category == old(self).category,
            final(self).query@ == old(self).query@,
    {
        let category = self.current_category();
        if !category.is_keybinds() && self.current_fields().len() == 0 {
            return;
        }
        self.focus = SettingsFocus::Fields;
        self.field = 0;
        if category.is_keybinds() {
            self.kb_selected = 0;
            self.kb_capturing = false;
        }
    }

    /// Goes to the next category, wrapping, at its first field; the focus
    /// stays where it is.
    pub fn cycle_category(&mut self)
        ensures
            final(self).category == num_ops::wrapped_index(old(self).category as int, 7, true),
            final(self).field == 0,
            final(self).kb_selected == 0,
            !final(self).kb_capturing,
            final(self).focus == old(self).focus,
            final(self).query@ == old(self).query@,
    {
        self.category = wrap_index(self.category, 7, true);
        self.field = 0;
        self.kb_selected = 0;
        self.kb_capturing = false;
    }

    /// Moves the keybinding cursor one up or down among `count`, wrapping.
    pub fn kb_move(&mut self, up: bool, count: u16)
        ensures
            final(self).kb_selected == (if count == 0 {
                old(self).kb_selected as int
            } else {
                num_ops::wrapped_index(old(self).kb_selected as int, count as int, !up)
            }),
            final(self).category == old(self).category,
            final(self).kb_capturing == old(self).kb_capturing,
    {
        if count == 0 {
            return;
        }
        self.kb_selected = wrap_index(self.kb_selected, count, !up);
    }

    /// Moves the keybinding cursor a page up or down among `count`,
    /// stopping at the ends.
    pub fn kb_page(&mut self, up: bool, count: u16)
        ensures
            final(self).kb_selected == (if count == 0 {
                old(self).kb_selected as int
            } else if up {
                vstd::math::max(old(self).kb_selected - 10, 0)
            } else {
                vstd::math::min(vstd::math::min(old(self).kb_selected + 10, u16::MAX as int), count - 1)
            }),
            final(self).category == old(self).category,
            final(self).kb_capturing == old(self).kb_capturing,
    {
        if count == 0 {
            return;
        }
        self.kb_selected = if up {
            self.kb_selected.saturating_sub(Self::KB_PAGE)
        } else {
            let next = self.kb_selected.saturating_add(Self::KB_PAGE);
            if next < count - 1 {
                next
            } else {
                count - 1
            }
        };
    }
}

/// The index one step after (or before) `i` among `n`, wrapping.
pub open spec fn step_after(i: int, n: int, forward: bool) -> int {
    if forward {
        (i + 1) % n
    } else {
        (i + n - 1) % n
    }
}

pub(crate) proof fn lemma_cycled_at<T>(items: Seq<T>, current: T, i: int, forward: bool)
    requires
        0 <= i < items.len(),
        (items[i] == current && forall|j: int| 0 <= j < i ==> items[j] != current) || (
        !items.contains(current) && i == 0),
    ensures
        num_ops::cycled(items, current, forward) == items[step_after(i, items.len() as int, forward)],
{
    if items.contains(current) {
        items.index_of_first_ensures(current);
        let k = items.index_of_first(current)->0;
        if k < i {
            assert(items[k] == current);
        }
        if k > i {
            assert(items[i] != current);
        }
    }
}

pub(crate) fn pick_step<T: Copy>(items: &[T], i: usize, forward: bool) -> (r: T)
    requires
        i < items@.len(),
    ensures
        r == items@[step_after(i as int, items@.len() as int, forward)],
{
    let n = items.len();
    if forward {
        items[(i + 1) % n]
    } else {
        let j = if i == 0 {
            n - 1
        } else {
            i - 1
        };
        proof {
            if i == 0 {
                vstd::arithmetic::div_mod::lemma_small_mod((n - 1) as nat, n as nat);
            } else {
                vstd::arithmetic::div_mod::lemma_mod_adds((i - 1) as int, n as int, n as int);
                vstd::arithmetic::div_mod::lemma_mod_self_0(n as int);
                vstd::arithmetic::div_mod::lemma_small_mod((i - 1) as nat, n as nat);
            }
        }
        items[j]
    }
}

/// The interfaces the device popup cycles through: all of them, or only
/// the serial and TCP ones when the mock device is hidden.
pub open spec fn interface_choices(show_mock: bool) -> Seq<InterfaceKind> {
    if show_mock {
        seq![InterfaceKind::Mock, InterfaceKind::Wired, InterfaceKind::Network, InterfaceKind::RtuOverTcp]
    } else {
        seq![InterfaceKind::Wired, InterfaceKind::Network]
    }
}

/// Steps the choice of a cycling field of the device popup (interface,
/// baud rate, data bits, parity, stop bits or word order); other fields
/// stay as they are.
pub fn cycle_field(d: &mut DiscoveryParams, field: DiscoveryField, forward: bool, show_mock: bool)
    ensures
        field == DiscoveryField::Interface ==> *final(d) == (DiscoveryParams {
            interface: num_ops::cycled(interface_choices(show_mock), old(d).interface, forward),
            column: final(d).column,
            side_selected: 0,
            ..*old(d)
        }),
        field == DiscoveryField::Interface ==> ((final(d).side().len() as u16) == 0 ==> final(d).column
            == DiscoveryColumn::Common) && ((final(d).side().len() as u16) > 0 ==> final(d).column
            == old(d).column),
        field == DiscoveryField::Baud ==> *final(d) == (DiscoveryParams {
            baud_rate: spec_next_baud(old(d).baud_rate, forward),
            ..*old(d)
        }),
        field == DiscoveryField::DataBits ==> *final(d) == (DiscoveryParams {
            data_bits: num_ops::cycled(
            seq![DataBits::Five, DataBits::Six, DataBits::Seven, DataBits::Eight],
            old(d).data_bits,
            forward,
        ),
            ..*old(d)
        }),
        field == DiscoveryField::Parity ==> *final(d) == (DiscoveryParams {
            parity: num_ops::cycled(
            seq![Parity::NoParity, Parity::Odd, Parity::Even],
            old(d).parity,
            forward,
        ),
            ..*old(d)
        }),
        field == DiscoveryField::StopBits ==> *final(d) == (DiscoveryParams {
            stop_bits: num_ops::cycled(
            seq![StopBits::One, StopBits::Two],
            old(d).stop_bits,
            forward,
        ),
            ..*old(d)
        }),
        field == DiscoveryField::WordOrder ==> *final(d) == (DiscoveryParams {
            word_order: num_ops::cycled(
            seq![WordOrder::ABCD, WordOrder::BADC, WordOrder::CDAB, WordOrder::DCBA],
            old(d).word_order,
            forward,
        ),
            ..*old(d)
        }),
        !(field == DiscoveryField::Interface || field == DiscoveryField::Baud || field
            == DiscoveryField::DataBits || field == DiscoveryField::Parity || field
            == DiscoveryField::StopBits || field == DiscoveryField::WordOrder) ==> *final(d) == *old(
            d,
        ),
{
    match field {
        DiscoveryField::Interface => {
            let next = if show_mock {
                let all = InterfaceKind::ALL;
                let i: usize = match d.interface {
                    InterfaceKind::Mock => 0,
                    InterfaceKind::Wired => 1,
                    InterfaceKind::Network => 2,
                    InterfaceKind::RtuOverTcp => 3,
                };
                proof {
                    assert(all@ =~= interface_choices(true));
                    lemma_cycled_at(all@, d.interface, i as int, forward);
                }
                pick_step(&all, i, forward)
            } else {
                let kinds = [InterfaceKind::Wired, InterfaceKind::Network];
                let i: usize = match d.interface {
                    InterfaceKind::Network => 1,
                    _ => 0,
                };
                proof {
                    assert(kinds@ =~= interface_choices(false));
                    if d.interface == InterfaceKind::Mock || d.interface == InterfaceKind::RtuOverTcp {
                        assert(!kinds@.contains(d.interface)) by {
                            if kinds@.contains(d.interface) {
                                let k = choose|k: int| 0 <= k < kinds@.len() && kinds@[k] == d.interface;
                                assert(k == 0 || k == 1);
                            }
                        }
                    }
                    lemma_cycled_at(kinds@, d.interface, i as int, forward);
                }
                pick_step(&kinds, i, forward)
            };
            d.set_interface(next);
        },
        DiscoveryField::Baud => d.cycle_baud(forward),
        DiscoveryField::DataBits => {
            let all = DataBits::ALL;
            let i: usize = match d.data_bits {
                DataBits::Five => 0,
                DataBits::Six => 1,
                DataBits::Seven => 2,
                DataBits::Eight => 3,
            };
            proof {
                lemma_cycled_at(all@, d.data_bits, i as int, forward);
                assert(all@ =~= seq![DataBits::Five, DataBits::Six, DataBits::Seven, DataBits::Eight]);
            }
            d.data_bits = pick_step(&all, i, forward);
        },
        DiscoveryField::Parity => {
            let all = Parity::ALL;
            let i: usize = match d.parity {
                Parity::NoParity => 0,
                Parity::Odd => 1,
                Parity::Even => 2,
            };
            proof {
                lemma_cycled_at(all@, d.parity, i as int, forward);
                assert(all@ =~= seq![Parity::NoParity, Parity::Odd, Parity::Even]);
            }
            d.parity = pick_step(&all, i, forward);
        },
        DiscoveryField::StopBits => {
            let all = StopBits::ALL;
            let i: usize = match d.stop_bits {
                StopBits::One => 0,
                StopBits::Two => 1,
            };
            proof {
                lemma_cycled_at(all@, d.stop_bits, i as int, forward);
                assert(all@ =~= seq![StopBits::One, StopBits::Two]);
            }
            d.stop_bits = pick_step(&all, i, forward);
        },
        DiscoveryField::WordOrder => {
            let all = WordOrder::ALL;
            let i: usize = match d.word_order {
                WordOrder::ABCD => 0,
                WordOrder::BADC => 1,
                WordOrder::CDAB => 2,
                WordOrder::DCBA => 3,
            };
            proof {
                lemma_cycled_at(all@, d.word_order, i as int, forward);
                assert(all@ =~= seq![WordOrder::ABCD, WordOrder::BADC, WordOrder::CDAB, WordOrder::DCBA]);
            }
            d.word_order = pick_step(&all, i, forward);
        },
        _ => {},
    }
}

} // verus!
