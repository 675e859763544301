use vstd::prelude::*;
use crate::input::KeyCode;
use crate::register::{RegisterCell, RegisterType};
use crate::state::ReadPanel;
use crate::text::str_eq;

pub mod registers;
pub use self::registers::{RegisterEntry, Registers};

verus! {

pub const CONFIG_VERSION: u32 = 1;

/// Where the cursor sits inside the batch of registers read around it.
#[derive(Debug, Clone, Copy, PartialEq, Eq, Structural)]
pub enum BatchAnchor {
    Start,
    Middle,
    End,
}

impl Default for BatchAnchor {
    fn default() -> (r: Self)
        ensures
            r == BatchAnchor::Middle,
    {
        BatchAnchor::Middle
    }
}

impl BatchAnchor {
    pub const ALL: [BatchAnchor; 3] = [BatchAnchor::Start, BatchAnchor::Middle, BatchAnchor::End];

    pub fn label(self) -> (r: &'static str)
        ensures
            r@ == match self {
                BatchAnchor::Start => "start"@,
                BatchAnchor::Middle => "middle"@,
                BatchAnchor::End => "end"@,
            },
    {
        match self {
            BatchAnchor::Start => "start",
            BatchAnchor::Middle => "middle",
            BatchAnchor::End => "end",
        }
    }
}

/// Whether the read time shows as a timestamp or as how long ago it was.
#[derive(Debug, Clone, Copy, PartialEq, Eq, Structural)]
pub enum TimeMode {
    ReadAt,
    Ago,
}

impl Default for TimeMode {
    fn default() -> (r: Self)
        ensures
            r == TimeMode::ReadAt,
    {
        TimeMode::ReadAt
    }
}

impl TimeMode {
    pub const ALL: [TimeMode; 2] = [TimeMode::ReadAt, TimeMode::Ago];

    pub fn label(self) -> (r: &'static str)
        ensures
            r@ == match self {
                TimeMode::ReadAt => "read at"@,
                TimeMode::Ago => "ago"@,
            },
    {
        match self {
            TimeMode::ReadAt => "read at",
            TimeMode::Ago => "ago",
        }
    }
}

/// Whether addresses show in decimal or hexadecimal.
#[derive(Debug, Clone, Copy, PartialEq, Eq, Structural)]
pub enum AddressMode {
    Dec,
    Hex,
}

impl Default for AddressMode {
    fn default() -> (r: Self)
        ensures
            r == AddressMode::Dec,
    {
        AddressMode::Dec
    }
}

impl AddressMode {
    pub const ALL: [AddressMode; 2] = [AddressMode::Dec, AddressMode::Hex];

    pub fn label(self) -> (r: &'static str)
        ensures
            r@ == match self {
                AddressMode::Dec => "decimal"@,
                AddressMode::Hex => "hex"@,
            },
    {
        match self {
            AddressMode::Dec => "decimal",
            AddressMode::Hex => "hex",
        }
    }
}

#[derive(Debug, Clone, Copy, PartialEq, Eq)]
pub struct BatchConfig {
    pub size: u16,
    pub anchor: BatchAnchor,
    pub read_full_customs: bool,
    pub custom_by_registers: bool,
}

impl Default for BatchConfig {
    fn default() -> (r: Self)
        ensures
            r.size == 10,
            r.anchor == BatchAnchor::Middle,
            !r.read_full_customs,
            !r.custom_by_registers,
    {
        BatchConfig {
            size: 10,
            anchor: BatchAnchor::Middle,
            read_full_customs: false,
            custom_by_registers: false,
        }
    }
}

#[derive(Debug, Clone, Copy, PartialEq, Eq)]
pub struct GraphConfig {
    pub history: u16,
    pub time_axis: bool,
}

impl Default for GraphConfig {
    fn default() -> (r: Self)
        ensures
            r.history == 180,
            r.time_axis,
    {
        GraphConfig { history: 180, time_axis: true }
    }
}

#[derive(Debug, Clone, Copy, PartialEq, Eq)]
pub struct MatrixConfig {
    pub columns: u16,
    pub show_context: bool,
}

impl Default for MatrixConfig {
    fn default() -> (r: Self)
        ensures
            r.columns == 0,
            r.show_context,
    {
        MatrixConfig { columns: 0, show_context: true }
    }
}

#[derive(Debug, Clone, Copy, PartialEq, Eq)]
pub struct Padding {
    pub horizontal: u16,
    pub vertical: u16,
}

impl Default for Padding {
    fn default() -> (r: Self)
        ensures
            r.horizontal == 0,
            r.vertical == 0,
    {
        Padding { horizontal: 0, vertical: 0 }
    }
}

#[derive(Debug, Clone, Copy, PartialEq, Eq)]
pub struct DisplayConfig {
    pub clock: bool,
    pub frame_time: bool,
    pub ram: bool,
    pub connection_label: bool,
    pub ascii_strip: bool,
    pub inactive_tabs: bool,
    pub read_window: bool,
    pub rule_continuation: bool,
    pub mock_device: bool,
    pub padding: Padding,
}

impl Default for DisplayConfig {
    fn default() -> (r: Self)
        ensures
            r.clock,
            !r.frame_time,
            !r.ram,
            r.connection_label,
            r.ascii_strip,
            r.inactive_tabs,
            r.read_window,
            !r.rule_continuation,
            r.mock_device,
            r.padding == (Padding { horizontal: 0, vertical: 0 }),
    {
        DisplayConfig {
            clock: true,
            frame_time: false,
            ram: false,
            connection_label: true,
            ascii_strip: true,
            inactive_tabs: true,
            read_window: true,
            rule_continuation: false,
            mock_device: true,
            padding: Padding::default(),
        }
    }
}

#[derive(Debug, Clone, PartialEq, Eq)]
pub struct WriteLogConfig {
    pub enabled: bool,
    pub directory: String,
}

impl Default for WriteLogConfig {
    fn default() -> (r: Self)
        ensures
            !r.enabled,
            r.directory@.len() == 0,
    {
        WriteLogConfig { enabled: false, directory: String::new() }
    }
}

#[derive(Debug, Clone, Copy, PartialEq, Eq)]
pub struct ApiConfig {
    pub enabled: bool,
    pub port: u16,
    pub unit_id_override: bool,
}

impl Default for ApiConfig {
    fn default() -> (r: Self)
        ensures
            !r.enabled,
            r.port == 0,
            !r.unit_id_override,
    {
        ApiConfig { enabled: false, port: 0, unit_id_override: false }
    }
}

impl ApiConfig {
    /// The port the API server should listen on, or `None` when it is off.
    pub fn desired_port(&self) -> (r: Option<u16>)
        ensures
            r == (if self.enabled {
                Some(self.port)
            } else {
                None
            }),
    {
        if self.enabled {
            Some(self.port)
        } else {
            None
        }
    }
}

/// Cursor position, register type and panel on start.
#[derive(Debug, Clone, Copy, PartialEq, Eq)]
pub struct Startup {
    pub address: u16,
    pub register_type: RegisterType,
    pub panel: ReadPanel,
}

impl Default for Startup {
    fn default() -> (r: Self)
        ensures
            r.address == 0,
            r.register_type == RegisterType::Holding,
            r.panel == ReadPanel::Main,
    {
        Startup { address: 0, register_type: RegisterType::Holding, panel: ReadPanel::Main }
    }
}

/// Which register types the type key cycles through.
#[derive(Debug, Clone, Copy, PartialEq, Eq)]
pub struct CycleTypes {
    pub holdings: bool,
    pub inputs: bool,
    pub coils: bool,
    pub discretes: bool,
}

pub open spec fn spec_type_enabled(c: CycleTypes, t: RegisterType) -> bool {
    match t {
        RegisterType::Holding => c.holdings,
        RegisterType::Input => c.inputs,
        RegisterType::Coil => c.coils,
        RegisterType::Discrete => c.discretes,
    }
}

impl Default for CycleTypes {
    fn default() -> (r: Self)
        ensures
            r.holdings && r.inputs && r.coils && r.discretes,
    {
        CycleTypes { holdings: true, inputs: true, coils: true, discretes: true }
    }
}

impl CycleTypes {
    pub fn enabled(&self, register_type: RegisterType) -> (r: bool)
        ensures
            r == spec_type_enabled(*self, register_type),
    {
        match register_type {
            RegisterType::Holding => self.holdings,
            RegisterType::Input => self.inputs,
            RegisterType::Coil => self.coils,
            RegisterType::Discrete => self.discretes,
        }
    }

    /// Flips whether `register_type` is cycled through, leaving the others.
    pub fn toggle(&mut self, register_type: RegisterType)
        ensures
            spec_type_enabled(*final(self), register_type) == !spec_type_enabled(
                *old(self),
                register_type,
            ),
            forall|t: RegisterType|
                t != register_type ==> spec_type_enabled(*final(self), t) == spec_type_enabled(
                    *old(self),
                    t,
                ),
    {
        match register_type {
            RegisterType::Holding => self.holdings = !self.holdings,
            RegisterType::Input => self.inputs = !self.inputs,
            RegisterType::Coil => self.coils = !self.coils,
            RegisterType::Discrete => self.discretes = !self.discretes,
        }
    }

    /// How many register types are cycled through.
    pub fn enabled_count(&self) -> (r: usize)
        ensures
            r == (if self.holdings {
                1int
            } else {
                0
            }) + (if self.inputs {
                1int
            } else {
                0
            }) + (if self.coils {
                1int
            } else {
                0
            }) + (if self.discretes {
                1int
            } else {
                0
            }),
    {
        let mut n: usize = 0;
        if self.holdings {
            n += 1;
        }
        if self.inputs {
            n += 1;
        }
        if self.coils {
            n += 1;
        }
        if self.discretes {
            n += 1;
        }
        n
    }
}

/// Which panels the panel key cycles through; the main panel always is.
#[derive(Debug, Clone, Copy, PartialEq, Eq)]
pub struct CyclePanels {
    pub pinned: bool,
    pub labeled: bool,
    pub custom: bool,
    pub matrix: bool,
}

pub open spec fn spec_panel_enabled(c: CyclePanels, p: ReadPanel) -> bool {
    match p {
        ReadPanel::Main => true,
        ReadPanel::Pinned => c.pinned,
        ReadPanel::Labeled => c.labeled,
        ReadPanel::Custom => c.custom,
        ReadPanel::Matrix => c.matrix,
    }
}

impl Default for CyclePanels {
    fn default() -> (r: Self)
        ensures
            r.pinned && r.labeled && r.custom && r.matrix,
    {
        CyclePanels { pinned: true, labeled: true, custom: true, matrix: true }
    }
}

impl CyclePanels {
    pub fn enabled(&self, panel: ReadPanel) -> (r: bool)
        ensures
            r == spec_panel_enabled(*self, panel),
    {
        match panel {
            ReadPanel::Main => true,
            ReadPanel::Pinned => self.pinned,
            ReadPanel::Labeled => self.labeled,
            ReadPanel::Custom => self.custom,
            ReadPanel::Matrix => self.matrix,
        }
    }

    /// Flips whether `panel` is cycled through; the main panel stays on.
    pub fn toggle(&mut self, panel: ReadPanel)
        ensures
            panel != ReadPanel::Main ==> spec_panel_enabled(*final(self), panel)
                == !spec_panel_enabled(*old(self), panel),
            forall|p: ReadPanel|
                p != panel ==> spec_panel_enabled(*final(self), p) == spec_panel_enabled(
                    *old(self),
                    p,
                ),
            spec_panel_enabled(*final(self), ReadPanel::Main),
    {
        match panel {
            ReadPanel::Main => {},
            ReadPanel::Pinned => self.pinned = !self.pinned,
            ReadPanel::Labeled => self.labeled = !self.labeled,
            ReadPanel::Custom => self.custom = !self.custom,
            ReadPanel::Matrix => self.matrix = !self.matrix,
        }
    }
}


/// The value columns the main panel can show.
#[derive(Debug, Clone, Copy, PartialEq, Eq, Structural)]
pub enum Column {
    U16,
    I16,
    U8s,
    I8s,
    Hex,
    Hex32,
    F16,
    Bcd,
    Bcd32,
    U32,
    I32,
    U32M10K,
    I32M10K,
    U64,
    I64,
    F32,
    F64,
    Ascii,
    Bits,
    Custom,
}

/// Position of a column in the fixed column order.
pub open spec fn column_rank(c: Column) -> int {
    match c {
        Column::U16 => 0,
        Column::I16 => 1,
        Column::U8s => 2,
        Column::I8s => 3,
        Column::Hex => 4,
        Column::Hex32 => 5,
        Column::F16 => 6,
        Column::Bcd => 7,
        Column::Bcd32 => 8,
        Column::U32 => 9,
        Column::I32 => 10,
        Column::U32M10K => 11,
        Column::I32M10K => 12,
        Column::U64 => 13,
        Column::I64 => 14,
        Column::F32 => 15,
        Column::F64 => 16,
        Column::Ascii => 17,
        Column::Bits => 18,
        Column::Custom => 19,
    }
}

pub open spec fn spec_column_key(c: Column) -> Seq<char> {
    match c {
        Column::U16 => "u16"@,
        Column::I16 => "i16"@,
        Column::U8s => "u8"@,
        Column::I8s => "i8"@,
        Column::Hex => "hex"@,
        Column::Hex32 => "hex32"@,
        Column::F16 => "f16"@,
        Column::Bcd => "bcd"@,
        Column::Bcd32 => "bcd32"@,
        Column::U32 => "u32"@,
        Column::I32 => "i32"@,
        Column::U32M10K => "u32_m10k"@,
        Column::I32M10K => "i32_m10k"@,
        Column::U64 => "u64"@,
        Column::I64 => "i64"@,
        Column::F32 => "f32"@,
        Column::F64 => "f64"@,
        Column::Ascii => "ascii"@,
        Column::Bits => "bits"@,
        Column::Custom => "custom"@,
    }
}

pub open spec fn spec_column_name(c: Column) -> Seq<char> {
    match c {
        Column::U16 => "u16"@,
        Column::I16 => "i16"@,
        Column::U8s => "u8"@,
        Column::I8s => "i8"@,
        Column::Hex => "hex"@,
        Column::Hex32 => "hex32"@,
        Column::F16 => "f16"@,
        Column::Bcd => "bcd"@,
        Column::Bcd32 => "bcd32"@,
        Column::U32 => "u32"@,
        Column::I32 => "i32"@,
        Column::U32M10K => "u32 m10k"@,
        Column::I32M10K => "i32 m10k"@,
        Column::U64 => "u64"@,
        Column::I64 => "i64"@,
        Column::F32 => "f32"@,
        Column::F64 => "f64"@,
        Column::Ascii => "ascii"@,
        Column::Bits => "bits"@,
        Column::Custom => "custom"@,
    }
}

pub open spec fn spec_column_width(c: Column) -> usize {
    match c {
        Column::U16 => 5,
        Column::I16 => 6,
        Column::U8s => 8,
        Column::I8s => 9,
        Column::Hex => 4,
        Column::Hex32 => 9,
        Column::F16 => 10,
        Column::Bcd => 6,
        Column::Bcd32 => 10,
        Column::U32 => 10,
        Column::I32 => 11,
        Column::U32M10K => 11,
        Column::I32M10K => 14,
        Column::U64 => 20,
        Column::I64 => 21,
        Column::F32 => 10,
        Column::F64 => 12,
        Column::Ascii => 5,
        Column::Bits => 19,
        Column::Custom => 18,
    }
}

pub open spec fn spec_shown_by_default(c: Column) -> bool {
    match c {
        Column::U16 => true,
        Column::I16 => true,
        Column::U8s => false,
        Column::I8s => false,
        Column::Hex => true,
        Column::Hex32 => false,
        Column::F16 => false,
        Column::Bcd => false,
        Column::Bcd32 => false,
        Column::U32 => false,
        Column::I32 => false,
        Column::U32M10K => false,
        Column::I32M10K => false,
        Column::U64 => false,
        Column::I64 => false,
        Column::F32 => false,
        Column::F64 => false,
        Column::Ascii => true,
        Column::Bits => true,
        Column::Custom => true,
    }
}

pub open spec fn spec_all_columns() -> Seq<Column> {
    seq![Column::U16, Column::I16, Column::U8s, Column::I8s, Column::Hex, Column::Hex32, Column::F16, Column::Bcd, Column::Bcd32, Column::U32, Column::I32, Column::U32M10K, Column::I32M10K, Column::U64, Column::I64, Column::F32, Column::F64, Column::Ascii, Column::Bits, Column::Custom]
}

impl Column {
    pub const ALL: [Column; 20] = [Column::U16, Column::I16, Column::U8s, Column::I8s, Column::Hex, Column::Hex32, Column::F16, Column::Bcd, Column::Bcd32, Column::U32, Column::I32, Column::U32M10K, Column::I32M10K, Column::U64, Column::I64, Column::F32, Column::F64, Column::Ascii, Column::Bits, Column::Custom];

    /// The name a configuration file stores the column under.
    pub fn key(self) -> (r: &'static str)
        ensures
            r@ == spec_column_key(self),
    {
        match self {
            Column::U16 => "u16",
            Column::I16 => "i16",
            Column::U8s => "u8",
            Column::I8s => "i8",
            Column::Hex => "hex",
            Column::Hex32 => "hex32",
            Column::F16 => "f16",
            Column::Bcd => "bcd",
            Column::Bcd32 => "bcd32",
            Column::U32 => "u32",
            Column::I32 => "i32",
            Column::U32M10K => "u32_m10k",
            Column::I32M10K => "i32_m10k",
            Column::U64 => "u64",
            Column::I64 => "i64",
            Column::F32 => "f32",
            Column::F64 => "f64",
            Column::Ascii => "ascii",
            Column::Bits => "bits",
            Column::Custom => "custom",
        }
    }

    /// The column header.
    pub fn name(self) -> (r: &'static str)
        ensures
            r@ == spec_column_name(self),
    {
        match self {
            Column::U16 => "u16",
            Column::I16 => "i16",
            Column::U8s => "u8",
            Column::I8s => "i8",
            Column::Hex => "hex",
            Column::Hex32 => "hex32",
            Column::F16 => "f16",
            Column::Bcd => "bcd",
            Column::Bcd32 => "bcd32",
            Column::U32 => "u32",
            Column::I32 => "i32",
            Column::U32M10K => "u32 m10k",
            Column::I32M10K => "i32 m10k",
            Column::U64 => "u64",
            Column::I64 => "i64",
            Column::F32 => "f32",
            Column::F64 => "f64",
            Column::Ascii => "ascii",
            Column::Bits => "bits",
            Column::Custom => "custom",
        }
    }

    /// Characters the column takes in a row.
    pub fn width(self) -> (r: usize)
        ensures
            r == spec_column_width(self),
    {
        match self {
            Column::U16 => 5,
            Column::I16 => 6,
            Column::U8s => 8,
            Column::I8s => 9,
            Column::Hex => 4,
            Column::Hex32 => 9,
            Column::F16 => 10,
            Column::Bcd => 6,
            Column::Bcd32 => 10,
            Column::U32 => 10,
            Column::I32 => 11,
            Column::U32M10K => 11,
            Column::I32M10K => 14,
            Column::U64 => 20,
            Column::I64 => 21,
            Column::F32 => 10,
            Column::F64 => 12,
            Column::Ascii => 5,
            Column::Bits => 19,
            Column::Custom => 18,
        }
    }

    pub fn shown_by_default(self) -> (r: bool)
        ensures
            r == spec_shown_by_default(self),
    {
        match self {
            Column::U16 => true,
            Column::I16 => true,
            Column::U8s => false,
            Column::I8s => false,
            Column::Hex => true,
            Column::Hex32 => false,
            Column::F16 => false,
            Column::Bcd => false,
            Column::Bcd32 => false,
            Column::U32 => false,
            Column::I32 => false,
            Column::U32M10K => false,
            Column::I32M10K => false,
            Column::U64 => false,
            Column::I64 => false,
            Column::F32 => false,
            Column::F64 => false,
            Column::Ascii => true,
            Column::Bits => true,
            Column::Custom => true,
        }
    }

    fn rank(self) -> (r: usize)
        ensures
            r == column_rank(self),
    {
        match self {
            Column::U16 => 0,
            Column::I16 => 1,
            Column::U8s => 2,
            Column::I8s => 3,
            Column::Hex => 4,
            Column::Hex32 => 5,
            Column::F16 => 6,
            Column::Bcd => 7,
            Column::Bcd32 => 8,
            Column::U32 => 9,
            Column::I32 => 10,
            Column::U32M10K => 11,
            Column::I32M10K => 12,
            Column::U64 => 13,
            Column::I64 => 14,
            Column::F32 => 15,
            Column::F64 => 16,
            Column::Ascii => 17,
            Column::Bits => 18,
            Column::Custom => 19,
        }
    }

    /// The column stored under `key`.
    pub fn from_key(key: &str) -> (r: Option<Column>)
        ensures
            r matches Some(c) ==> spec_column_key(c) == key@,
            r is None ==> forall|c: Column| spec_column_key(c) != key@,
    {
        let all = Self::ALL;
        let mut i: usize = 0;
        while i < 20
            invariant
                i <= 20,
                all@ == spec_all_columns(),
                forall|j: int| 0 <= j < i ==> spec_column_key(#[trigger] all@[j]) != key@,
            decreases 20 - i,
        {
            if str_eq(all[i].key(), key) {
                return Some(all[i]);
            }
            i += 1;
        }
        proof {
            assert forall|c: Column| spec_column_key(c) != key@ by {
                assert(all@[column_rank(c)] == c);
            }
        }
        None
    }
}

/// The actions a key can be bound to.
#[derive(Debug, Clone, Copy, PartialEq, Eq, Structural)]
pub enum KeybindAction {
    About,
    Pin,
    Dump,
    Help,
    Refresh,
    SwitchType,
    Write,
    GoTo,
    Label,
    CustomRule,
    Columns,
    Pause,
    WordOrder,
    UnitId,
    Inspect,
    DeviceId,
    RawRequest,
    Graph,
    Device,
    Settings,
    CopyColumn,
    WriteLogs,
    AppLogs,
    Stats,
    Sweep,
    ClearSession,
    CycleConfig,
    Panel,
    PageUp,
    PageDown,
    BatchDecrease,
    BatchIncrease,
}

pub open spec fn spec_action_label(a: KeybindAction) -> Seq<char> {
    match a {
        KeybindAction::About => "About"@,
        KeybindAction::Pin => "Toggle pin"@,
        KeybindAction::Dump => "Dump read data"@,
        KeybindAction::Help => "Help"@,
        KeybindAction::Refresh => "Refresh"@,
        KeybindAction::SwitchType => "Switch register type"@,
        KeybindAction::Write => "Write register"@,
        KeybindAction::GoTo => "Go to address/label"@,
        KeybindAction::Label => "Label register"@,
        KeybindAction::CustomRule => "Custom rule"@,
        KeybindAction::Columns => "Toggle columns"@,
        KeybindAction::Pause => "Toggle pause"@,
        KeybindAction::WordOrder => "Cycle word order"@,
        KeybindAction::UnitId => "Set unit id"@,
        KeybindAction::Inspect => "Inspect register"@,
        KeybindAction::DeviceId => "Device identification"@,
        KeybindAction::RawRequest => "Raw request"@,
        KeybindAction::Graph => "Value graph"@,
        KeybindAction::Device => "Switch device"@,
        KeybindAction::Settings => "Settings"@,
        KeybindAction::CopyColumn => "Copy column"@,
        KeybindAction::WriteLogs => "Write logs"@,
        KeybindAction::AppLogs => "App logs"@,
        KeybindAction::Stats => "Statistics"@,
        KeybindAction::Sweep => "Sweep"@,
        KeybindAction::ClearSession => "Clear session data"@,
        KeybindAction::CycleConfig => "Cycle config"@,
        KeybindAction::Panel => "Cycle panel"@,
        KeybindAction::PageUp => "Page up"@,
        KeybindAction::PageDown => "Page down"@,
        KeybindAction::BatchDecrease => "Decrease batch"@,
        KeybindAction::BatchIncrease => "Increase batch"@,
    }
}

pub open spec fn spec_all_actions() -> Seq<KeybindAction> {
    seq![KeybindAction::About, KeybindAction::Pin, KeybindAction::Dump, KeybindAction::Help, KeybindAction::Refresh, KeybindAction::SwitchType, KeybindAction::Write, KeybindAction::GoTo, KeybindAction::Label, KeybindAction::CustomRule, KeybindAction::Columns, KeybindAction::Pause, KeybindAction::WordOrder, KeybindAction::UnitId, KeybindAction::Inspect, KeybindAction::DeviceId, KeybindAction::RawRequest, KeybindAction::Graph, KeybindAction::Device, KeybindAction::Settings, KeybindAction::CopyColumn, KeybindAction::WriteLogs, KeybindAction::AppLogs, KeybindAction::Stats, KeybindAction::Sweep, KeybindAction::ClearSession, KeybindAction::CycleConfig, KeybindAction::Panel, KeybindAction::PageUp, KeybindAction::PageDown, KeybindAction::BatchDecrease, KeybindAction::BatchIncrease]
}

impl KeybindAction {
    pub const ALL: [KeybindAction; 32] = [KeybindAction::About, KeybindAction::Pin, KeybindAction::Dump, KeybindAction::Help, KeybindAction::Refresh, KeybindAction::SwitchType, KeybindAction::Write, KeybindAction::GoTo, KeybindAction::Label, KeybindAction::CustomRule, KeybindAction::Columns, KeybindAction::Pause, KeybindAction::WordOrder, KeybindAction::UnitId, KeybindAction::Inspect, KeybindAction::DeviceId, KeybindAction::RawRequest, KeybindAction::Graph, KeybindAction::Device, KeybindAction::Settings, KeybindAction::CopyColumn, KeybindAction::WriteLogs, KeybindAction::AppLogs, KeybindAction::Stats, KeybindAction::Sweep, KeybindAction::ClearSession, KeybindAction::CycleConfig, KeybindAction::Panel, KeybindAction::PageUp, KeybindAction::PageDown, KeybindAction::BatchDecrease, KeybindAction::BatchIncrease];

    pub fn label(self) -> (r: &'static str)
        ensures
            r@ == spec_action_label(self),
    {
        match self {
            KeybindAction::About => "About",
            KeybindAction::Pin => "Toggle pin",
            KeybindAction::Dump => "Dump read data",
            KeybindAction::Help => "Help",
            KeybindAction::Refresh => "Refresh",
            KeybindAction::SwitchType => "Switch register type",
            KeybindAction::Write => "Write register",
            KeybindAction::GoTo => "Go to address/label",
            KeybindAction::Label => "Label register",
            KeybindAction::CustomRule => "Custom rule",
            KeybindAction::Columns => "Toggle columns",
            KeybindAction::Pause => "Toggle pause",
            KeybindAction::WordOrder => "Cycle word order",
            KeybindAction::UnitId => "Set unit id",
            KeybindAction::Inspect => "Inspect register",
            KeybindAction::DeviceId => "Device identification",
            KeybindAction::RawRequest => "Raw request",
            KeybindAction::Graph => "Value graph",
            KeybindAction::Device => "Switch device",
            KeybindAction::Settings => "Settings",
            KeybindAction::CopyColumn => "Copy column",
            KeybindAction::WriteLogs => "Write logs",
            KeybindAction::AppLogs => "App logs",
            KeybindAction::Stats => "Statistics",
            KeybindAction::Sweep => "Sweep",
            KeybindAction::ClearSession => "Clear session data",
            KeybindAction::CycleConfig => "Cycle config",
            KeybindAction::Panel => "Cycle panel",
            KeybindAction::PageUp => "Page up",
            KeybindAction::PageDown => "Page down",
            KeybindAction::BatchDecrease => "Decrease batch",
            KeybindAction::BatchIncrease => "Increase batch",
        }
    }
}

/// The key of every action.
#[derive(Debug, Clone, Copy, PartialEq, Eq)]
pub struct Keybinds {
    pub about: KeyCode,
    pub pin: KeyCode,
    pub dump: KeyCode,
    pub help: KeyCode,
    pub refresh: KeyCode,
    pub register_type: KeyCode,
    pub write: KeyCode,
    pub go_to: KeyCode,
    pub label: KeyCode,
    pub custom_rule: KeyCode,
    pub columns: KeyCode,
    pub pause: KeyCode,
    pub word_order: KeyCode,
    pub unit_id: KeyCode,
    pub inspect: KeyCode,
    pub device_id: KeyCode,
    pub raw_request: KeyCode,
    pub graph: KeyCode,
    pub device: KeyCode,
    pub settings: KeyCode,
    pub copy_column: KeyCode,
    pub write_logs: KeyCode,
    pub app_logs: KeyCode,
    pub stats: KeyCode,
    pub sweep: KeyCode,
    pub clear_session: KeyCode,
    pub cycle_config: KeyCode,
    pub panel: KeyCode,
    pub page_up: KeyCode,
    pub page_down: KeyCode,
    pub batch_decrease: KeyCode,
    pub batch_increase: KeyCode,
}

pub open spec fn spec_get(kb: Keybinds, a: KeybindAction) -> KeyCode {
    match a {
        KeybindAction::About => kb.about,
        KeybindAction::Pin => kb.pin,
        KeybindAction::Dump => kb.dump,
        KeybindAction::Help => kb.help,
        KeybindAction::Refresh => kb.refresh,
        KeybindAction::SwitchType => kb.register_type,
        KeybindAction::Write => kb.write,
        KeybindAction::GoTo => kb.go_to,
        KeybindAction::Label => kb.label,
        KeybindAction::CustomRule => kb.custom_rule,
        KeybindAction::Columns => kb.columns,
        KeybindAction::Pause => kb.pause,
        KeybindAction::WordOrder => kb.word_order,
        KeybindAction::UnitId => kb.unit_id,
        KeybindAction::Inspect => kb.inspect,
        KeybindAction::DeviceId => kb.device_id,
        KeybindAction::RawRequest => kb.raw_request,
        KeybindAction::Graph => kb.graph,
        KeybindAction::Device => kb.device,
        KeybindAction::Settings => kb.settings,
        KeybindAction::CopyColumn => kb.copy_column,
        KeybindAction::WriteLogs => kb.write_logs,
        KeybindAction::AppLogs => kb.app_logs,
        KeybindAction::Stats => kb.stats,
        KeybindAction::Sweep => kb.sweep,
        KeybindAction::ClearSession => kb.clear_session,
        KeybindAction::CycleConfig => kb.cycle_config,
        KeybindAction::Panel => kb.panel,
        KeybindAction::PageUp => kb.page_up,
        KeybindAction::PageDown => kb.page_down,
        KeybindAction::BatchDecrease => kb.batch_decrease,
        KeybindAction::BatchIncrease => kb.batch_increase,
    }
}

pub open spec fn spec_default_key(a: KeybindAction) -> KeyCode {
    match a {
        KeybindAction::About => KeyCode::Char('a'),
        KeybindAction::Pin => KeyCode::Char('p'),
        KeybindAction::Dump => KeyCode::Char('d'),
        KeybindAction::Help => KeyCode::Char('h'),
        KeybindAction::Refresh => KeyCode::Char('r'),
        KeybindAction::SwitchType => KeyCode::Char('t'),
        KeybindAction::Write => KeyCode::Char('w'),
        KeybindAction::GoTo => KeyCode::Char('j'),
        KeybindAction::Label => KeyCode::Char('l'),
        KeybindAction::CustomRule => KeyCode::Char('m'),
        KeybindAction::Columns => KeyCode::Char('c'),
        KeybindAction::Pause => KeyCode::Char(' '),
        KeybindAction::WordOrder => KeyCode::Char('o'),
        KeybindAction::UnitId => KeyCode::Char('i'),
        KeybindAction::Inspect => KeyCode::Char('v'),
        KeybindAction::DeviceId => KeyCode::Char('D'),
        KeybindAction::RawRequest => KeyCode::Char('f'),
        KeybindAction::Graph => KeyCode::Char('g'),
        KeybindAction::Device => KeyCode::Char('n'),
        KeybindAction::Settings => KeyCode::Char('s'),
        KeybindAction::CopyColumn => KeyCode::Char('y'),
        KeybindAction::WriteLogs => KeyCode::Char('L'),
        KeybindAction::AppLogs => KeyCode::Char('k'),
        KeybindAction::Stats => KeyCode::Char('S'),
        KeybindAction::Sweep => KeyCode::Char('u'),
        KeybindAction::ClearSession => KeyCode::Char('x'),
        KeybindAction::CycleConfig => KeyCode::Char('C'),
        KeybindAction::Panel => KeyCode::Tab,
        KeybindAction::PageUp => KeyCode::Char(','),
        KeybindAction::PageDown => KeyCode::Char('.'),
        KeybindAction::BatchDecrease => KeyCode::Char('['),
        KeybindAction::BatchIncrease => KeyCode::Char(']'),
    }
}

impl Default for Keybinds {
    fn default() -> (r: Self)
        ensures
            forall|a: KeybindAction| spec_get(r, a) == spec_default_key(a),
    {
        Keybinds {
            about: KeyCode::Char('a'),
            pin: KeyCode::Char('p'),
            dump: KeyCode::Char('d'),
            help: KeyCode::Char('h'),
            refresh: KeyCode::Char('r'),
            register_type: KeyCode::Char('t'),
            write: KeyCode::Char('w'),
            go_to: KeyCode::Char('j'),
            label: KeyCode::Char('l'),
            custom_rule: KeyCode::Char('m'),
            columns: KeyCode::Char('c'),
            pause: KeyCode::Char(' '),
            word_order: KeyCode::Char('o'),
            unit_id: KeyCode::Char('i'),
            inspect: KeyCode::Char('v'),
            device_id: KeyCode::Char('D'),
            raw_request: KeyCode::Char('f'),
            graph: KeyCode::Char('g'),
            device: KeyCode::Char('n'),
            settings: KeyCode::Char('s'),
            copy_column: KeyCode::Char('y'),
            write_logs: KeyCode::Char('L'),
            app_logs: KeyCode::Char('k'),
            stats: KeyCode::Char('S'),
            sweep: KeyCode::Char('u'),
            clear_session: KeyCode::Char('x'),
            cycle_config: KeyCode::Char('C'),
            panel: KeyCode::Tab,
            page_up: KeyCode::Char(','),
            page_down: KeyCode::Char('.'),
            batch_decrease: KeyCode::Char('['),
            batch_increase: KeyCode::Char(']'),
        }
    }
}

impl Keybinds {
    pub fn get(&self, action: KeybindAction) -> (r: KeyCode)
        ensures
            r == spec_get(*self, action),
    {
        match action {
            KeybindAction::About => self.about,
            KeybindAction::Pin => self.pin,
            KeybindAction::Dump => self.dump,
            KeybindAction::Help => self.help,
            KeybindAction::Refresh => self.refresh,
            KeybindAction::SwitchType => self.register_type,
            KeybindAction::Write => self.write,
            KeybindAction::GoTo => self.go_to,
            KeybindAction::Label => self.label,
            KeybindAction::CustomRule => self.custom_rule,
            KeybindAction::Columns => self.columns,
            KeybindAction::Pause => self.pause,
            KeybindAction::WordOrder => self.word_order,
            KeybindAction::UnitId => self.unit_id,
            KeybindAction::Inspect => self.inspect,
            KeybindAction::DeviceId => self.device_id,
            KeybindAction::RawRequest => self.raw_request,
            KeybindAction::Graph => self.graph,
            KeybindAction::Device => self.device,
            KeybindAction::Settings => self.settings,
            KeybindAction::CopyColumn => self.copy_column,
            KeybindAction::WriteLogs => self.write_logs,
            KeybindAction::AppLogs => self.app_logs,
            KeybindAction::Stats => self.stats,
            KeybindAction::Sweep => self.sweep,
            KeybindAction::ClearSession => self.clear_session,
            KeybindAction::CycleConfig => self.cycle_config,
            KeybindAction::Panel => self.panel,
            KeybindAction::PageUp => self.page_up,
            KeybindAction::PageDown => self.page_down,
            KeybindAction::BatchDecrease => self.batch_decrease,
            KeybindAction::BatchIncrease => self.batch_increase,
        }
    }

    /// Binds `key` to `action`, leaving the other actions' keys.
    pub fn set(&mut self, action: KeybindAction, key: KeyCode)
        ensures
            spec_get(*final(self), action) == key,
            forall|a: KeybindAction| a != action ==> spec_get(*final(self), a) == spec_get(*old(self), a),
    {
        match action {
            KeybindAction::About => self.about = key,
            KeybindAction::Pin => self.pin = key,
            KeybindAction::Dump => self.dump = key,
            KeybindAction::Help => self.help = key,
            KeybindAction::Refresh => self.refresh = key,
            KeybindAction::SwitchType => self.register_type = key,
            KeybindAction::Write => self.write = key,
            KeybindAction::GoTo => self.go_to = key,
            KeybindAction::Label => self.label = key,
            KeybindAction::CustomRule => self.custom_rule = key,
            KeybindAction::Columns => self.columns = key,
            KeybindAction::Pause => self.pause = key,
            KeybindAction::WordOrder => self.word_order = key,
            KeybindAction::UnitId => self.unit_id = key,
            KeybindAction::Inspect => self.inspect = key,
            KeybindAction::DeviceId => self.device_id = key,
            KeybindAction::RawRequest => self.raw_request = key,
            KeybindAction::Graph => self.graph = key,
            KeybindAction::Device => self.device = key,
            KeybindAction::Settings => self.settings = key,
            KeybindAction::CopyColumn => self.copy_column = key,
            KeybindAction::WriteLogs => self.write_logs = key,
            KeybindAction::AppLogs => self.app_logs = key,
            KeybindAction::Stats => self.stats = key,
            KeybindAction::Sweep => self.sweep = key,
            KeybindAction::ClearSession => self.clear_session = key,
            KeybindAction::CycleConfig => self.cycle_config = key,
            KeybindAction::Panel => self.panel = key,
            KeybindAction::PageUp => self.page_up = key,
            KeybindAction::PageDown => self.page_down = key,
            KeybindAction::BatchDecrease => self.batch_decrease = key,
            KeybindAction::BatchIncrease => self.batch_increase = key,
        }
    }

    /// The first action, in the order of `KeybindAction::ALL`, bound to
    /// `code`.
    pub fn action_for(&self, code: KeyCode) -> (r: Option<KeybindAction>)
        ensures
            r matches Some(a) ==> spec_get(*self, a) == code && forall|j: int|
                0 <= j < spec_all_actions().len() && spec_all_actions()[j] == a ==> forall|i: int|
                    0 <= i < j ==> spec_get(*self, spec_all_actions()[i]) != code,
            r is None ==> forall|a: KeybindAction| spec_get(*self, a) != code,
    {
        let all = KeybindAction::ALL;
        assert(all@ =~= spec_all_actions());
        let mut i: usize = 0;
        while i < 32
            invariant
                i <= 32,
                all@ == spec_all_actions(),
                forall|j: int| 0 <= j < i ==> spec_get(*self, #[trigger] all@[j]) != code,
            decreases 32 - i,
        {
            if self.get(all[i]) == code {
                proof {
                    assert forall|j: int|
                        0 <= j < spec_all_actions().len() && spec_all_actions()[j] == all@[i as int]
                        implies forall|k: int| 0 <= k < j ==> spec_get(*self, spec_all_actions()[k]) != code by {
                        assert(j == i);
                    }
                }
                return Some(all[i]);
            }
            i += 1;
        }
        proof {
            assert forall|a: KeybindAction| spec_get(*self, a) != code by {
                assert(exists|j: int| 0 <= j < 32 && all@[j] == a);
            }
        }
        None
    }
}

/// Which columns and parts a row shows.
#[derive(Debug, Clone, PartialEq, Eq)]
pub struct InterpretorConfig {
    pub visible: Vec<Column>,
    pub time: bool,
    pub ago: bool,
    pub label: bool,
    pub address_hex: bool,
    pub label_width: u16,
    pub custom_width: u16,
}

/// The columns shown by default, in column order.
pub open spec fn spec_default_visible() -> Seq<Column> {
    seq![Column::U16, Column::I16, Column::Hex, Column::Ascii, Column::Bits, Column::Custom]
}

/// Visible columns are listed once each, in column order.
pub open spec fn visible_wf(v: Seq<Column>) -> bool {
    forall|i: int, j: int| 0 <= i < j < v.len() ==> column_rank(v[i]) < column_rank(v[j])
}

/// Where `column` goes among `v`: before the first column ranked after it.
pub open spec fn insert_position(v: Seq<Column>, column: Column) -> int
    decreases v.len(),
{
    if v.len() == 0 {
        0
    } else if column_rank(v[0]) > column_rank(column) {
        0
    } else {
        1 + insert_position(v.drop_first(), column)
    }
}

/// The visible columns after toggling `column`: removed where it was
/// shown, else inserted in column order.
pub open spec fn spec_toggle(v: Seq<Column>, column: Column) -> Seq<Column> {
    if v.contains(column) {
        v.remove(v.index_of_first(column)->0)
    } else {
        v.insert(insert_position(v, column), column)
    }
}

impl Default for InterpretorConfig {
    fn default() -> (r: Self)
        ensures
            r.visible@ == spec_default_visible(),
            visible_wf(r.visible@),
            r.time && !r.ago && r.label && !r.address_hex,
            r.label_width == 20 && r.custom_width == 10,
    {
        InterpretorConfig {
            visible: vec![Column::U16, Column::I16, Column::Hex, Column::Ascii, Column::Bits, Column::Custom],
            time: true,
            ago: false,
            label: true,
            address_hex: false,
            label_width: 20,
            custom_width: 10,
        }
    }
}

fn position_of(v: &Vec<Column>, column: Column) -> (r: Option<usize>)
    ensures
        r matches Some(i) ==> (i as int) < v@.len() && v@[i as int] == column && v@.contains(column)
            && v@.index_of_first(column) == Some(i as int),
        r is None ==> !v@.contains(column),
{
    let mut i: usize = 0;
    while i < v.len()
        invariant
            i <= v@.len(),
            forall|j: int| 0 <= j < i ==> v@[j] != column,
        decreases v@.len() - i,
    {
        if v[i] == column {
            proof {
                v@.index_of_first_ensures(column);
            }
            return Some(i);
        }
        i += 1;
    }
    None
}

proof fn lemma_insert_position(v: Seq<Column>, column: Column, k: int)
    requires
        0 <= k <= v.len(),
        forall|j: int| 0 <= j < k ==> column_rank(v[j]) <= column_rank(column),
        k == v.len() || column_rank(v[k]) > column_rank(column),
    ensures
        insert_position(v, column) == k,
    decreases v.len(),
{
    if k > 0 {
        lemma_insert_position(v.drop_first(), column, k - 1);
    }
}

/// The column at a position of the column order.
pub open spec fn column_at_rank(r: int) -> Column {
    if r == 0 { Column::U16 }
    else if r == 1 { Column::I16 }
    else if r == 2 { Column::U8s }
    else if r == 3 { Column::I8s }
    else if r == 4 { Column::Hex }
    else if r == 5 { Column::Hex32 }
    else if r == 6 { Column::F16 }
    else if r == 7 { Column::Bcd }
    else if r == 8 { Column::Bcd32 }
    else if r == 9 { Column::U32 }
    else if r == 10 { Column::I32 }
    else if r == 11 { Column::U32M10K }
    else if r == 12 { Column::I32M10K }
    else if r == 13 { Column::U64 }
    else if r == 14 { Column::I64 }
    else if r == 15 { Column::F32 }
    else if r == 16 { Column::F64 }
    else if r == 17 { Column::Ascii }
    else if r == 18 { Column::Bits }
    else { Column::Custom }
}

proof fn lemma_rank_injective(a: Column, b: Column)
    requires
        column_rank(a) == column_rank(b),
    ensures
        a == b,
{
    assert(column_at_rank(column_rank(a)) == a);
    assert(column_at_rank(column_rank(b)) == b);
}

proof fn lemma_insert_position_bounds(v: Seq<Column>, column: Column)
    ensures
        0 <= insert_position(v, column) <= v.len(),
        forall|j: int| 0 <= j < insert_position(v, column) ==> column_rank(#[trigger] v[j]) <= column_rank(column),
        insert_position(v, column) < v.len() ==> column_rank(v[insert_position(v, column)]) > column_rank(column),
    decreases v.len(),
{
    if v.len() > 0 && column_rank(v[0]) <= column_rank(column) {
        lemma_insert_position_bounds(v.drop_first(), column);
        assert forall|j: int| 0 <= j < insert_position(v, column) implies column_rank(#[trigger] v[j]) <= column_rank(column) by {
            if j > 0 {
                assert(v[j] == v.drop_first()[j - 1]);
            }
        }
    }
}

proof fn lemma_first_index(v: Seq<Column>, column: Column, p: int)
    requires
        0 <= p < v.len(),
        v[p] == column,
        forall|j: int| 0 <= j < p ==> v[j] != column,
    ensures
        v.index_of_first(column) == Some(p),
{
    assert(v.contains(column));
    v.index_of_first_ensures(column);
    let i = v.index_of_first(column)->0;
    if i < p {
        assert(v[i] == column);
    }
    if i > p {
        assert(v[p] != column);
    }
}

/// Toggling a column keeps the visible columns distinct and in column order.
pub proof fn lemma_toggle_keeps_order(v: Seq<Column>, column: Column)
    requires
        visible_wf(v),
    ensures
        visible_wf(spec_toggle(v, column)),
{
    if v.contains(column) {
        v.index_of_first_ensures(column);
        let i = v.index_of_first(column)->0;
        let w = v.remove(i);
        assert forall|a: int, b: int| 0 <= a < b < w.len() implies column_rank(w[a]) < column_rank(w[b]) by {
            let a2 = if a < i { a } else { a + 1 };
            let b2 = if b < i { b } else { b + 1 };
            assert(w[a] == v[a2] && w[b] == v[b2]);
        }
    } else {
        lemma_insert_position_bounds(v, column);
        let p = insert_position(v, column);
        let w = v.insert(p, column);
        assert forall|j: int| 0 <= j < p implies column_rank(#[trigger] v[j]) < column_rank(column) by {
            if column_rank(v[j]) == column_rank(column) {
                lemma_rank_injective(v[j], column);
                assert(v.contains(column));
            }
        }
        assert forall|a: int, b: int| 0 <= a < b < w.len() implies column_rank(w[a]) < column_rank(w[b]) by {
            if b < p {
                assert(w[a] == v[a] && w[b] == v[b]);
            } else if b == p {
                assert(w[a] == v[a]);
            } else if a < p {
                assert(w[a] == v[a] && w[b] == v[b - 1]);
                assert(column_rank(v[p]) > column_rank(column));
                assert(column_rank(v[p]) <= column_rank(v[b - 1]));
            } else if a == p {
                assert(w[b] == v[b - 1]);
                assert(column_rank(v[p]) <= column_rank(v[b - 1]));
            } else {
                assert(w[a] == v[a - 1] && w[b] == v[b - 1]);
            }
        }
    }
}

/// Toggling the same column twice gives back the visible columns.
pub proof fn lemma_toggle_twice_restores(v: Seq<Column>, column: Column)
    requires
        visible_wf(v),
    ensures
        spec_toggle(spec_toggle(v, column), column) == v,
{
    if v.contains(column) {
        v.index_of_first_ensures(column);
        let i = v.index_of_first(column)->0;
        let w = v.remove(i);
        assert(!w.contains(column)) by {
            if w.contains(column) {
                let k = choose|k: int| 0 <= k < w.len() && w[k] == column;
                let k2 = if k < i { k } else { k + 1 };
                assert(w[k] == v[k2]);
                assert(k2 != i);
                if k2 < i {
                    assert(column_rank(v[k2]) < column_rank(v[i]));
                } else {
                    assert(column_rank(v[i]) < column_rank(v[k2]));
                }
            }
        }
        assert forall|j: int| 0 <= j < i implies column_rank(#[trigger] w[j]) <= column_rank(column) by {
            assert(w[j] == v[j]);
        }
        if i < w.len() {
            assert(w[i] == v[i + 1]);
        }
        lemma_insert_position(w, column, i);
        assert(w.insert(i, column) =~= v);
    } else {
        lemma_insert_position_bounds(v, column);
        let p = insert_position(v, column);
        let w = v.insert(p, column);
        assert forall|j: int| 0 <= j < p implies w[j] != column by {
            assert(w[j] == v[j]);
            assert(!v.contains(column));
            if w[j] == column {
                assert(v[j] == column);
            }
        }
        assert(w[p] == column);
        lemma_first_index(w, column, p);
        assert(w.contains(column));
        assert(w.remove(p) =~= v);
    }
}

impl InterpretorConfig {
    /// Whether `column` is shown.
    pub fn is_visible(&self, column: Column) -> (r: bool)
        ensures
            r == self.visible@.contains(column),
    {
        position_of(&self.visible, column).is_some()
    }

    /// Whether `column` is shown.
    pub fn get(&self, column: Column) -> (r: bool)
        ensures
            r == self.visible@.contains(column),
    {
        self.is_visible(column)
    }

    /// Shows a hidden column, in column order, or hides a shown one.
    pub fn toggle(&mut self, column: Column)
        ensures
            final(self).visible@ == spec_toggle(old(self).visible@, column),
            final(self).time == old(self).time && final(self).ago == old(self).ago,
            final(self).label == old(self).label && final(self).address_hex == old(self).address_hex,
            final(self).label_width == old(self).label_width && final(self).custom_width == old(
                self,
            ).custom_width,
    {
        if let Some(index) = position_of(&self.visible, column) {
            self.visible.remove(index);
            return;
        }
        let rank = column.rank();
        let n = self.visible.len();
        let mut at: usize = 0;
        while at < n
            invariant
                at <= n,
                n == self.visible@.len(),
                rank == column_rank(column),
                forall|j: int| 0 <= j < at ==> column_rank(self.visible@[j]) <= column_rank(column),
            ensures
                at <= n,
                forall|j: int| 0 <= j < at ==> column_rank(self.visible@[j]) <= column_rank(column),
                at == n || column_rank(self.visible@[at as int]) > column_rank(column),
            decreases n - at,
        {
            if self.visible[at].rank() > rank {
                break;
            }
            at += 1;
        }
        proof {
            lemma_insert_position(self.visible@, column, at as int);
        }
        self.visible.insert(at, column);
    }
}

/// The labels of the demo configuration: register type, address, label.
pub open spec fn demo_label_table() -> Seq<(RegisterType, u16, Seq<char>)> {
    seq![
        (RegisterType::Holding, 0u16, "model (ascii)"@),
        (RegisterType::Holding, 8u16, "fw version (bcd)"@),
        (RegisterType::Holding, 9u16, "serial (u32)"@),
        (RegisterType::Holding, 11u16, "unit id"@),
        (RegisterType::Holding, 12u16, "uptime (u32 s)"@),
        (RegisterType::Holding, 50u16, "set: voltage"@),
        (RegisterType::Holding, 51u16, "set: current"@),
        (RegisterType::Holding, 52u16, "set: ripple"@),
        (RegisterType::Holding, 53u16, "set: noise"@),
        (RegisterType::Holding, 54u16, "set: time scale"@),
        (RegisterType::Holding, 1000u16, "energy (u32 Wh)"@),
        (RegisterType::Holding, 1002u16, "on-time (u32 s)"@),
        (RegisterType::Holding, 1004u16, "write count"@),
        (RegisterType::Holding, 1005u16, "energy (m10k)"@),
        (RegisterType::Holding, 1100u16, "status bits"@),
        (RegisterType::Holding, 1101u16, "alarm count"@),
        (RegisterType::Input, 0u16, "voltage L1"@),
        (RegisterType::Input, 1u16, "voltage L2"@),
        (RegisterType::Input, 2u16, "voltage L3"@),
        (RegisterType::Input, 3u16, "current L1"@),
        (RegisterType::Input, 4u16, "current L2"@),
        (RegisterType::Input, 5u16, "current L3"@),
        (RegisterType::Input, 6u16, "frequency"@),
        (RegisterType::Input, 7u16, "temperature"@),
        (RegisterType::Input, 8u16, "active power (f32)"@),
        (RegisterType::Input, 10u16, "power factor (f32)"@),
        (RegisterType::Input, 12u16, "apparent (u32 VA)"@),
        (RegisterType::Input, 14u16, "reactive (i32 var)"@),
        (RegisterType::Input, 16u16, "energy (m10k)"@),
        (RegisterType::Input, 20u16, "energy (f64 kWh)"@),
        (RegisterType::Input, 30u16, "seconds"@),
        (RegisterType::Input, 31u16, "sawtooth"@),
        (RegisterType::Input, 32u16, "square"@),
        (RegisterType::Input, 33u16, "noise"@),
        (RegisterType::Input, 34u16, "random walk"@),
        (RegisterType::Coil, 0u16, "main breaker"@),
        (RegisterType::Coil, 1u16, "phase L1 enable"@),
        (RegisterType::Coil, 2u16, "phase L2 enable"@),
        (RegisterType::Coil, 3u16, "phase L3 enable"@),
        (RegisterType::Coil, 4u16, "maintenance bypass"@),
        (RegisterType::Coil, 5u16, "auto mode"@),
        (RegisterType::Discrete, 0u16, "device ready"@),
        (RegisterType::Discrete, 1u16, "grid present"@),
        (RegisterType::Discrete, 2u16, "warning"@),
        (RegisterType::Discrete, 3u16, "heartbeat"@),
        (RegisterType::Discrete, 7u16, "noise enabled"@),
        (RegisterType::Discrete, 8u16, "fault"@)
    ]
}

fn label_entry(kind: RegisterType, address: u16, text: &str) -> (r: (RegisterCell, String))
    ensures
        r.0 == (kind, address),
        r.1@ == text@,
{
    let mut s = String::new();
    crate::text::push_str(&mut s, text);
    ((kind, address), s)
}

/// The labels of the demo configuration, in register order (by type, then
/// address): the simulated meter's registers described.
pub fn demo_labels() -> (r: Vec<(RegisterCell, String)>)
    ensures
        r@.len() == demo_label_table().len(),
        forall|i: int|
            0 <= i < r@.len() ==> (#[trigger] r@[i]).0 == (demo_label_table()[i].0, demo_label_table()[i].1)
                && r@[i].1@ == demo_label_table()[i].2,
{
    let mut v: Vec<(RegisterCell, String)> = Vec::new();
    v.push(label_entry(RegisterType::Holding, 0, "model (ascii)"));
    v.push(label_entry(RegisterType::Holding, 8, "fw version (bcd)"));
    v.push(label_entry(RegisterType::Holding, 9, "serial (u32)"));
    v.push(label_entry(RegisterType::Holding, 11, "unit id"));
    v.push(label_entry(RegisterType::Holding, 12, "uptime (u32 s)"));
    v.push(label_entry(RegisterType::Holding, 50, "set: voltage"));
    v.push(label_entry(RegisterType::Holding, 51, "set: current"));
    v.push(label_entry(RegisterType::Holding, 52, "set: ripple"));
    v.push(label_entry(RegisterType::Holding, 53, "set: noise"));
    v.push(label_entry(RegisterType::Holding, 54, "set: time scale"));
    v.push(label_entry(RegisterType::Holding, 1000, "energy (u32 Wh)"));
    v.push(label_entry(RegisterType::Holding, 1002, "on-time (u32 s)"));
    v.push(label_entry(RegisterType::Holding, 1004, "write count"));
    v.push(label_entry(RegisterType::Holding, 1005, "energy (m10k)"));
    v.push(label_entry(RegisterType::Holding, 1100, "status bits"));
    v.push(label_entry(RegisterType::Holding, 1101, "alarm count"));
    v.push(label_entry(RegisterType::Input, 0, "voltage L1"));
    v.push(label_entry(RegisterType::Input, 1, "voltage L2"));
    v.push(label_entry(RegisterType::Input, 2, "voltage L3"));
    v.push(label_entry(RegisterType::Input, 3, "current L1"));
    v.push(label_entry(RegisterType::Input, 4, "current L2"));
    v.push(label_entry(RegisterType::Input, 5, "current L3"));
    v.push(label_entry(RegisterType::Input, 6, "frequency"));
    v.push(label_entry(RegisterType::Input, 7, "temperature"));
    v.push(label_entry(RegisterType::Input, 8, "active power (f32)"));
    v.push(label_entry(RegisterType::Input, 10, "power factor (f32)"));
    v.push(label_entry(RegisterType::Input, 12, "apparent (u32 VA)"));
    v.push(label_entry(RegisterType::Input, 14, "reactive (i32 var)"));
    v.push(label_entry(RegisterType::Input, 16, "energy (m10k)"));
    v.push(label_entry(RegisterType::Input, 20, "energy (f64 kWh)"));
    v.push(label_entry(RegisterType::Input, 30, "seconds"));
    v.push(label_entry(RegisterType::Input, 31, "sawtooth"));
    v.push(label_entry(RegisterType::Input, 32, "square"));
    v.push(label_entry(RegisterType::Input, 33, "noise"));
    v.push(label_entry(RegisterType::Input, 34, "random walk"));
    v.push(label_entry(RegisterType::Coil, 0, "main breaker"));
    v.push(label_entry(RegisterType::Coil, 1, "phase L1 enable"));
    v.push(label_entry(RegisterType::Coil, 2, "phase L2 enable"));
    v.push(label_entry(RegisterType::Coil, 3, "phase L3 enable"));
    v.push(label_entry(RegisterType::Coil, 4, "maintenance bypass"));
    v.push(label_entry(RegisterType::Coil, 5, "auto mode"));
    v.push(label_entry(RegisterType::Discrete, 0, "device ready"));
    v.push(label_entry(RegisterType::Discrete, 1, "grid present"));
    v.push(label_entry(RegisterType::Discrete, 2, "warning"));
    v.push(label_entry(RegisterType::Discrete, 3, "heartbeat"));
    v.push(label_entry(RegisterType::Discrete, 7, "noise enabled"));
    v.push(label_entry(RegisterType::Discrete, 8, "fault"));
    proof {
        let t = demo_label_table();
        assert(v@.len() == t.len());
        assert forall|i: int| 0 <= i < v@.len() implies (#[trigger] v@[i]).0 == (t[i].0, t[i].1) && v@[i].1@ == t[i].2 by {
        }
    }
    v
}

} // verus!
