use vstd::prelude::*;
use crate::settings::SettingsField;
use crate::state::{lemma_cycled_at, pick_step, ReadPanel, SettingsParams};
use crate::config::{
    spec_panel_enabled, spec_type_enabled, AddressMode, BatchAnchor, CyclePanels, CycleTypes, InterpretorConfig,
    TimeMode,
};
use crate::num_ops::cycled;
use crate::register::RegisterType;
use crate::text::{pop_char, push_char};

verus! {

/// The bounds and step of a numeric setting: batch size and graph history
/// from 1, matrix columns and startup address from 0, all up to the
/// address range; padding up to 50; label and custom widths up to
/// `width_max`; intervals up to `u32::MAX` by steps of 100 ms; the API port
/// from -1 (no port) up to the last port. Other fields are not numbers.
pub open spec fn spec_numeric_spec(field: SettingsField, width_max: u16) -> Option<(i64, i64, i64)> {
    match field {
        SettingsField::BatchSize | SettingsField::GraphHistory => Some((1i64, 65535i64, 1i64)),
        SettingsField::MatrixColumns | SettingsField::StartupAddress => Some((0i64, 65535i64, 1i64)),
        SettingsField::PaddingHorizontal | SettingsField::PaddingVertical => Some((0i64, 50i64, 1i64)),
        SettingsField::LabelWidth | SettingsField::CustomWidth => Some((0i64, width_max as i64, 1i64)),
        SettingsField::RefreshInterval | SettingsField::ChangedExpiry => Some((0i64, 4294967295i64, 100i64)),
        SettingsField::ApiPort => Some((-1i64, 65535i64, 1i64)),
        _ => None,
    }
}

/// The bounds and step of a numeric setting.
pub fn numeric_spec(field: SettingsField, width_max: u16) -> (r: Option<(i64, i64, i64)>)
    ensures
        r == spec_numeric_spec(field, width_max),
{
    match field {
        SettingsField::BatchSize | SettingsField::GraphHistory => Some((1, 65535, 1)),
        SettingsField::MatrixColumns | SettingsField::StartupAddress => Some((0, 65535, 1)),
        SettingsField::PaddingHorizontal | SettingsField::PaddingVertical => Some((0, 50, 1)),
        SettingsField::LabelWidth | SettingsField::CustomWidth => Some((0, width_max as i64, 1)),
        SettingsField::RefreshInterval | SettingsField::ChangedExpiry => Some((0, 4294967295, 100)),
        SettingsField::ApiPort => Some((-1, 65535, 1)),
        _ => None,
    }
}

/// `v` within `min..=max`.
pub open spec fn clamped_to(v: int, min: int, max: int) -> int {
    if v < min {
        min
    } else if v > max {
        max
    } else {
        v
    }
}

/// A numeric setting stepped `delta` times by its step, within its bounds.
pub fn stepped_setting(value: i64, delta: i64, spec: (i64, i64, i64)) -> (r: i64)
    requires
        spec.0 <= spec.1,
        i64::MIN <= delta * spec.2 <= i64::MAX,
        i64::MIN <= value + delta * spec.2 <= i64::MAX,
    ensures
        r == clamped_to(value + delta * spec.2, spec.0 as int, spec.1 as int),
{
    let (min, max, step) = spec;
    let v = value + delta * step;
    if v < min {
        min
    } else if v > max {
        max
    } else {
        v
    }
}

/// A numeric setting after typing the decimal digit `digit`: the digit is
/// appended to the value (a negative value counting as 0), within the
/// bounds.
pub fn typed_setting(value: i64, digit: u8, spec: (i64, i64, i64)) -> (r: i64)
    requires
        spec.0 <= spec.1,
        digit < 10,
        value <= (i64::MAX - 9) / 10,
    ensures
        r == clamped_to(vstd::math::max(value as int, 0) * 10 + digit, spec.0 as int, spec.1 as int),
{
    let (min, max, _) = spec;
    let base = if value > 0 {
        value
    } else {
        0
    };
    let v = base * 10 + digit as i64;
    if v < min {
        min
    } else if v > max {
        max
    } else {
        v
    }
}

/// A numeric setting after deleting its last digit: down to its lowest
/// value once a single digit is left.
pub fn erased_setting(value: i64, min: i64) -> (r: i64)
    ensures
        r == (if value >= 10 {
            value / 10
        } else {
            min as int
        }),
{
    if value >= 10 {
        value / 10
    } else {
        min
    }
}

/// A palette color index after typing the digit `digit`: appended to the
/// index (a color without one counting as 0), at most 255.
pub fn typed_color_index(current: Option<u8>, digit: u8) -> (r: u8)
    requires
        digit < 10,
    ensures
        r == vstd::math::min(
            (match current {
                Some(n) => n as int,
                None => 0,
            }) * 10 + digit,
            255,
        ),
{
    let n: u32 = match current {
        Some(n) => n as u32,
        None => 0,
    };
    let v = n * 10 + digit as u32;
    if v > 255 {
        255
    } else {
        v as u8
    }
}

/// A palette color index after deleting its last digit; `None` where the
/// color goes back to its default (an index of 0, or no index).
pub fn erased_color_index(current: Option<u8>) -> (r: Option<u8>)
    ensures
        r == (match current {
            Some(n) => if n > 0 {
                Some((n / 10) as u8)
            } else {
                None
            },
            None => None,
        }),
{
    match current {
        Some(n) => if n > 0 {
            Some(n / 10)
        } else {
            None
        },
        None => None,
    }
}

/// Whether a startup field is locked because the position is saved on exit.
pub open spec fn field_disabled_spec(field: SettingsField, save_position_on_exit: bool) -> bool {
    (field == SettingsField::StartupPanel || field == SettingsField::StartupType || field
        == SettingsField::StartupAddress) && save_position_on_exit
}

/// The startup fields are locked while the position is saved on exit.
pub fn field_disabled(field: SettingsField, save_position_on_exit: bool) -> (r: bool)
    ensures
        r == ((field == SettingsField::StartupPanel || field == SettingsField::StartupType || field
            == SettingsField::StartupAddress) && save_position_on_exit),
{
    field.is_startup() && save_position_on_exit
}

impl SettingsParams {
    /// Types into the path of the configuration to load.
    pub fn type_load_path(&mut self, c: char)
        ensures
            final(self).load_path@ == old(self).load_path@.push(c),
            final(self).field == old(self).field && final(self).category == old(self).category,
    {
        push_char(&mut self.load_path, c);
    }

    /// Deletes the last character of the path to load.
    pub fn erase_load_path(&mut self)
        ensures
            final(self).load_path@ == (if old(self).load_path@.len() == 0 {
                old(self).load_path@
            } else {
                old(self).load_path@.drop_last()
            }),
            final(self).field == old(self).field && final(self).category == old(self).category,
    {
        pop_char(&mut self.load_path);
    }
}

/// The configuration values that the settings screen edits.
#[derive(Debug, Clone, Copy, PartialEq, Eq)]
pub struct Settings {
    pub skip_unsaved_warning: bool,
    pub save_position_on_exit: bool,
    pub show_mock_device: bool,
    pub read_only: bool,
    pub batch_anchor: BatchAnchor,
    pub read_full_customs: bool,
    pub custom_by_registers: bool,
    pub filter_panels_by_type: bool,
    pub api_enabled: bool,
    pub api_unit_id_override: bool,
    pub log_writes: bool,
    pub reconnect_on_timeout: bool,
    pub show_rule_continuation: bool,
    pub show_clock: bool,
    pub show_frame_time: bool,
    pub show_ram: bool,
    pub show_connection_label: bool,
    pub show_ascii_strip: bool,
    pub show_inactive_tabs: bool,
    pub show_matrix_context: bool,
    pub show_read_window: bool,
    pub graph_time_axis: bool,
    pub startup_panel: ReadPanel,
    pub startup_type: RegisterType,
    pub cycle_types: CycleTypes,
    pub cycle_panels: CyclePanels,
    pub batch_size: u16,
    pub refresh_interval_ms: u64,
    pub changed_expiry_ms: u64,
    pub graph_history: u16,
    pub matrix_columns: u16,
    pub startup_address: u16,
    pub padding_horizontal: u16,
    pub padding_vertical: u16,
    pub api_port: u16,
}

/// The time column shows how long ago a value was read in the `Ago` mode.
pub open spec fn time_mode_of(i: InterpretorConfig) -> TimeMode {
    if i.ago {
        TimeMode::Ago
    } else {
        TimeMode::ReadAt
    }
}

/// Addresses are written in hexadecimal in the `Hex` mode.
pub open spec fn address_mode_of(i: InterpretorConfig) -> AddressMode {
    if i.address_hex {
        AddressMode::Hex
    } else {
        AddressMode::Dec
    }
}

/// The value a numeric field holds, as a number.
pub open spec fn numeric_value(s: Settings, i: InterpretorConfig, field: SettingsField) -> i64 {
    match field {
        SettingsField::BatchSize => s.batch_size as i64,
        SettingsField::RefreshInterval => s.refresh_interval_ms as i64,
        SettingsField::ChangedExpiry => s.changed_expiry_ms as i64,
        SettingsField::GraphHistory => s.graph_history as i64,
        SettingsField::MatrixColumns => s.matrix_columns as i64,
        SettingsField::LabelWidth => i.label_width as i64,
        SettingsField::CustomWidth => i.custom_width as i64,
        SettingsField::StartupAddress => s.startup_address as i64,
        SettingsField::PaddingHorizontal => s.padding_horizontal as i64,
        SettingsField::PaddingVertical => s.padding_vertical as i64,
        SettingsField::ApiPort => s.api_port as i64,
        _ => 0,
    }
}

/// The settings with a numeric field set to `v` (which lies within the
/// field's bounds); a port of -1 is stored as 0.
pub open spec fn with_number(s: Settings, field: SettingsField, v: int) -> Settings {
    match field {
        SettingsField::BatchSize => Settings { batch_size: v as u16, ..s },
        SettingsField::RefreshInterval => Settings { refresh_interval_ms: v as u64, ..s },
        SettingsField::ChangedExpiry => Settings { changed_expiry_ms: v as u64, ..s },
        SettingsField::GraphHistory => Settings { graph_history: v as u16, ..s },
        SettingsField::MatrixColumns => Settings { matrix_columns: v as u16, ..s },
        SettingsField::StartupAddress => Settings { startup_address: v as u16, ..s },
        SettingsField::PaddingHorizontal => Settings { padding_horizontal: v as u16, ..s },
        SettingsField::PaddingVertical => Settings { padding_vertical: v as u16, ..s },
        SettingsField::ApiPort => Settings { api_port: (if v < 0 { 0 } else { v }) as u16, ..s },
        _ => s,
    }
}

/// The new value of a numeric field after stepping it `delta` times.
pub open spec fn stepped_value(s: Settings, i: InterpretorConfig, field: SettingsField, delta: i64, width_max: u16) -> int {
    match spec_numeric_spec(field, width_max) {
        Some(b) => clamped_to(numeric_value(s, i, field) + delta * b.2, b.0 as int, b.1 as int),
        None => 0,
    }
}

/// The fields that are on or off.
pub open spec fn is_flag(field: SettingsField) -> bool {
    field == SettingsField::SkipUnsavedWarning || field == SettingsField::SavePositionOnExit
        || field == SettingsField::ShowMockDevice || field == SettingsField::ReadOnly
        || field == SettingsField::ReadFullCustoms || field == SettingsField::CustomBatchByRegisters
        || field == SettingsField::FilterPanelsByType || field == SettingsField::ApiEnabled
        || field == SettingsField::ApiUnitIdOverride || field == SettingsField::WriteLogEnabled
        || field == SettingsField::ReconnectOnTimeout || field == SettingsField::ShowRuleContinuation
        || field == SettingsField::ShowClock || field == SettingsField::ShowFrameTime || field == SettingsField::ShowRam
        || field == SettingsField::ShowConnectionLabel || field == SettingsField::ShowAsciiStrip
        || field == SettingsField::ShowInactiveTabs || field == SettingsField::ShowMatrixContext
        || field == SettingsField::ShowReadWindow || field == SettingsField::GraphTimeAxis
}

/// The settings with the flag of `field` flipped.
pub open spec fn flipped(s: Settings, field: SettingsField) -> Settings {
    match field {
        SettingsField::SkipUnsavedWarning => Settings { skip_unsaved_warning: !s.skip_unsaved_warning, ..s },
        SettingsField::SavePositionOnExit => Settings { save_position_on_exit: !s.save_position_on_exit, ..s },
        SettingsField::ShowMockDevice => Settings { show_mock_device: !s.show_mock_device, ..s },
        SettingsField::ReadOnly => Settings { read_only: !s.read_only, ..s },
        SettingsField::ReadFullCustoms => Settings { read_full_customs: !s.read_full_customs, ..s },
        SettingsField::CustomBatchByRegisters => Settings { custom_by_registers: !s.custom_by_registers, ..s },
        SettingsField::FilterPanelsByType => Settings { filter_panels_by_type: !s.filter_panels_by_type, ..s },
        SettingsField::ApiEnabled => Settings { api_enabled: !s.api_enabled, ..s },
        SettingsField::ApiUnitIdOverride => Settings { api_unit_id_override: !s.api_unit_id_override, ..s },
        SettingsField::WriteLogEnabled => Settings { log_writes: !s.log_writes, ..s },
        SettingsField::ReconnectOnTimeout => Settings { reconnect_on_timeout: !s.reconnect_on_timeout, ..s },
        SettingsField::ShowRuleContinuation => Settings { show_rule_continuation: !s.show_rule_continuation, ..s },
        SettingsField::ShowClock => Settings { show_clock: !s.show_clock, ..s },
        SettingsField::ShowFrameTime => Settings { show_frame_time: !s.show_frame_time, ..s },
        SettingsField::ShowRam => Settings { show_ram: !s.show_ram, ..s },
        SettingsField::ShowConnectionLabel => Settings { show_connection_label: !s.show_connection_label, ..s },
        SettingsField::ShowAsciiStrip => Settings { show_ascii_strip: !s.show_ascii_strip, ..s },
        SettingsField::ShowInactiveTabs => Settings { show_inactive_tabs: !s.show_inactive_tabs, ..s },
        SettingsField::ShowMatrixContext => Settings { show_matrix_context: !s.show_matrix_context, ..s },
        SettingsField::ShowReadWindow => Settings { show_read_window: !s.show_read_window, ..s },
        SettingsField::GraphTimeAxis => Settings { graph_time_axis: !s.graph_time_axis, ..s },
        _ => s,
    }
}

/// The fields that choose one of a list.
pub open spec fn is_choice(field: SettingsField) -> bool {
    field == SettingsField::BatchAnchor || field == SettingsField::StartupPanel || field == SettingsField::StartupType
}

/// The settings with the choice of `field` moved to the next (or previous)
/// entry of its list.
pub open spec fn chosen(s: Settings, field: SettingsField, fwd: bool) -> Settings {
    match field {
        SettingsField::BatchAnchor => Settings {
            batch_anchor: cycled(seq![BatchAnchor::Start, BatchAnchor::Middle, BatchAnchor::End], s.batch_anchor, fwd),
            ..s
        },
        SettingsField::StartupPanel => Settings {
            startup_panel: cycled(
                seq![ReadPanel::Main, ReadPanel::Pinned, ReadPanel::Labeled, ReadPanel::Custom, ReadPanel::Matrix],
                s.startup_panel,
                fwd,
            ),
            ..s
        },
        SettingsField::StartupType => Settings {
            startup_type: cycled(
                seq![RegisterType::Holding, RegisterType::Input, RegisterType::Coil, RegisterType::Discrete],
                s.startup_type,
                fwd,
            ),
            ..s
        },
        _ => s,
    }
}

/// The fields that take a register type or a panel into the cycle of its
/// key, or out of it.
pub open spec fn is_cycle_member(field: SettingsField) -> bool {
    field == SettingsField::CycleHoldings || field == SettingsField::CycleInputs || field == SettingsField::CycleCoils
        || field == SettingsField::CycleDiscretes || field == SettingsField::CyclePinned
        || field == SettingsField::CycleLabeled || field == SettingsField::CycleCustom || field == SettingsField::CycleMatrix
}

/// The settings with the register type or panel of `field` taken into its
/// cycle or out of it.
pub open spec fn member_toggled(s: Settings, field: SettingsField) -> Settings {
    match field {
        SettingsField::CycleHoldings => Settings { cycle_types: CycleTypes { holdings: !s.cycle_types.holdings, ..s.cycle_types }, ..s },
        SettingsField::CycleInputs => Settings { cycle_types: CycleTypes { inputs: !s.cycle_types.inputs, ..s.cycle_types }, ..s },
        SettingsField::CycleCoils => Settings { cycle_types: CycleTypes { coils: !s.cycle_types.coils, ..s.cycle_types }, ..s },
        SettingsField::CycleDiscretes => Settings {
            cycle_types: CycleTypes { discretes: !s.cycle_types.discretes, ..s.cycle_types },
            ..s
        },
        SettingsField::CyclePinned => Settings { cycle_panels: CyclePanels { pinned: !s.cycle_panels.pinned, ..s.cycle_panels }, ..s },
        SettingsField::CycleLabeled => Settings {
            cycle_panels: CyclePanels { labeled: !s.cycle_panels.labeled, ..s.cycle_panels },
            ..s
        },
        SettingsField::CycleCustom => Settings { cycle_panels: CyclePanels { custom: !s.cycle_panels.custom, ..s.cycle_panels }, ..s },
        SettingsField::CycleMatrix => Settings { cycle_panels: CyclePanels { matrix: !s.cycle_panels.matrix, ..s.cycle_panels }, ..s },
        _ => s,
    }
}

/// What adjusting `field` by `delta` makes of the settings: a flag flips,
/// a choice moves to the next (delta above 0) or previous one, a register
/// type or panel is taken into or out of the cycle, and a number steps
/// within its bounds. Fields of the interpretation and colors leave them.
pub open spec fn adjusted(s: Settings, i: InterpretorConfig, field: SettingsField, delta: i64, width_max: u16) -> Settings {
    if is_flag(field) {
        flipped(s, field)
    } else if is_choice(field) {
        chosen(s, field, delta > 0)
    } else if is_cycle_member(field) {
        member_toggled(s, field)
    } else if spec_numeric_spec(field, width_max) is Some {
        with_number(s, field, stepped_value(s, i, field, delta, width_max))
    } else {
        s
    }
}

/// What adjusting `field` makes of the interpretation settings: the time
/// and address modes move to the other choice, the label and custom widths
/// step within their bounds; other fields leave them.
pub open spec fn adjusted_interp(s: Settings, i: InterpretorConfig, field: SettingsField, delta: i64, width_max: u16) -> InterpretorConfig {
    let fwd = delta > 0;
    match field {
        SettingsField::TimeMode => InterpretorConfig {
            ago: cycled(seq![TimeMode::ReadAt, TimeMode::Ago], time_mode_of(i), fwd) == TimeMode::Ago,
            ..i
        },
        SettingsField::AddressMode => InterpretorConfig {
            address_hex: cycled(seq![AddressMode::Dec, AddressMode::Hex], address_mode_of(i), fwd) == AddressMode::Hex,
            ..i
        },
        SettingsField::LabelWidth => InterpretorConfig {
            label_width: stepped_value(s, i, field, delta, width_max) as u16,
            ..i
        },
        SettingsField::CustomWidth => InterpretorConfig {
            custom_width: stepped_value(s, i, field, delta, width_max) as u16,
            ..i
        },
        _ => i,
    }
}

/// Whether stepping a numeric field stays within the range of `i64`.
pub open spec fn step_fits(s: Settings, i: InterpretorConfig, field: SettingsField, delta: i64, width_max: u16) -> bool {
    match spec_numeric_spec(field, width_max) {
        Some(b) => i64::MIN <= delta * b.2 <= i64::MAX && i64::MIN <= numeric_value(s, i, field) + delta * b.2
            <= i64::MAX,
        None => true,
    }
}

fn cycle_anchor(a: BatchAnchor, forward: bool) -> (r: BatchAnchor)
    ensures
        r == cycled(seq![BatchAnchor::Start, BatchAnchor::Middle, BatchAnchor::End], a, forward),
{
    let all = BatchAnchor::ALL;
    let i: usize = match a {
        BatchAnchor::Start => 0,
        BatchAnchor::Middle => 1,
        BatchAnchor::End => 2,
    };
    proof {
        assert(all@ =~= seq![BatchAnchor::Start, BatchAnchor::Middle, BatchAnchor::End]);
        lemma_cycled_at(all@, a, i as int, forward);
    }
    pick_step(&all, i, forward)
}

fn cycle_panel(p: ReadPanel, forward: bool) -> (r: ReadPanel)
    ensures
        r == cycled(
            seq![ReadPanel::Main, ReadPanel::Pinned, ReadPanel::Labeled, ReadPanel::Custom, ReadPanel::Matrix],
            p,
            forward,
        ),
{
    let all = ReadPanel::ALL;
    let i: usize = match p {
        ReadPanel::Main => 0,
        ReadPanel::Pinned => 1,
        ReadPanel::Labeled => 2,
        ReadPanel::Custom => 3,
        ReadPanel::Matrix => 4,
    };
    proof {
        assert(all@ =~= seq![ReadPanel::Main, ReadPanel::Pinned, ReadPanel::Labeled, ReadPanel::Custom, ReadPanel::Matrix]);
        lemma_cycled_at(all@, p, i as int, forward);
    }
    pick_step(&all, i, forward)
}

fn cycle_type(t: RegisterType, forward: bool) -> (r: RegisterType)
    ensures
        r == cycled(seq![RegisterType::Holding, RegisterType::Input, RegisterType::Coil, RegisterType::Discrete], t, forward),
{
    let all = RegisterType::ALL;
    let i: usize = match t {
        RegisterType::Holding => 0,
        RegisterType::Input => 1,
        RegisterType::Coil => 2,
        RegisterType::Discrete => 3,
    };
    proof {
        assert(all@ =~= seq![RegisterType::Holding, RegisterType::Input, RegisterType::Coil, RegisterType::Discrete]);
        lemma_cycled_at(all@, t, i as int, forward);
    }
    pick_step(&all, i, forward)
}

fn cycle_time_mode(m: TimeMode, forward: bool) -> (r: TimeMode)
    ensures
        r == cycled(seq![TimeMode::ReadAt, TimeMode::Ago], m, forward),
{
    let all = TimeMode::ALL;
    let i: usize = match m {
        TimeMode::ReadAt => 0,
        TimeMode::Ago => 1,
    };
    proof {
        assert(all@ =~= seq![TimeMode::ReadAt, TimeMode::Ago]);
        lemma_cycled_at(all@, m, i as int, forward);
    }
    pick_step(&all, i, forward)
}

fn cycle_address_mode(m: AddressMode, forward: bool) -> (r: AddressMode)
    ensures
        r == cycled(seq![AddressMode::Dec, AddressMode::Hex], m, forward),
{
    let all = AddressMode::ALL;
    let i: usize = match m {
        AddressMode::Dec => 0,
        AddressMode::Hex => 1,
    };
    proof {
        assert(all@ =~= seq![AddressMode::Dec, AddressMode::Hex]);
        lemma_cycled_at(all@, m, i as int, forward);
    }
    pick_step(&all, i, forward)
}

fn get_number(s: &Settings, i: &InterpretorConfig, field: SettingsField) -> (r: i64)
    ensures
        r == numeric_value(*s, *i, field),
{
    match field {
        SettingsField::BatchSize => s.batch_size as i64,
        SettingsField::RefreshInterval => s.refresh_interval_ms as i64,
        SettingsField::ChangedExpiry => s.changed_expiry_ms as i64,
        SettingsField::GraphHistory => s.graph_history as i64,
        SettingsField::MatrixColumns => s.matrix_columns as i64,
        SettingsField::LabelWidth => i.label_width as i64,
        SettingsField::CustomWidth => i.custom_width as i64,
        SettingsField::StartupAddress => s.startup_address as i64,
        SettingsField::PaddingHorizontal => s.padding_horizontal as i64,
        SettingsField::PaddingVertical => s.padding_vertical as i64,
        SettingsField::ApiPort => s.api_port as i64,
        _ => 0,
    }
}

fn flag_field(field: SettingsField) -> (r: bool)
    ensures
        r == is_flag(field),
{
    matches!(field, SettingsField::SkipUnsavedWarning | SettingsField::SavePositionOnExit
        | SettingsField::ShowMockDevice | SettingsField::ReadOnly | SettingsField::ReadFullCustoms
        | SettingsField::CustomBatchByRegisters | SettingsField::FilterPanelsByType | SettingsField::ApiEnabled
        | SettingsField::ApiUnitIdOverride | SettingsField::WriteLogEnabled | SettingsField::ReconnectOnTimeout
        | SettingsField::ShowRuleContinuation | SettingsField::ShowClock | SettingsField::ShowFrameTime
        | SettingsField::ShowRam | SettingsField::ShowConnectionLabel | SettingsField::ShowAsciiStrip
        | SettingsField::ShowInactiveTabs | SettingsField::ShowMatrixContext | SettingsField::ShowReadWindow
        | SettingsField::GraphTimeAxis)
}

fn choice_field(field: SettingsField) -> (r: bool)
    ensures
        r == is_choice(field),
{
    matches!(field, SettingsField::BatchAnchor | SettingsField::StartupPanel | SettingsField::StartupType)
}

fn member_field(field: SettingsField) -> (r: bool)
    ensures
        r == is_cycle_member(field),
{
    matches!(field, SettingsField::CycleHoldings | SettingsField::CycleInputs | SettingsField::CycleCoils
        | SettingsField::CycleDiscretes | SettingsField::CyclePinned | SettingsField::CycleLabeled
        | SettingsField::CycleCustom | SettingsField::CycleMatrix)
}

fn flip(s: Settings, field: SettingsField) -> (r: Settings)
    ensures
        r == flipped(s, field),
{
    match field {
        SettingsField::SkipUnsavedWarning => Settings { skip_unsaved_warning: !s.skip_unsaved_warning, ..s },
        SettingsField::SavePositionOnExit => Settings { save_position_on_exit: !s.save_position_on_exit, ..s },
        SettingsField::ShowMockDevice => Settings { show_mock_device: !s.show_mock_device, ..s },
        SettingsField::ReadOnly => Settings { read_only: !s.read_only, ..s },
        SettingsField::ReadFullCustoms => Settings { read_full_customs: !s.read_full_customs, ..s },
        SettingsField::CustomBatchByRegisters => Settings { custom_by_registers: !s.custom_by_registers, ..s },
        SettingsField::FilterPanelsByType => Settings { filter_panels_by_type: !s.filter_panels_by_type, ..s },
        SettingsField::ApiEnabled => Settings { api_enabled: !s.api_enabled, ..s },
        SettingsField::ApiUnitIdOverride => Settings { api_unit_id_override: !s.api_unit_id_override, ..s },
        SettingsField::WriteLogEnabled => Settings { log_writes: !s.log_writes, ..s },
        SettingsField::ReconnectOnTimeout => Settings { reconnect_on_timeout: !s.reconnect_on_timeout, ..s },
        SettingsField::ShowRuleContinuation => Settings { show_rule_continuation: !s.show_rule_continuation, ..s },
        SettingsField::ShowClock => Settings { show_clock: !s.show_clock, ..s },
        SettingsField::ShowFrameTime => Settings { show_frame_time: !s.show_frame_time, ..s },
        SettingsField::ShowRam => Settings { show_ram: !s.show_ram, ..s },
        SettingsField::ShowConnectionLabel => Settings { show_connection_label: !s.show_connection_label, ..s },
        SettingsField::ShowAsciiStrip => Settings { show_ascii_strip: !s.show_ascii_strip, ..s },
        SettingsField::ShowInactiveTabs => Settings { show_inactive_tabs: !s.show_inactive_tabs, ..s },
        SettingsField::ShowMatrixContext => Settings { show_matrix_context: !s.show_matrix_context, ..s },
        SettingsField::ShowReadWindow => Settings { show_read_window: !s.show_read_window, ..s },
        SettingsField::GraphTimeAxis => Settings { graph_time_axis: !s.graph_time_axis, ..s },
        _ => s,
    }
}

fn pick_choice(s: Settings, field: SettingsField, fwd: bool) -> (r: Settings)
    ensures
        r == chosen(s, field, fwd),
{
    match field {
        SettingsField::BatchAnchor => Settings { batch_anchor: cycle_anchor(s.batch_anchor, fwd), ..s },
        SettingsField::StartupPanel => Settings { startup_panel: cycle_panel(s.startup_panel, fwd), ..s },
        SettingsField::StartupType => Settings { startup_type: cycle_type(s.startup_type, fwd), ..s },
        _ => s,
    }
}

fn toggle_member(s: Settings, field: SettingsField) -> (r: Settings)
    ensures
        r == member_toggled(s, field),
{
    let t = s.cycle_types;
    let p = s.cycle_panels;
    match field {
        SettingsField::CycleHoldings => Settings { cycle_types: CycleTypes { holdings: !t.holdings, ..t }, ..s },
        SettingsField::CycleInputs => Settings { cycle_types: CycleTypes { inputs: !t.inputs, ..t }, ..s },
        SettingsField::CycleCoils => Settings { cycle_types: CycleTypes { coils: !t.coils, ..t }, ..s },
        SettingsField::CycleDiscretes => Settings { cycle_types: CycleTypes { discretes: !t.discretes, ..t }, ..s },
        SettingsField::CyclePinned => Settings { cycle_panels: CyclePanels { pinned: !p.pinned, ..p }, ..s },
        SettingsField::CycleLabeled => Settings { cycle_panels: CyclePanels { labeled: !p.labeled, ..p }, ..s },
        SettingsField::CycleCustom => Settings { cycle_panels: CyclePanels { custom: !p.custom, ..p }, ..s },
        SettingsField::CycleMatrix => Settings { cycle_panels: CyclePanels { matrix: !p.matrix, ..p }, ..s },
        _ => s,
    }
}

fn step_number(s: Settings, interp: &mut InterpretorConfig, field: SettingsField, delta: i64, width_max: u16) -> (r: Settings)
    requires
        spec_numeric_spec(field, width_max) is Some,
        step_fits(s, *old(interp), field, delta, width_max),
    ensures
        r == with_number(s, field, stepped_value(s, *old(interp), field, delta, width_max)),
        *final(interp) == adjusted_interp(s, *old(interp), field, delta, width_max),
{
    let b = match numeric_spec(field, width_max) {
        Some(b) => b,
        None => return s,
    };
    let v = stepped_setting(get_number(&s, interp, field), delta, b);
    match field {
        SettingsField::BatchSize => Settings { batch_size: v as u16, ..s },
        SettingsField::RefreshInterval => Settings { refresh_interval_ms: v as u64, ..s },
        SettingsField::ChangedExpiry => Settings { changed_expiry_ms: v as u64, ..s },
        SettingsField::GraphHistory => Settings { graph_history: v as u16, ..s },
        SettingsField::MatrixColumns => Settings { matrix_columns: v as u16, ..s },
        SettingsField::LabelWidth => {
            interp.label_width = v as u16;
            s
        },
        SettingsField::CustomWidth => {
            interp.custom_width = v as u16;
            s
        },
        SettingsField::StartupAddress => Settings { startup_address: v as u16, ..s },
        SettingsField::PaddingHorizontal => Settings { padding_horizontal: v as u16, ..s },
        SettingsField::PaddingVertical => Settings { padding_vertical: v as u16, ..s },
        SettingsField::ApiPort => Settings { api_port: if v < 0 { 0 } else { v as u16 }, ..s },
        _ => s,
    }
}

/// Adjusts a setting by `delta` (Left and Right, or the step keys): nothing
/// happens on a locked startup field; otherwise a flag flips, a choice
/// cycles forward for a positive `delta` and back otherwise, a register
/// type or panel joins or leaves its cycle, and a number steps by `delta`
/// times its step within its bounds.
pub fn settings_adjust(cfg: &mut Settings, interp: &mut InterpretorConfig, field: SettingsField, delta: i64, width_max: u16)
    requires
        !field_disabled_spec(field, old(cfg).save_position_on_exit) ==> step_fits(*old(cfg), *old(interp), field, delta, width_max),
    ensures
        field_disabled_spec(field, old(cfg).save_position_on_exit) ==> *final(cfg) == *old(cfg) && *final(interp) == *old(interp),
        !field_disabled_spec(field, old(cfg).save_position_on_exit) ==> *final(cfg) == adjusted(*old(cfg), *old(interp), field, delta, width_max)
            && *final(interp) == adjusted_interp(*old(cfg), *old(interp), field, delta, width_max),
{
    if field_disabled(field, cfg.save_position_on_exit) {
        return;
    }
    let fwd = delta > 0;
    if flag_field(field) {
        *cfg = flip(*cfg, field);
    } else if choice_field(field) {
        *cfg = pick_choice(*cfg, field, fwd);
    } else if member_field(field) {
        *cfg = toggle_member(*cfg, field);
    } else if field == SettingsField::TimeMode {
        let now = if interp.ago { TimeMode::Ago } else { TimeMode::ReadAt };
        let next = cycle_time_mode(now, fwd);
        interp.ago = next == TimeMode::Ago;
    } else if field == SettingsField::AddressMode {
        let now = if interp.address_hex { AddressMode::Hex } else { AddressMode::Dec };
        let next = cycle_address_mode(now, fwd);
        interp.address_hex = next == AddressMode::Hex;
    } else if numeric_spec(field, width_max).is_some() {
        *cfg = step_number(*cfg, interp, field, delta, width_max);
    }
}

} // verus!
