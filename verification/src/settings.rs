use vstd::prelude::*;
use crate::register::RegisterType;
use crate::state::ReadPanel;
use crate::text::{chars_of, split_whitespace, to_lowercase};
use crate::text;

verus! {

/// How a settings field is edited.
#[derive(Debug, Clone, Copy, PartialEq, Eq, Structural)]
pub enum FieldKind {
    Number,
    Text,
    Toggle,
    Action,
    Color,
    CycleType(RegisterType),
    CyclePanel(ReadPanel),
}

/// Every field of the settings screen.
#[derive(Debug, Clone, Copy, PartialEq, Eq, Structural)]
pub enum SettingsField {
    BatchSize,
    BatchAnchor,
    ReadFullCustoms,
    CustomBatchByRegisters,
    RefreshInterval,
    ReconnectOnTimeout,
    ReadOnly,
    WriteLogEnabled,
    WriteLogDirectory,
    GraphHistory,
    MatrixColumns,
    CycleHoldings,
    CycleInputs,
    CycleCoils,
    CycleDiscretes,
    ShowMockDevice,
    SavePositionOnExit,
    StartupPanel,
    StartupType,
    StartupAddress,
    ApiEnabled,
    ApiPort,
    ApiUnitIdOverride,
    ShowClock,
    ShowFrameTime,
    ShowRam,
    ShowConnectionLabel,
    ShowAsciiStrip,
    ShowInactiveTabs,
    FilterPanelsByType,
    CyclePinned,
    CycleLabeled,
    CycleCustom,
    CycleMatrix,
    TimeMode,
    AddressMode,
    LabelWidth,
    CustomWidth,
    ShowReadWindow,
    ShowMatrixContext,
    GraphTimeAxis,
    ChangedExpiry,
    ShowRuleContinuation,
    PaddingHorizontal,
    PaddingVertical,
    ThemePreset,
    ThemeBorder,
    ThemeAccent,
    ThemeText,
    ThemeBackground,
    ThemeDim,
    ThemeChanged,
    ThemeZebra,
    ThemeOk,
    ThemeWarning,
    ThemeError,
    ThemeSelectedText,
    ThemeSelectedBackground,
    Name,
    SkipUnsavedWarning,
    ClearPins,
    ClearLabels,
    ClearCustom,
    CopyData,
    CopyConfig,
    Save,
    LoadConfig,
    NextConfig,
}

pub open spec fn spec_label(f: SettingsField) -> Seq<char> {
    match f {
        SettingsField::BatchSize => "Batch size"@,
        SettingsField::BatchAnchor => "Batch anchor"@,
        SettingsField::ReadFullCustoms => "Read full custom values"@,
        SettingsField::CustomBatchByRegisters => "Custom batch by registers"@,
        SettingsField::RefreshInterval => "Auto-refresh (ms)"@,
        SettingsField::ReconnectOnTimeout => "Reconnect on timeout"@,
        SettingsField::ReadOnly => "Read-only"@,
        SettingsField::WriteLogEnabled => "Log writes to file"@,
        SettingsField::WriteLogDirectory => "Write log folder"@,
        SettingsField::GraphHistory => "Graph history"@,
        SettingsField::MatrixColumns => "Matrix columns"@,
        SettingsField::CycleHoldings => "Cycle holdings"@,
        SettingsField::CycleInputs => "Cycle inputs"@,
        SettingsField::CycleCoils => "Cycle coils"@,
        SettingsField::CycleDiscretes => "Cycle discretes"@,
        SettingsField::ShowMockDevice => "Show mock device"@,
        SettingsField::SavePositionOnExit => "Save position on exit"@,
        SettingsField::StartupPanel => "Startup panel"@,
        SettingsField::StartupType => "Startup type"@,
        SettingsField::StartupAddress => "Startup address"@,
        SettingsField::ApiEnabled => "API server"@,
        SettingsField::ApiPort => "API port"@,
        SettingsField::ApiUnitIdOverride => "API unit id override"@,
        SettingsField::ShowClock => "Show clock"@,
        SettingsField::ShowFrameTime => "Show frame time"@,
        SettingsField::ShowRam => "Show RAM usage"@,
        SettingsField::ShowConnectionLabel => "Show connection label"@,
        SettingsField::ShowAsciiStrip => "Show ASCII strip"@,
        SettingsField::ShowInactiveTabs => "Show inactive tabs"@,
        SettingsField::FilterPanelsByType => "Filter panels by type"@,
        SettingsField::CyclePinned => "Cycle pinned"@,
        SettingsField::CycleLabeled => "Cycle labeled"@,
        SettingsField::CycleCustom => "Cycle custom"@,
        SettingsField::CycleMatrix => "Cycle matrix"@,
        SettingsField::TimeMode => "Time format"@,
        SettingsField::AddressMode => "Address format"@,
        SettingsField::LabelWidth => "Label width"@,
        SettingsField::CustomWidth => "Custom width"@,
        SettingsField::ShowReadWindow => "Show read window"@,
        SettingsField::ShowMatrixContext => "Show matrix context"@,
        SettingsField::GraphTimeAxis => "Graph time axis"@,
        SettingsField::ChangedExpiry => "Changed highlight (ms)"@,
        SettingsField::ShowRuleContinuation => "Show \"part of\" marker"@,
        SettingsField::PaddingHorizontal => "Horizontal padding"@,
        SettingsField::PaddingVertical => "Vertical padding"@,
        SettingsField::ThemePreset => "Preset"@,
        SettingsField::ThemeBorder => "Frame border"@,
        SettingsField::ThemeAccent => "Accent"@,
        SettingsField::ThemeText => "Text"@,
        SettingsField::ThemeBackground => "Background"@,
        SettingsField::ThemeDim => "Muted"@,
        SettingsField::ThemeChanged => "Changed value"@,
        SettingsField::ThemeZebra => "Zebra stripe"@,
        SettingsField::ThemeOk => "Success"@,
        SettingsField::ThemeWarning => "Warning"@,
        SettingsField::ThemeError => "Error"@,
        SettingsField::ThemeSelectedText => "Selected text"@,
        SettingsField::ThemeSelectedBackground => "Selected background"@,
        SettingsField::Name => "Config name"@,
        SettingsField::SkipUnsavedWarning => "Ignore unsaved warning"@,
        SettingsField::ClearPins => "Clear pinned registers"@,
        SettingsField::ClearLabels => "Clear labels"@,
        SettingsField::ClearCustom => "Clear custom rules"@,
        SettingsField::CopyData => "Copy registers"@,
        SettingsField::CopyConfig => "Copy configuration"@,
        SettingsField::Save => "Save configuration"@,
        SettingsField::LoadConfig => "Load configuration"@,
        SettingsField::NextConfig => "Next configuration"@,
    }
}

pub open spec fn spec_description(f: SettingsField) -> Seq<char> {
    match f {
        SettingsField::BatchSize => "How many registers each read request fetches around the cursor"@,
        SettingsField::BatchAnchor => "Where the cursor sits inside the read batch: start, middle or end"@,
        SettingsField::ReadFullCustoms => "Also read every register a custom rule spans, even outside the batch"@,
        SettingsField::CustomBatchByRegisters => "In the Custom panel, size the batch by registers instead of rules"@,
        SettingsField::RefreshInterval => "Delay between automatic reads, 0 turns auto-refresh off"@,
        SettingsField::ReconnectOnTimeout => "Reconnect to the device after a read times out"@,
        SettingsField::ReadOnly => "Refuse all writes from the UI and the API"@,
        SettingsField::WriteLogEnabled => "Append every write to a log file"@,
        SettingsField::WriteLogDirectory => "Folder for the write log, empty uses the config file's folder"@,
        SettingsField::GraphHistory => "Samples kept per register for the value graph"@,
        SettingsField::MatrixColumns => "Registers per row in the Matrix panel, auto fits as many as the screen shows"@,
        SettingsField::CycleHoldings => "Include holding registers when cycling register types"@,
        SettingsField::CycleInputs => "Include input registers when cycling register types"@,
        SettingsField::CycleCoils => "Include coils when cycling register types"@,
        SettingsField::CycleDiscretes => "Include discrete inputs when cycling register types"@,
        SettingsField::ShowMockDevice => "Offer the built-in mock device in the Device popup"@,
        SettingsField::SavePositionOnExit => "Store the cursor position as the startup position when quitting"@,
        SettingsField::StartupPanel => "Panel opened on start"@,
        SettingsField::StartupType => "Register type selected on start"@,
        SettingsField::StartupAddress => "Address the cursor starts on"@,
        SettingsField::ApiEnabled => "Serve the HTTP API while the app runs"@,
        SettingsField::ApiPort => "Port for the HTTP API, 0 picks any free port"@,
        SettingsField::ApiUnitIdOverride => "Let API requests target a unit id other than the configured one"@,
        SettingsField::ShowClock => "Show the current time in the bottom bar"@,
        SettingsField::ShowFrameTime => "Show how long each frame takes to render"@,
        SettingsField::ShowRam => "Show the memory used by the application"@,
        SettingsField::ShowConnectionLabel => "Show the connection state as a word next to the refresh countdown"@,
        SettingsField::ShowAsciiStrip => "Show the read registers decoded as an ASCII string"@,
        SettingsField::ShowInactiveTabs => "Show every panel and register type tab, not just the active one"@,
        SettingsField::FilterPanelsByType => "In Pinned, Labeled and Custom, list only the current register type"@,
        SettingsField::CyclePinned => "Include the Pinned panel when cycling panels"@,
        SettingsField::CycleLabeled => "Include the Labeled panel when cycling panels"@,
        SettingsField::CycleCustom => "Include the Custom panel when cycling panels"@,
        SettingsField::CycleMatrix => "Include the Matrix panel when cycling panels"@,
        SettingsField::TimeMode => "Show the read time as a timestamp or as how long ago it was"@,
        SettingsField::AddressMode => "Show addresses in decimal or hexadecimal"@,
        SettingsField::LabelWidth => "Characters the label column takes, auto fits the longest label"@,
        SettingsField::CustomWidth => "Characters the custom column takes, auto fits the longest value"@,
        SettingsField::ShowReadWindow => "Highlight the address range covered by the current read batch"@,
        SettingsField::ShowMatrixContext => "Show the custom value and label of the selected register under the Matrix panel"@,
        SettingsField::GraphTimeAxis => "Plot the graph against time instead of sample count"@,
        SettingsField::ChangedExpiry => "How long a changed value stays highlighted, 0 never clears it"@,
        SettingsField::ShowRuleContinuation => "Mark registers that belong to a multi-register custom rule"@,
        SettingsField::PaddingHorizontal => "Empty columns kept on both sides of the interface"@,
        SettingsField::PaddingVertical => "Empty rows kept above and below the interface"@,
        SettingsField::ThemePreset => "Switch between the built-in color schemes"@,
        SettingsField::ThemeBorder => "Color of the frame borders"@,
        SettingsField::ThemeAccent => "Color for titles, keys and highlights"@,
        SettingsField::ThemeText => "Main text color"@,
        SettingsField::ThemeBackground => "Background color"@,
        SettingsField::ThemeDim => "Color for secondary and muted text"@,
        SettingsField::ThemeChanged => "Color for values that changed recently"@,
        SettingsField::ThemeZebra => "Background of alternating table rows"@,
        SettingsField::ThemeOk => "Color for success and connected states"@,
        SettingsField::ThemeWarning => "Color for warnings"@,
        SettingsField::ThemeError => "Color for errors"@,
        SettingsField::ThemeSelectedText => "Text color of the selected row"@,
        SettingsField::ThemeSelectedBackground => "Background color of the selected row"@,
        SettingsField::Name => "Name shown in the title bar for this configuration"@,
        SettingsField::SkipUnsavedWarning => "Quit or switch configuration without asking about unsaved changes"@,
        SettingsField::ClearPins => "Remove every pinned register"@,
        SettingsField::ClearLabels => "Remove every label"@,
        SettingsField::ClearCustom => "Remove every custom rule"@,
        SettingsField::CopyData => "Copy pins, labels and custom rules as JSON, paste into another MTUI to import"@,
        SettingsField::CopyConfig => "Copy the whole configuration as JSON, as Save would write it"@,
        SettingsField::Save => "Write the current settings to the configuration file"@,
        SettingsField::LoadConfig => "Path of a configuration file to load now"@,
        SettingsField::NextConfig => "Configuration file loaded by the cycle config key"@,
    }
}

pub open spec fn spec_kind(f: SettingsField) -> FieldKind {
    match f {
        SettingsField::BatchSize => FieldKind::Number,
        SettingsField::BatchAnchor => FieldKind::Toggle,
        SettingsField::ReadFullCustoms => FieldKind::Toggle,
        SettingsField::CustomBatchByRegisters => FieldKind::Toggle,
        SettingsField::RefreshInterval => FieldKind::Number,
        SettingsField::ReconnectOnTimeout => FieldKind::Toggle,
        SettingsField::ReadOnly => FieldKind::Toggle,
        SettingsField::WriteLogEnabled => FieldKind::Toggle,
        SettingsField::WriteLogDirectory => FieldKind::Text,
        SettingsField::GraphHistory => FieldKind::Number,
        SettingsField::MatrixColumns => FieldKind::Number,
        SettingsField::CycleHoldings => FieldKind::CycleType(RegisterType::Holding),
        SettingsField::CycleInputs => FieldKind::CycleType(RegisterType::Input),
        SettingsField::CycleCoils => FieldKind::CycleType(RegisterType::Coil),
        SettingsField::CycleDiscretes => FieldKind::CycleType(RegisterType::Discrete),
        SettingsField::ShowMockDevice => FieldKind::Toggle,
        SettingsField::SavePositionOnExit => FieldKind::Toggle,
        SettingsField::StartupPanel => FieldKind::Toggle,
        SettingsField::StartupType => FieldKind::Toggle,
        SettingsField::StartupAddress => FieldKind::Number,
        SettingsField::ApiEnabled => FieldKind::Toggle,
        SettingsField::ApiPort => FieldKind::Number,
        SettingsField::ApiUnitIdOverride => FieldKind::Toggle,
        SettingsField::ShowClock => FieldKind::Toggle,
        SettingsField::ShowFrameTime => FieldKind::Toggle,
        SettingsField::ShowRam => FieldKind::Toggle,
        SettingsField::ShowConnectionLabel => FieldKind::Toggle,
        SettingsField::ShowAsciiStrip => FieldKind::Toggle,
        SettingsField::ShowInactiveTabs => FieldKind::Toggle,
        SettingsField::FilterPanelsByType => FieldKind::Toggle,
        SettingsField::CyclePinned => FieldKind::CyclePanel(ReadPanel::Pinned),
        SettingsField::CycleLabeled => FieldKind::CyclePanel(ReadPanel::Labeled),
        SettingsField::CycleCustom => FieldKind::CyclePanel(ReadPanel::Custom),
        SettingsField::CycleMatrix => FieldKind::CyclePanel(ReadPanel::Matrix),
        SettingsField::TimeMode => FieldKind::Toggle,
        SettingsField::AddressMode => FieldKind::Toggle,
        SettingsField::LabelWidth => FieldKind::Number,
        SettingsField::CustomWidth => FieldKind::Number,
        SettingsField::ShowReadWindow => FieldKind::Toggle,
        SettingsField::ShowMatrixContext => FieldKind::Toggle,
        SettingsField::GraphTimeAxis => FieldKind::Toggle,
        SettingsField::ChangedExpiry => FieldKind::Number,
        SettingsField::ShowRuleContinuation => FieldKind::Toggle,
        SettingsField::PaddingHorizontal => FieldKind::Number,
        SettingsField::PaddingVertical => FieldKind::Number,
        SettingsField::ThemePreset => FieldKind::Toggle,
        SettingsField::ThemeBorder => FieldKind::Color,
        SettingsField::ThemeAccent => FieldKind::Color,
        SettingsField::ThemeText => FieldKind::Color,
        SettingsField::ThemeBackground => FieldKind::Color,
        SettingsField::ThemeDim => FieldKind::Color,
        SettingsField::ThemeChanged => FieldKind::Color,
        SettingsField::ThemeZebra => FieldKind::Color,
        SettingsField::ThemeOk => FieldKind::Color,
        SettingsField::ThemeWarning => FieldKind::Color,
        SettingsField::ThemeError => FieldKind::Color,
        SettingsField::ThemeSelectedText => FieldKind::Color,
        SettingsField::ThemeSelectedBackground => FieldKind::Color,
        SettingsField::Name => FieldKind::Text,
        SettingsField::SkipUnsavedWarning => FieldKind::Toggle,
        SettingsField::ClearPins => FieldKind::Action,
        SettingsField::ClearLabels => FieldKind::Action,
        SettingsField::ClearCustom => FieldKind::Action,
        SettingsField::CopyData => FieldKind::Action,
        SettingsField::CopyConfig => FieldKind::Action,
        SettingsField::Save => FieldKind::Action,
        SettingsField::LoadConfig => FieldKind::Text,
        SettingsField::NextConfig => FieldKind::Text,
    }
}

impl SettingsField {
    pub fn label(self) -> (r: &'static str)
        ensures
            r@ == spec_label(self),
    {
        match self {
            SettingsField::BatchSize => "Batch size",
            SettingsField::BatchAnchor => "Batch anchor",
            SettingsField::ReadFullCustoms => "Read full custom values",
            SettingsField::CustomBatchByRegisters => "Custom batch by registers",
            SettingsField::RefreshInterval => "Auto-refresh (ms)",
            SettingsField::ReconnectOnTimeout => "Reconnect on timeout",
            SettingsField::ReadOnly => "Read-only",
            SettingsField::WriteLogEnabled => "Log writes to file",
            SettingsField::WriteLogDirectory => "Write log folder",
            SettingsField::GraphHistory => "Graph history",
            SettingsField::MatrixColumns => "Matrix columns",
            SettingsField::CycleHoldings => "Cycle holdings",
            SettingsField::CycleInputs => "Cycle inputs",
            SettingsField::CycleCoils => "Cycle coils",
            SettingsField::CycleDiscretes => "Cycle discretes",
            SettingsField::ShowMockDevice => "Show mock device",
            SettingsField::SavePositionOnExit => "Save position on exit",
            SettingsField::StartupPanel => "Startup panel",
            SettingsField::StartupType => "Startup type",
            SettingsField::StartupAddress => "Startup address",
            SettingsField::ApiEnabled => "API server",
            SettingsField::ApiPort => "API port",
            SettingsField::ApiUnitIdOverride => "API unit id override",
            SettingsField::ShowClock => "Show clock",
            SettingsField::ShowFrameTime => "Show frame time",
            SettingsField::ShowRam => "Show RAM usage",
            SettingsField::ShowConnectionLabel => "Show connection label",
            SettingsField::ShowAsciiStrip => "Show ASCII strip",
            SettingsField::ShowInactiveTabs => "Show inactive tabs",
            SettingsField::FilterPanelsByType => "Filter panels by type",
            SettingsField::CyclePinned => "Cycle pinned",
            SettingsField::CycleLabeled => "Cycle labeled",
            SettingsField::CycleCustom => "Cycle custom",
            SettingsField::CycleMatrix => "Cycle matrix",
            SettingsField::TimeMode => "Time format",
            SettingsField::AddressMode => "Address format",
            SettingsField::LabelWidth => "Label width",
            SettingsField::CustomWidth => "Custom width",
            SettingsField::ShowReadWindow => "Show read window",
            SettingsField::ShowMatrixContext => "Show matrix context",
            SettingsField::GraphTimeAxis => "Graph time axis",
            SettingsField::ChangedExpiry => "Changed highlight (ms)",
            SettingsField::ShowRuleContinuation => "Show \"part of\" marker",
            SettingsField::PaddingHorizontal => "Horizontal padding",
            SettingsField::PaddingVertical => "Vertical padding",
            SettingsField::ThemePreset => "Preset",
            SettingsField::ThemeBorder => "Frame border",
            SettingsField::ThemeAccent => "Accent",
            SettingsField::ThemeText => "Text",
            SettingsField::ThemeBackground => "Background",
            SettingsField::ThemeDim => "Muted",
            SettingsField::ThemeChanged => "Changed value",
            SettingsField::ThemeZebra => "Zebra stripe",
            SettingsField::ThemeOk => "Success",
            SettingsField::ThemeWarning => "Warning",
            SettingsField::ThemeError => "Error",
            SettingsField::ThemeSelectedText => "Selected text",
            SettingsField::ThemeSelectedBackground => "Selected background",
            SettingsField::Name => "Config name",
            SettingsField::SkipUnsavedWarning => "Ignore unsaved warning",
            SettingsField::ClearPins => "Clear pinned registers",
            SettingsField::ClearLabels => "Clear labels",
            SettingsField::ClearCustom => "Clear custom rules",
            SettingsField::CopyData => "Copy registers",
            SettingsField::CopyConfig => "Copy configuration",
            SettingsField::Save => "Save configuration",
            SettingsField::LoadConfig => "Load configuration",
            SettingsField::NextConfig => "Next configuration",
        }
    }

    pub fn description(self) -> (r: &'static str)
        ensures
            r@ == spec_description(self),
    {
        match self {
            SettingsField::BatchSize => "How many registers each read request fetches around the cursor",
            SettingsField::BatchAnchor => "Where the cursor sits inside the read batch: start, middle or end",
            SettingsField::ReadFullCustoms => "Also read every register a custom rule spans, even outside the batch",
            SettingsField::CustomBatchByRegisters => "In the Custom panel, size the batch by registers instead of rules",
            SettingsField::RefreshInterval => "Delay between automatic reads, 0 turns auto-refresh off",
            SettingsField::ReconnectOnTimeout => "Reconnect to the device after a read times out",
            SettingsField::ReadOnly => "Refuse all writes from the UI and the API",
            SettingsField::WriteLogEnabled => "Append every write to a log file",
            SettingsField::WriteLogDirectory => "Folder for the write log, empty uses the config file's folder",
            SettingsField::GraphHistory => "Samples kept per register for the value graph",
            SettingsField::MatrixColumns => "Registers per row in the Matrix panel, auto fits as many as the screen shows",
            SettingsField::CycleHoldings => "Include holding registers when cycling register types",
            SettingsField::CycleInputs => "Include input registers when cycling register types",
            SettingsField::CycleCoils => "Include coils when cycling register types",
            SettingsField::CycleDiscretes => "Include discrete inputs when cycling register types",
            SettingsField::ShowMockDevice => "Offer the built-in mock device in the Device popup",
            SettingsField::SavePositionOnExit => "Store the cursor position as the startup position when quitting",
            SettingsField::StartupPanel => "Panel opened on start",
            SettingsField::StartupType => "Register type selected on start",
            SettingsField::StartupAddress => "Address the cursor starts on",
            SettingsField::ApiEnabled => "Serve the HTTP API while the app runs",
            SettingsField::ApiPort => "Port for the HTTP API, 0 picks any free port",
            SettingsField::ApiUnitIdOverride => "Let API requests target a unit id other than the configured one",
            SettingsField::ShowClock => "Show the current time in the bottom bar",
            SettingsField::ShowFrameTime => "Show how long each frame takes to render",
            SettingsField::ShowRam => "Show the memory used by the application",
            SettingsField::ShowConnectionLabel => "Show the connection state as a word next to the refresh countdown",
            SettingsField::ShowAsciiStrip => "Show the read registers decoded as an ASCII string",
            SettingsField::ShowInactiveTabs => "Show every panel and register type tab, not just the active one",
            SettingsField::FilterPanelsByType => "In Pinned, Labeled and Custom, list only the current register type",
            SettingsField::CyclePinned => "Include the Pinned panel when cycling panels",
            SettingsField::CycleLabeled => "Include the Labeled panel when cycling panels",
            SettingsField::CycleCustom => "Include the Custom panel when cycling panels",
            SettingsField::CycleMatrix => "Include the Matrix panel when cycling panels",
            SettingsField::TimeMode => "Show the read time as a timestamp or as how long ago it was",
            SettingsField::AddressMode => "Show addresses in decimal or hexadecimal",
            SettingsField::LabelWidth => "Characters the label column takes, auto fits the longest label",
            SettingsField::CustomWidth => "Characters the custom column takes, auto fits the longest value",
            SettingsField::ShowReadWindow => "Highlight the address range covered by the current read batch",
            SettingsField::ShowMatrixContext => "Show the custom value and label of the selected register under the Matrix panel",
            SettingsField::GraphTimeAxis => "Plot the graph against time instead of sample count",
            SettingsField::ChangedExpiry => "How long a changed value stays highlighted, 0 never clears it",
            SettingsField::ShowRuleContinuation => "Mark registers that belong to a multi-register custom rule",
            SettingsField::PaddingHorizontal => "Empty columns kept on both sides of the interface",
            SettingsField::PaddingVertical => "Empty rows kept above and below the interface",
            SettingsField::ThemePreset => "Switch between the built-in color schemes",
            SettingsField::ThemeBorder => "Color of the frame borders",
            SettingsField::ThemeAccent => "Color for titles, keys and highlights",
            SettingsField::ThemeText => "Main text color",
            SettingsField::ThemeBackground => "Background color",
            SettingsField::ThemeDim => "Color for secondary and muted text",
            SettingsField::ThemeChanged => "Color for values that changed recently",
            SettingsField::ThemeZebra => "Background of alternating table rows",
            SettingsField::ThemeOk => "Color for success and connected states",
            SettingsField::ThemeWarning => "Color for warnings",
            SettingsField::ThemeError => "Color for errors",
            SettingsField::ThemeSelectedText => "Text color of the selected row",
            SettingsField::ThemeSelectedBackground => "Background color of the selected row",
            SettingsField::Name => "Name shown in the title bar for this configuration",
            SettingsField::SkipUnsavedWarning => "Quit or switch configuration without asking about unsaved changes",
            SettingsField::ClearPins => "Remove every pinned register",
            SettingsField::ClearLabels => "Remove every label",
            SettingsField::ClearCustom => "Remove every custom rule",
            SettingsField::CopyData => "Copy pins, labels and custom rules as JSON, paste into another MTUI to import",
            SettingsField::CopyConfig => "Copy the whole configuration as JSON, as Save would write it",
            SettingsField::Save => "Write the current settings to the configuration file",
            SettingsField::LoadConfig => "Path of a configuration file to load now",
            SettingsField::NextConfig => "Configuration file loaded by the cycle config key",
        }
    }

    pub fn kind(self) -> (r: FieldKind)
        ensures
            r == spec_kind(self),
    {
        match self {
            SettingsField::BatchSize => FieldKind::Number,
            SettingsField::BatchAnchor => FieldKind::Toggle,
            SettingsField::ReadFullCustoms => FieldKind::Toggle,
            SettingsField::CustomBatchByRegisters => FieldKind::Toggle,
            SettingsField::RefreshInterval => FieldKind::Number,
            SettingsField::ReconnectOnTimeout => FieldKind::Toggle,
            SettingsField::ReadOnly => FieldKind::Toggle,
            SettingsField::WriteLogEnabled => FieldKind::Toggle,
            SettingsField::WriteLogDirectory => FieldKind::Text,
            SettingsField::GraphHistory => FieldKind::Number,
            SettingsField::MatrixColumns => FieldKind::Number,
            SettingsField::CycleHoldings => FieldKind::CycleType(RegisterType::Holding),
            SettingsField::CycleInputs => FieldKind::CycleType(RegisterType::Input),
            SettingsField::CycleCoils => FieldKind::CycleType(RegisterType::Coil),
            SettingsField::CycleDiscretes => FieldKind::CycleType(RegisterType::Discrete),
            SettingsField::ShowMockDevice => FieldKind::Toggle,
            SettingsField::SavePositionOnExit => FieldKind::Toggle,
            SettingsField::StartupPanel => FieldKind::Toggle,
            SettingsField::StartupType => FieldKind::Toggle,
            SettingsField::StartupAddress => FieldKind::Number,
            SettingsField::ApiEnabled => FieldKind::Toggle,
            SettingsField::ApiPort => FieldKind::Number,
            SettingsField::ApiUnitIdOverride => FieldKind::Toggle,
            SettingsField::ShowClock => FieldKind::Toggle,
            SettingsField::ShowFrameTime => FieldKind::Toggle,
            SettingsField::ShowRam => FieldKind::Toggle,
            SettingsField::ShowConnectionLabel => FieldKind::Toggle,
            SettingsField::ShowAsciiStrip => FieldKind::Toggle,
            SettingsField::ShowInactiveTabs => FieldKind::Toggle,
            SettingsField::FilterPanelsByType => FieldKind::Toggle,
            SettingsField::CyclePinned => FieldKind::CyclePanel(ReadPanel::Pinned),
            SettingsField::CycleLabeled => FieldKind::CyclePanel(ReadPanel::Labeled),
            SettingsField::CycleCustom => FieldKind::CyclePanel(ReadPanel::Custom),
            SettingsField::CycleMatrix => FieldKind::CyclePanel(ReadPanel::Matrix),
            SettingsField::TimeMode => FieldKind::Toggle,
            SettingsField::AddressMode => FieldKind::Toggle,
            SettingsField::LabelWidth => FieldKind::Number,
            SettingsField::CustomWidth => FieldKind::Number,
            SettingsField::ShowReadWindow => FieldKind::Toggle,
            SettingsField::ShowMatrixContext => FieldKind::Toggle,
            SettingsField::GraphTimeAxis => FieldKind::Toggle,
            SettingsField::ChangedExpiry => FieldKind::Number,
            SettingsField::ShowRuleContinuation => FieldKind::Toggle,
            SettingsField::PaddingHorizontal => FieldKind::Number,
            SettingsField::PaddingVertical => FieldKind::Number,
            SettingsField::ThemePreset => FieldKind::Toggle,
            SettingsField::ThemeBorder => FieldKind::Color,
            SettingsField::ThemeAccent => FieldKind::Color,
            SettingsField::ThemeText => FieldKind::Color,
            SettingsField::ThemeBackground => FieldKind::Color,
            SettingsField::ThemeDim => FieldKind::Color,
            SettingsField::ThemeChanged => FieldKind::Color,
            SettingsField::ThemeZebra => FieldKind::Color,
            SettingsField::ThemeOk => FieldKind::Color,
            SettingsField::ThemeWarning => FieldKind::Color,
            SettingsField::ThemeError => FieldKind::Color,
            SettingsField::ThemeSelectedText => FieldKind::Color,
            SettingsField::ThemeSelectedBackground => FieldKind::Color,
            SettingsField::Name => FieldKind::Text,
            SettingsField::SkipUnsavedWarning => FieldKind::Toggle,
            SettingsField::ClearPins => FieldKind::Action,
            SettingsField::ClearLabels => FieldKind::Action,
            SettingsField::ClearCustom => FieldKind::Action,
            SettingsField::CopyData => FieldKind::Action,
            SettingsField::CopyConfig => FieldKind::Action,
            SettingsField::Save => FieldKind::Action,
            SettingsField::LoadConfig => FieldKind::Text,
            SettingsField::NextConfig => FieldKind::Text,
        }
    }
}

/// The categories of the settings screen, in order.
#[derive(Debug, Clone, Copy, PartialEq, Eq, Structural)]
pub enum SettingsCategory {
    Data,
    Api,
    Display,
    Theme,
    Keybinds,
    Config,
    Search,
}

/// The groups of fields a category shows, in order.
pub open spec fn spec_groups(c: SettingsCategory) -> Seq<Seq<SettingsField>> {
    match c {
        SettingsCategory::Data => seq![seq![SettingsField::BatchSize, SettingsField::BatchAnchor, SettingsField::ReadFullCustoms, SettingsField::CustomBatchByRegisters], seq![SettingsField::RefreshInterval, SettingsField::ReconnectOnTimeout, SettingsField::ReadOnly, SettingsField::WriteLogEnabled, SettingsField::WriteLogDirectory], seq![SettingsField::GraphHistory, SettingsField::MatrixColumns], seq![SettingsField::CycleHoldings, SettingsField::CycleInputs, SettingsField::CycleCoils, SettingsField::CycleDiscretes], seq![SettingsField::ShowMockDevice, SettingsField::SavePositionOnExit, SettingsField::StartupPanel, SettingsField::StartupType, SettingsField::StartupAddress]],
        SettingsCategory::Api => seq![seq![SettingsField::ApiEnabled, SettingsField::ApiPort, SettingsField::ApiUnitIdOverride]],
        SettingsCategory::Display => seq![seq![SettingsField::ShowClock, SettingsField::ShowFrameTime, SettingsField::ShowRam, SettingsField::ShowConnectionLabel, SettingsField::ShowAsciiStrip, SettingsField::ShowInactiveTabs, SettingsField::FilterPanelsByType], seq![SettingsField::CyclePinned, SettingsField::CycleLabeled, SettingsField::CycleCustom, SettingsField::CycleMatrix], seq![SettingsField::TimeMode, SettingsField::AddressMode, SettingsField::LabelWidth, SettingsField::CustomWidth], seq![SettingsField::ShowReadWindow, SettingsField::ShowMatrixContext, SettingsField::GraphTimeAxis, SettingsField::ChangedExpiry, SettingsField::ShowRuleContinuation], seq![SettingsField::PaddingHorizontal, SettingsField::PaddingVertical]],
        SettingsCategory::Theme => seq![seq![SettingsField::ThemePreset], seq![SettingsField::ThemeBorder, SettingsField::ThemeAccent, SettingsField::ThemeText, SettingsField::ThemeBackground, SettingsField::ThemeDim, SettingsField::ThemeChanged, SettingsField::ThemeZebra, SettingsField::ThemeOk, SettingsField::ThemeWarning, SettingsField::ThemeError, SettingsField::ThemeSelectedText, SettingsField::ThemeSelectedBackground]],
        SettingsCategory::Keybinds => seq![],
        SettingsCategory::Config => seq![seq![SettingsField::Name, SettingsField::SkipUnsavedWarning], seq![SettingsField::ClearPins, SettingsField::ClearLabels, SettingsField::ClearCustom, SettingsField::CopyData], seq![SettingsField::CopyConfig, SettingsField::Save, SettingsField::LoadConfig, SettingsField::NextConfig]],
        SettingsCategory::Search => seq![],
    }
}

/// The fields of a category, group after group.
pub open spec fn spec_fields(c: SettingsCategory) -> Seq<SettingsField> {
    match c {
        SettingsCategory::Data => seq![SettingsField::BatchSize, SettingsField::BatchAnchor, SettingsField::ReadFullCustoms, SettingsField::CustomBatchByRegisters, SettingsField::RefreshInterval, SettingsField::ReconnectOnTimeout, SettingsField::ReadOnly, SettingsField::WriteLogEnabled, SettingsField::WriteLogDirectory, SettingsField::GraphHistory, SettingsField::MatrixColumns, SettingsField::CycleHoldings, SettingsField::CycleInputs, SettingsField::CycleCoils, SettingsField::CycleDiscretes, SettingsField::ShowMockDevice, SettingsField::SavePositionOnExit, SettingsField::StartupPanel, SettingsField::StartupType, SettingsField::StartupAddress],
        SettingsCategory::Api => seq![SettingsField::ApiEnabled, SettingsField::ApiPort, SettingsField::ApiUnitIdOverride],
        SettingsCategory::Display => seq![SettingsField::ShowClock, SettingsField::ShowFrameTime, SettingsField::ShowRam, SettingsField::ShowConnectionLabel, SettingsField::ShowAsciiStrip, SettingsField::ShowInactiveTabs, SettingsField::FilterPanelsByType, SettingsField::CyclePinned, SettingsField::CycleLabeled, SettingsField::CycleCustom, SettingsField::CycleMatrix, SettingsField::TimeMode, SettingsField::AddressMode, SettingsField::LabelWidth, SettingsField::CustomWidth, SettingsField::ShowReadWindow, SettingsField::ShowMatrixContext, SettingsField::GraphTimeAxis, SettingsField::ChangedExpiry, SettingsField::ShowRuleContinuation, SettingsField::PaddingHorizontal, SettingsField::PaddingVertical],
        SettingsCategory::Theme => seq![SettingsField::ThemePreset, SettingsField::ThemeBorder, SettingsField::ThemeAccent, SettingsField::ThemeText, SettingsField::ThemeBackground, SettingsField::ThemeDim, SettingsField::ThemeChanged, SettingsField::ThemeZebra, SettingsField::ThemeOk, SettingsField::ThemeWarning, SettingsField::ThemeError, SettingsField::ThemeSelectedText, SettingsField::ThemeSelectedBackground],
        SettingsCategory::Keybinds => seq![],
        SettingsCategory::Config => seq![SettingsField::Name, SettingsField::SkipUnsavedWarning, SettingsField::ClearPins, SettingsField::ClearLabels, SettingsField::ClearCustom, SettingsField::CopyData, SettingsField::CopyConfig, SettingsField::Save, SettingsField::LoadConfig, SettingsField::NextConfig],
        SettingsCategory::Search => seq![],
    }
}

impl SettingsField {
    /// Whether every word of `query` occurs, ignoring case, in the field's
    /// label or in its description.
    pub fn matches(self, query: &str) -> (r: bool)
        ensures
            r == spec_matches(self, query@),
    {
        let label_lower = to_lowercase(self.label());
        let description_lower = to_lowercase(self.description());
        let label = chars_of(label_lower.as_str());
        let description = chars_of(description_lower.as_str());
        let q = chars_of(query);
        let words = split_whitespace(q.as_slice());
        let n = words.len();
        let mut k: usize = 0;
        while k < n
            invariant
                k <= n,
                n == words@.len(),
                n == text::split_ws(query@).len(),
                q@ == query@,
                forall|j: int| 0 <= j < words@.len() ==> #[trigger] words@[j]@ == text::split_ws(q@)[j],
                label@ == text::lowercase(spec_label(self)),
                description@ == text::lowercase(spec_description(self)),
                forall|j: int| 0 <= j < k ==> word_matches(self, #[trigger] text::split_ws(query@)[j]),
            decreases n - k,
        {
            let w = &words[k];
            let word = crate::text::string_of(w.as_slice(), 0, w.len());
            assert(w@.subrange(0, w@.len() as int) =~= w@);
            let word_lower = to_lowercase(word.as_str());
            let wl = chars_of(word_lower.as_str());
            if !crate::text::contains_chars(label.as_slice(), wl.as_slice())
                && !crate::text::contains_chars(description.as_slice(), wl.as_slice()) {
                assert(!word_matches(self, text::split_ws(query@)[k as int]));
                return false;
            }
            k += 1;
        }
        true
    }

    pub fn is_text_input(self) -> (r: bool)
        ensures
            r == (spec_kind(self) == FieldKind::Text),
    {
        matches!(self.kind(), FieldKind::Text)
    }

    /// Whether Enter flips or steps the field.
    pub fn is_toggle(self) -> (r: bool)
        ensures
            r == (spec_kind(self) == FieldKind::Toggle || spec_kind(self) is CycleType || spec_kind(
                self,
            ) is CyclePanel),
    {
        matches!(self.kind(), FieldKind::Toggle | FieldKind::CycleType(_) | FieldKind::CyclePanel(_))
    }

    /// The three fields that set the startup position.
    pub fn is_startup(self) -> (r: bool)
        ensures
            r == (self == SettingsField::StartupPanel || self == SettingsField::StartupType || self
                == SettingsField::StartupAddress),
    {
        matches!(self, SettingsField::StartupPanel | SettingsField::StartupType | SettingsField::StartupAddress)
    }

    /// The register type a cycle field includes or leaves out.
    pub fn cycle_register_type(self) -> (r: Option<RegisterType>)
        ensures
            r == (match spec_kind(self) {
                FieldKind::CycleType(t) => Some(t),
                _ => None,
            }),
    {
        match self.kind() {
            FieldKind::CycleType(t) => Some(t),
            _ => None,
        }
    }

    /// The panel a cycle field includes or leaves out.
    pub fn cycle_panel(self) -> (r: Option<ReadPanel>)
        ensures
            r == (match spec_kind(self) {
                FieldKind::CyclePanel(p) => Some(p),
                _ => None,
            }),
    {
        match self.kind() {
            FieldKind::CyclePanel(p) => Some(p),
            _ => None,
        }
    }

    pub fn is_theme_color(self) -> (r: bool)
        ensures
            r == (spec_kind(self) == FieldKind::Color),
    {
        matches!(self.kind(), FieldKind::Color)
    }

    pub fn is_action(self) -> (r: bool)
        ensures
            r == (spec_kind(self) == FieldKind::Action),
    {
        matches!(self.kind(), FieldKind::Action)
    }
}

/// `word`, lowercased, occurs in the lowercased label or description.
pub open spec fn word_matches(f: SettingsField, word: Seq<char>) -> bool {
    text::contains_seq(text::lowercase(spec_label(f)), text::lowercase(word))
        || text::contains_seq(text::lowercase(spec_description(f)), text::lowercase(word))
}

/// Every whitespace-separated word of `query` matches the field.
pub open spec fn spec_matches(f: SettingsField, query: Seq<char>) -> bool {
    forall|k: int| 0 <= k < text::split_ws(query).len() ==> word_matches(f, #[trigger] text::split_ws(query)[k])
}

/// The fields of `fs` that match `query`, in order.
pub open spec fn spec_matching(fs: Seq<SettingsField>, query: Seq<char>) -> Seq<SettingsField>
    decreases fs.len(),
{
    if fs.len() == 0 {
        Seq::empty()
    } else {
        let r = spec_matching(fs.drop_last(), query);
        if spec_matches(fs.last(), query) {
            r.push(fs.last())
        } else {
            r
        }
    }
}

pub open spec fn spec_all_categories() -> Seq<SettingsCategory> {
    seq![SettingsCategory::Data, SettingsCategory::Api, SettingsCategory::Display, SettingsCategory::Theme, SettingsCategory::Keybinds, SettingsCategory::Config, SettingsCategory::Search]
}

pub open spec fn spec_searchable(c: SettingsCategory) -> bool {
    !(c == SettingsCategory::Keybinds || c == SettingsCategory::Theme || c == SettingsCategory::Search)
}

/// The categories from the `i`-th on that are searchable and have fields
/// matching `query`, with those fields.
pub open spec fn spec_search_from(query: Seq<char>, i: int) -> Seq<(SettingsCategory, Seq<SettingsField>)>
    decreases 7 - i,
{
    if i >= 7 || i < 0 {
        Seq::empty()
    } else {
        let c = spec_all_categories()[i];
        let m = spec_matching(spec_fields(c), query);
        let rest = spec_search_from(query, i + 1);
        if spec_searchable(c) && m.len() > 0 {
            seq![(c, m)] + rest
        } else {
            rest
        }
    }
}

/// Search results: nothing for a blank query, else every searchable
/// category with matching fields, in category order.
pub open spec fn spec_search(query: Seq<char>) -> Seq<(SettingsCategory, Seq<SettingsField>)> {
    if text::trim(query).len() == 0 {
        Seq::empty()
    } else {
        spec_search_from(query, 0)
    }
}

impl SettingsCategory {
    pub const ALL: [SettingsCategory; 7] = [SettingsCategory::Data, SettingsCategory::Api, SettingsCategory::Display, SettingsCategory::Theme, SettingsCategory::Keybinds, SettingsCategory::Config, SettingsCategory::Search];

    pub fn label(self) -> (r: &'static str)
        ensures
            r@ == (match self {
                SettingsCategory::Data => "Data"@,
                SettingsCategory::Api => "API"@,
                SettingsCategory::Display => "Display"@,
                SettingsCategory::Theme => "Theme"@,
                SettingsCategory::Keybinds => "Keybinds"@,
                SettingsCategory::Config => "Config"@,
                SettingsCategory::Search => "Search"@,
            }),
    {
        match self {
            SettingsCategory::Data => "Data",
            SettingsCategory::Api => "API",
            SettingsCategory::Display => "Display",
            SettingsCategory::Theme => "Theme",
            SettingsCategory::Keybinds => "Keybinds",
            SettingsCategory::Config => "Config",
            SettingsCategory::Search => "Search",
        }
    }

    /// The groups of fields the category shows, in order.
    pub fn groups(self) -> (r: Vec<Vec<SettingsField>>)
        ensures
            r@.len() == spec_groups(self).len(),
            forall|i: int| 0 <= i < r@.len() ==> #[trigger] r@[i]@ == spec_groups(self)[i],
    {
        let mut groups: Vec<Vec<SettingsField>> = Vec::new();
        match self {
            SettingsCategory::Data => {
                groups.push(vec![SettingsField::BatchSize, SettingsField::BatchAnchor, SettingsField::ReadFullCustoms, SettingsField::CustomBatchByRegisters]);
                groups.push(vec![SettingsField::RefreshInterval, SettingsField::ReconnectOnTimeout, SettingsField::ReadOnly, SettingsField::WriteLogEnabled, SettingsField::WriteLogDirectory]);
                groups.push(vec![SettingsField::GraphHistory, SettingsField::MatrixColumns]);
                groups.push(vec![SettingsField::CycleHoldings, SettingsField::CycleInputs, SettingsField::CycleCoils, SettingsField::CycleDiscretes]);
                groups.push(vec![SettingsField::ShowMockDevice, SettingsField::SavePositionOnExit, SettingsField::StartupPanel, SettingsField::StartupType, SettingsField::StartupAddress]);
            },
            SettingsCategory::Api => {
                groups.push(vec![SettingsField::ApiEnabled, SettingsField::ApiPort, SettingsField::ApiUnitIdOverride]);
            },
            SettingsCategory::Display => {
                groups.push(vec![SettingsField::ShowClock, SettingsField::ShowFrameTime, SettingsField::ShowRam, SettingsField::ShowConnectionLabel, SettingsField::ShowAsciiStrip, SettingsField::ShowInactiveTabs, SettingsField::FilterPanelsByType]);
                groups.push(vec![SettingsField::CyclePinned, SettingsField::CycleLabeled, SettingsField::CycleCustom, SettingsField::CycleMatrix]);
                groups.push(vec![SettingsField::TimeMode, SettingsField::AddressMode, SettingsField::LabelWidth, SettingsField::CustomWidth]);
                groups.push(vec![SettingsField::ShowReadWindow, SettingsField::ShowMatrixContext, SettingsField::GraphTimeAxis, SettingsField::ChangedExpiry, SettingsField::ShowRuleContinuation]);
                groups.push(vec![SettingsField::PaddingHorizontal, SettingsField::PaddingVertical]);
            },
            SettingsCategory::Theme => {
                groups.push(vec![SettingsField::ThemePreset]);
                groups.push(vec![SettingsField::ThemeBorder, SettingsField::ThemeAccent, SettingsField::ThemeText, SettingsField::ThemeBackground, SettingsField::ThemeDim, SettingsField::ThemeChanged, SettingsField::ThemeZebra, SettingsField::ThemeOk, SettingsField::ThemeWarning, SettingsField::ThemeError, SettingsField::ThemeSelectedText, SettingsField::ThemeSelectedBackground]);
            },
            SettingsCategory::Keybinds => {
            },
            SettingsCategory::Config => {
                groups.push(vec![SettingsField::Name, SettingsField::SkipUnsavedWarning]);
                groups.push(vec![SettingsField::ClearPins, SettingsField::ClearLabels, SettingsField::ClearCustom, SettingsField::CopyData]);
                groups.push(vec![SettingsField::CopyConfig, SettingsField::Save, SettingsField::LoadConfig, SettingsField::NextConfig]);
            },
            SettingsCategory::Search => {
            },
        }
        proof {
            assert(groups@.len() == spec_groups(self).len());
        }
        groups
    }

    /// The fields of the category, group after group.
    pub fn fields(self) -> (r: Vec<SettingsField>)
        ensures
            r@ == spec_fields(self),
    {
        let v = match self {
            SettingsCategory::Data => vec![SettingsField::BatchSize, SettingsField::BatchAnchor, SettingsField::ReadFullCustoms, SettingsField::CustomBatchByRegisters, SettingsField::RefreshInterval, SettingsField::ReconnectOnTimeout, SettingsField::ReadOnly, SettingsField::WriteLogEnabled, SettingsField::WriteLogDirectory, SettingsField::GraphHistory, SettingsField::MatrixColumns, SettingsField::CycleHoldings, SettingsField::CycleInputs, SettingsField::CycleCoils, SettingsField::CycleDiscretes, SettingsField::ShowMockDevice, SettingsField::SavePositionOnExit, SettingsField::StartupPanel, SettingsField::StartupType, SettingsField::StartupAddress],
            SettingsCategory::Api => vec![SettingsField::ApiEnabled, SettingsField::ApiPort, SettingsField::ApiUnitIdOverride],
            SettingsCategory::Display => vec![SettingsField::ShowClock, SettingsField::ShowFrameTime, SettingsField::ShowRam, SettingsField::ShowConnectionLabel, SettingsField::ShowAsciiStrip, SettingsField::ShowInactiveTabs, SettingsField::FilterPanelsByType, SettingsField::CyclePinned, SettingsField::CycleLabeled, SettingsField::CycleCustom, SettingsField::CycleMatrix, SettingsField::TimeMode, SettingsField::AddressMode, SettingsField::LabelWidth, SettingsField::CustomWidth, SettingsField::ShowReadWindow, SettingsField::ShowMatrixContext, SettingsField::GraphTimeAxis, SettingsField::ChangedExpiry, SettingsField::ShowRuleContinuation, SettingsField::PaddingHorizontal, SettingsField::PaddingVertical],
            SettingsCategory::Theme => vec![SettingsField::ThemePreset, SettingsField::ThemeBorder, SettingsField::ThemeAccent, SettingsField::ThemeText, SettingsField::ThemeBackground, SettingsField::ThemeDim, SettingsField::ThemeChanged, SettingsField::ThemeZebra, SettingsField::ThemeOk, SettingsField::ThemeWarning, SettingsField::ThemeError, SettingsField::ThemeSelectedText, SettingsField::ThemeSelectedBackground],
            SettingsCategory::Keybinds => vec![],
            SettingsCategory::Config => vec![SettingsField::Name, SettingsField::SkipUnsavedWarning, SettingsField::ClearPins, SettingsField::ClearLabels, SettingsField::ClearCustom, SettingsField::CopyData, SettingsField::CopyConfig, SettingsField::Save, SettingsField::LoadConfig, SettingsField::NextConfig],
            SettingsCategory::Search => vec![],
        };
        assert(v@ =~= spec_fields(self));
        v
    }

    pub fn is_keybinds(self) -> (r: bool)
        ensures
            r == (self == SettingsCategory::Keybinds),
    {
        matches!(self, SettingsCategory::Keybinds)
    }

    pub fn is_search(self) -> (r: bool)
        ensures
            r == (self == SettingsCategory::Search),
    {
        matches!(self, SettingsCategory::Search)
    }

    /// Whether the search looks into the category.
    pub fn is_searchable(self) -> (r: bool)
        ensures
            r == spec_searchable(self),
    {
        !matches!(self, SettingsCategory::Keybinds | SettingsCategory::Theme | SettingsCategory::Search)
    }

    fn matching_fields(self, query: &str) -> (r: Vec<SettingsField>)
        ensures
            r@ == spec_matching(spec_fields(self), query@),
    {
        let fields = self.fields();
        let n = fields.len();
        let mut v: Vec<SettingsField> = Vec::new();
        let mut i: usize = 0;
        while i < n
            invariant
                i <= n,
                n == fields@.len(),
                fields@ == spec_fields(self),
                v@ == spec_matching(fields@.take(i as int), query@),
            decreases n - i,
        {
            let f = fields[i];
            assert(fields@.take(i + 1).drop_last() =~= fields@.take(i as int));
            if f.matches(query) {
                v.push(f);
            }
            i += 1;
        }
        assert(fields@.take(n as int) =~= fields@);
        v
    }

    /// The settings fields matching `query`, grouped by category.
    pub fn search(query: &str) -> (r: Vec<(Option<SettingsCategory>, Vec<SettingsField>)>)
        ensures
            r@.len() == spec_search(query@).len(),
            forall|k: int|
                0 <= k < r@.len() ==> (#[trigger] r@[k]).0 == Some(spec_search(query@)[k].0) && r@[k].1@
                    == spec_search(query@)[k].1,
    {
        let mut out: Vec<(Option<SettingsCategory>, Vec<SettingsField>)> = Vec::new();
        if crate::text::is_blank(query) {
            return out;
        }
        let all = Self::ALL;
        assert(all@ =~= spec_all_categories());
        let ghost done: Seq<(SettingsCategory, Seq<SettingsField>)> = Seq::empty();
        let mut i: usize = 0;
        while i < 7
            invariant
                i <= 7,
                all@ == spec_all_categories(),
                out@.len() == done.len(),
                forall|k: int|
                    0 <= k < out@.len() ==> (#[trigger] out@[k]).0 == Some(done[k].0) && out@[k].1@
                        == done[k].1,
                spec_search_from(query@, 0) == done + spec_search_from(query@, i as int),
            decreases 7 - i,
        {
            let c = all[i];
            if c.is_searchable() {
                let m = c.matching_fields(query);
                if m.len() > 0 {
                    proof {
                        done = done.push((c, m@));
                    }
                    out.push((Some(c), m));
                }
            }
            i += 1;
            proof {
                assert(spec_search_from(query@, 0) =~= done + spec_search_from(query@, i as int));
            }
        }
        proof {
            assert(done + spec_search_from(query@, 7) =~= done);
        }
        out
    }
}

/// Each category's field list is its groups one after another.
pub proof fn lemma_fields_are_groups(c: SettingsCategory)
    ensures
        spec_fields(c) == spec_groups(c).fold_left(Seq::<SettingsField>::empty(), |acc: Seq<SettingsField>, g: Seq<SettingsField>| acc + g),
{
    reveal_with_fuel(Seq::fold_left, 8);
    match c {
        SettingsCategory::Data => { assert(spec_fields(c) =~= spec_groups(c).fold_left(Seq::<SettingsField>::empty(), |acc: Seq<SettingsField>, g: Seq<SettingsField>| acc + g)); },
        SettingsCategory::Api => { assert(spec_fields(c) =~= spec_groups(c).fold_left(Seq::<SettingsField>::empty(), |acc: Seq<SettingsField>, g: Seq<SettingsField>| acc + g)); },
        SettingsCategory::Display => { assert(spec_fields(c) =~= spec_groups(c).fold_left(Seq::<SettingsField>::empty(), |acc: Seq<SettingsField>, g: Seq<SettingsField>| acc + g)); },
        SettingsCategory::Theme => { assert(spec_fields(c) =~= spec_groups(c).fold_left(Seq::<SettingsField>::empty(), |acc: Seq<SettingsField>, g: Seq<SettingsField>| acc + g)); },
        SettingsCategory::Keybinds => { assert(spec_fields(c) =~= spec_groups(c).fold_left(Seq::<SettingsField>::empty(), |acc: Seq<SettingsField>, g: Seq<SettingsField>| acc + g)); },
        SettingsCategory::Config => { assert(spec_fields(c) =~= spec_groups(c).fold_left(Seq::<SettingsField>::empty(), |acc: Seq<SettingsField>, g: Seq<SettingsField>| acc + g)); },
        SettingsCategory::Search => { assert(spec_fields(c) =~= spec_groups(c).fold_left(Seq::<SettingsField>::empty(), |acc: Seq<SettingsField>, g: Seq<SettingsField>| acc + g)); },
    }
}

/// Where the keyboard focus is on the settings screen.
#[derive(Debug, Clone, Copy, PartialEq, Eq, Structural)]
pub enum SettingsFocus {
    Categories,
    Fields,
}

impl Default for SettingsFocus {
    fn default() -> (r: Self)
        ensures
            r == SettingsFocus::Categories,
    {
        SettingsFocus::Categories
    }
}

} // verus!
