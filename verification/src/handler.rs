//! What a key does in a popup. Esc closes, Enter confirms, Up and Down
//! move; the other keys come from the key bindings. The functions here
//! either edit the popup's own state or name the action that the program
//! then performs.
use vstd::prelude::*;
use crate::config::{spec_all_actions, spec_get, KeybindAction, Keybinds};
use crate::input::KeyCode;
use crate::num_ops::{digit_add, digit_remove, wrapped_index, cycled};
use crate::state::{
    cycle_field, interface_choices, spec_next_baud, CustomField, DiscoveryColumn, DiscoveryField, DiscoveryParams,
    LogsParams, PopupKind, ReadPanel, ReadParams, SweepField, UnitField, WriteParams, spec_window_start,
};
use crate::app::write::{clamped, value_bounds};
use crate::modbus::{DataBits, Parity, StopBits, WordOrder};
use crate::text::{pop_char, push_char};

verus! {

/// Whether `c` is an ASCII digit.
pub open spec fn is_digit(c: char) -> bool {
    '0' <= c <= '9'
}

/// Whether `c` is a control character (general category Cc).
pub open spec fn is_control(c: char) -> bool {
    (c as u32) < 0x20 || (0x7f <= (c as u32) && (c as u32) <= 0x9f)
}

fn control_char(c: char) -> (r: bool)
    ensures
        r == is_control(c),
{
    let n = c as u32;
    n < 0x20 || (0x7f <= n && n <= 0x9f)
}

/// The value after typing digit `d` into `v`: `v * 10 + d`, or `v` where
/// that passes `max`.
pub open spec fn typed(v: nat, d: nat, max: nat) -> nat {
    if v * 10 + d <= max {
        v * 10 + d
    } else {
        v
    }
}

/// What a key in the device popup asks the program to do.
#[derive(Debug, Clone, Copy, PartialEq, Eq, Structural)]
pub enum DiscoveryKeyAction {
    /// The popup handled the key itself, or ignores it.
    Nothing,
    Close,
    ScanNetwork,
    ChoosePort(usize),
    UseFound(usize),
    Connect,
}

/// Whether `code` switches the popup's column.
pub open spec fn is_switch(kb: Keybinds, code: KeyCode) -> bool {
    code == kb.panel || code == KeyCode::BackTab
}

/// The action of `code` on the field `field`: Esc closes; Enter scans,
/// picks the port or the found host, or connects.
pub open spec fn spec_discovery_action(field: DiscoveryField, code: KeyCode) -> DiscoveryKeyAction {
    if code == KeyCode::Esc {
        DiscoveryKeyAction::Close
    } else if code == KeyCode::Enter {
        match field {
            DiscoveryField::ScanNetwork => DiscoveryKeyAction::ScanNetwork,
            DiscoveryField::Port(i) => DiscoveryKeyAction::ChoosePort(i),
            DiscoveryField::Found(i) => DiscoveryKeyAction::UseFound(i),
            _ => DiscoveryKeyAction::Connect,
        }
    } else {
        DiscoveryKeyAction::Nothing
    }
}

/// Up or Down moves the cursor one row within its column, wrapping.
pub open spec fn moved_post(o: DiscoveryParams, f: DiscoveryParams, down: bool) -> bool {
    &&& o.column == DiscoveryColumn::Common ==> f.selected == wrapped_index(o.selected as int, 7, down)
        && f.side_selected == o.side_selected
    &&& o.column == DiscoveryColumn::Side ==> f.side_selected == wrapped_index(
        o.side_selected as int,
        (o.side().len() as u16) as int,
        down,
    ) && f.selected == o.selected
    &&& f == DiscoveryParams { selected: f.selected, side_selected: f.side_selected, ..o }
}

/// The switch keys move to the other column; the side column only where
/// it has fields, its cursor kept on one of them.
pub open spec fn switched_post(o: DiscoveryParams, f: DiscoveryParams) -> bool {
    &&& (o.column == DiscoveryColumn::Common && (o.side().len() as u16) > 0) ==> f.column == DiscoveryColumn::Side
    &&& !(o.column == DiscoveryColumn::Common && o.side().len() > 0) ==> f.column == DiscoveryColumn::Common
    &&& (o.side().len() as u16) > 0 ==> f.side_selected == vstd::math::min(
        o.side_selected as int,
        (o.side().len() as u16) - 1,
    )
    &&& f == DiscoveryParams { column: f.column, side_selected: f.side_selected, ..o }
}

/// Left or Right steps the choice of a cycling field; other fields stay.
pub open spec fn cycled_post(o: DiscoveryParams, f: DiscoveryParams, field: DiscoveryField, forward: bool, show_mock: bool) -> bool {
    match field {
        DiscoveryField::Interface => {
            &&& f == DiscoveryParams {
                interface: cycled(interface_choices(show_mock), o.interface, forward),
                column: f.column,
                side_selected: 0,
                ..o
            }
            &&& (f.side().len() as u16) == 0 ==> f.column == DiscoveryColumn::Common
            &&& (f.side().len() as u16) > 0 ==> f.column == o.column
        },
        DiscoveryField::Baud => f == DiscoveryParams { baud_rate: spec_next_baud(o.baud_rate, forward), ..o },
        DiscoveryField::DataBits => f == DiscoveryParams {
            data_bits: cycled(seq![DataBits::Five, DataBits::Six, DataBits::Seven, DataBits::Eight], o.data_bits, forward),
            ..o
        },
        DiscoveryField::Parity => f == DiscoveryParams {
            parity: cycled(seq![Parity::NoParity, Parity::Odd, Parity::Even], o.parity, forward),
            ..o
        },
        DiscoveryField::StopBits => f == DiscoveryParams {
            stop_bits: cycled(seq![StopBits::One, StopBits::Two], o.stop_bits, forward),
            ..o
        },
        DiscoveryField::WordOrder => f == DiscoveryParams {
            word_order: cycled(seq![WordOrder::ABCD, WordOrder::BADC, WordOrder::CDAB, WordOrder::DCBA], o.word_order, forward),
            ..o
        },
        _ => f == o,
    }
}

/// Text without its last character, if it has one.
pub open spec fn popped(s: Seq<char>) -> Seq<char> {
    if s.len() > 0 {
        s.drop_last()
    } else {
        s
    }
}

/// Backspace takes the last character off the address or the path, or the
/// last digit off a number field; other fields stay.
pub open spec fn backspace_post(o: DiscoveryParams, f: DiscoveryParams, field: DiscoveryField) -> bool {
    match field {
        DiscoveryField::Ip => f == DiscoveryParams { ip: f.ip, ..o } && f.ip@ == popped(o.ip@),
        DiscoveryField::CustomPath => f == DiscoveryParams { custom_path: f.custom_path, ..o } && f.custom_path@
            == popped(o.custom_path@),
        DiscoveryField::Baud => f == DiscoveryParams { baud_rate: (o.baud_rate / 10) as u32, ..o },
        DiscoveryField::NetPort => f == DiscoveryParams { net_port: (o.net_port / 10) as u16, ..o },
        DiscoveryField::UnitId => f == DiscoveryParams { slave_id: (o.slave_id / 10) as u8, ..o },
        DiscoveryField::ConnectTimeout => f == DiscoveryParams {
            connect_timeout_ms: (o.connect_timeout_ms / 10) as u64,
            ..o
        },
        DiscoveryField::CommandTimeout => f == DiscoveryParams {
            command_timeout_ms: (o.command_timeout_ms / 10) as u64,
            ..o
        },
        DiscoveryField::BetweenCommands => f == DiscoveryParams {
            between_commands_ms: (o.between_commands_ms / 10) as u64,
            ..o
        },
        _ => f == o,
    }
}

/// A typed character: digits and dots go into the address, any character
/// but a control character into the path, digits into the number fields
/// (as long as the number still fits); anything else changes nothing.
pub open spec fn char_post(o: DiscoveryParams, f: DiscoveryParams, field: DiscoveryField, c: char) -> bool {
    let d = (c as u32 - '0' as u32) as nat;
    match field {
        DiscoveryField::Ip => if is_digit(c) || c == '.' {
            f == DiscoveryParams { ip: f.ip, ..o } && f.ip@ == o.ip@.push(c)
        } else {
            f == o
        },
        DiscoveryField::CustomPath => if !is_control(c) {
            f == DiscoveryParams { custom_path: f.custom_path, ..o } && f.custom_path@ == o.custom_path@.push(c)
        } else {
            f == o
        },
        DiscoveryField::Baud => if is_digit(c) {
            f == DiscoveryParams { baud_rate: typed(o.baud_rate as nat, d, u32::MAX as nat) as u32, ..o }
        } else {
            f == o
        },
        DiscoveryField::NetPort => if is_digit(c) {
            f == DiscoveryParams { net_port: typed(o.net_port as nat, d, u16::MAX as nat) as u16, ..o }
        } else {
            f == o
        },
        DiscoveryField::UnitId => if is_digit(c) {
            f == DiscoveryParams { slave_id: typed(o.slave_id as nat, d, u8::MAX as nat) as u8, ..o }
        } else {
            f == o
        },
        DiscoveryField::ConnectTimeout => if is_digit(c) {
            f == DiscoveryParams {
                connect_timeout_ms: typed(o.connect_timeout_ms as nat, d, u64::MAX as nat) as u64,
                ..o
            }
        } else {
            f == o
        },
        DiscoveryField::CommandTimeout => if is_digit(c) {
            f == DiscoveryParams {
                command_timeout_ms: typed(o.command_timeout_ms as nat, d, u64::MAX as nat) as u64,
                ..o
            }
        } else {
            f == o
        },
        DiscoveryField::BetweenCommands => if is_digit(c) {
            f == DiscoveryParams {
                between_commands_ms: typed(o.between_commands_ms as nat, d, u64::MAX as nat) as u64,
                ..o
            }
        } else {
            f == o
        },
        _ => f == o,
    }
}

/// What a key does to the device popup, field by field: Esc and Enter
/// leave it as it is (their work is the returned action), Up and Down
/// move, the switch keys change column, Left and Right cycle a choice,
/// Backspace and characters edit the text and number fields. Other keys
/// change nothing.
pub open spec fn discovery_post(o: DiscoveryParams, f: DiscoveryParams, kb: Keybinds, code: KeyCode, show_mock: bool) -> bool {
    let field = o.spec_current_field();
    if code == KeyCode::Esc || code == KeyCode::Enter {
        f == o
    } else if code == KeyCode::Up || code == KeyCode::Down {
        moved_post(o, f, code == KeyCode::Down)
    } else if is_switch(kb, code) {
        switched_post(o, f)
    } else if code == KeyCode::Left || code == KeyCode::Right {
        cycled_post(o, f, field, code == KeyCode::Right, show_mock)
    } else if code == KeyCode::Backspace {
        backspace_post(o, f, field)
    } else {
        match code {
            KeyCode::Char(c) => char_post(o, f, field, c),
            _ => f == o,
        }
    }
}

fn edit_char(d: &mut DiscoveryParams, field: DiscoveryField, c: char)
    ensures
        char_post(*old(d), *final(d), field, c),
{
    let digit = c >= '0' && c <= '9';
    let n: u8 = if digit { (c as u32 - '0' as u32) as u8 } else { 0 };
    match field {
        DiscoveryField::Ip => {
            if digit || c == '.' {
                push_char(&mut d.ip, c);
            }
        },
        DiscoveryField::CustomPath => {
            if !control_char(c) {
                push_char(&mut d.custom_path, c);
            }
        },
        DiscoveryField::Baud => {
            if digit {
                digit_add(&mut d.baud_rate, n);
            }
        },
        DiscoveryField::NetPort => {
            if digit {
                digit_add(&mut d.net_port, n);
            }
        },
        DiscoveryField::UnitId => {
            if digit {
                digit_add(&mut d.slave_id, n);
            }
        },
        DiscoveryField::ConnectTimeout => {
            if digit {
                digit_add(&mut d.connect_timeout_ms, n);
            }
        },
        DiscoveryField::CommandTimeout => {
            if digit {
                digit_add(&mut d.command_timeout_ms, n);
            }
        },
        DiscoveryField::BetweenCommands => {
            if digit {
                digit_add(&mut d.between_commands_ms, n);
            }
        },
        _ => {},
    }
}

fn edit_backspace(d: &mut DiscoveryParams, field: DiscoveryField)
    ensures
        backspace_post(*old(d), *final(d), field),
{
    match field {
        DiscoveryField::Ip => {
            pop_char(&mut d.ip);
        },
        DiscoveryField::CustomPath => {
            pop_char(&mut d.custom_path);
        },
        DiscoveryField::Baud => digit_remove(&mut d.baud_rate),
        DiscoveryField::NetPort => digit_remove(&mut d.net_port),
        DiscoveryField::UnitId => digit_remove(&mut d.slave_id),
        DiscoveryField::ConnectTimeout => digit_remove(&mut d.connect_timeout_ms),
        DiscoveryField::CommandTimeout => digit_remove(&mut d.command_timeout_ms),
        DiscoveryField::BetweenCommands => digit_remove(&mut d.between_commands_ms),
        _ => {},
    }
}

/// Handles a key in the device popup: edits the popup and returns what the
/// program does next.
pub fn discovery_key(d: &mut DiscoveryParams, kb: &Keybinds, code: KeyCode, show_mock: bool) -> (r: DiscoveryKeyAction)
    ensures
        r == spec_discovery_action(old(d).spec_current_field(), code),
        discovery_post(*old(d), *final(d), *kb, code, show_mock),
{
    let field = d.current_field();
    if code == KeyCode::Esc {
        return DiscoveryKeyAction::Close;
    }
    if code == KeyCode::Enter {
        return match field {
            DiscoveryField::ScanNetwork => DiscoveryKeyAction::ScanNetwork,
            DiscoveryField::Port(i) => DiscoveryKeyAction::ChoosePort(i),
            DiscoveryField::Found(i) => DiscoveryKeyAction::UseFound(i),
            _ => DiscoveryKeyAction::Connect,
        };
    }
    if code == KeyCode::Up || code == KeyCode::Down {
        d.move_cursor(code == KeyCode::Down);
    } else if code == kb.panel || code == KeyCode::BackTab {
        d.toggle_column();
    } else if code == KeyCode::Left || code == KeyCode::Right {
        cycle_field(d, field, code == KeyCode::Right, show_mock);
    } else if code == KeyCode::Backspace {
        edit_backspace(d, field);
    } else {
        match code {
            KeyCode::Char(c) => edit_char(d, field, c),
            _ => {},
        }
    }
    DiscoveryKeyAction::Nothing
}

/// The field the cursor is on in a popup that has fields.
#[derive(Debug, Clone, Copy, PartialEq, Eq, Structural)]
pub enum PopupFieldTag {
    NoField,
    Custom(CustomField),
    Unit(UnitField),
    Sweep(SweepField),
}

/// An edit of the value in the write popup.
#[derive(Debug, Clone, Copy, PartialEq, Eq, Structural)]
pub enum WriteEdit {
    Decrement,
    Increment,
    Negate,
    RemoveDigit,
    AddDigit(u8),
}

/// What a key in a popup asks the program to do with that popup.
#[derive(Debug, Clone, Copy, PartialEq, Eq, Structural)]
pub enum PopupAction {
    /// The key does nothing here.
    Nothing,
    /// Closes the popup.
    Close,
    /// The device popup handles its keys itself (see `discovery_key`).
    Discovery,
    /// Enter: the popup's own confirmation (run the help entry, send the
    /// raw request, dump, toggle the column, write, jump, save the label,
    /// the editor's Enter on its field, start or stop the sweep, confirm
    /// the question).
    Commit,
    /// Moves the popup's cursor down (`true`) or up.
    Move(bool),
    Backspace,
    /// A typed character.
    Char(char),
    Refresh,
    ToggleWordOrder,
    /// Steps the popup's choice forward (`true`) or back.
    Cycle(bool),
    /// Scrolls sideways, to the right (`true`) or left.
    HScroll(bool),
    /// Moves the read cursor as this key does in the register view.
    CursorKey(KeyCode),
    WriteToggleType,
    WriteEdit(WriteEdit),
    /// Moves the bit cursor left (`true`) or right.
    WriteMoveBit(bool),
    WriteToggleBit,
    RemoveRule,
    /// Applies the typed unit id.
    UnitCommit,
    /// Applies the unit id of a scan hit.
    UnitCommitHit(usize),
    /// Starts or stops the unit id scan.
    UnitScan,
    /// Flips the toggle field the cursor is on.
    Toggle,
    /// Scrolls by a number of lines.
    Scroll(i32),
    /// Declines the question.
    Cancel,
}

/// Keys that only close a popup: Esc or the popup's own key.
pub open spec fn closes(code: KeyCode, own: KeyCode) -> bool {
    code == KeyCode::Esc || code == own
}

/// A key that moves the read cursor.
pub open spec fn is_cursor_key(kb: Keybinds, code: KeyCode) -> bool {
    code == KeyCode::Up || code == KeyCode::Down || code == kb.page_up || code == kb.page_down
}

/// The keys of a list popup with text input (help, raw request, search):
/// Esc closes, Enter commits, Up and Down move, Backspace and characters
/// edit.
pub open spec fn list_key(code: KeyCode) -> PopupAction {
    if code == KeyCode::Esc {
        PopupAction::Close
    } else if code == KeyCode::Enter {
        PopupAction::Commit
    } else if code == KeyCode::Up {
        PopupAction::Move(false)
    } else if code == KeyCode::Down {
        PopupAction::Move(true)
    } else {
        match code {
            KeyCode::Backspace => PopupAction::Backspace,
            KeyCode::Char(c) => PopupAction::Char(c),
            _ => PopupAction::Nothing,
        }
    }
}

/// The keys of the write popup: Esc closes, Enter writes, the write key
/// changes the kind of write, Up and Down step the value, Left and Right
/// move the bit cursor, the pause key flips the bit, `-` negates, Backspace
/// drops a digit and a digit is typed.
pub open spec fn write_key(kb: Keybinds, code: KeyCode) -> PopupAction {
    if code == KeyCode::Esc {
        PopupAction::Close
    } else if code == KeyCode::Enter {
        PopupAction::Commit
    } else if code == kb.write {
        PopupAction::WriteToggleType
    } else if code == KeyCode::Up {
        PopupAction::WriteEdit(WriteEdit::Decrement)
    } else if code == KeyCode::Down {
        PopupAction::WriteEdit(WriteEdit::Increment)
    } else if code == KeyCode::Left {
        PopupAction::WriteMoveBit(true)
    } else if code == KeyCode::Right {
        PopupAction::WriteMoveBit(false)
    } else if code == kb.pause {
        PopupAction::WriteToggleBit
    } else {
        match code {
            KeyCode::Char(c) => if c == '-' {
                PopupAction::WriteEdit(WriteEdit::Negate)
            } else if is_digit(c) {
                PopupAction::WriteEdit(WriteEdit::AddDigit((c as u32 - '0' as u32) as u8))
            } else {
                PopupAction::Nothing
            },
            KeyCode::Backspace => PopupAction::WriteEdit(WriteEdit::RemoveDigit),
            _ => PopupAction::Nothing,
        }
    }
}

/// The keys of the unit id popup on field `field`.
pub open spec fn unit_key(kb: Keybinds, code: KeyCode, field: UnitField) -> PopupAction {
    let toggle = field == UnitField::Mode || field == UnitField::Repr || field == UnitField::Exceptions;
    if closes(code, kb.unit_id) {
        PopupAction::Close
    } else if code == KeyCode::Enter {
        match field {
            UnitField::Id => PopupAction::UnitCommit,
            UnitField::Hit(i) => PopupAction::UnitCommitHit(i),
            _ => if toggle {
                PopupAction::Toggle
            } else {
                PopupAction::UnitScan
            },
        }
    } else if code == KeyCode::Up {
        PopupAction::Move(false)
    } else if code == KeyCode::Down {
        PopupAction::Move(true)
    } else if code == kb.pause && toggle {
        PopupAction::Toggle
    } else if (code == KeyCode::Left || code == KeyCode::Right) && toggle {
        PopupAction::Toggle
    } else {
        match code {
            KeyCode::Backspace => PopupAction::Backspace,
            KeyCode::Char(c) => if is_digit(c) {
                PopupAction::Char(c)
            } else {
                PopupAction::Nothing
            },
            _ => PopupAction::Nothing,
        }
    }
}

/// The keys of the sweep settings popup on field `field`.
pub open spec fn sweep_key(kb: Keybinds, code: KeyCode, field: SweepField) -> PopupAction {
    if closes(code, kb.sweep) {
        PopupAction::Close
    } else if code == KeyCode::Enter {
        PopupAction::Commit
    } else if code == KeyCode::Up {
        PopupAction::Move(false)
    } else if code == KeyCode::Down {
        PopupAction::Move(true)
    } else if code == kb.pause && field == SweepField::Mode {
        PopupAction::Toggle
    } else if (code == KeyCode::Left || code == KeyCode::Right) && field == SweepField::Mode {
        PopupAction::Toggle
    } else {
        match code {
            KeyCode::Backspace => PopupAction::Backspace,
            KeyCode::Char(c) => if is_digit(c) {
                PopupAction::Char(c)
            } else {
                PopupAction::Nothing
            },
            _ => PopupAction::Nothing,
        }
    }
}

/// The keys of the custom rule editor.
pub open spec fn custom_key(code: KeyCode) -> PopupAction {
    if code == KeyCode::Esc {
        PopupAction::Close
    } else if code == KeyCode::Up {
        PopupAction::Move(false)
    } else if code == KeyCode::Down {
        PopupAction::Move(true)
    } else if code == KeyCode::Left {
        PopupAction::Cycle(false)
    } else if code == KeyCode::Right {
        PopupAction::Cycle(true)
    } else if code == KeyCode::Delete {
        PopupAction::RemoveRule
    } else if code == KeyCode::Enter {
        PopupAction::Commit
    } else {
        match code {
            KeyCode::Backspace => PopupAction::Backspace,
            KeyCode::Char(c) => PopupAction::Char(c),
            _ => PopupAction::Nothing,
        }
    }
}

/// What `code` does in a popup of kind `kind` whose cursor is on `field`.
pub open spec fn spec_popup_key(kind: PopupKind, kb: Keybinds, code: KeyCode, field: PopupFieldTag) -> PopupAction {
    match kind {
        PopupKind::Discovery => PopupAction::Discovery,
        PopupKind::Help | PopupKind::Raw | PopupKind::Search => list_key(code),
        PopupKind::About => if closes(code, kb.about) { PopupAction::Close } else { PopupAction::Nothing },
        PopupKind::Stats => if closes(code, kb.stats) { PopupAction::Close } else { PopupAction::Nothing },
        PopupKind::Inspect => if closes(code, kb.inspect) {
            PopupAction::Close
        } else if code == kb.refresh || code == KeyCode::Enter {
            PopupAction::Refresh
        } else if code == kb.word_order {
            PopupAction::ToggleWordOrder
        } else if code == KeyCode::Left {
            PopupAction::Cycle(false)
        } else if code == KeyCode::Right {
            PopupAction::Cycle(true)
        } else if is_cursor_key(kb, code) {
            PopupAction::CursorKey(code)
        } else {
            PopupAction::Nothing
        },
        PopupKind::DeviceId => if closes(code, kb.device_id) {
            PopupAction::Close
        } else if code == kb.refresh || code == KeyCode::Enter {
            PopupAction::Refresh
        } else if code == kb.panel {
            PopupAction::Cycle(true)
        } else if code == KeyCode::BackTab {
            PopupAction::Cycle(false)
        } else if code == KeyCode::Left {
            PopupAction::HScroll(false)
        } else if code == KeyCode::Right {
            PopupAction::HScroll(true)
        } else {
            PopupAction::Nothing
        },
        PopupKind::Dump => if code == KeyCode::Enter {
            PopupAction::Commit
        } else if closes(code, kb.dump) {
            PopupAction::Close
        } else {
            PopupAction::Nothing
        },
        PopupKind::Columns => if code == KeyCode::Left {
            PopupAction::Cycle(false)
        } else if code == KeyCode::Right {
            PopupAction::Cycle(true)
        } else {
            list_key(code)
        },
        PopupKind::Write => write_key(kb, code),
        PopupKind::Label => match list_key(code) {
            PopupAction::Move(_) => PopupAction::Nothing,
            a => a,
        },
        PopupKind::Custom => match field {
            PopupFieldTag::Custom(_) => custom_key(code),
            _ => PopupAction::Nothing,
        },
        PopupKind::Unit => match field {
            PopupFieldTag::Unit(f) => unit_key(kb, code, f),
            _ => PopupAction::Nothing,
        },
        PopupKind::Logs => if closes(code, kb.write_logs) {
            PopupAction::Close
        } else if code == KeyCode::Up {
            PopupAction::Scroll(-1i32)
        } else if code == KeyCode::Down {
            PopupAction::Scroll(1i32)
        } else if code == kb.page_up {
            PopupAction::Scroll(-16i32)
        } else if code == kb.page_down {
            PopupAction::Scroll(16i32)
        } else {
            PopupAction::Nothing
        },
        PopupKind::SweepConfig => match field {
            PopupFieldTag::Sweep(f) => sweep_key(kb, code, f),
            _ => PopupAction::Nothing,
        },
        PopupKind::Import | PopupKind::CycleConfig | PopupKind::Quit => if code == KeyCode::Enter {
            PopupAction::Commit
        } else if code == KeyCode::Esc || code == KeyCode::Backspace {
            PopupAction::Cancel
        } else {
            PopupAction::Nothing
        },
    }
}

fn list_key_of(code: KeyCode) -> (r: PopupAction)
    ensures
        r == list_key(code),
{
    if code == KeyCode::Esc {
        PopupAction::Close
    } else if code == KeyCode::Enter {
        PopupAction::Commit
    } else if code == KeyCode::Up {
        PopupAction::Move(false)
    } else if code == KeyCode::Down {
        PopupAction::Move(true)
    } else {
        match code {
            KeyCode::Backspace => PopupAction::Backspace,
            KeyCode::Char(c) => PopupAction::Char(c),
            _ => PopupAction::Nothing,
        }
    }
}

fn digit_of(c: char) -> (r: Option<u8>)
    ensures
        is_digit(c) ==> r == Some((c as u32 - '0' as u32) as u8),
        !is_digit(c) ==> r is None,
{
    if c >= '0' && c <= '9' {
        Some((c as u32 - '0' as u32) as u8)
    } else {
        None
    }
}

fn write_key_of(kb: &Keybinds, code: KeyCode) -> (r: PopupAction)
    ensures
        r == write_key(*kb, code),
{
    if code == KeyCode::Esc {
        PopupAction::Close
    } else if code == KeyCode::Enter {
        PopupAction::Commit
    } else if code == kb.write {
        PopupAction::WriteToggleType
    } else if code == KeyCode::Up {
        PopupAction::WriteEdit(WriteEdit::Decrement)
    } else if code == KeyCode::Down {
        PopupAction::WriteEdit(WriteEdit::Increment)
    } else if code == KeyCode::Left {
        PopupAction::WriteMoveBit(true)
    } else if code == KeyCode::Right {
        PopupAction::WriteMoveBit(false)
    } else if code == kb.pause {
        PopupAction::WriteToggleBit
    } else {
        match code {
            KeyCode::Char(c) => if c == '-' {
                PopupAction::WriteEdit(WriteEdit::Negate)
            } else {
                match digit_of(c) {
                    Some(d) => PopupAction::WriteEdit(WriteEdit::AddDigit(d)),
                    None => PopupAction::Nothing,
                }
            },
            KeyCode::Backspace => PopupAction::WriteEdit(WriteEdit::RemoveDigit),
            _ => PopupAction::Nothing,
        }
    }
}

fn unit_key_of(kb: &Keybinds, code: KeyCode, field: UnitField) -> (r: PopupAction)
    ensures
        r == unit_key(*kb, code, field),
{
    let toggle = field.is_toggle();
    if code == KeyCode::Esc || code == kb.unit_id {
        PopupAction::Close
    } else if code == KeyCode::Enter {
        match field {
            UnitField::Id => PopupAction::UnitCommit,
            UnitField::Hit(i) => PopupAction::UnitCommitHit(i),
            _ => if toggle {
                PopupAction::Toggle
            } else {
                PopupAction::UnitScan
            },
        }
    } else if code == KeyCode::Up {
        PopupAction::Move(false)
    } else if code == KeyCode::Down {
        PopupAction::Move(true)
    } else if code == kb.pause && toggle {
        PopupAction::Toggle
    } else if (code == KeyCode::Left || code == KeyCode::Right) && toggle {
        PopupAction::Toggle
    } else {
        match code {
            KeyCode::Backspace => PopupAction::Backspace,
            KeyCode::Char(c) => if c >= '0' && c <= '9' {
                PopupAction::Char(c)
            } else {
                PopupAction::Nothing
            },
            _ => PopupAction::Nothing,
        }
    }
}

fn sweep_key_of(kb: &Keybinds, code: KeyCode, field: SweepField) -> (r: PopupAction)
    ensures
        r == sweep_key(*kb, code, field),
{
    let mode = field == SweepField::Mode;
    if code == KeyCode::Esc || code == kb.sweep {
        PopupAction::Close
    } else if code == KeyCode::Enter {
        PopupAction::Commit
    } else if code == KeyCode::Up {
        PopupAction::Move(false)
    } else if code == KeyCode::Down {
        PopupAction::Move(true)
    } else if code == kb.pause && mode {
        PopupAction::Toggle
    } else if (code == KeyCode::Left || code == KeyCode::Right) && mode {
        PopupAction::Toggle
    } else {
        match code {
            KeyCode::Backspace => PopupAction::Backspace,
            KeyCode::Char(c) => if c >= '0' && c <= '9' {
                PopupAction::Char(c)
            } else {
                PopupAction::Nothing
            },
            _ => PopupAction::Nothing,
        }
    }
}

fn custom_key_of(code: KeyCode) -> (r: PopupAction)
    ensures
        r == custom_key(code),
{
    if code == KeyCode::Esc {
        PopupAction::Close
    } else if code == KeyCode::Up {
        PopupAction::Move(false)
    } else if code == KeyCode::Down {
        PopupAction::Move(true)
    } else if code == KeyCode::Left {
        PopupAction::Cycle(false)
    } else if code == KeyCode::Right {
        PopupAction::Cycle(true)
    } else if code == KeyCode::Delete {
        PopupAction::RemoveRule
    } else if code == KeyCode::Enter {
        PopupAction::Commit
    } else {
        match code {
            KeyCode::Backspace => PopupAction::Backspace,
            KeyCode::Char(c) => PopupAction::Char(c),
            _ => PopupAction::Nothing,
        }
    }
}

/// Decides what a key does in the open popup.
pub fn popup_key(kind: PopupKind, kb: &Keybinds, code: KeyCode, field: PopupFieldTag) -> (r: PopupAction)
    ensures
        r == spec_popup_key(kind, *kb, code, field),
{
    match kind {
        PopupKind::Discovery => PopupAction::Discovery,
        PopupKind::Help | PopupKind::Raw | PopupKind::Search => list_key_of(code),
        PopupKind::About => if code == KeyCode::Esc || code == kb.about {
            PopupAction::Close
        } else {
            PopupAction::Nothing
        },
        PopupKind::Stats => if code == KeyCode::Esc || code == kb.stats {
            PopupAction::Close
        } else {
            PopupAction::Nothing
        },
        PopupKind::Inspect => if code == KeyCode::Esc || code == kb.inspect {
            PopupAction::Close
        } else if code == kb.refresh || code == KeyCode::Enter {
            PopupAction::Refresh
        } else if code == kb.word_order {
            PopupAction::ToggleWordOrder
        } else if code == KeyCode::Left {
            PopupAction::Cycle(false)
        } else if code == KeyCode::Right {
            PopupAction::Cycle(true)
        } else if code == KeyCode::Up || code == KeyCode::Down || code == kb.page_up || code == kb.page_down {
            PopupAction::CursorKey(code)
        } else {
            PopupAction::Nothing
        },
        PopupKind::DeviceId => if code == KeyCode::Esc || code == kb.device_id {
            PopupAction::Close
        } else if code == kb.refresh || code == KeyCode::Enter {
            PopupAction::Refresh
        } else if code == kb.panel {
            PopupAction::Cycle(true)
        } else if code == KeyCode::BackTab {
            PopupAction::Cycle(false)
        } else if code == KeyCode::Left {
            PopupAction::HScroll(false)
        } else if code == KeyCode::Right {
            PopupAction::HScroll(true)
        } else {
            PopupAction::Nothing
        },
        PopupKind::Dump => if code == KeyCode::Enter {
            PopupAction::Commit
        } else if code == KeyCode::Esc || code == kb.dump {
            PopupAction::Close
        } else {
            PopupAction::Nothing
        },
        PopupKind::Columns => if code == KeyCode::Left {
            PopupAction::Cycle(false)
        } else if code == KeyCode::Right {
            PopupAction::Cycle(true)
        } else {
            list_key_of(code)
        },
        PopupKind::Write => write_key_of(kb, code),
        PopupKind::Label => match list_key_of(code) {
            PopupAction::Move(_) => PopupAction::Nothing,
            a => a,
        },
        PopupKind::Custom => match field {
            PopupFieldTag::Custom(_) => custom_key_of(code),
            _ => PopupAction::Nothing,
        },
        PopupKind::Unit => match field {
            PopupFieldTag::Unit(f) => unit_key_of(kb, code, f),
            _ => PopupAction::Nothing,
        },
        PopupKind::Logs => if code == KeyCode::Esc || code == kb.write_logs {
            PopupAction::Close
        } else if code == KeyCode::Up {
            PopupAction::Scroll(-1i32)
        } else if code == KeyCode::Down {
            PopupAction::Scroll(1i32)
        } else if code == kb.page_up {
            PopupAction::Scroll(-(LogsParams::VISIBLE as i32))
        } else if code == kb.page_down {
            PopupAction::Scroll(LogsParams::VISIBLE as i32)
        } else {
            PopupAction::Nothing
        },
        PopupKind::SweepConfig => match field {
            PopupFieldTag::Sweep(f) => sweep_key_of(kb, code, f),
            _ => PopupAction::Nothing,
        },
        PopupKind::Import | PopupKind::CycleConfig | PopupKind::Quit => if code == KeyCode::Enter {
            PopupAction::Commit
        } else if code == KeyCode::Esc || code == KeyCode::Backspace {
            PopupAction::Cancel
        } else {
            PopupAction::Nothing
        },
    }
}

/// `n / 10` rounded toward zero, as integer division does.
pub open spec fn drop_digit(n: int) -> int {
    if n >= 0 {
        n / 10
    } else {
        -((-n) / 10)
    }
}

/// The value after an edit in the write popup, before it is brought
/// within the kind of write: one down or up, negated (none where that
/// leaves the 64-bit range, or where there was none), a digit dropped,
/// or a digit typed at the end of the value (of zero where there is none;
/// the value stays where the digit would not fit).
pub open spec fn edited(value: Option<i64>, edit: WriteEdit) -> Option<int> {
    match edit {
        WriteEdit::Decrement => match value {
            Some(v) if v - 1 >= i64::MIN => Some(v - 1),
            _ => None,
        },
        WriteEdit::Increment => match value {
            Some(v) if v + 1 <= i64::MAX => Some(v + 1),
            _ => None,
        },
        WriteEdit::Negate => match value {
            Some(v) if v != i64::MIN => Some(-v),
            _ => None,
        },
        WriteEdit::RemoveDigit => match value {
            Some(v) => Some(drop_digit(v as int)),
            None => None,
        },
        WriteEdit::AddDigit(d) => {
            let n = match value {
                Some(v) => v as int,
                None => 0,
            };
            if i64::MIN <= n * 10 + d <= i64::MAX {
                Some(n * 10 + d)
            } else {
                Some(n)
            }
        },
    }
}

/// Negating a value gives its opposite (the two add up to zero), and
/// negating that again gives the value back; only the smallest 64-bit
/// value, whose opposite does not fit, is left without one. Stepping up
/// and then down returns to the value too.
pub proof fn lemma_negate_is_opposite(v: i64)
    ensures
        v != i64::MIN ==> (edited(Some(v), WriteEdit::Negate) matches Some(w) && w + v == 0 && edited(
            Some(w as i64),
            WriteEdit::Negate,
        ) == Some(v as int)),
        v == i64::MIN ==> edited(Some(v), WriteEdit::Negate) is None,
        v < i64::MAX ==> (edited(Some(v), WriteEdit::Increment) matches Some(w) && w == v + 1 && edited(
            Some(w as i64),
            WriteEdit::Decrement,
        ) == Some(v as int)),
{
}

/// Within the bounds of the kind of write, negating twice in the write
/// popup gives the entered value back.
pub proof fn lemma_negate_twice_in_bounds(v: i64, t: crate::state::WriteType)
    requires
        value_bounds(t).0 <= v <= value_bounds(t).1,
        value_bounds(t).0 <= -v <= value_bounds(t).1,
    ensures
        clamped(v, value_bounds(t)) == v,
        edited(Some(v), WriteEdit::Negate) == Some(-v),
        clamped((-v) as i64, value_bounds(t)) == -v,
        edited(Some((-v) as i64), WriteEdit::Negate) == Some(v as int),
{
}

/// Applies an edit to the value of the write popup: the value is edited and
/// then brought within the kind of write, except after a dropped digit;
/// nothing else changes.
pub fn write_edit(w: &mut WriteParams, edit: WriteEdit)
    requires
        edit matches WriteEdit::AddDigit(d) ==> d < 10,
    ensures
        final(w).value == (match edited(old(w).value, edit) {
            Some(v) => Some(if edit == WriteEdit::RemoveDigit {
                v as i64
            } else {
                clamped(v as i64, value_bounds(old(w).write_type))
            }),
            None => None,
        }),
        final(w).position == old(w).position && final(w).write_type == old(w).write_type
            && final(w).bit_cursor == old(w).bit_cursor && final(w).force_multiple == old(w).force_multiple
            && final(w).result == old(w).result,
{
    match edit {
        WriteEdit::Decrement => {
            w.value = match w.value {
                Some(v) => v.checked_sub(1),
                None => None,
            };
        },
        WriteEdit::Increment => {
            w.value = match w.value {
                Some(v) => v.checked_add(1),
                None => None,
            };
        },
        WriteEdit::Negate => {
            w.value = match w.value {
                Some(v) => if v == i64::MIN {
                    None
                } else {
                    Some(-v)
                },
                None => None,
            };
        },
        WriteEdit::RemoveDigit => {
            w.value = match w.value {
                Some(v) => Some(if v >= 0 {
                    v / 10
                } else if v == i64::MIN {
                    -922337203685477580i64
                } else {
                    -((-v) / 10)
                }),
                None => None,
            };
            return;
        },
        WriteEdit::AddDigit(d) => {
            let n: i64 = match w.value {
                Some(v) => v,
                None => 0,
            };
            let next: i64 = if n >= -922337203685477580i64 && n <= 922337203685477580i64 {
                match (n * 10).checked_add(d as i64) {
                    Some(x) => x,
                    None => n,
                }
            } else {
                n
            };
            w.value = Some(next);
        },
    }
    w.clamp_value();
}

/// The screen a key reaches.
#[derive(Debug, Clone, Copy, PartialEq, Eq, Structural)]
pub enum Screen {
    Settings,
    LogView,
    Popup(PopupKind),
    /// The register view, on this panel.
    Read(ReadPanel),
}

/// Where a key goes.
#[derive(Debug, Clone, Copy, PartialEq, Eq, Structural)]
pub enum KeyRoute {
    /// Ctrl-C: quit, asking first where there are unsaved changes.
    Interrupt,
    /// Any other key held with Ctrl, or a key with no use here.
    Ignore,
    Settings,
    LogView,
    Popup(PopupKind),
    /// The dump key in the graph: the next interpretation.
    GraphInterpretation,
    /// The pin key in the graph: hold the series.
    GraphHold,
    /// A bound key: its action.
    Action(KeybindAction),
    /// Left or Right in the matrix: one register back (`true`) or on.
    MatrixStep(bool),
    /// Left or Right elsewhere: scroll the columns right (`true`) or left.
    ScrollColumns(bool),
    /// A digit typed into the cursor's address.
    Digit(u8),
    /// Backspace: the last digit of the address goes.
    RemoveDigit,
}

/// The first action in the list whose key is `code`.
pub open spec fn first_bound(actions: Seq<KeybindAction>, kb: Keybinds, code: KeyCode) -> Option<KeybindAction>
    decreases actions.len(),
{
    if actions.len() == 0 {
        None
    } else if spec_get(kb, actions[0]) == code {
        Some(actions[0])
    } else {
        first_bound(actions.drop_first(), kb, code)
    }
}

/// Where a key goes: Ctrl-C interrupts and other Ctrl keys do nothing;
/// then the settings, the log view and an open popup take the key; in the
/// graph the dump and pin keys have their own use; then a bound key runs
/// its action; Left and Right step in the matrix and scroll elsewhere;
/// digits and Backspace edit the cursor's address.
pub open spec fn spec_route_key(screen: Screen, graph: bool, kb: Keybinds, ctrl: bool, code: KeyCode) -> KeyRoute {
    if ctrl && code == KeyCode::Char('c') {
        KeyRoute::Interrupt
    } else if ctrl && code is Char {
        KeyRoute::Ignore
    } else {
        match screen {
            Screen::Settings => KeyRoute::Settings,
            Screen::LogView => KeyRoute::LogView,
            Screen::Popup(k) => KeyRoute::Popup(k),
            Screen::Read(panel) => if graph && code == kb.dump {
                KeyRoute::GraphInterpretation
            } else if graph && code == kb.pin {
                KeyRoute::GraphHold
            } else {
                match first_bound(spec_all_actions(), kb, code) {
                    Some(a) => KeyRoute::Action(a),
                    None => match code {
                        KeyCode::Left => if panel == ReadPanel::Matrix {
                            KeyRoute::MatrixStep(true)
                        } else {
                            KeyRoute::ScrollColumns(false)
                        },
                        KeyCode::Right => if panel == ReadPanel::Matrix {
                            KeyRoute::MatrixStep(false)
                        } else {
                            KeyRoute::ScrollColumns(true)
                        },
                        KeyCode::Char(c) => if is_digit(c) {
                            KeyRoute::Digit((c as u32 - '0' as u32) as u8)
                        } else {
                            KeyRoute::Ignore
                        },
                        KeyCode::Backspace => KeyRoute::RemoveDigit,
                        _ => KeyRoute::Ignore,
                    },
                }
            },
        }
    }
}

fn bound_action(kb: &Keybinds, code: KeyCode) -> (r: Option<KeybindAction>)
    ensures
        r == first_bound(spec_all_actions(), *kb, code),
{
    let all = KeybindAction::ALL;
    assert(all@ =~= spec_all_actions());
    let mut i: usize = 0;
    assert(all@.skip(0) =~= all@);
    while i < 32
        invariant
            i <= 32,
            all@ == spec_all_actions(),
            first_bound(all@, *kb, code) == first_bound(all@.skip(i as int), *kb, code),
        decreases 32 - i,
    {
        assert(all@.skip(i as int).drop_first() =~= all@.skip(i + 1));
        if kb.get(all[i]) == code {
            return Some(all[i]);
        }
        i += 1;
    }
    assert(all@.skip(32) =~= Seq::<KeybindAction>::empty());
    None
}

/// Decides where a key goes.
pub fn route_key(screen: Screen, graph: bool, kb: &Keybinds, ctrl: bool, code: KeyCode) -> (r: KeyRoute)
    ensures
        r == spec_route_key(screen, graph, *kb, ctrl, code),
{
    if ctrl && code == KeyCode::Char('c') {
        return KeyRoute::Interrupt;
    }
    if ctrl {
        if let KeyCode::Char(_) = code {
            return KeyRoute::Ignore;
        }
    }
    match screen {
        Screen::Settings => KeyRoute::Settings,
        Screen::LogView => KeyRoute::LogView,
        Screen::Popup(k) => KeyRoute::Popup(k),
        Screen::Read(panel) => if graph && code == kb.dump {
            KeyRoute::GraphInterpretation
        } else if graph && code == kb.pin {
            KeyRoute::GraphHold
        } else {
            match bound_action(kb, code) {
                Some(a) => KeyRoute::Action(a),
                None => match code {
                    KeyCode::Left => if panel == ReadPanel::Matrix {
                        KeyRoute::MatrixStep(true)
                    } else {
                        KeyRoute::ScrollColumns(false)
                    },
                    KeyCode::Right => if panel == ReadPanel::Matrix {
                        KeyRoute::MatrixStep(false)
                    } else {
                        KeyRoute::ScrollColumns(true)
                    },
                    KeyCode::Char(c) => match digit_of(c) {
                        Some(d) => KeyRoute::Digit(d),
                        None => KeyRoute::Ignore,
                    },
                    KeyCode::Backspace => KeyRoute::RemoveDigit,
                    _ => KeyRoute::Ignore,
                },
            }
        },
    }
}

/// An edit of the cursor's address in the register view.
#[derive(Debug, Clone, Copy, PartialEq, Eq, Structural)]
pub enum PositionEdit {
    /// One register back (`true`) or on, staying within the address range.
    Step(bool),
    /// A digit typed at the end of the address, where the address still fits.
    Digit(u8),
    /// The last digit of the address goes.
    RemoveDigit,
}

/// The address after an edit.
pub open spec fn edited_position(position: u16, edit: PositionEdit) -> u16 {
    match edit {
        PositionEdit::Step(back) => if back {
            if position > 0 { (position - 1) as u16 } else { 0 }
        } else {
            if position < u16::MAX { (position + 1) as u16 } else { u16::MAX }
        },
        PositionEdit::Digit(d) => typed(position as nat, d as nat, u16::MAX as nat) as u16,
        PositionEdit::RemoveDigit => (position / 10) as u16,
    }
}

/// Edits the cursor's address and brings it into view; nothing else of the
/// view changes.
pub fn edit_position(read: &mut ReadParams, edit: PositionEdit, rows: u16, matrix_cols: u16)
    requires
        edit matches PositionEdit::Digit(d) ==> d < 10,
    ensures
        final(read).position == edited_position(old(read).position, edit),
        *final(read) == (ReadParams {
            position: edited_position(old(read).position, edit),
            window_start: spec_window_start(
                edited_position(old(read).position, edit),
                rows,
                old(read).panel == ReadPanel::Matrix,
                matrix_cols,
            ),
            ..*old(read)
        }),
{
    match edit {
        PositionEdit::Step(back) => {
            read.position = if back {
                if read.position > 0 { read.position - 1 } else { 0 }
            } else {
                if read.position < u16::MAX { read.position + 1 } else { u16::MAX }
            };
        },
        PositionEdit::Digit(d) => digit_add(&mut read.position, d),
        PositionEdit::RemoveDigit => digit_remove(&mut read.position),
    }
    read.scroll_to_cursor(rows, matrix_cols);
}

} // verus!
