use vstd::prelude::*;
use crate::modbus::{spec_make_word, WordOrder};
use crate::config::{spec_type_enabled, CycleTypes};
use crate::register::{next_type, RegisterType};
use crate::state::ReadParams;
use crate::state::{MessageKind, ReadPanel, StatusMessage, WriteParams, WriteType};

verus! {

/// A write on its way to the device: where, what kind, the value read there
/// before (where it was read) and the value written.
#[derive(Debug, Clone, PartialEq, Eq)]
pub struct PendingWrite {
    pub address: u16,
    pub write_type: WriteType,
    pub previous: Option<u64>,
    pub new_value: u64,
}

/// The Modbus request a write sends.
#[derive(Debug, Clone, PartialEq, Eq)]
pub enum WriteRequest {
    /// Write single register.
    Register(u16, u16),
    /// Write multiple registers.
    Registers(u16, Vec<u16>),
    /// Two registers holding a 32-bit value, in the device's word order.
    Word(u16, i32),
    /// Write single coil.
    Coil(u16, bool),
}

/// What committing a write starts: the write to remember and the request
/// to send.
#[derive(Debug, Clone, PartialEq, Eq)]
pub struct WritePlan {
    pub pending: PendingWrite,
    pub request: WriteRequest,
}

/// The value a write of `number` puts in the device, by kind.
pub open spec fn written_value(write_type: WriteType, number: i64) -> u64 {
    match write_type {
        WriteType::Word => (number as u16) as u64,
        WriteType::Coil => if number != 0 {
            1
        } else {
            0
        },
        WriteType::DWord => (number as u32) as u64,
    }
}

/// The value read before at the written place: the register for a word or
/// a coil, the register and the next one as a 32-bit word for a double.
pub open spec fn previous_value(
    write_type: WriteType,
    order: WordOrder,
    here: Option<u16>,
    next: Option<u16>,
) -> Option<u64> {
    match write_type {
        WriteType::DWord => match (here, next) {
            (Some(lo), Some(hi)) => Some(spec_make_word(order, lo, hi) as u64),
            _ => None,
        },
        _ => match here {
            Some(v) => Some(v as u64),
            None => None,
        },
    }
}

/// Whether a write cannot start: writes are off, the device is busy or
/// missing, or no value was entered.
pub open spec fn refused(read_only: bool, busy: bool, connected: bool, value: Option<i64>) -> bool {
    read_only || busy || !connected || value is None
}

/// What a refused write reports, the first reason that holds.
pub open spec fn refusal_text(read_only: bool, busy: bool, connected: bool) -> Seq<char> {
    if read_only {
        "Read-only mode."@
    } else if busy {
        "Device is busy."@
    } else if !connected {
        "No device connected"@
    } else {
        "Enter a value first."@
    }
}

/// The kind of message a refused write reports.
pub open spec fn refusal_kind(read_only: bool, busy: bool, connected: bool) -> MessageKind {
    if !read_only && !busy && !connected {
        MessageKind::Failure
    } else {
        MessageKind::Info
    }
}

/// `request` is what a write of `number` at `position` sends: a single
/// register (or, when forced, a one-register multiple write) for a word,
/// a 32-bit write for a double, a coil write for a coil.
pub open spec fn request_for(
    request: WriteRequest,
    write_type: WriteType,
    force_multiple: bool,
    position: u16,
    number: i64,
) -> bool {
    match write_type {
        WriteType::Word => if force_multiple {
            (request matches WriteRequest::Registers(a, v) && a == position && v@ == seq![number as u16])
        } else {
            request == WriteRequest::Register(position, number as u16)
        },
        WriteType::DWord => request == WriteRequest::Word(position, number as i32),
        WriteType::Coil => request == WriteRequest::Coil(position, number != 0),
    }
}

fn message(text: &str, kind: MessageKind) -> (r: StatusMessage)
    ensures
        r.text@ == text@,
        r.kind == kind,
{
    let mut s = String::new();
    crate::text::push_str(&mut s, text);
    StatusMessage { text: s, kind }
}

/// A coil write switches the coil on exactly when the entered value is
/// not zero, at the popup's address, and that state is the new value
/// logged for the write (1 for on, 0 for off).
pub proof fn lemma_coil_write_follows_value(request: WriteRequest, force_multiple: bool, position: u16, number: i64)
    requires
        request_for(request, WriteType::Coil, force_multiple, position, number),
    ensures
        request matches WriteRequest::Coil(address, on) && address == position && on == (number != 0) && (on
            <==> written_value(WriteType::Coil, number) == 1) && (!on <==> written_value(WriteType::Coil, number) == 0),
{
}

/// Commits the write popup `w`: where writes are off, the device is busy or
/// missing, or no value was entered, says so in `w` and starts nothing;
/// else marks `w` as writing and returns the write to send. `here` and
/// `next` are the values last read at the written register and the one
/// after it.
pub fn commit_write(
    w: &mut WriteParams,
    read_only: bool,
    busy: bool,
    connected: bool,
    order: WordOrder,
    here: Option<u16>,
    next: Option<u16>,
) -> (r: Option<WritePlan>)
    ensures
        final(w).position == old(w).position,
        final(w).value == old(w).value,
        final(w).write_type == old(w).write_type,
        final(w).force_multiple == old(w).force_multiple,
        final(w).bit_cursor == old(w).bit_cursor,
        refused(read_only, busy, connected, old(w).value) ==> r is None && final(w).result is Some
            && final(w).result->0.text@ == refusal_text(read_only, busy, connected)
            && final(w).result->0.kind == refusal_kind(read_only, busy, connected),
        !refused(read_only, busy, connected, old(w).value) ==> final(w).result is Some
            && final(w).result->0.text@ == "Writing..."@ && final(w).result->0.kind
            == MessageKind::Info && r is Some && r->0.pending == (PendingWrite {
            address: old(w).position,
            write_type: old(w).write_type,
            previous: previous_value(old(w).write_type, order, here, next),
            new_value: written_value(old(w).write_type, old(w).value->0),
        }) && request_for(
            r->0.request,
            old(w).write_type,
            old(w).force_multiple,
            old(w).position,
            old(w).value->0,
        ),
{
    if read_only {
        w.result = Some(message("Read-only mode.", MessageKind::Info));
        return None;
    }
    if busy {
        w.result = Some(message("Device is busy.", MessageKind::Info));
        return None;
    }
    if !connected {
        w.result = Some(message("No device connected", MessageKind::Failure));
        return None;
    }
    let number = match w.value {
        Some(n) => n,
        None => {
            w.result = Some(message("Enter a value first.", MessageKind::Info));
            return None;
        },
    };
    w.result = Some(message("Writing...", MessageKind::Info));
    let previous = match w.write_type {
        WriteType::DWord => match (here, next) {
            (Some(lo), Some(hi)) => Some(order.make_word(lo, hi) as u64),
            _ => None,
        },
        _ => match here {
            Some(v) => Some(v as u64),
            None => None,
        },
    };
    let new_value: u64 = match w.write_type {
        WriteType::Word => (number as u16) as u64,
        WriteType::Coil => if number != 0 {
            1
        } else {
            0
        },
        WriteType::DWord => (number as u32) as u64,
    };
    let request = match w.write_type {
        WriteType::Word => if w.force_multiple {
            let mut values: Vec<u16> = Vec::new();
            values.push(number as u16);
            assert(values@ =~= seq![number as u16]);
            WriteRequest::Registers(w.position, values)
        } else {
            WriteRequest::Register(w.position, number as u16)
        },
        WriteType::DWord => WriteRequest::Word(w.position, number as i32),
        WriteType::Coil => WriteRequest::Coil(w.position, number != 0),
    };
    Some(
        WritePlan {
            pending: PendingWrite { address: w.position, write_type: w.write_type, previous, new_value },
            request,
        },
    )
}

/// The values a write of each kind can hold: a coil 0 or 1, a word what
/// fits in 16 bits signed or not, a double what fits in 32 bits.
pub open spec fn value_bounds(write_type: WriteType) -> (int, int) {
    match write_type {
        WriteType::Coil => (0, 1),
        WriteType::Word => (i16::MIN as int, u16::MAX as int),
        WriteType::DWord => (i32::MIN as int, u32::MAX as int),
    }
}

/// `v` brought within `bounds`.
pub open spec fn clamped(v: i64, bounds: (int, int)) -> i64 {
    if v < bounds.0 {
        bounds.0 as i64
    } else if v > bounds.1 {
        bounds.1 as i64
    } else {
        v
    }
}

/// The kind the type key moves a write to: a word first also forces the
/// multiple-register request, then becomes a double; a double goes back to
/// a word; a coil stays a coil.
pub open spec fn toggled_kind(write_type: WriteType, force_multiple: bool) -> (WriteType, bool) {
    match write_type {
        WriteType::Word => if force_multiple {
            (WriteType::DWord, false)
        } else {
            (WriteType::Word, true)
        },
        WriteType::DWord => (WriteType::Word, false),
        WriteType::Coil => (WriteType::Coil, force_multiple),
    }
}

/// The number of bits of each kind.
pub open spec fn kind_bits(write_type: WriteType) -> int {
    match write_type {
        WriteType::Coil => 1,
        WriteType::Word => 16,
        WriteType::DWord => 32,
    }
}

impl WriteParams {
    /// Brings the value within what the kind of write can hold.
    pub fn clamp_value(&mut self)
        ensures
            final(self).value == (match old(self).value {
                Some(v) => Some(clamped(v, value_bounds(old(self).write_type))),
                None => None,
            }),
            final(self).position == old(self).position && final(self).write_type == old(self).write_type
                && final(self).bit_cursor == old(self).bit_cursor && final(self).force_multiple
                == old(self).force_multiple && final(self).result == old(self).result,
    {
        if let Some(value) = self.value {
            let (lo, hi): (i64, i64) = match self.write_type {
                WriteType::Coil => (0, 1),
                WriteType::Word => (-32768, 65535),
                WriteType::DWord => (-2147483648, 4294967295),
            };
            let v = if value < lo {
                lo
            } else if value > hi {
                hi
            } else {
                value
            };
            self.value = Some(v);
        }
    }

    /// The type key: moves to the next kind of write, keeps the bit cursor
    /// on a bit of it and the value within it.
    pub fn toggle_type(&mut self)
        ensures
            (final(self).write_type, final(self).force_multiple) == toggled_kind(
                old(self).write_type,
                old(self).force_multiple,
            ),
            final(self).bit_cursor == vstd::math::min(
                old(self).bit_cursor as int,
                kind_bits(final(self).write_type) - 1,
            ),
            final(self).value == (match old(self).value {
                Some(v) => Some(clamped(v, value_bounds(final(self).write_type))),
                None => None,
            }),
            final(self).position == old(self).position && final(self).result == old(self).result,
    {
        match (self.write_type, self.force_multiple) {
            (WriteType::Word, false) => self.force_multiple = true,
            (WriteType::Word, true) => {
                self.write_type = WriteType::DWord;
                self.force_multiple = false;
            },
            (WriteType::DWord, _) => {
                self.write_type = WriteType::Word;
                self.force_multiple = false;
            },
            (WriteType::Coil, _) => {},
        }
        let bits = self.write_type.bits();
        if self.bit_cursor > bits - 1 {
            self.bit_cursor = bits - 1;
        }
        self.clamp_value();
    }

    /// Moves the bit cursor one bit up (left) or down, within the bits of
    /// the kind of write.
    pub fn move_bit(&mut self, left: bool)
        requires
            old(self).bit_cursor < u16::MAX,
        ensures
            final(self).bit_cursor == (if left {
                vstd::math::min(old(self).bit_cursor + 1, kind_bits(old(self).write_type) - 1)
            } else {
                vstd::math::max(old(self).bit_cursor - 1, 0)
            }),
            final(self).value == old(self).value && final(self).write_type == old(self).write_type
                && final(self).position == old(self).position && final(self).force_multiple
                == old(self).force_multiple && final(self).result == old(self).result,
    {
        let bits = self.write_type.bits();
        if left {
            let up = self.bit_cursor + 1;
            self.bit_cursor = if up < bits - 1 {
                up
            } else {
                bits - 1
            };
        } else {
            self.bit_cursor = self.bit_cursor.saturating_sub(1);
        }
    }

    /// Flips the bit under the cursor of the value's low 32 bits, a missing
    /// value counting as 0.
    pub fn toggle_bit(&mut self)
        requires
            old(self).bit_cursor < 32,
        ensures
            final(self).value == Some(
                ((match old(self).value {
                    Some(v) => v,
                    None => 0,
                }) as u32 ^ (1u32 << old(self).bit_cursor)) as i64,
            ),
            final(self).bit_cursor == old(self).bit_cursor && final(self).write_type == old(self).write_type
                && final(self).position == old(self).position && final(self).force_multiple
                == old(self).force_multiple && final(self).result == old(self).result,
    {
        let mask = 1u32 << self.bit_cursor;
        let current = match self.value {
            Some(v) => v as u32,
            None => 0u32,
        };
        self.value = Some((current ^ mask) as i64);
    }
}

/// What the write popup says where it cannot open on a register of `kind`.
pub open spec fn unwritable_text(kind: RegisterType) -> Seq<char> {
    match kind {
        RegisterType::Input => "Input registers are read-only \u{2014} cannot write"@,
        RegisterType::Discrete => "Discrete inputs are read-only \u{2014} cannot write"@,
        _ => "These registers are read-only \u{2014} cannot write"@,
    }
}

/// The kind of write the popup opens with: a coil on a coil, a double where
/// the register's custom rule spans two registers or more, else a word.
pub open spec fn opening_kind(kind: RegisterType, rule_registers: Option<u16>) -> WriteType {
    if kind == RegisterType::Coil {
        WriteType::Coil
    } else if rule_registers matches Some(n) && n >= 2 {
        WriteType::DWord
    } else {
        WriteType::Word
    }
}

/// Opens the write popup on the register `position` of type `kind`: refused,
/// with a warning, where writes are off or the type is read-only; else it
/// starts with the value last read there (`word`, or `dword` for a double),
/// the bit cursor on the top bit. `rule_registers` is how many registers the
/// register's custom rule spans, if it has one.
pub fn open_write(
    read_only: bool,
    kind: RegisterType,
    position: u16,
    rule_registers: Option<u16>,
    word: Option<u16>,
    dword: Option<u32>,
) -> (r: Result<WriteParams, StatusMessage>)
    ensures
        read_only ==> r is Err && r->Err_0.kind == MessageKind::Warn && r->Err_0.text@
            == "Read-only mode is on \u{2014} writes are disabled (toggle in settings)"@,
        !read_only && kind != RegisterType::Holding && kind != RegisterType::Coil ==> r is Err
            && r->Err_0.kind == MessageKind::Warn && r->Err_0.text@ == unwritable_text(kind),
        !read_only && (kind == RegisterType::Holding || kind == RegisterType::Coil) ==> r is Ok && ({
            let w = r->Ok_0;
            let t = opening_kind(kind, rule_registers);
            &&& w.position == position
            &&& w.write_type == t
            &&& w.value == (if t == WriteType::DWord {
                match dword {
                    Some(v) => Some(v as i64),
                    None => None,
                }
            } else {
                match word {
                    Some(v) => Some(v as i64),
                    None => None,
                }
            })
            &&& w.bit_cursor == kind_bits(t) - 1
            &&& !w.force_multiple
            &&& w.result is None
        }),
{
    if read_only {
        return Err(message("Read-only mode is on \u{2014} writes are disabled (toggle in settings)", MessageKind::Warn));
    }
    if !kind.is_writable() {
        let text = match kind {
            RegisterType::Input => "Input registers are read-only \u{2014} cannot write",
            RegisterType::Discrete => "Discrete inputs are read-only \u{2014} cannot write",
            _ => "These registers are read-only \u{2014} cannot write",
        };
        return Err(message(text, MessageKind::Warn));
    }
    let write_type = if kind == RegisterType::Coil {
        WriteType::Coil
    } else {
        match rule_registers {
            Some(n) => if n >= 2 {
                WriteType::DWord
            } else {
                WriteType::Word
            },
            None => WriteType::Word,
        }
    };
    let value = match write_type {
        WriteType::DWord => match dword {
            Some(v) => Some(v as i64),
            None => None,
        },
        _ => match word {
            Some(v) => Some(v as i64),
            None => None,
        },
    };
    let bit_cursor = write_type.bits() - 1;
    Ok(WriteParams { position, result: None, value, write_type, bit_cursor, force_multiple: false })
}

/// The first type the type key cycles to from `t`, looking at most `steps`
/// types ahead (the last one looked at where none is cycled through).
pub open spec fn next_enabled_type(c: CycleTypes, t: RegisterType, steps: nat) -> RegisterType
    decreases steps,
{
    if steps == 0 {
        t
    } else if spec_type_enabled(c, next_type(t)) {
        next_type(t)
    } else {
        next_enabled_type(c, next_type(t), (steps - 1) as nat)
    }
}

/// `t` moved `k` steps along the type cycle.
pub open spec fn turned(t: RegisterType, k: nat) -> RegisterType
    decreases k,
{
    if k == 0 {
        t
    } else {
        next_type(turned(t, (k - 1) as nat))
    }
}

/// The type the type key moves to from `from`: the next one cycled
/// through; `from` itself after a full turn where no other is.
pub fn next_cycle_type(c: &CycleTypes, from: RegisterType) -> (r: RegisterType)
    ensures
        r == next_enabled_type(*c, from, 4),
        r == from || spec_type_enabled(*c, r),
{
    let mut next = from;
    let mut k: usize = 0;
    while k < 4
        invariant
            k <= 4,
            next_enabled_type(*c, next, (4 - k) as nat) == next_enabled_type(*c, from, 4),
            next == turned(from, k as nat),
        decreases 4 - k,
    {
        next.toggle();
        if c.enabled(next) {
            return next;
        }
        k += 1;
        assert(next == turned(from, k as nat));
    }
    proof {
        reveal_with_fuel(next_enabled_type, 2);
        reveal_with_fuel(turned, 5);
        assert(next == from);
    }
    next
}

impl ReadParams {
    /// Shows the registers of type `t`, forgetting the last read's time and
    /// error.
    pub fn switch_type(&mut self, t: RegisterType)
        ensures
            final(self).register_type == t,
            final(self).read_duration is None && final(self).read_error is None,
            final(self).position == old(self).position && final(self).panel == old(self).panel
                && final(self).pinned_index == old(self).pinned_index && final(self).popup == old(self).popup,
    {
        self.read_duration = None;
        self.read_error = None;
        self.register_type = t;
    }
}

/// What a refresh reads: how many registers, from where, and whether the
/// main range (rather than the registers of a list panel).
#[derive(Debug, Clone, Copy, PartialEq, Eq, Structural)]
pub struct RefreshPlan {
    pub amount: u16,
    pub read_start: u16,
    pub read_main: bool,
}

/// The read a refresh makes: one register while a sweep steps past
/// errors, else a batch (at least one); from the cursor while sweeping,
/// else centered on it; within the address range.
pub open spec fn spec_refresh_plan(
    sweeping: bool,
    sweep_errored: bool,
    batch: u16,
    position: u16,
    panel: ReadPanel,
) -> RefreshPlan {
    let amount: u16 = if sweeping && sweep_errored {
        1
    } else if batch >= 1 {
        batch
    } else {
        1
    };
    let max_start = u16::MAX - (amount - 1);
    let start = if sweeping {
        position as int
    } else {
        vstd::math::max(position - amount / 2, 0)
    };
    RefreshPlan {
        amount,
        read_start: vstd::math::min(start, max_start) as u16,
        read_main: sweeping || panel == ReadPanel::Main || panel == ReadPanel::Matrix,
    }
}

/// Plans the read of a refresh.
pub fn plan_refresh(sweeping: bool, sweep_errored: bool, batch: u16, position: u16, panel: ReadPanel) -> (r: RefreshPlan)
    ensures
        r == spec_refresh_plan(sweeping, sweep_errored, batch, position, panel),
        r.amount >= 1,
        r.read_start as int + r.amount - 1 <= u16::MAX,
{
    let amount: u16 = if sweeping && sweep_errored {
        1
    } else if batch >= 1 {
        batch
    } else {
        1
    };
    let max_start = u16::MAX - (amount - 1);
    let start = if sweeping {
        position
    } else {
        position.saturating_sub(amount / 2)
    };
    let read_start = if start < max_start {
        start
    } else {
        max_start
    };
    let read_main = sweeping || panel == ReadPanel::Main || panel == ReadPanel::Matrix;
    RefreshPlan { amount, read_start, read_main }
}

} // verus!
