use vstd::prelude::*;
use crate::text::{dec, push_decimal, push_str};

verus! {

/// The first writable holding register of the simulated meter.
pub const WRITABLE_FIRST: u16 = 50;

/// The last writable holding register of the simulated meter.
pub const WRITABLE_LAST: u16 = 199;

/// Whether the simulated meter takes writes at `addr`.
pub open spec fn is_writable(addr: int) -> bool {
    WRITABLE_FIRST <= addr <= WRITABLE_LAST
}

/// The value a setpoint register holds before anything is written to it.
pub open spec fn default_setpoint(addr: u16) -> u16 {
    if addr == 50 {
        2300
    } else if addr == 51 {
        1500
    } else if addr == 52 {
        15
    } else if addr == 53 {
        1
    } else if addr == 54 {
        100
    } else {
        0
    }
}

/// Register `index` (0 the high one) of a 32-bit value.
pub fn word(value: u32, index: u16) -> (r: u16)
    ensures
        r == (if index == 0 {
            value / 0x1_0000
        } else {
            value % 0x1_0000
        }),
{
    if index == 0 {
        (value / 0x1_0000) as u16
    } else {
        (value % 0x1_0000) as u16
    }
}

/// Register `index` (0 the highest) of a 64-bit value.
pub fn qword(value: u64, index: u16) -> (r: u16)
    requires
        index <= 3,
    ensures
        r == (if index == 0 {
            value / 0x1_0000_0000_0000
        } else if index == 1 {
            (value / 0x1_0000_0000) % 0x1_0000
        } else if index == 2 {
            (value / 0x1_0000) % 0x1_0000
        } else {
            value % 0x1_0000
        }),
{
    if index == 0 {
        (value / 0x1_0000_0000_0000) as u16
    } else if index == 1 {
        ((value / 0x1_0000_0000) % 0x1_0000) as u16
    } else if index == 2 {
        ((value / 0x1_0000) % 0x1_0000) as u16
    } else {
        (value % 0x1_0000) as u16
    }
}

/// Register `index` (0 the high one) of a value split in base 10000: the
/// ten-thousands (below 10000) and the rest.
pub fn m10k(value: u32, index: u16) -> (r: u16)
    ensures
        r == (if index == 0 {
            (value / 10_000) % 10_000
        } else {
            value % 10_000
        }),
        r < 10_000,
{
    if index == 0 {
        ((value / 10_000) % 10_000) as u16
    } else {
        (value % 10_000) as u16
    }
}

/// Whether `a` lies in one of `zones`, each given by its first and last
/// address.
pub open spec fn in_zones(zones: Seq<(u16, u16)>, a: int) -> bool {
    exists|z: int| 0 <= z < zones.len() && (#[trigger] zones[z]).0 <= a <= zones[z].1
}

/// Whether all `count` registers from `addr` on exist (no wrapping past
/// the end of the address range) and lie in one of `zones`.
pub open spec fn spec_mapped(zones: Seq<(u16, u16)>, addr: u16, count: u16) -> bool {
    &&& addr + count <= u16::MAX + 1
    &&& forall|a: int| addr <= a < addr + count ==> #[trigger] in_zones(zones, a)
}

fn zone_holds(zones: &[(u16, u16)], a: u16) -> (r: bool)
    ensures
        r == in_zones(zones@, a as int),
{
    let mut z: usize = 0;
    while z < zones.len()
        invariant
            z <= zones@.len(),
            forall|k: int| 0 <= k < z ==> !((#[trigger] zones@[k]).0 <= a <= zones@[k].1),
        decreases zones@.len() - z,
    {
        if zones[z].0 <= a && a <= zones[z].1 {
            assert(zones@[z as int].0 <= a <= zones@[z as int].1);
            return true;
        }
        z += 1;
    }
    false
}

/// Whether the `count` registers from `addr` on all exist in `zones`.
pub fn mapped(zones: &[(u16, u16)], addr: u16, count: u16) -> (r: bool)
    ensures
        r == spec_mapped(zones@, addr, count),
{
    if addr as u32 + count as u32 > 0x1_0000 {
        return false;
    }
    let mut i: u16 = 0;
    while i < count
        invariant
            i <= count,
            addr + count <= u16::MAX + 1,
            forall|a: int| addr <= a < addr + i ==> #[trigger] in_zones(zones@, a),
        decreases count - i,
    {
        if !zone_holds(zones, addr + i) {
            assert(!in_zones(zones@, addr + i));
            return false;
        }
        i += 1;
    }
    true
}

/// The setpoints of the simulated meter: what was written to its writable
/// registers, and how many writes it accepted.
pub struct MockSetpoints {
    written: Vec<Option<u16>>,
    write_count: u16,
}

impl MockSetpoints {
    /// What was written to each writable register, from the first on.
    pub closed spec fn written_view(&self) -> Seq<Option<u16>> {
        self.written@
    }

    /// The writes accepted so far, counted modulo 65536.
    pub closed spec fn count_view(&self) -> u16 {
        self.write_count
    }

    /// One slot per writable register.
    #[verifier::type_invariant]
    closed spec fn wf(&self) -> bool {
        self.written_view().len() == WRITABLE_LAST - WRITABLE_FIRST + 1
    }

    /// The value register `addr` holds: what was last written there, else
    /// its default.
    pub open spec fn spec_setpoint(&self, addr: u16) -> u16 {
        if is_writable(addr as int) {
            match self.written_view()[addr - WRITABLE_FIRST] {
                Some(v) => v,
                None => default_setpoint(addr),
            }
        } else {
            default_setpoint(addr)
        }
    }

    /// Setpoints with nothing written.
    pub fn new() -> (r: Self)
        ensures
            r.count_view() == 0,
            forall|addr: u16| r.spec_setpoint(addr) == default_setpoint(addr),
    {
        let mut written: Vec<Option<u16>> = Vec::new();
        let mut i: usize = 0;
        while i < 150
            invariant
                i <= 150,
                written@.len() == i,
                forall|k: int| 0 <= k < i ==> written@[k] is None,
            decreases 150 - i,
        {
            written.push(None);
            i += 1;
        }
        MockSetpoints { written, write_count: 0 }
    }

    /// The value register `addr` holds.
    pub fn setpoint(&self, addr: u16) -> (r: u16)
        ensures
            r == self.spec_setpoint(addr),
    {
        proof {
            use_type_invariant(self);
        }
        let default: u16 = if addr == 50 {
            2300
        } else if addr == 51 {
            1500
        } else if addr == 52 {
            15
        } else if addr == 53 {
            1
        } else if addr == 54 {
            100
        } else {
            0
        };
        if WRITABLE_FIRST <= addr && addr <= WRITABLE_LAST {
            match self.written[(addr - WRITABLE_FIRST) as usize] {
                Some(v) => v,
                None => default,
            }
        } else {
            default
        }
    }

    /// How many writes were accepted, modulo 65536.
    pub fn write_count(&self) -> (r: u16)
        ensures
            r == self.count_view(),
    {
        self.write_count
    }

    /// Writes `value` to register `addr` where it is writable and counts the
    /// write; refuses it, changing nothing, elsewhere.
    pub fn write_single(&mut self, addr: u16, value: u16) -> (accepted: bool)
        ensures
            accepted == is_writable(addr as int),
            accepted ==> final(self).spec_setpoint(addr) == value,
            accepted ==> final(self).count_view() == (old(self).count_view() + 1) % 0x1_0000,
            forall|other: u16|
                other != addr ==> #[trigger] final(self).spec_setpoint(other) == old(
                    self,
                ).spec_setpoint(other),
            !accepted ==> final(self).written_view() == old(self).written_view()
                && final(self).count_view() == old(self).count_view(),
    {
        proof {
            use_type_invariant(&*self);
        }
        if !(WRITABLE_FIRST <= addr && addr <= WRITABLE_LAST) {
            return false;
        }
        let mut written: Vec<Option<u16>> = crate::custom::copy_items(&self.written);
        written.set((addr - WRITABLE_FIRST) as usize, Some(value));
        self.written = written;
        self.write_count = if self.write_count == u16::MAX {
            0
        } else {
            self.write_count + 1
        };
        true
    }

    /// Writes `values` to the registers from `addr` on, counted as one write,
    /// where every one of them is writable; refuses the whole write, changing
    /// nothing, where one is not.
    pub fn write_multiple(&mut self, addr: u16, values: &[u16]) -> (accepted: bool)
        requires
            values@.len() <= u16::MAX,
        ensures
            accepted == forall|i: int|
                0 <= i < values@.len() ==> #[trigger] is_writable(addr + i),
            accepted ==> forall|i: int|
                0 <= i < values@.len() ==> final(self).spec_setpoint((addr + i) as u16)
                    == #[trigger] values@[i],
            accepted ==> final(self).count_view() == (old(self).count_view() + 1) % 0x1_0000,
            accepted ==> forall|other: u16|
                !(addr <= other < addr + values@.len()) ==> #[trigger] final(self).spec_setpoint(
                    other,
                ) == old(self).spec_setpoint(other),
            !accepted ==> final(self).written_view() == old(self).written_view()
                && final(self).count_view() == old(self).count_view(),
    {
        proof {
            use_type_invariant(&*self);
        }
        let n = values.len();
        let mut i: usize = 0;
        while i < n
            invariant
                i <= n,
                n == values@.len(),
                n <= u16::MAX,
                *self == *old(self),
                old(self).written@.len() == 150,
                forall|k: int| 0 <= k < i ==> #[trigger] is_writable(addr + k),
            decreases n - i,
        {
            let a = addr as usize + i;
            if !(WRITABLE_FIRST as usize <= a && a <= WRITABLE_LAST as usize) {
                assert(!is_writable(addr + i));
                return false;
            }
            i += 1;
        }
        let ghost before = self.written_view();
        let mut written: Vec<Option<u16>> = crate::custom::copy_items(&self.written);
        let mut j: usize = 0;
        while j < n
            invariant
                j <= n,
                n == values@.len(),
                n <= u16::MAX,
                written@.len() == before.len(),
                before.len() == 150,
                forall|k: int| 0 <= k < n ==> #[trigger] is_writable(addr + k),
                forall|k: int|
                    0 <= k < 150 ==> #[trigger] written@[k] == (if addr - 50 <= k < addr - 50 + j {
                        Some(values@[k - (addr - 50)])
                    } else {
                        before[k]
                    }),
            decreases n - j,
        {
            assert(is_writable(addr + j));
            let slot = addr as usize + j - 50;
            written.set(slot, Some(values[j]));
            j += 1;
        }
        self.written = written;
        self.write_count = if self.write_count == u16::MAX {
            0
        } else {
            self.write_count + 1
        };
        proof {
            assert forall|i: int| 0 <= i < values@.len() implies self.spec_setpoint((addr + i) as u16)
                == #[trigger] values@[i] by {
                assert(is_writable(addr + i));
                assert(self.written@[addr + i - 50] == Some(values@[i]));
            }
            assert forall|other: u16| !(addr <= other < addr + values@.len()) implies #[trigger] self.spec_setpoint(
                other,
            ) == old(self).spec_setpoint(other) by {
                if is_writable(other as int) {
                    assert(self.written@[other - 50] == before[other - 50]);
                }
            }
        }
        true
    }
}

/// The model name the meter reports, as ASCII bytes.
pub open spec fn model_name() -> Seq<u8> {
    seq![77u8, 84u8, 85u8, 73u8, 32u8, 83u8, 73u8, 77u8, 85u8, 76u8, 65u8, 84u8, 79u8, 82u8, 32u8, 32u8]
}

/// The vendor name the meter reports, as ASCII bytes.
pub open spec fn vendor_name() -> Seq<u8> {
    seq![32u8, 32u8, 32u8, 32u8, 32u8, 32u8, 80u8, 79u8, 87u8, 69u8, 82u8, 32u8, 66u8, 85u8, 83u8, 32u8, 83u8, 73u8, 77u8, 85u8, 76u8, 65u8, 84u8, 79u8, 82u8, 33u8, 32u8, 32u8, 32u8, 32u8, 32u8, 32u8]
}

/// Register `i` of a text: its bytes `2i` and `2i + 1`, the first high.
pub open spec fn text_register(text: Seq<u8>, i: int) -> u16 {
    (text[2 * i] * 256 + text[2 * i + 1]) as u16
}

/// Register `index` (0 the high one) of a 32-bit value.
pub open spec fn word_of(value: u32, index: int) -> u16 {
    (if index == 0 { value / 0x1_0000 } else { value % 0x1_0000 }) as u16
}

/// Register `index` (0 the high one) of a value split in base 10000.
pub open spec fn m10k_of(value: u32, index: int) -> u16 {
    (if index == 0 { (value / 10_000) % 10_000 } else { value % 10_000 }) as u16
}

/// What the holding registers read from the meter's running time, which
/// only floating point computes.
#[derive(Debug, Clone, Copy, PartialEq, Eq, Structural)]
pub struct MeterClock {
    /// Seconds since start, as `u32` and as `u16`.
    pub seconds: u32,
    pub seconds_u16: u16,
    /// The energy counter in Wh.
    pub energy_wh: u32,
    /// The active tariff, 0 to 3.
    pub tariff: u16,
    /// The peak current: 1.15 times setpoint 51.
    pub current_peak: u16,
    /// The status word (bit 0 run, 1 grid, 2 warning, 15 heartbeat).
    pub status: u16,
    /// The alarm count.
    pub alarms: u16,
}

/// The tariff rates, per thousand.
pub open spec fn tariff_rate(i: int) -> int {
    if i == 0 { 120 } else if i == 1 { 180 } else if i == 2 { 90 } else { 240 }
}

/// The event codes of the event log.
pub open spec fn event_code(i: int) -> int {
    if i == 0 { 3 } else if i == 1 { 7 } else if i == 2 { 2 } else { 9 }
}

/// Whether reading `addr` stays within `u16` arithmetic: the voltage and
/// current limits add setpoints.
pub open spec fn holding_fits(sp: MockSetpoints, addr: u16, c: MeterClock) -> bool {
    &&& 300 <= addr <= 302 ==> sp.spec_setpoint(52) + 8 + 3 * (addr - 300) <= u16::MAX
    &&& 303 <= addr <= 305 ==> sp.spec_setpoint(50) + sp.spec_setpoint(52) + 8 + 3 * (addr - 303) <= u16::MAX
    &&& 306 <= addr <= 308 ==> c.current_peak + 9 * (addr - 306) <= u16::MAX
}

/// The holding register `addr` of the meter with unit id `unit`: the
/// setpoints; the model name; the firmware version 1.42; a serial number
/// from the unit id; the unit id; the uptime; the map version and phase
/// count 3; the vendor name; the calibration gains; the tariff rates and
/// the active tariff; the voltage and current limits; the event log; the
/// energy, the on-time and the write count at 1000 on, the energy split in
/// base 10000 after them; the status word and the alarm count; 0 elsewhere.
pub open spec fn spec_holding_register(sp: MockSetpoints, unit: u8, addr: u16, c: MeterClock) -> u16 {
    if WRITABLE_FIRST <= addr <= WRITABLE_LAST {
        sp.spec_setpoint(addr)
    } else if addr <= 7 {
        text_register(model_name(), addr as int)
    } else if addr == 8 {
        0x0142
    } else if addr == 9 || addr == 10 {
        word_of((24_000_000 + 1_111 * unit) as u32, addr - 9)
    } else if addr == 11 {
        unit as u16
    } else if addr == 12 || addr == 13 {
        word_of(c.seconds, addr - 12)
    } else if addr == 14 || addr == 15 {
        3
    } else if 200 <= addr <= 215 {
        text_register(vendor_name(), addr - 200)
    } else if 216 <= addr <= 218 {
        (10_000 + 7 * unit + 13 * (addr - 216)) as u16
    } else if 250 <= addr <= 253 {
        (tariff_rate(addr - 250) + unit) as u16
    } else if addr == 254 {
        c.tariff
    } else if 300 <= addr <= 302 {
        let low = sp.spec_setpoint(52) + 8 + 3 * (addr - 300);
        (if sp.spec_setpoint(50) >= low { sp.spec_setpoint(50) - low } else { 0 }) as u16
    } else if 303 <= addr <= 305 {
        (sp.spec_setpoint(50) + sp.spec_setpoint(52) + 8 + 3 * (addr - 303)) as u16
    } else if 306 <= addr <= 308 {
        (c.current_peak + 9 * (addr - 306)) as u16
    } else if 320 <= addr <= 327 {
        let n = (addr - 320) / 2;
        if (addr - 320) % 2 == 0 {
            event_code(n) as u16
        } else {
            ((c.seconds_u16 + 137 * (n + 1)) % 0x1_0000) as u16
        }
    } else if addr == 1000 || addr == 1001 {
        word_of(c.energy_wh, addr - 1000)
    } else if addr == 1002 || addr == 1003 {
        word_of(c.seconds, addr - 1002)
    } else if addr == 1004 {
        sp.count_view()
    } else if addr == 1005 || addr == 1006 {
        m10k_of(c.energy_wh, addr - 1005)
    } else if addr == 1100 {
        c.status
    } else if addr == 1101 {
        c.alarms
    } else {
        0
    }
}

/// The holding register `addr` of the meter; what depends on the running
/// time is given in `c`.
pub fn holding_register(sp: &MockSetpoints, unit: u8, addr: u16, c: MeterClock) -> (r: u16)
    requires
        holding_fits(*sp, addr, c),
    ensures
        r == spec_holding_register(*sp, unit, addr, c),
{
    if WRITABLE_FIRST <= addr && addr <= WRITABLE_LAST {
        sp.setpoint(addr)
    } else if addr <= 7 {
        let name: [u8; 16] = [77u8, 84u8, 85u8, 73u8, 32u8, 83u8, 73u8, 77u8, 85u8, 76u8, 65u8, 84u8, 79u8, 82u8, 32u8, 32u8];
        assert(name@ =~= model_name());
        let i = (addr * 2) as usize;
        name[i] as u16 * 256 + name[i + 1] as u16
    } else if addr == 8 {
        0x0142
    } else if addr == 9 || addr == 10 {
        word(24_000_000 + 1_111 * unit as u32, addr - 9)
    } else if addr == 11 {
        unit as u16
    } else if addr == 12 || addr == 13 {
        word(c.seconds, addr - 12)
    } else if addr == 14 || addr == 15 {
        3
    } else if 200 <= addr && addr <= 215 {
        let name: [u8; 32] = [32u8, 32u8, 32u8, 32u8, 32u8, 32u8, 80u8, 79u8, 87u8, 69u8, 82u8, 32u8, 66u8, 85u8, 83u8, 32u8, 83u8, 73u8, 77u8, 85u8, 76u8, 65u8, 84u8, 79u8, 82u8, 33u8, 32u8, 32u8, 32u8, 32u8, 32u8, 32u8];
        assert(name@ =~= vendor_name());
        let i = ((addr - 200) * 2) as usize;
        name[i] as u16 * 256 + name[i + 1] as u16
    } else if 216 <= addr && addr <= 218 {
        10_000 + 7 * unit as u16 + 13 * (addr - 216)
    } else if 250 <= addr && addr <= 253 {
        let rate: u16 = if addr == 250 { 120 } else if addr == 251 { 180 } else if addr == 252 { 90 } else { 240 };
        rate + unit as u16
    } else if addr == 254 {
        c.tariff
    } else if 300 <= addr && addr <= 302 {
        let v = sp.setpoint(50);
        let low = sp.setpoint(52) + 8 + 3 * (addr - 300);
        v.saturating_sub(low)
    } else if 303 <= addr && addr <= 305 {
        sp.setpoint(50) + sp.setpoint(52) + 8 + 3 * (addr - 303)
    } else if 306 <= addr && addr <= 308 {
        c.current_peak + 9 * (addr - 306)
    } else if 320 <= addr && addr <= 327 {
        let n = (addr - 320) / 2;
        if (addr - 320) % 2 == 0 {
            if n == 0 { 3 } else if n == 1 { 7 } else if n == 2 { 2 } else { 9 }
        } else {
            c.seconds_u16.wrapping_add(137 * (n + 1))
        }
    } else if addr == 1000 || addr == 1001 {
        word(c.energy_wh, addr - 1000)
    } else if addr == 1002 || addr == 1003 {
        word(c.seconds, addr - 1002)
    } else if addr == 1004 {
        sp.write_count()
    } else if addr == 1005 || addr == 1006 {
        m10k(c.energy_wh, addr - 1005)
    } else if addr == 1100 {
        c.status
    } else if addr == 1101 {
        c.alarms
    } else {
        0
    }
}

/// Unit ids 0 to 9 answer; any other stays silent, as an absent device on
/// a real bus.
pub fn answers(unit: u8) -> (r: bool)
    ensures
        r == (unit <= 9),
{
    unit <= 9
}

/// The refusals of the simulated meter.
#[derive(Debug, Clone, Copy, PartialEq, Eq, Structural)]
pub enum MockRefusal {
    IllegalFunction,
    IllegalDataAddress,
}

/// The requests the simulated meter tells apart.
#[derive(Debug, Clone, Copy, PartialEq, Eq, Structural)]
pub enum MockRequest {
    ReadHolding(u16, u16),
    ReadInput(u16, u16),
    WriteSingle(u16),
    /// The first address and the number of registers.
    WriteMultiple(u16, u16),
    DeviceId,
    Custom,
    Other,
}

/// The holding register ranges that are mapped.
pub open spec fn holding_zones() -> Seq<(u16, u16)> {
    seq![(0u16, 499u16), (1000u16, 1199u16)]
}

/// The input register range that is mapped.
pub open spec fn input_zones() -> Seq<(u16, u16)> {
    seq![(0u16, 499u16)]
}

/// Whether the `n` registers from `a` on are all writable.
pub open spec fn all_writable(a: u16, n: u16) -> bool {
    forall|i: int| 0 <= i < n ==> #[trigger] is_writable(a + i)
}

/// How the meter refuses a request, if it does: reads outside the mapped
/// registers and writes outside the writable ones name an illegal address,
/// requests it does not know an illegal function.
pub open spec fn spec_refusal(req: MockRequest) -> Option<MockRefusal> {
    match req {
        MockRequest::ReadHolding(a, n) => if spec_mapped(holding_zones(), a, n) {
            None
        } else {
            Some(MockRefusal::IllegalDataAddress)
        },
        MockRequest::ReadInput(a, n) => if spec_mapped(input_zones(), a, n) {
            None
        } else {
            Some(MockRefusal::IllegalDataAddress)
        },
        MockRequest::WriteSingle(a) => if is_writable(a as int) {
            None
        } else {
            Some(MockRefusal::IllegalDataAddress)
        },
        MockRequest::WriteMultiple(a, n) => if all_writable(a, n) {
            None
        } else {
            Some(MockRefusal::IllegalDataAddress)
        },
        MockRequest::DeviceId | MockRequest::Custom => None,
        MockRequest::Other => Some(MockRefusal::IllegalFunction),
    }
}

/// Decides whether the meter refuses a request.
pub fn refusal(req: MockRequest) -> (r: Option<MockRefusal>)
    ensures
        r == spec_refusal(req),
{
    match req {
        MockRequest::ReadHolding(a, n) => {
            let zones = [(0u16, 499u16), (1000u16, 1199u16)];
            assert(zones@ =~= holding_zones());
            if mapped(&zones, a, n) { None } else { Some(MockRefusal::IllegalDataAddress) }
        },
        MockRequest::ReadInput(a, n) => {
            let zones = [(0u16, 499u16)];
            assert(zones@ =~= input_zones());
            if mapped(&zones, a, n) { None } else { Some(MockRefusal::IllegalDataAddress) }
        },
        MockRequest::WriteSingle(a) => if WRITABLE_FIRST <= a && a <= WRITABLE_LAST {
            None
        } else {
            Some(MockRefusal::IllegalDataAddress)
        },
        MockRequest::WriteMultiple(a, n) => {
            let mut i: u16 = 0;
            while i < n
                invariant
                    i <= n,
                    req == MockRequest::WriteMultiple(a, n),
                    forall|k: int| 0 <= k < i ==> #[trigger] is_writable(a + k),
                decreases n - i,
            {
                let x = a as u32 + i as u32;
                if !(WRITABLE_FIRST as u32 <= x && x <= WRITABLE_LAST as u32) {
                    assert(!is_writable(a + i));
                    assert(!all_writable(a, n)) by {
                        let k = i as int;
                        assert(0 <= k < n && !is_writable(a + k));
                    }
                    assert(spec_refusal(req) == Some(MockRefusal::IllegalDataAddress));
                    return Some(MockRefusal::IllegalDataAddress);
                }
                i += 1;
            }
            assert(all_writable(a, n));
            None
        },
        MockRequest::DeviceId | MockRequest::Custom => None,
        MockRequest::Other => Some(MockRefusal::IllegalFunction),
    }
}

/// What the input registers read, all computed with floating point from
/// the running time: the values of the registers that hold one number
/// each, and the values that span several registers.
#[derive(Debug, Clone, Copy, PartialEq, Eq)]
pub struct InputReadings {
    /// Registers 0 to 7: voltages, currents, frequency, temperature.
    pub low: [u16; 8],
    /// The active power in kW as the bits of an `f32` (registers 8, 9).
    pub power_bits: u32,
    /// The power factor as the bits of an `f32` (registers 10, 11).
    pub pf_bits: u32,
    /// The apparent power in VA (registers 12, 13).
    pub apparent_va: u32,
    /// The reactive power in var, as its 32 bits (registers 14, 15).
    pub reactive_var: u32,
    /// The energy in Wh (registers 16, 17 in base 10000).
    pub energy_wh: u32,
    /// The energy in kWh as the bits of an `f64` (registers 20 to 23).
    pub kwh_bits: u64,
    /// Registers 30 to 53: clock, test signals, per-phase values.
    pub signals: [u16; 24],
    /// The demand and the peak demand (registers 60, 61).
    pub demand: u16,
    pub peak_demand: u16,
    /// The time of the peak demand (registers 62, 63).
    pub peak_time: u32,
    /// The waveform snapshot (100 to 131), harmonics (140 to 155), hourly
    /// profile (200 to 223) and counters (400 to 431).
    pub waveform: [u16; 32],
    pub harmonics: [u16; 16],
    pub profile: [u16; 24],
    pub counters: [u16; 32],
}

/// Register `index` (0 the highest) of a 64-bit value.
pub open spec fn qword_of(value: u64, index: int) -> u16 {
    (if index == 0 {
        value / 0x1_0000_0000_0000
    } else if index == 1 {
        (value / 0x1_0000_0000) % 0x1_0000
    } else if index == 2 {
        (value / 0x1_0000) % 0x1_0000
    } else {
        value % 0x1_0000
    }) as u16
}

/// The input register `addr` of the meter: each reading at its place in
/// the register map, the wide ones split high register first; 0 where no
/// reading is mapped.
pub open spec fn spec_input_register(addr: u16, r: InputReadings) -> u16 {
    if addr <= 7 {
        r.low@[addr as int]
    } else if addr == 8 || addr == 9 {
        word_of(r.power_bits, addr - 8)
    } else if addr == 10 || addr == 11 {
        word_of(r.pf_bits, addr - 10)
    } else if addr == 12 || addr == 13 {
        word_of(r.apparent_va, addr - 12)
    } else if addr == 14 || addr == 15 {
        word_of(r.reactive_var, addr - 14)
    } else if addr == 16 || addr == 17 {
        m10k_of(r.energy_wh, addr - 16)
    } else if 20 <= addr <= 23 {
        qword_of(r.kwh_bits, addr - 20)
    } else if 30 <= addr <= 53 {
        r.signals@[addr - 30]
    } else if addr == 60 {
        r.demand
    } else if addr == 61 {
        r.peak_demand
    } else if addr == 62 || addr == 63 {
        word_of(r.peak_time, addr - 62)
    } else if 100 <= addr <= 131 {
        r.waveform@[addr - 100]
    } else if 140 <= addr <= 155 {
        r.harmonics@[addr - 140]
    } else if 200 <= addr <= 223 {
        r.profile@[addr - 200]
    } else if 400 <= addr <= 431 {
        r.counters@[addr - 400]
    } else {
        0
    }
}

/// The input register `addr` of the meter.
pub fn input_register(addr: u16, r: &InputReadings) -> (v: u16)
    ensures
        v == spec_input_register(addr, *r),
{
    if addr <= 7 {
        r.low[addr as usize]
    } else if addr == 8 || addr == 9 {
        word(r.power_bits, addr - 8)
    } else if addr == 10 || addr == 11 {
        word(r.pf_bits, addr - 10)
    } else if addr == 12 || addr == 13 {
        word(r.apparent_va, addr - 12)
    } else if addr == 14 || addr == 15 {
        word(r.reactive_var, addr - 14)
    } else if addr == 16 || addr == 17 {
        m10k(r.energy_wh, addr - 16)
    } else if 20 <= addr && addr <= 23 {
        qword(r.kwh_bits, addr - 20)
    } else if 30 <= addr && addr <= 53 {
        r.signals[(addr - 30) as usize]
    } else if addr == 60 {
        r.demand
    } else if addr == 61 {
        r.peak_demand
    } else if addr == 62 || addr == 63 {
        word(r.peak_time, addr - 62)
    } else if 100 <= addr && addr <= 131 {
        r.waveform[(addr - 100) as usize]
    } else if 140 <= addr && addr <= 155 {
        r.harmonics[(addr - 140) as usize]
    } else if 200 <= addr && addr <= 223 {
        r.profile[(addr - 200) as usize]
    } else if 400 <= addr && addr <= 431 {
        r.counters[(addr - 400) as usize]
    } else {
        0
    }
}

/// How much identification a device-identification request asks for.
#[derive(Debug, Clone, Copy, PartialEq, Eq, Structural)]
pub enum IdReadCode {
    Basic,
    Regular,
    Extended,
    Specific,
}

/// The identification objects of meter `unit`: vendor, product code,
/// version, URL, product name, model, user application name, and a
/// private object.
pub open spec fn id_objects(unit: u8) -> Seq<(u8, Seq<char>)> {
    seq![
        (0u8, "POWER BUS SIMULATOR"@),
        (1u8, "MTUI-SIM"@),
        (2u8, "v1.42"@),
        (3u8, "https://github.com/inowattio/mtui"@),
        (4u8, "MTUI Simulator"@),
        (5u8, "MTUI SIMULATOR"@),
        (6u8, "Power Bus Sim Slave "@ + dec(unit as nat)),
        (7u8, " TF2! "@),
    ]
}

/// The objects a device-identification request gets: the basic ones
/// (ids up to 2), all of them, or the one asked for; asking for an object
/// that does not exist is an illegal address.
pub open spec fn spec_id_answer(unit: u8, code: IdReadCode, object: u8) -> Result<Seq<(u8, Seq<char>)>, MockRefusal> {
    match code {
        IdReadCode::Basic => Ok(id_objects(unit).take(3)),
        IdReadCode::Regular | IdReadCode::Extended => Ok(id_objects(unit)),
        IdReadCode::Specific => if object <= 7 {
            Ok(seq![id_objects(unit)[object as int]])
        } else {
            Err(MockRefusal::IllegalDataAddress)
        },
    }
}

fn id_object(unit: u8, id: u8) -> (r: String)
    requires
        id <= 7,
    ensures
        r@ == id_objects(unit)[id as int].1,
{
    let mut s = String::new();
    if id == 0 {
        push_str(&mut s, "POWER BUS SIMULATOR");
    } else if id == 1 {
        push_str(&mut s, "MTUI-SIM");
    } else if id == 2 {
        push_str(&mut s, "v1.42");
    } else if id == 3 {
        push_str(&mut s, "https://github.com/inowattio/mtui");
    } else if id == 4 {
        push_str(&mut s, "MTUI Simulator");
    } else if id == 5 {
        push_str(&mut s, "MTUI SIMULATOR");
    } else if id == 6 {
        push_str(&mut s, "Power Bus Sim Slave ");
        push_decimal(&mut s, unit as u64);
    } else {
        push_str(&mut s, " TF2! ");
    }
    s
}

/// Answers a device-identification request of meter `unit`.
pub fn id_answer(unit: u8, code: IdReadCode, object: u8) -> (r: Result<Vec<(u8, String)>, MockRefusal>)
    ensures
        match spec_id_answer(unit, code, object) {
            Ok(objs) => r matches Ok(v) && v@.len() == objs.len() && forall|k: int|
                0 <= k < objs.len() ==> (#[trigger] v@[k]).0 == objs[k].0 && v@[k].1@ == objs[k].1,
            Err(e) => r == Err::<Vec<(u8, String)>, MockRefusal>(e),
        },
{
    let last: u8 = match code {
        IdReadCode::Basic => 2,
        IdReadCode::Regular | IdReadCode::Extended => 7,
        IdReadCode::Specific => {
            if object > 7 {
                return Err(MockRefusal::IllegalDataAddress);
            }
            let mut v: Vec<(u8, String)> = Vec::new();
            v.push((object, id_object(unit, object)));
            return Ok(v);
        },
    };
    let mut v: Vec<(u8, String)> = Vec::new();
    let mut id: u8 = 0;
    while id <= last
        invariant
            last <= 7,
            id <= last + 1,
            v@.len() == id,
            forall|k: int| 0 <= k < id ==> (#[trigger] v@[k]).0 == id_objects(unit)[k].0 && v@[k].1@ == id_objects(unit)[k].1,
        decreases last + 1 - id,
    {
        v.push((id, id_object(unit, id)));
        id += 1;
    }
    Ok(v)
}

} // verus!
