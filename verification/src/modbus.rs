use vstd::prelude::*;

verus! {

/// Where a Modbus device is reached.
#[derive(Clone, Debug, PartialEq)]
pub enum Interface {
    Wired(InterfaceWiredParams),
    Network(InterfaceNetworkParams),
    RtuOverTcp(InterfaceNetworkParams),
    Mock,
}

#[derive(Debug, Clone, Copy, PartialEq, Eq, Structural)]
pub enum DataBits {
    Five,
    Six,
    Seven,
    Eight,
}

#[derive(Debug, Clone, Copy, PartialEq, Eq, Structural)]
pub enum Parity {
    NoParity,
    Odd,
    Even,
}

#[derive(Debug, Clone, Copy, PartialEq, Eq, Structural)]
pub enum StopBits {
    One,
    Two,
}

pub open spec fn data_bits_code(d: DataBits) -> u8 {
    match d {
        DataBits::Five => 5,
        DataBits::Six => 6,
        DataBits::Seven => 7,
        DataBits::Eight => 8,
    }
}

pub open spec fn parity_code(p: Parity) -> u8 {
    match p {
        Parity::NoParity => 0,
        Parity::Odd => 1,
        Parity::Even => 2,
    }
}

pub open spec fn stop_bits_code(s: StopBits) -> u8 {
    match s {
        StopBits::One => 1,
        StopBits::Two => 2,
    }
}

impl DataBits {
    pub const ALL: [DataBits; 4] = [DataBits::Five, DataBits::Six, DataBits::Seven, DataBits::Eight];

    /// The number of data bits.
    pub fn code(self) -> (r: u8)
        ensures
            r == data_bits_code(self),
    {
        match self {
            DataBits::Five => 5,
            DataBits::Six => 6,
            DataBits::Seven => 7,
            DataBits::Eight => 8,
        }
    }

    /// The setting with `code` data bits, or an error for any other number.
    pub fn from_code(code: u8) -> (r: Result<DataBits, &'static str>)
        ensures
            (5 <= code <= 8) <==> r is Ok,
            r matches Ok(d) ==> data_bits_code(d) == code,
    {
        match code {
            5 => Ok(DataBits::Five),
            6 => Ok(DataBits::Six),
            7 => Ok(DataBits::Seven),
            8 => Ok(DataBits::Eight),
            _ => Err("Failed to parse data bits"),
        }
    }
}

impl Parity {
    pub const ALL: [Parity; 3] = [Parity::NoParity, Parity::Odd, Parity::Even];

    /// The numeric code of the parity setting: 0 none, 1 odd, 2 even.
    pub fn code(self) -> (r: u8)
        ensures
            r == parity_code(self),
    {
        match self {
            Parity::NoParity => 0,
            Parity::Odd => 1,
            Parity::Even => 2,
        }
    }

    pub fn from_code(code: u8) -> (r: Result<Parity, &'static str>)
        ensures
            (code <= 2) <==> r is Ok,
            r matches Ok(p) ==> parity_code(p) == code,
    {
        match code {
            0 => Ok(Parity::NoParity),
            1 => Ok(Parity::Odd),
            2 => Ok(Parity::Even),
            _ => Err("Failed to parse parity"),
        }
    }
}

impl StopBits {
    pub const ALL: [StopBits; 2] = [StopBits::One, StopBits::Two];

    /// The number of stop bits.
    pub fn code(self) -> (r: u8)
        ensures
            r == stop_bits_code(self),
    {
        match self {
            StopBits::One => 1,
            StopBits::Two => 2,
        }
    }

    pub fn from_code(code: u8) -> (r: Result<StopBits, &'static str>)
        ensures
            (1 <= code <= 2) <==> r is Ok,
            r matches Ok(s) ==> stop_bits_code(s) == code,
    {
        match code {
            1 => Ok(StopBits::One),
            2 => Ok(StopBits::Two),
            _ => Err("Failed to parse stop bits"),
        }
    }
}

/// Every serial setting reads back from its own code.
pub proof fn lemma_serial_codes_round_trip(d: DataBits, p: Parity, s: StopBits)
    ensures
        5 <= data_bits_code(d) <= 8,
        parity_code(p) <= 2,
        1 <= stop_bits_code(s) <= 2,
        forall|d2: DataBits| data_bits_code(d2) == data_bits_code(d) ==> d2 == d,
        forall|p2: Parity| parity_code(p2) == parity_code(p) ==> p2 == p,
        forall|s2: StopBits| stop_bits_code(s2) == stop_bits_code(s) ==> s2 == s,
{
}

#[derive(Clone, Debug, PartialEq)]
pub struct InterfaceWiredParams {
    pub path: String,
    pub baud_rate: u32,
    pub data_bits: DataBits,
    pub parity: Parity,
    pub stop_bits: StopBits,
}

#[derive(Clone, Debug, PartialEq)]
pub struct InterfaceNetworkParams {
    pub ip: String,
    pub port: u16,
}

/// How to reach a device and how to talk to it.
#[derive(Clone, Debug, PartialEq)]
pub struct DeviceConfig {
    pub interface: Interface,
    pub slave_id: u8,
    pub timeout_connect_ms: u64,
    pub timeout_command_ms: u64,
    pub time_between_commands_ms: u64,
    pub word_order: WordOrder,
}

impl Default for DeviceConfig {
    fn default() -> (r: Self)
        ensures
            r.interface == Interface::Mock,
            r.slave_id == 0,
            r.timeout_connect_ms == 1000,
            r.timeout_command_ms == 2000,
            r.time_between_commands_ms == 0,
            r.word_order == WordOrder::ABCD,
    {
        DeviceConfig {
            interface: Interface::Mock,
            slave_id: 0,
            timeout_connect_ms: 1000,
            timeout_command_ms: 2000,
            time_between_commands_ms: 0,
            word_order: WordOrder::ABCD,
        }
    }
}

/// The order in which the bytes of consecutive registers form a wider value.
/// The letters name the bytes of two registers `AB`, `CD` from most to least
/// significant.
#[allow(non_camel_case_types)]
#[derive(Debug, Clone, Copy, PartialEq, Eq, Structural)]
pub enum WordOrder {
    ABCD,
    BADC,
    CDAB,
    DCBA,
}

impl Default for WordOrder {
    fn default() -> (r: Self)
        ensures
            r == WordOrder::ABCD,
    {
        WordOrder::ABCD
    }
}

/// Whether the order swaps the bytes inside each register, and whether it
/// swaps the registers.
pub open spec fn spec_swaps(order: WordOrder) -> (bool, bool) {
    match order {
        WordOrder::ABCD => (false, false),
        WordOrder::BADC => (true, false),
        WordOrder::CDAB => (false, true),
        WordOrder::DCBA => (true, true),
    }
}

/// The two bytes of a 16-bit value exchanged.
pub open spec fn swap16(x: u16) -> u16 {
    ((x % 0x100) * 0x100 + x / 0x100) as u16
}

/// The four bytes of a 32-bit value in reverse order.
pub open spec fn swap32(x: u32) -> u32 {
    ((x % 0x100) * 0x100_0000 + ((x / 0x100) % 0x100) * 0x1_0000 + ((x / 0x1_0000) % 0x100)
        * 0x100 + x / 0x100_0000) as u32
}

/// The high and low halves after applying the order to two 16-bit parts.
pub open spec fn ordered16(order: WordOrder, a: u16, b: u16) -> (u16, u16) {
    let (byte_swap, word_swap) = spec_swaps(order);
    let (high, low) = if word_swap {
        (b, a)
    } else {
        (a, b)
    };
    if byte_swap {
        (swap16(high), swap16(low))
    } else {
        (high, low)
    }
}

/// The high and low halves after applying the order to two 32-bit parts.
pub open spec fn ordered32(order: WordOrder, a: u32, b: u32) -> (u32, u32) {
    let (byte_swap, word_swap) = spec_swaps(order);
    let (high, low) = if word_swap {
        (b, a)
    } else {
        (a, b)
    };
    if byte_swap {
        (swap32(high), swap32(low))
    } else {
        (high, low)
    }
}

pub open spec fn spec_make_word(order: WordOrder, a: u16, b: u16) -> u32 {
    let (high, low) = ordered16(order, a, b);
    (high * 0x1_0000 + low) as u32
}

pub open spec fn spec_make_dword(order: WordOrder, a: u32, b: u32) -> u64 {
    let (high, low) = ordered32(order, a, b);
    (high * 0x1_0000_0000 + low) as u64
}

pub open spec fn spec_split_word(order: WordOrder, data: u32) -> [u16; 2] {
    let (first, second) = ordered16(order, (data / 0x1_0000) as u16, (data % 0x1_0000) as u16);
    [first, second]
}

pub open spec fn spec_next_order(order: WordOrder) -> WordOrder {
    match order {
        WordOrder::ABCD => WordOrder::BADC,
        WordOrder::BADC => WordOrder::CDAB,
        WordOrder::CDAB => WordOrder::DCBA,
        WordOrder::DCBA => WordOrder::ABCD,
    }
}

/// The value that `words` form under `order`: one register as is, two as a
/// 32-bit word, four (or more, of which the first four count) as a 64-bit
/// word; none, or three, form nothing.
pub open spec fn spec_assemble(order: WordOrder, words: Seq<u16>) -> Option<u64> {
    if words.len() == 1 {
        Some(words[0] as u64)
    } else if words.len() == 2 {
        Some(spec_make_word(order, words[0], words[1]) as u64)
    } else if words.len() >= 4 {
        Some(
            spec_make_dword(
                order,
                spec_make_word(order, words[0], words[1]),
                spec_make_word(order, words[2], words[3]),
            ),
        )
    } else {
        None
    }
}

fn swap_bytes16(x: u16) -> (r: u16)
    ensures
        r == swap16(x),
{
    (x % 0x100) * 0x100 + x / 0x100
}

fn swap_bytes32(x: u32) -> (r: u32)
    ensures
        r == swap32(x),
{
    (x % 0x100) * 0x100_0000 + ((x / 0x100) % 0x100) * 0x1_0000 + ((x / 0x1_0000) % 0x100) * 0x100
        + x / 0x100_0000
}

impl WordOrder {
    pub const ALL: [WordOrder; 4] = [WordOrder::ABCD, WordOrder::BADC, WordOrder::CDAB, WordOrder::DCBA];

    fn swaps(self) -> (r: (bool, bool))
        ensures
            r == spec_swaps(self),
    {
        match self {
            WordOrder::ABCD => (false, false),
            WordOrder::BADC => (true, false),
            WordOrder::CDAB => (false, true),
            WordOrder::DCBA => (true, true),
        }
    }

    fn ordered16(self, a: u16, b: u16) -> (r: (u16, u16))
        ensures
            r == ordered16(self, a, b),
    {
        let (byte_swap, word_swap) = self.swaps();
        let (high, low) = if word_swap {
            (b, a)
        } else {
            (a, b)
        };
        if byte_swap {
            (swap_bytes16(high), swap_bytes16(low))
        } else {
            (high, low)
        }
    }

    fn ordered32(self, a: u32, b: u32) -> (r: (u32, u32))
        ensures
            r == ordered32(self, a, b),
    {
        let (byte_swap, word_swap) = self.swaps();
        let (high, low) = if word_swap {
            (b, a)
        } else {
            (a, b)
        };
        if byte_swap {
            (swap_bytes32(high), swap_bytes32(low))
        } else {
            (high, low)
        }
    }

    /// The 32-bit value of the registers `a`, `b` read in this order.
    pub fn make_word(self, a: u16, b: u16) -> (r: u32)
        ensures
            r == spec_make_word(self, a, b),
    {
        let (high, low) = self.ordered16(a, b);
        high as u32 * 0x1_0000 + low as u32
    }

    /// The 64-bit value of the 32-bit words `a`, `b` read in this order.
    pub fn make_dword(self, a: u32, b: u32) -> (r: u64)
        ensures
            r == spec_make_dword(self, a, b),
    {
        let (high, low) = self.ordered32(a, b);
        high as u64 * 0x1_0000_0000 + low as u64
    }

    /// The two registers that hold `data` in this order.
    pub fn split_word(self, data: u32) -> (r: [u16; 2])
        ensures
            r == spec_split_word(self, data),
    {
        let (first, second) = self.ordered16((data / 0x1_0000) as u16, (data % 0x1_0000) as u16);
        [first, second]
    }

    pub fn assemble(self, words: &[u16]) -> (r: Option<u64>)
        ensures
            r == spec_assemble(self, words@),
    {
        let n = words.len();
        if n == 1 {
            Some(words[0] as u64)
        } else if n == 2 {
            Some(self.make_word(words[0], words[1]) as u64)
        } else if n >= 4 {
            Some(self.make_dword(self.make_word(words[0], words[1]), self.make_word(words[2], words[3])))
        } else {
            None
        }
    }

    /// The next order in the cycle ABCD, BADC, CDAB, DCBA.
    pub fn next(self) -> (r: WordOrder)
        ensures
            r == spec_next_order(self),
    {
        match self {
            WordOrder::ABCD => WordOrder::BADC,
            WordOrder::BADC => WordOrder::CDAB,
            WordOrder::CDAB => WordOrder::DCBA,
            WordOrder::DCBA => WordOrder::ABCD,
        }
    }
}

proof fn lemma_swap16_involution(x: u16)
    ensures
        swap16(swap16(x)) == x,
{
}

proof fn lemma_halves(h: u16, l: u16)
    ensures
        ((h * 0x1_0000 + l) as u32 / 0x1_0000) as u16 == h,
        ((h * 0x1_0000 + l) as u32 % 0x1_0000) as u16 == l,
{
    vstd::arithmetic::div_mod::lemma_fundamental_div_mod_converse(
        h * 0x1_0000 + l,
        0x1_0000,
        h as int,
        l as int,
    );
}

proof fn lemma_rejoin(data: u32)
    ensures
        ((data / 0x1_0000) as u16) * 0x1_0000 + ((data % 0x1_0000) as u16) == data,
{
    vstd::arithmetic::div_mod::lemma_fundamental_div_mod(data as int, 0x1_0000);
}

/// Splitting a word made from two registers gives the registers back, in
/// every order; and making a word from a split gives the word back.
pub proof fn lemma_split_inverts_make(order: WordOrder, a: u16, b: u16, data: u32)
    ensures
        spec_split_word(order, spec_make_word(order, a, b)) == [a, b],
        spec_make_word(order, spec_split_word(order, data)[0], spec_split_word(order, data)[1])
            == data,
{
    let hi = (data / 0x1_0000) as u16;
    let lo = (data % 0x1_0000) as u16;
    lemma_rejoin(data);
    lemma_swap16_involution(hi);
    lemma_swap16_involution(lo);
    lemma_swap16_involution(a);
    lemma_swap16_involution(b);
    let (h, l) = ordered16(order, a, b);
    lemma_halves(h, l);
    let s = spec_split_word(order, data);
    let (h2, l2) = ordered16(order, s[0], s[1]);
    assert(h2 == hi && l2 == lo);
    assert(spec_split_word(order, spec_make_word(order, a, b)) =~= [a, b]);
}

/// Four steps bring a word order back to itself.
pub proof fn lemma_next_order_cycles(order: WordOrder)
    ensures
        spec_next_order(spec_next_order(spec_next_order(spec_next_order(order)))) == order,
{
}

/// The access level of a device identification read.
#[derive(Debug, Clone, Copy, PartialEq, Eq, Structural)]
pub enum DeviceIdAccess {
    Basic,
    Regular,
    Extended,
    Specific,
}

impl Default for DeviceIdAccess {
    fn default() -> (r: Self)
        ensures
            r == DeviceIdAccess::Basic,
    {
        DeviceIdAccess::Basic
    }
}

pub open spec fn spec_access_label(a: DeviceIdAccess) -> Seq<char> {
    match a {
        DeviceIdAccess::Basic => "Basic"@,
        DeviceIdAccess::Regular => "Regular"@,
        DeviceIdAccess::Extended => "Extended"@,
        DeviceIdAccess::Specific => "Specific"@,
    }
}

impl DeviceIdAccess {
    pub const ALL: [DeviceIdAccess; 3] = [
        DeviceIdAccess::Basic,
        DeviceIdAccess::Regular,
        DeviceIdAccess::Extended,
    ];

    pub fn label(self) -> (r: &'static str)
        ensures
            r@ == spec_access_label(self),
    {
        match self {
            DeviceIdAccess::Basic => "Basic",
            DeviceIdAccess::Regular => "Regular",
            DeviceIdAccess::Extended => "Extended",
            DeviceIdAccess::Specific => "Specific",
        }
    }
}

} // verus!
