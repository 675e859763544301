use vstd::prelude::*;
use crate::modbus::{spec_make_dword, spec_make_word, WordOrder};
use crate::parse::{parse_i64, parse_unsigned};
use crate::parse;
use crate::text::{chars_of, push_str, string_of, trim_bounds};
use crate::text;

verus! {

/// How a custom rule reads the registers it spans.
#[derive(Debug, Clone, Copy, PartialEq, Eq, Structural)]
pub enum CustomRepr {
    U16,
    I16,
    F16,
    U32,
    I32,
    F32,
    U64,
    I64,
    F64,
}

impl Default for CustomRepr {
    fn default() -> (r: Self)
        ensures
            r == CustomRepr::U16,
    {
        CustomRepr::U16
    }
}

pub open spec fn spec_register_count(r: CustomRepr) -> nat {
    match r {
        CustomRepr::U16 | CustomRepr::I16 | CustomRepr::F16 => 1,
        CustomRepr::U32 | CustomRepr::I32 | CustomRepr::F32 => 2,
        CustomRepr::U64 | CustomRepr::I64 | CustomRepr::F64 => 4,
    }
}

pub open spec fn spec_repr_label(r: CustomRepr) -> Seq<char> {
    match r {
        CustomRepr::U16 => "u16"@,
        CustomRepr::I16 => "i16"@,
        CustomRepr::F16 => "f16"@,
        CustomRepr::U32 => "u32"@,
        CustomRepr::I32 => "i32"@,
        CustomRepr::F32 => "f32"@,
        CustomRepr::U64 => "u64"@,
        CustomRepr::I64 => "i64"@,
        CustomRepr::F64 => "f64"@,
    }
}

/// Every representation, in the order the editor cycles through them.
pub open spec fn spec_all_reprs() -> Seq<CustomRepr> {
    seq![CustomRepr::U16, CustomRepr::I16, CustomRepr::F16, CustomRepr::U32, CustomRepr::I32, CustomRepr::F32, CustomRepr::U64, CustomRepr::I64, CustomRepr::F64]
}

impl CustomRepr {
    pub const ALL: [CustomRepr; 9] = [
        CustomRepr::U16,
        CustomRepr::I16,
        CustomRepr::F16,
        CustomRepr::U32,
        CustomRepr::I32,
        CustomRepr::F32,
        CustomRepr::U64,
        CustomRepr::I64,
        CustomRepr::F64,
    ];

    /// The widest representation spans this many registers.
    pub const MAX_REGISTERS: usize = 4;

    /// How many registers a value of this representation spans.
    pub fn register_count(self) -> (r: usize)
        ensures
            r == spec_register_count(self),
            1 <= r <= Self::MAX_REGISTERS,
    {
        match self {
            CustomRepr::U16 | CustomRepr::I16 | CustomRepr::F16 => 1,
            CustomRepr::U32 | CustomRepr::I32 | CustomRepr::F32 => 2,
            CustomRepr::U64 | CustomRepr::I64 | CustomRepr::F64 => 4,
        }
    }

    pub fn label(self) -> (r: &'static str)
        ensures
            r@ == spec_repr_label(self),
    {
        match self {
            CustomRepr::U16 => "u16",
            CustomRepr::I16 => "i16",
            CustomRepr::F16 => "f16",
            CustomRepr::U32 => "u32",
            CustomRepr::I32 => "i32",
            CustomRepr::F32 => "f32",
            CustomRepr::U64 => "u64",
            CustomRepr::I64 => "i64",
            CustomRepr::F64 => "f64",
        }
    }
}

/// The widest representation spans exactly `MAX_REGISTERS` registers.
pub proof fn lemma_max_registers_is_widest()
    ensures
        forall|r: CustomRepr| spec_register_count(r) <= CustomRepr::MAX_REGISTERS,
        spec_register_count(CustomRepr::F64) == CustomRepr::MAX_REGISTERS,
{
}

/// One arithmetic step of a custom rule: the operation and its operand,
/// held as the bits of an IEEE-754 double, which the caller reads and
/// writes with `f64::from_bits` and `f64::to_bits`.
#[derive(Debug, Clone, Copy, PartialEq, Eq, Structural)]
pub struct CustomOp {
    pub op: OpKind,
    pub v_bits: u64,
}

/// The arithmetic steps of a custom rule.
#[derive(Debug, Clone, Copy, PartialEq, Eq, Structural)]
pub enum OpKind {
    Add,
    Sub,
    Mul,
    Div,
    Pow,
}

pub open spec fn spec_op_symbol(op: OpKind) -> char {
    match op {
        OpKind::Add => '+',
        OpKind::Sub => '-',
        OpKind::Mul => '*',
        OpKind::Div => '/',
        OpKind::Pow => '^',
    }
}

pub open spec fn spec_op_from_symbol(c: char) -> Option<OpKind> {
    if c == '+' {
        Some(OpKind::Add)
    } else if c == '-' {
        Some(OpKind::Sub)
    } else if c == '*' || c == 'x' || c == 'X' {
        Some(OpKind::Mul)
    } else if c == '/' {
        Some(OpKind::Div)
    } else if c == '^' {
        Some(OpKind::Pow)
    } else {
        None
    }
}

impl OpKind {
    pub fn symbol(self) -> (r: char)
        ensures
            r == spec_op_symbol(self),
    {
        match self {
            OpKind::Add => '+',
            OpKind::Sub => '-',
            OpKind::Mul => '*',
            OpKind::Div => '/',
            OpKind::Pow => '^',
        }
    }

    /// The step a symbol starts; `x` also multiplies.
    pub fn from_symbol(c: char) -> (r: Option<OpKind>)
        ensures
            r == spec_op_from_symbol(c),
    {
        if c == '+' {
            Some(OpKind::Add)
        } else if c == '-' {
            Some(OpKind::Sub)
        } else if c == '*' || c == 'x' || c == 'X' {
            Some(OpKind::Mul)
        } else if c == '/' {
            Some(OpKind::Div)
        } else if c == '^' {
            Some(OpKind::Pow)
        } else {
            None
        }
    }
}

/// Every step's symbol reads back as that step.
pub proof fn lemma_op_symbol_round_trip(op: OpKind)
    ensures
        spec_op_from_symbol(spec_op_symbol(op)) == Some(op),
{
}

/// A value a custom rule shows as text.
#[derive(Debug, PartialEq, Eq)]
pub struct EnumEntry {
    pub value: i64,
    pub text: String,
}

/// A bit a custom rule shows by name when it is set.
#[derive(Debug, PartialEq, Eq)]
pub struct BitEntry {
    pub bit: u8,
    pub name: String,
}

/// `s` split at its first `c`.
pub open spec fn spec_split_once(s: Seq<char>, c: char) -> Option<(Seq<char>, Seq<char>)> {
    if s.contains(c) {
        let i = s.index_of_first(c)->0;
        Some((s.take(i), s.skip(i + 1)))
    } else {
        None
    }
}

fn find_char(cs: &[char], c: char) -> (r: Option<usize>)
    ensures
        r matches Some(i) ==> i < cs@.len() && cs@.contains(c) && cs@.index_of_first(c) == Some(
            i as int,
        ),
        r is None ==> !cs@.contains(c),
{
    let mut i: usize = 0;
    while i < cs.len()
        invariant
            i <= cs@.len(),
            forall|j: int| 0 <= j < i ==> cs@[j] != c,
        decreases cs@.len() - i,
    {
        if cs[i] == c {
            proof {
                cs@.index_of_first_ensures(c);
            }
            return Some(i);
        }
        i += 1;
    }
    None
}

/// The trimmed characters of `cs[from..to]`.
fn trimmed_part(cs: &[char], from: usize, to: usize) -> (r: Vec<char>)
    requires
        from <= to <= cs@.len(),
    ensures
        r@ == text::trim(cs@.subrange(from as int, to as int)),
{
    let mut part: Vec<char> = Vec::new();
    let mut i = from;
    while i < to
        invariant
            from <= i <= to <= cs@.len(),
            part@ == cs@.subrange(from as int, i as int),
        decreases to - i,
    {
        part.push(cs[i]);
        i += 1;
        assert(part@ =~= cs@.subrange(from as int, i as int));
    }
    let (lo, hi) = trim_bounds(part.as_slice());
    let mut r: Vec<char> = Vec::new();
    let mut k = lo;
    while k < hi
        invariant
            lo <= k <= hi <= part@.len(),
            r@ == part@.subrange(lo as int, k as int),
        decreases hi - k,
    {
        r.push(part[k]);
        k += 1;
        assert(r@ =~= part@.subrange(lo as int, k as int));
    }
    r
}

fn error(text: &str) -> (r: String)
    ensures
        r@ == text@,
{
    let mut s = String::new();
    push_str(&mut s, text);
    s
}

/// What `parse_enum` reads from `input`: the value and the text, or the
/// error message.
pub open spec fn spec_enum_parse(input: Seq<char>) -> Result<(int, Seq<char>), Seq<char>> {
    match spec_split_once(input, '=') {
        None => Err("use value=text"@),
        Some((v, t)) => match parse::spec_parse_i64(text::trim(v)) {
            Some(n) => Ok((n, text::trim(t))),
            None => Err("invalid value"@),
        },
    }
}

/// What `parse_bit` reads from `input`: the bit and the name, or the error
/// message.
pub open spec fn spec_bit_parse(input: Seq<char>) -> Result<(nat, Seq<char>), Seq<char>> {
    match spec_split_once(input, '=') {
        None => Err("use bit=name"@),
        Some((b, n)) => match parse::spec_parse_unsigned(text::trim(b), 10, 255) {
            None => Err("invalid bit"@),
            Some(bit) => if bit > 63 {
                Err("bit must be 0-63"@)
            } else if text::trim(n).len() == 0 {
                Err("name is empty"@)
            } else {
                Ok((bit, text::trim(n)))
            },
        },
    }
}

/// An enum entry as its value and text.
pub open spec fn enum_entry_view(e: EnumEntry) -> (int, Seq<char>) {
    (e.value as int, e.text@)
}

/// A bit entry as its bit and name.
pub open spec fn bit_entry_view(e: BitEntry) -> (nat, Seq<char>) {
    (e.bit as nat, e.name@)
}

/// Reads `value=text` into an enum entry; both sides are trimmed.
pub fn parse_enum(input: &str) -> (r: Result<EnumEntry, String>)
    ensures
        spec_split_once(input@, '=') is None ==> (r matches Err(e) && e@ == "use value=text"@),
        spec_split_once(input@, '=') matches Some((v, t)) ==> match parse::spec_parse_i64(
            text::trim(v),
        ) {
            Some(n) => r matches Ok(entry) && entry.value == n && entry.text@ == text::trim(t),
            None => r matches Err(e) && e@ == "invalid value"@,
        },
        match (r, spec_enum_parse(input@)) {
            (Ok(entry), Ok(x)) => enum_entry_view(entry) == x,
            (Err(e), Err(m)) => e@ == m,
            _ => false,
        },
{
    let cs = chars_of(input);
    let eq = match find_char(cs.as_slice(), '=') {
        Some(i) => i,
        None => return Err(error("use value=text")),
    };
    assert(eq < cs@.len());
    assert(cs@.take(eq as int) =~= cs@.subrange(0, eq as int));
    assert(cs@.skip(eq + 1) =~= cs@.subrange(eq + 1, cs@.len() as int));
    let value_chars = trimmed_part(cs.as_slice(), 0, eq);
    let value = match parse_i64(value_chars.as_slice()) {
        Some(v) => v,
        None => return Err(error("invalid value")),
    };
    let n = cs.len();
    assert(eq < n);
    let text_chars = trimmed_part(cs.as_slice(), eq + 1, n);
    Ok(EnumEntry { value, text: string_of(text_chars.as_slice(), 0, text_chars.len()) })
}

/// Reads `bit=name` into a bit entry: a bit number 0-63 and a name that is
/// not blank, both trimmed.
pub fn parse_bit(input: &str) -> (r: Result<BitEntry, String>)
    ensures
        spec_split_once(input@, '=') is None ==> (r matches Err(e) && e@ == "use bit=name"@),
        spec_split_once(input@, '=') matches Some((b, n)) ==> match parse::spec_parse_unsigned(
            text::trim(b),
            10,
            255,
        ) {
            None => r matches Err(e) && e@ == "invalid bit"@,
            Some(bit) => if bit > 63 {
                r matches Err(e) && e@ == "bit must be 0-63"@
            } else if text::trim(n).len() == 0 {
                r matches Err(e) && e@ == "name is empty"@
            } else {
                r matches Ok(entry) && entry.bit == bit && entry.name@ == text::trim(n)
            },
        },
        match (r, spec_bit_parse(input@)) {
            (Ok(entry), Ok(x)) => bit_entry_view(entry) == x,
            (Err(e), Err(m)) => e@ == m,
            _ => false,
        },
{
    let cs = chars_of(input);
    let eq = match find_char(cs.as_slice(), '=') {
        Some(i) => i,
        None => return Err(error("use bit=name")),
    };
    assert(eq < cs@.len());
    assert(cs@.take(eq as int) =~= cs@.subrange(0, eq as int));
    assert(cs@.skip(eq + 1) =~= cs@.subrange(eq + 1, cs@.len() as int));
    let bit_chars = trimmed_part(cs.as_slice(), 0, eq);
    let bit = match parse_unsigned(bit_chars.as_slice(), 10, 255) {
        Some(b) => b as u8,
        None => return Err(error("invalid bit")),
    };
    if bit > 63 {
        return Err(error("bit must be 0-63"));
    }
    let n = cs.len();
    assert(eq < n);
    let name_chars = trimmed_part(cs.as_slice(), eq + 1, n);
    if name_chars.len() == 0 {
        return Err(error("name is empty"));
    }
    Ok(BitEntry { bit, name: string_of(name_chars.as_slice(), 0, name_chars.len()) })
}

/// The addresses of the registers a rule at `address` spans: the first at
/// `address`, each next one at its entry in `next` where there is one, else
/// right after the one before it (wrapping at the end of the address range).
pub open spec fn spec_word_addresses(address: u16, count: nat, next: Seq<u16>) -> Seq<u16>
    decreases count,
{
    if count == 0 {
        Seq::empty()
    } else if count == 1 {
        seq![address]
    } else {
        let before = spec_word_addresses(address, (count - 1) as nat, next);
        let i = count - 1;
        before.push(
            if i - 1 < next.len() {
                next[i - 1]
            } else {
                ((before[i - 1] + 1) % 0x1_0000) as u16
            },
        )
    }
}

/// The register addresses a custom rule for `repr` at `address` reads.
pub fn word_addresses(address: u16, repr: CustomRepr, next: &[u16]) -> (r: Vec<u16>)
    ensures
        r@ == spec_word_addresses(address, spec_register_count(repr), next@),
        r@.len() == spec_register_count(repr),
{
    let count = repr.register_count();
    let mut addresses: Vec<u16> = Vec::new();
    addresses.push(address);
    let mut i: usize = 1;
    while i < count
        invariant
            1 <= i <= count,
            count == spec_register_count(repr),
            addresses@ == spec_word_addresses(address, i as nat, next@),
            addresses@.len() == i,
        decreases count - i,
    {
        let a = if i - 1 < next.len() {
            next[i - 1]
        } else {
            let prev = addresses[i - 1];
            if prev == u16::MAX {
                0
            } else {
                prev + 1
            }
        };
        addresses.push(a);
        i += 1;
    }
    addresses
}

/// The raw bits a rule reads from `words` under the rule's own word order,
/// or the device's: one register as is, two as a 32-bit word, four as a
/// 64-bit word; `None` when too few registers were read.
pub open spec fn spec_rule_raw(
    repr: CustomRepr,
    rule_order: Option<WordOrder>,
    words: Seq<u16>,
    order: WordOrder,
) -> Option<u64> {
    let o = match rule_order {
        Some(x) => x,
        None => order,
    };
    let n = spec_register_count(repr);
    if words.len() < n {
        None
    } else if n == 1 {
        Some(words[0] as u64)
    } else if n == 2 {
        Some(spec_make_word(o, words[0], words[1]) as u64)
    } else {
        Some(spec_make_dword(o, spec_make_word(o, words[0], words[1]), spec_make_word(o, words[2], words[3])))
    }
}

/// The raw value of a rule in the big-endian word order ABCD is its
/// registers read in address order, the first the most significant: one
/// register as is, two as `w0 * 2^16 + w1`, four as
/// `w0 * 2^48 + w1 * 2^32 + w2 * 2^16 + w3`; too few registers give none.
pub proof fn lemma_rule_raw_big_endian(repr: CustomRepr, words: Seq<u16>)
    ensures
        words.len() < spec_register_count(repr) ==> spec_rule_raw(repr, None, words, WordOrder::ABCD) is None,
        words.len() >= spec_register_count(repr) && spec_register_count(repr) == 1 ==> spec_rule_raw(
            repr,
            None,
            words,
            WordOrder::ABCD,
        ) == Some(words[0] as u64),
        words.len() >= spec_register_count(repr) && spec_register_count(repr) == 2 ==> spec_rule_raw(
            repr,
            None,
            words,
            WordOrder::ABCD,
        ) == Some((words[0] * 0x1_0000 + words[1]) as u64),
        words.len() >= spec_register_count(repr) && spec_register_count(repr) == 4 ==> spec_rule_raw(
            repr,
            None,
            words,
            WordOrder::ABCD,
        ) == Some(
            (words[0] * 0x1_0000_0000_0000 + words[1] * 0x1_0000_0000 + words[2] * 0x1_0000 + words[3]) as u64,
        ),
{
    if words.len() >= 4 {
        let (a, b, c, d) = (words[0], words[1], words[2], words[3]);
        let hi = spec_make_word(WordOrder::ABCD, a, b);
        let lo = spec_make_word(WordOrder::ABCD, c, d);
        assert(hi == a * 0x1_0000 + b) by (nonlinear_arith)
            requires
                hi == ((a * 0x1_0000 + b) as u32),
                a <= 0xffff,
                b <= 0xffff,
        ;
        assert(lo == c * 0x1_0000 + d) by (nonlinear_arith)
            requires
                lo == ((c * 0x1_0000 + d) as u32),
                c <= 0xffff,
                d <= 0xffff,
        ;
        assert(hi * 0x1_0000_0000 + lo == a * 0x1_0000_0000_0000 + b * 0x1_0000_0000 + c * 0x1_0000 + d) by (nonlinear_arith)
            requires
                hi == a * 0x1_0000 + b,
                lo == c * 0x1_0000 + d,
        ;
        assert(spec_make_dword(WordOrder::ABCD, hi, lo) == (hi * 0x1_0000_0000 + lo) as u64);
    }
    if words.len() >= 2 {
        assert(spec_make_word(WordOrder::ABCD, words[0], words[1]) == words[0] * 0x1_0000 + words[1]) by (nonlinear_arith)
            requires
                spec_make_word(WordOrder::ABCD, words[0], words[1]) == ((words[0] * 0x1_0000 + words[1]) as u32),
                words[0] <= 0xffff,
                words[1] <= 0xffff,
        ;
    }
}

/// In the word-swapped order CDAB the registers count from the last: two
/// give `w1 * 2^16 + w0`, four give `w3 * 2^48 + w2 * 2^32 + w1 * 2^16 + w0`.
pub proof fn lemma_rule_raw_word_swapped(repr: CustomRepr, words: Seq<u16>)
    ensures
        words.len() >= spec_register_count(repr) && spec_register_count(repr) == 2 ==> spec_rule_raw(
            repr,
            None,
            words,
            WordOrder::CDAB,
        ) == Some((words[1] * 0x1_0000 + words[0]) as u64),
        words.len() >= spec_register_count(repr) && spec_register_count(repr) == 4 ==> spec_rule_raw(
            repr,
            None,
            words,
            WordOrder::CDAB,
        ) == Some(
            (words[3] * 0x1_0000_0000_0000 + words[2] * 0x1_0000_0000 + words[1] * 0x1_0000 + words[0]) as u64,
        ),
{
    if words.len() >= 4 {
        let (a, b, c, d) = (words[0], words[1], words[2], words[3]);
        let first = spec_make_word(WordOrder::CDAB, a, b);
        let second = spec_make_word(WordOrder::CDAB, c, d);
        assert(first == b * 0x1_0000 + a) by (nonlinear_arith)
            requires
                first == ((b * 0x1_0000 + a) as u32),
                a <= 0xffff,
                b <= 0xffff,
        ;
        assert(second == d * 0x1_0000 + c) by (nonlinear_arith)
            requires
                second == ((d * 0x1_0000 + c) as u32),
                c <= 0xffff,
                d <= 0xffff,
        ;
        assert(second * 0x1_0000_0000 + first == d * 0x1_0000_0000_0000 + c * 0x1_0000_0000 + b * 0x1_0000 + a) by (nonlinear_arith)
            requires
                first == b * 0x1_0000 + a,
                second == d * 0x1_0000 + c,
        ;
        assert(spec_make_dword(WordOrder::CDAB, first, second) == (second * 0x1_0000_0000 + first) as u64);
    }
    if words.len() >= 2 {
        assert(spec_make_word(WordOrder::CDAB, words[0], words[1]) == words[1] * 0x1_0000 + words[0]) by (nonlinear_arith)
            requires
                spec_make_word(WordOrder::CDAB, words[0], words[1]) == ((words[1] * 0x1_0000 + words[0]) as u32),
                words[0] <= 0xffff,
                words[1] <= 0xffff,
        ;
    }
}

/// A rule's own word order, where it has one, takes the place of the
/// device's.
pub proof fn lemma_rule_order_overrides(repr: CustomRepr, own: WordOrder, words: Seq<u16>, device: WordOrder)
    ensures
        spec_rule_raw(repr, Some(own), words, device) == spec_rule_raw(repr, None, words, own),
{
}

/// The raw bits of a rule's value.
pub fn rule_raw(repr: CustomRepr, rule_order: Option<WordOrder>, words: &[u16], order: WordOrder) -> (r:
    Option<u64>)
    ensures
        r == spec_rule_raw(repr, rule_order, words@, order),
{
    let o = match rule_order {
        Some(x) => x,
        None => order,
    };
    let n = repr.register_count();
    if words.len() < n {
        None
    } else if n == 1 {
        Some(words[0] as u64)
    } else if n == 2 {
        Some(o.make_word(words[0], words[1]) as u64)
    } else {
        Some(o.make_dword(o.make_word(words[0], words[1]), o.make_word(words[2], words[3])))
    }
}

/// Whether bit `bit` of `raw` is set; bits past 63 never are.
pub open spec fn spec_bit_set(raw: u64, bit: u8) -> bool {
    bit < 64 && ((raw as nat) / vstd::arithmetic::power2::pow2(bit as nat)) % 2 == 1
}

fn bit_set(raw: u64, bit: u8) -> (r: bool)
    ensures
        r == spec_bit_set(raw, bit),
{
    if bit >= 64 {
        return false;
    }
    let shifted = raw >> bit;
    proof {
        vstd::bits::lemma_u64_shr_is_div(raw, bit as u64);
    }
    shifted % 2 == 1
}

/// The names of the listed bits set in `raw`, in list order.
pub open spec fn spec_set_names(bits: Seq<BitEntry>, raw: u64) -> Seq<Seq<char>>
    decreases bits.len(),
{
    if bits.len() == 0 {
        Seq::empty()
    } else {
        let rest = spec_set_names(bits.drop_last(), raw);
        if spec_bit_set(raw, bits.last().bit) {
            rest.push(bits.last().name@)
        } else {
            rest
        }
    }
}

/// `names` joined by the middle dot.
pub open spec fn spec_join_dot(names: Seq<Seq<char>>) -> Seq<char>
    decreases names.len(),
{
    if names.len() == 0 {
        Seq::empty()
    } else if names.len() == 1 {
        names[0]
    } else {
        spec_join_dot(names.drop_last()) + seq!['\u{b7}'] + names.last()
    }
}

/// The text of a bit rule: the names of the set bits joined by a middle
/// dot, or `(none)` when no listed bit is set.
pub open spec fn spec_bit_names(bits: Seq<BitEntry>, raw: u64) -> Seq<char> {
    let names = spec_set_names(bits, raw);
    if names.len() == 0 {
        "(none)"@
    } else {
        spec_join_dot(names)
    }
}

pub fn bit_names(bits: &[BitEntry], raw: u64) -> (r: String)
    ensures
        r@ == spec_bit_names(bits@, raw),
{
    let mut out = String::new();
    let ghost mut names: Seq<Seq<char>> = Seq::empty();
    let mut count: usize = 0;
    let mut i: usize = 0;
    while i < bits.len()
        invariant
            i <= bits@.len(),
            names == spec_set_names(bits@.take(i as int), raw),
            count == names.len(),
            count <= i,
            out@ == spec_join_dot(names),
        decreases bits@.len() - i,
    {
        assert(bits@.take(i + 1).drop_last() =~= bits@.take(i as int));
        if bit_set(raw, bits[i].bit) {
            if count > 0 {
                push_str(&mut out, "\u{b7}");
                proof {
                    reveal_strlit("\u{b7}");
                }
            }
            push_str(&mut out, bits[i].name.as_str());
            proof {
                let old_names = names;
                names = names.push(bits@[i as int].name@);
                assert(names.drop_last() =~= old_names);
                if count == 0 {
                    assert(old_names.len() == 0);
                    assert(spec_join_dot(names) == names[0]);
                }
            }
            count += 1;
        }
        i += 1;
    }
    assert(bits@.take(bits@.len() as int) =~= bits@);
    if count == 0 {
        return error("(none)");
    }
    out
}

/// A custom rule: how the registers from `address` on are read, worked out
/// and shown.
#[derive(Debug, PartialEq)]
pub struct CustomRule {
    pub address: u16,
    pub repr: CustomRepr,
    pub ops: Vec<CustomOp>,
    pub enum_map: Vec<EnumEntry>,
    pub bits: Vec<BitEntry>,
    pub next: Vec<u16>,
    pub decimals: Option<u8>,
    pub prefix: String,
    pub suffix: String,
    pub word_order: Option<WordOrder>,
}

pub fn copy_items<T: Copy>(v: &Vec<T>) -> (r: Vec<T>)
    ensures
        r@ == v@,
{
    let mut out: Vec<T> = Vec::new();
    let mut i: usize = 0;
    while i < v.len()
        invariant
            i <= v@.len(),
            out@ == v@.take(i as int),
        decreases v@.len() - i,
    {
        out.push(v[i]);
        i += 1;
        assert(out@ =~= v@.take(i as int));
    }
    assert(v@.take(v@.len() as int) =~= v@);
    out
}

impl Clone for EnumEntry {
    fn clone(&self) -> (r: Self)
        ensures
            r == *self,
    {
        EnumEntry { value: self.value, text: self.text.clone() }
    }
}

impl Clone for BitEntry {
    fn clone(&self) -> (r: Self)
        ensures
            r == *self,
    {
        BitEntry { bit: self.bit, name: self.name.clone() }
    }
}

pub fn clone_entries<T: Clone>(v: &Vec<T>) -> (r: Vec<T>)
    requires
        forall|a: T, b: T| #[trigger] call_ensures(T::clone, (&a,), b) ==> b == a,
    ensures
        r@ == v@,
{
    let mut out: Vec<T> = Vec::new();
    let mut i: usize = 0;
    while i < v.len()
        invariant
            i <= v@.len(),
            out@ == v@.take(i as int),
            forall|a: T, b: T| #[trigger] call_ensures(T::clone, (&a,), b) ==> b == a,
        decreases v@.len() - i,
    {
        let item = v[i].clone();
        out.push(item);
        i += 1;
        assert(out@ =~= v@.take(i as int));
    }
    assert(v@.take(v@.len() as int) =~= v@);
    out
}

/// A custom rule as values.
pub ghost struct CustomRuleView {
    pub address: u16,
    pub repr: CustomRepr,
    pub ops: Seq<CustomOp>,
    pub enum_map: Seq<EnumEntry>,
    pub bits: Seq<BitEntry>,
    pub next: Seq<u16>,
    pub decimals: Option<u8>,
    pub prefix: Seq<char>,
    pub suffix: Seq<char>,
    pub word_order: Option<WordOrder>,
}

impl View for CustomRule {
    type V = CustomRuleView;

    open spec fn view(&self) -> CustomRuleView {
        CustomRuleView {
            address: self.address,
            repr: self.repr,
            ops: self.ops@,
            enum_map: self.enum_map@,
            bits: self.bits@,
            next: self.next@,
            decimals: self.decimals,
            prefix: self.prefix@,
            suffix: self.suffix@,
            word_order: self.word_order,
        }
    }
}

impl Clone for CustomRule {
    fn clone(&self) -> (r: Self)
        ensures
            r@ == self@,
    {
        let enum_map = clone_entries(&self.enum_map);
        let bits = clone_entries(&self.bits);
        let r = CustomRule {
            address: self.address,
            repr: self.repr,
            ops: copy_items(&self.ops),
            enum_map,
            bits,
            next: copy_items(&self.next),
            decimals: self.decimals,
            prefix: self.prefix.clone(),
            suffix: self.suffix.clone(),
            word_order: self.word_order,
        };
        r
    }
}

impl CustomRule {
    /// The addresses of the registers the rule reads, in order.
    pub fn word_addresses(&self) -> (r: Vec<u16>)
        ensures
            r@ == spec_word_addresses(self.address, spec_register_count(self.repr), self.next@),
    {
        word_addresses(self.address, self.repr, self.next.as_slice())
    }

    /// The raw value of `words` read the rule's way: in its own word order
    /// where it has one, else in `order`.
    pub fn raw(&self, words: &[u16], order: WordOrder) -> (r: Option<u64>)
        ensures
            r == spec_rule_raw(self.repr, self.word_order, words@, order),
    {
        rule_raw(self.repr, self.word_order, words, order)
    }
}

/// The text of the first enumeration entry for `key`.
pub open spec fn spec_enum_text(entries: Seq<EnumEntry>, key: i64) -> Option<Seq<char>>
    decreases entries.len(),
{
    if entries.len() == 0 {
        None
    } else if entries[0].value == key {
        Some(entries[0].text@)
    } else {
        spec_enum_text(entries.drop_first(), key)
    }
}

/// The enumeration text a rule shows for the key of its value, where the
/// value has one (it is finite) and an entry names it.
pub open spec fn spec_enum_hit(rule: CustomRuleView, key: Option<i64>) -> Option<Seq<char>> {
    match key {
        Some(k) => spec_enum_text(rule.enum_map, k),
        None => None,
    }
}

/// What a rule shows for `words`: nothing when too few registers were
/// read; else the enumeration text for the value's key; else, for a bit
/// rule, the names of the set bits; else `number`, the value after the
/// rule's arithmetic as the caller wrote it. Prefix and suffix go around.
pub open spec fn spec_render(rule: CustomRuleView, words: Seq<u16>, order: WordOrder, key: Option<i64>, number: Seq<char>) -> Seq<char> {
    match spec_rule_raw(rule.repr, rule.word_order, words, order) {
        None => Seq::empty(),
        Some(raw) => rule.prefix + (match spec_enum_hit(rule, key) {
            Some(t) => t,
            None => if rule.bits.len() > 0 {
                spec_bit_names(rule.bits, raw)
            } else {
                number
            },
        }) + rule.suffix,
    }
}

fn enum_text(entries: &[EnumEntry], key: i64) -> (r: Option<&String>)
    ensures
        match r {
            Some(t) => spec_enum_text(entries@, key) == Some(t@),
            None => spec_enum_text(entries@, key) is None,
        },
{
    let mut i: usize = 0;
    assert(entries@.skip(0) =~= entries@);
    while i < entries.len()
        invariant
            i <= entries@.len(),
            spec_enum_text(entries@, key) == spec_enum_text(entries@.skip(i as int), key),
        decreases entries@.len() - i,
    {
        assert(entries@.skip(i as int).drop_first() =~= entries@.skip(i + 1));
        if entries[i].value == key {
            return Some(&entries[i].text);
        }
        i += 1;
    }
    None
}

impl CustomRule {
    /// The text of the rule for `words`, given what only floating point
    /// computes: `key`, the value as an integer where it is finite, and
    /// `number`, the value after the arithmetic, written out.
    pub fn render(&self, words: &[u16], order: WordOrder, key: Option<i64>, number: &str) -> (r: String)
        ensures
            r@ == spec_render(self@, words@, order, key, number@),
    {
        let raw = match rule_raw(self.repr, self.word_order, words, order) {
            Some(raw) => raw,
            None => return String::new(),
        };
        let mut out = String::new();
        push_str(&mut out, self.prefix.as_str());
        let hit = match key {
            Some(k) => enum_text(self.enum_map.as_slice(), k),
            None => None,
        };
        match hit {
            Some(t) => push_str(&mut out, t.as_str()),
            None => {
                if self.bits.len() > 0 {
                    let names = bit_names(self.bits.as_slice(), raw);
                    push_str(&mut out, names.as_str());
                } else {
                    push_str(&mut out, number);
                }
            },
        }
        push_str(&mut out, self.suffix.as_str());
        out
    }

    /// Whether the rule shows a number for a value with key `key`: not when
    /// an enumeration entry names it, nor for a bit rule.
    pub fn gives_number(&self, key: Option<i64>) -> (r: bool)
        ensures
            r == (spec_enum_hit(self@, key) is None && self.bits@.len() == 0),
    {
        let hit = match key {
            Some(k) => enum_text(self.enum_map.as_slice(), k).is_some(),
            None => false,
        };
        !hit && self.bits.len() == 0
    }
}

} // verus!
