use vstd::prelude::*;
use crate::parse::parse_unsigned;
use crate::parse;
use crate::register::{RegisterCell, RegisterType};
use crate::text::{ascii_lowercase_chars, chars_of, push_char, push_chars, push_str, utf8_bytes, utf8_char_len};
use crate::text;

pub mod columns;
pub mod config_io;
pub mod custom;
pub mod device_id;
pub mod discovery;
pub mod dump;
pub mod help;
pub mod label;
pub mod lifecycle;
pub mod panel;
pub mod pin;
pub mod raw;
pub mod read_log;
pub mod search;
pub mod settings;
pub mod sweep;
pub mod unit;
pub mod write;

pub use crate::state::WriteType;

verus! {

/// Whether the API server is bound to its port.
#[derive(Debug, Clone, Copy, PartialEq, Eq, Structural)]
pub enum ApiBindState {
    Pending,
    Bound,
    Failed,
}

pub open spec fn spec_bind_code(s: ApiBindState) -> u8 {
    match s {
        ApiBindState::Pending => 0,
        ApiBindState::Bound => 1,
        ApiBindState::Failed => 2,
    }
}

pub open spec fn spec_bind_from_code(code: u8) -> ApiBindState {
    if code == 1 {
        ApiBindState::Bound
    } else if code == 2 {
        ApiBindState::Failed
    } else {
        ApiBindState::Pending
    }
}

impl ApiBindState {
    /// A one-byte code, shared with the server task.
    pub fn code(self) -> (r: u8)
        ensures
            r == spec_bind_code(self),
    {
        match self {
            ApiBindState::Pending => 0,
            ApiBindState::Bound => 1,
            ApiBindState::Failed => 2,
        }
    }

    /// The state a code stands for; unknown codes read as pending.
    pub fn from_code(code: u8) -> (r: ApiBindState)
        ensures
            r == spec_bind_from_code(code),
    {
        match code {
            1 => ApiBindState::Bound,
            2 => ApiBindState::Failed,
            _ => ApiBindState::Pending,
        }
    }
}

/// A state read back from its own code is that state.
pub proof fn lemma_bind_code_round_trip(s: ApiBindState)
    ensures
        spec_bind_from_code(spec_bind_code(s)) == s,
{
}

/// The register range a sweep reads, and where it stands.
#[derive(Debug, Clone, Copy, PartialEq, Eq)]
pub struct SweepState {
    pub active: bool,
    pub from: u16,
    pub to: u16,
    pub continuous: bool,
    pub current: u16,
    pub errored: bool,
}

impl Default for SweepState {
    fn default() -> (r: Self)
        ensures
            !r.active && r.from == 0 && r.to == 100 && r.continuous && r.current == 0
                && !r.errored,
    {
        SweepState { active: false, from: 0, to: 100, continuous: true, current: 0, errored: false }
    }
}

/// Pinned addresses, one list per register type.
#[derive(Debug, Clone, PartialEq, Eq)]
pub struct PinnedRegisters {
    pub holdings: Vec<u16>,
    pub inputs: Vec<u16>,
    pub coils: Vec<u16>,
    pub discretes: Vec<u16>,
}

impl Default for PinnedRegisters {
    fn default() -> (r: Self)
        ensures
            r.holdings@.len() == 0 && r.inputs@.len() == 0 && r.coils@.len() == 0
                && r.discretes@.len() == 0,
    {
        PinnedRegisters {
            holdings: Vec::new(),
            inputs: Vec::new(),
            coils: Vec::new(),
            discretes: Vec::new(),
        }
    }
}

/// The addresses of the cells of type `t`, in order.
pub open spec fn addresses_of(cells: Seq<RegisterCell>, t: RegisterType) -> Seq<u16>
    decreases cells.len(),
{
    if cells.len() == 0 {
        Seq::empty()
    } else {
        let rest = addresses_of(cells.drop_last(), t);
        if cells.last().0 == t {
            rest.push(cells.last().1)
        } else {
            rest
        }
    }
}

/// The cells of `addresses`, all of type `t`.
pub open spec fn cells_of(t: RegisterType, addresses: Seq<u16>) -> Seq<RegisterCell> {
    addresses.map_values(|a: u16| (t, a))
}

/// The pinned cells, holdings first, then inputs, coils and discretes.
pub open spec fn spec_pinned_cells(p: PinnedRegisters) -> Seq<RegisterCell> {
    cells_of(RegisterType::Holding, p.holdings@) + cells_of(RegisterType::Input, p.inputs@)
        + cells_of(RegisterType::Coil, p.coils@) + cells_of(RegisterType::Discrete, p.discretes@)
}

fn push_cells(out: &mut Vec<RegisterCell>, t: RegisterType, addresses: &Vec<u16>)
    ensures
        final(out)@ == old(out)@ + cells_of(t, addresses@),
{
    let mut i: usize = 0;
    while i < addresses.len()
        invariant
            i <= addresses@.len(),
            out@ == old(out)@ + cells_of(t, addresses@.take(i as int)),
        decreases addresses@.len() - i,
    {
        out.push((t, addresses[i]));
        i += 1;
        assert(cells_of(t, addresses@.take(i as int)) =~= cells_of(t, addresses@.take(i - 1)).push(
            (t, addresses@[i - 1]),
        ));
    }
    assert(addresses@.take(addresses@.len() as int) =~= addresses@);
}

impl PinnedRegisters {
    /// The pins as cells, grouped by register type.
    pub fn into_cells(self) -> (r: Vec<RegisterCell>)
        ensures
            r@ == spec_pinned_cells(self),
    {
        let mut collection: Vec<RegisterCell> = Vec::new();
        push_cells(&mut collection, RegisterType::Holding, &self.holdings);
        push_cells(&mut collection, RegisterType::Input, &self.inputs);
        push_cells(&mut collection, RegisterType::Coil, &self.coils);
        push_cells(&mut collection, RegisterType::Discrete, &self.discretes);
        assert(collection@ =~= spec_pinned_cells(self));
        collection
    }

    /// The pins of `cells`, split by register type, each list in the order
    /// of `cells`.
    pub fn from_cells(cells: &[RegisterCell]) -> (r: PinnedRegisters)
        ensures
            r.holdings@ == addresses_of(cells@, RegisterType::Holding),
            r.inputs@ == addresses_of(cells@, RegisterType::Input),
            r.coils@ == addresses_of(cells@, RegisterType::Coil),
            r.discretes@ == addresses_of(cells@, RegisterType::Discrete),
    {
        let mut pinned = PinnedRegisters::default();
        let mut i: usize = 0;
        while i < cells.len()
            invariant
                i <= cells@.len(),
                pinned.holdings@ == addresses_of(cells@.take(i as int), RegisterType::Holding),
                pinned.inputs@ == addresses_of(cells@.take(i as int), RegisterType::Input),
                pinned.coils@ == addresses_of(cells@.take(i as int), RegisterType::Coil),
                pinned.discretes@ == addresses_of(cells@.take(i as int), RegisterType::Discrete),
            decreases cells@.len() - i,
        {
            let (kind, address) = cells[i];
            assert(cells@.take(i + 1).drop_last() =~= cells@.take(i as int));
            match kind {
                RegisterType::Holding => pinned.holdings.push(address),
                RegisterType::Input => pinned.inputs.push(address),
                RegisterType::Coil => pinned.coils.push(address),
                RegisterType::Discrete => pinned.discretes.push(address),
            }
            i += 1;
        }
        assert(cells@.take(cells@.len() as int) =~= cells@);
        pinned
    }
}

proof fn lemma_addresses_of_cells(t: RegisterType, u: RegisterType, a: Seq<u16>)
    ensures
        addresses_of(cells_of(t, a), u) == if t == u {
            a
        } else {
            Seq::empty()
        },
    decreases a.len(),
{
    if a.len() > 0 {
        assert(cells_of(t, a).drop_last() =~= cells_of(t, a.drop_last()));
        lemma_addresses_of_cells(t, u, a.drop_last());
        assert(a.drop_last().push(a.last()) =~= a);
    } else {
        assert(cells_of(t, a) =~= Seq::empty());
    }
}

proof fn lemma_addresses_of_concat(x: Seq<RegisterCell>, y: Seq<RegisterCell>, u: RegisterType)
    ensures
        addresses_of(x + y, u) == addresses_of(x, u) + addresses_of(y, u),
    decreases y.len(),
{
    if y.len() == 0 {
        assert(x + y =~= x);
        assert(addresses_of(x, u) + Seq::<u16>::empty() =~= addresses_of(x, u));
    } else {
        assert((x + y).drop_last() =~= x + y.drop_last());
        lemma_addresses_of_concat(x, y.drop_last(), u);
        if y.last().0 == u {
            assert(addresses_of(x, u) + addresses_of(y.drop_last(), u).push(y.last().1) =~= (
            addresses_of(x, u) + addresses_of(y.drop_last(), u)).push(y.last().1));
        }
    }
}

/// Splitting pins by register type and listing them again gives every
/// register type's pins back unchanged, in their order.
pub proof fn lemma_pins_round_trip(p: PinnedRegisters)
    ensures
        addresses_of(spec_pinned_cells(p), RegisterType::Holding) == p.holdings@,
        addresses_of(spec_pinned_cells(p), RegisterType::Input) == p.inputs@,
        addresses_of(spec_pinned_cells(p), RegisterType::Coil) == p.coils@,
        addresses_of(spec_pinned_cells(p), RegisterType::Discrete) == p.discretes@,
{
    let h = cells_of(RegisterType::Holding, p.holdings@);
    let i = cells_of(RegisterType::Input, p.inputs@);
    let c = cells_of(RegisterType::Coil, p.coils@);
    let d = cells_of(RegisterType::Discrete, p.discretes@);
    assert forall|u: RegisterType| #[trigger] addresses_of(h + i + c + d, u) == addresses_of(h, u)
        + addresses_of(i, u) + addresses_of(c, u) + addresses_of(d, u) by {
        lemma_addresses_of_concat(h + i + c, d, u);
        lemma_addresses_of_concat(h + i, c, u);
        lemma_addresses_of_concat(h, i, u);
    }
    assert forall|u: RegisterType, t: RegisterType, a: Seq<u16>| #[trigger] addresses_of(cells_of(t, a), u)
        == if t == u {
        a
    } else {
        Seq::empty()
    } by {
        lemma_addresses_of_cells(t, u, a);
    }
    assert(addresses_of(spec_pinned_cells(p), RegisterType::Holding) =~= p.holdings@);
    assert(addresses_of(spec_pinned_cells(p), RegisterType::Input) =~= p.inputs@);
    assert(addresses_of(spec_pinned_cells(p), RegisterType::Coil) =~= p.coils@);
    assert(addresses_of(spec_pinned_cells(p), RegisterType::Discrete) =~= p.discretes@);
}

/// How many entries one section and three others hold together.
pub fn section_count(section: usize, rest: [usize; 3]) -> (r: usize)
    requires
        section + rest[0] + rest[1] + rest[2] <= usize::MAX,
    ensures
        r == section + rest[0] + rest[1] + rest[2],
{
    section + rest[0] + rest[1] + rest[2]
}

/// Coil states as register words, one word of 0 or 1 per coil.
pub fn bits_to_words(bits: Vec<bool>) -> (r: Vec<u16>)
    ensures
        r@ == bits@.map_values(|b: bool| if b {
            1u16
        } else {
            0u16
        }),
{
    let mut words: Vec<u16> = Vec::new();
    let mut i: usize = 0;
    while i < bits.len()
        invariant
            i <= bits@.len(),
            words@ == bits@.take(i as int).map_values(|b: bool| if b {
                1u16
            } else {
                0u16
            }),
        decreases bits@.len() - i,
    {
        words.push(if bits[i] {
            1
        } else {
            0
        });
        i += 1;
        assert(words@ =~= bits@.take(i as int).map_values(|b: bool| if b {
            1u16
        } else {
            0u16
        }));
    }
    assert(bits@.take(bits@.len() as int) =~= bits@);
    words
}

pub const RECONNECT_BASE_MS: u64 = 1_000;

pub const RECONNECT_CAP_MS: u64 = 30_000;

/// The delay before reconnect attempt `attempts`: one second, doubling with
/// each further attempt, at most thirty seconds.
pub open spec fn spec_backoff_ms(attempts: u32) -> nat {
    let shift = vstd::math::min(vstd::math::max(attempts - 1, 0), 5) as nat;
    vstd::math::min(1000 * vstd::arithmetic::power2::pow2(shift) as int, 30_000) as nat
}

/// The delay, in milliseconds, before the next reconnect attempt.
pub fn reconnect_backoff(attempts: u32) -> (r: u64)
    ensures
        r == spec_backoff_ms(attempts),
        1000 <= r <= 30_000,
{
    let shift: u64 = if attempts == 0 {
        0
    } else if attempts - 1 > 5 {
        5
    } else {
        (attempts - 1) as u64
    };
    let mut value: u64 = RECONNECT_BASE_MS;
    let mut i: u64 = 0;
    proof {
        vstd::arithmetic::power2::lemma2_to64();
    }
    while i < shift
        invariant
            i <= shift <= 5,
            value == 1000 * vstd::arithmetic::power2::pow2(i as nat),
        decreases shift - i,
    {
        proof {
            vstd::arithmetic::power2::lemma_pow2_unfold((i + 1) as nat);
            vstd::arithmetic::power2::lemma_pow2_strictly_increases(i as nat, 5);
            vstd::arithmetic::power2::lemma2_to64();
        }
        value = value * 2;
        i += 1;
    }
    proof {
        vstd::arithmetic::power2::lemma2_to64();
        vstd::arithmetic::power2::lemma_pow2_pos(shift as nat);
    }
    if value < RECONNECT_CAP_MS {
        value
    } else {
        RECONNECT_CAP_MS
    }
}

/// `q` can be read in `t` in order, not necessarily contiguously.
pub open spec fn is_subsequence(q: Seq<char>, t: Seq<char>) -> bool
    decreases t.len(),
{
    if q.len() == 0 {
        true
    } else if t.len() == 0 {
        false
    } else if q[0] == t[0] {
        is_subsequence(q.drop_first(), t.drop_first())
    } else {
        is_subsequence(q, t.drop_first())
    }
}

/// How well `query` matches `text`, ignoring ASCII case: 1000 less the byte
/// position of its first occurrence, 0 when it only matches scattered, and
/// no score when it does not match; an empty query scores 0.
pub open spec fn spec_fuzzy_score(query: Seq<char>, t: Seq<char>) -> Option<int> {
    let tl = text::ascii_lower_seq(t);
    let ql = text::ascii_lower_seq(query);
    if query.len() == 0 {
        Some(0)
    } else if text::contains_seq(tl, ql) {
        let pos = choose|i: int| text::occurs_at(tl, ql, i) && forall|j: int| 0 <= j < i ==> !text::occurs_at(tl, ql, j);
        Some(1000 - utf8_bytes(tl.take(pos)))
    } else if is_subsequence(ql, tl) {
        Some(0)
    } else {
        None
    }
}


/// Scores `text` against a search query.
pub fn fuzzy_score(query: &str, text: &str) -> (r: Option<i32>)
    requires
        text@.len() < 0x1000_0000,
    ensures
        r matches Some(v) ==> spec_fuzzy_score(query@, text@) == Some(v as int),
        r is None ==> spec_fuzzy_score(query@, text@) is None,
{
    let ql = ascii_lowercase_chars(query);
    if ql.len() == 0 {
        return Some(0);
    }
    let tl = ascii_lowercase_chars(text);
    match text::find_from(tl.as_slice(), ql.as_slice(), 0) {
        Some(pos) => {
            let mut bytes: usize = 0;
            let mut k: usize = 0;
            while k < pos
                invariant
                    k <= pos <= tl@.len(),
                    tl@.len() < 0x1000_0000,
                    bytes == utf8_bytes(tl@.take(k as int)),
                    bytes <= 4 * k,
                decreases pos - k,
            {
                assert(tl@.take(k + 1).drop_last() =~= tl@.take(k as int));
                bytes = bytes + utf8_char_len(tl[k]);
                k += 1;
            }
            proof {
                let p = choose|i: int| text::occurs_at(tl@, ql@, i) && forall|j: int| 0 <= j < i ==> !text::occurs_at(tl@, ql@, j);
                if p < pos {
                    assert(!text::occurs_at(tl@, ql@, p));
                } else if p > pos {
                    assert(!text::occurs_at(tl@, ql@, pos as int));
                }
            }
            return Some(1000 - bytes as i32);
        },
        None => {},
    }
    let n = tl.len();
    let mut t: usize = 0;
    let mut q: usize = 0;
    assert(ql@.skip(0) =~= ql@);
    assert(tl@.skip(0) =~= tl@);
    assert(!text::contains_seq(tl@, ql@));
    while q < ql.len()
        invariant
            q <= ql@.len(),
            ql@ == text::ascii_lower_seq(query@),
            tl@ == text::ascii_lower_seq(text@),
            !text::contains_seq(tl@, ql@),
            query@.len() > 0,
            t <= n,
            n == tl@.len(),
            is_subsequence(ql@, tl@) == is_subsequence(ql@.skip(q as int), tl@.skip(t as int)),
        decreases ql@.len() - q, n - t,
    {
        if t == n {
            proof {
                assert(tl@.skip(t as int).len() == 0);
                assert(ql@.skip(q as int).len() > 0);
            }
            return None;
        }
        proof {
            assert(ql@.skip(q as int).drop_first() =~= ql@.skip(q + 1));
            assert(tl@.skip(t as int).drop_first() =~= tl@.skip(t + 1));
        }
        if tl[t] == ql[q] {
            q += 1;
        }
        t += 1;
    }
    proof {
        assert(ql@.skip(q as int).len() == 0);
    }
    Some(0)
}

/// The parts of `s` between the separators `c`.
pub open spec fn split_char(s: Seq<char>, c: char) -> Seq<Seq<char>>
    decreases s.len(),
{
    if s.contains(c) {
        let i = s.index_of_first(c)->0;
        proof {
            s.index_of_first_ensures(c);
        }
        seq![s.take(i)] + split_char(s.skip(i + 1), c)
    } else {
        seq![s]
    }
}

/// The `a.b.c.` prefix of an IPv4 address, when its first three parts are
/// numbers that fit in a byte; the parts are kept as written.
pub open spec fn spec_subnet_prefix(ip: Seq<char>) -> Option<Seq<char>> {
    let parts = split_char(ip, '.');
    if parts.len() >= 3 && (forall|k: int|
        0 <= k < 3 ==> parse::spec_parse_unsigned(#[trigger] parts[k], 10, 255) is Some) {
        Some(parts[0] + seq!['.'] + parts[1] + seq!['.'] + parts[2] + seq!['.'])
    } else {
        None
    }
}

/// The end of the part of `cs` that starts at `from`.
fn part_end(cs: &[char], from: usize) -> (r: usize)
    requires
        from <= cs@.len(),
    ensures
        from <= r <= cs@.len(),
        forall|j: int| from <= j < r ==> cs@[j] != '.',
        r < cs@.len() ==> cs@[r as int] == '.',
{
    let mut i = from;
    while i < cs.len() && cs[i] != '.'
        invariant
            from <= i <= cs@.len(),
            forall|j: int| from <= j < i ==> cs@[j] != '.',
        decreases cs@.len() - i,
    {
        i += 1;
    }
    i
}

proof fn lemma_split_step(s: Seq<char>, from: int, end: int)
    requires
        0 <= from <= end <= s.len(),
        forall|j: int| from <= j < end ==> s[j] != '.',
        end < s.len() ==> s[end] == '.',
    ensures
        end < s.len() ==> split_char(s.skip(from), '.') == seq![s.subrange(from, end)] + split_char(
            s.skip(end + 1),
            '.',
        ),
        end == s.len() ==> split_char(s.skip(from), '.') == seq![s.subrange(from, end)],
{
    let t = s.skip(from);
    if end < s.len() {
        assert(t[end - from] == '.');
        assert(t.contains('.'));
        t.index_of_first_ensures('.');
        let i = t.index_of_first('.')->0;
        assert(i == end - from) by {
            if i < end - from {
                assert(t[i] == s[from + i]);
            }
        }
        assert(t.take(i) =~= s.subrange(from, end));
        assert(t.skip(i + 1) =~= s.skip(end + 1));
    } else {
        assert(!t.contains('.')) by {
            if t.contains('.') {
                let k = choose|k: int| 0 <= k < t.len() && t[k] == '.';
                assert(s[from + k] == '.');
            }
        }
        assert(t =~= s.subrange(from, end));
    }
}

fn copy_part(cs: &[char], from: usize, to: usize) -> (r: Vec<char>)
    requires
        from <= to <= cs@.len(),
    ensures
        r@ == cs@.subrange(from as int, to as int),
{
    let mut v: Vec<char> = Vec::new();
    let mut i = from;
    while i < to
        invariant
            from <= i <= to <= cs@.len(),
            v@ == cs@.subrange(from as int, i as int),
        decreases to - i,
    {
        v.push(cs[i]);
        i += 1;
        assert(v@ =~= cs@.subrange(from as int, i as int));
    }
    v
}

/// The subnet prefix `a.b.c.` of an IPv4 address, for a scan of its /24.
#[verifier::spinoff_prover]
#[verifier::rlimit(40)]
pub fn subnet_prefix_from(ip: &str) -> (r: Option<String>)
    ensures
        r matches Some(p) ==> spec_subnet_prefix(ip@) == Some(p@),
        r is None ==> spec_subnet_prefix(ip@) is None,
{
    let cs = chars_of(ip);
    let n = cs.len();
    let e0 = part_end(cs.as_slice(), 0);
    proof {
        lemma_split_step(cs@, 0, e0 as int);
        assert(cs@.skip(0) =~= cs@);
    }
    if e0 == n {
        return None;
    }
    let e1 = part_end(cs.as_slice(), e0 + 1);
    proof {
        lemma_split_step(cs@, e0 + 1, e1 as int);
    }
    if e1 == n {
        return None;
    }
    let e2 = part_end(cs.as_slice(), e1 + 1);
    proof {
        lemma_split_step(cs@, e1 + 1, e2 as int);
    }
    let p0 = copy_part(cs.as_slice(), 0, e0);
    let p1 = copy_part(cs.as_slice(), e0 + 1, e1);
    let p2 = copy_part(cs.as_slice(), e1 + 1, e2);
    let ghost parts = split_char(cs@, '.');
    proof {
        assert(parts[0] == p0@);
        assert(parts[1] == p1@);
        assert(parts[2] == p2@);
        assert(parts.len() >= 3);
    }
    if parse_unsigned(p0.as_slice(), 10, 255).is_none() || parse_unsigned(p1.as_slice(), 10, 255).is_none()
        || parse_unsigned(p2.as_slice(), 10, 255).is_none() {
        return None;
    }
    let mut out = String::new();
    push_chars(&mut out, p0.as_slice(), 0, p0.len());
    push_char(&mut out, '.');
    push_chars(&mut out, p1.as_slice(), 0, p1.len());
    push_char(&mut out, '.');
    push_chars(&mut out, p2.as_slice(), 0, p2.len());
    push_char(&mut out, '.');
    proof {
        assert(p0@.subrange(0, p0@.len() as int) =~= p0@);
        assert(p1@.subrange(0, p1@.len() as int) =~= p1@);
        assert(p2@.subrange(0, p2@.len() as int) =~= p2@);
        assert(out@ =~= parts[0] + seq!['.'] + parts[1] + seq!['.'] + parts[2] + seq!['.']);
    }
    Some(out)
}

/// Whether label `a` ranks before label `b`: a higher score first, the
/// earlier label among equal scores.
pub open spec fn ranks_before(scores: Seq<Option<int>>, a: int, b: int) -> bool {
    scores[a]->0 > scores[b]->0 || (scores[a]->0 == scores[b]->0 && a < b)
}

/// `idx` lists every label that matches, each once, best first.
pub open spec fn is_ranking(scores: Seq<Option<int>>, idx: Seq<int>) -> bool {
    &&& forall|k: int| 0 <= k < idx.len() ==> 0 <= #[trigger] idx[k] < scores.len() && scores[idx[k]] is Some
    &&& forall|i: int| 0 <= i < scores.len() && #[trigger] scores[i] is Some ==> idx.contains(i)
    &&& forall|j: int, k: int| 0 <= j < k < idx.len() ==> ranks_before(scores, #[trigger] idx[j], #[trigger] idx[k])
}

/// The scores of `labels` against `query`.
pub open spec fn label_scores(query: Seq<char>, labels: Seq<&str>) -> Seq<Option<int>> {
    labels.map_values(|l: &str| spec_fuzzy_score(query, l@))
}

/// Pair `x` (score, position) ranks before pair `y`.
pub open spec fn pair_before(x: (i32, usize), y: (i32, usize)) -> bool {
    x.0 > y.0 || (x.0 == y.0 && x.1 < y.1)
}

/// The pairs are in ranking order.
pub open spec fn pairs_sorted(v: Seq<(i32, usize)>) -> bool {
    forall|a: int, b: int| 0 <= a < b < v.len() ==> pair_before(#[trigger] v[a], #[trigger] v[b])
}

fn insert_ranked(ranked: &mut Vec<(i32, usize)>, v: i32, i: usize) -> (at: usize)
    requires
        pairs_sorted(old(ranked)@),
        forall|k: int| 0 <= k < old(ranked)@.len() ==> (#[trigger] old(ranked)@[k]).1 < i,
    ensures
        at <= old(ranked)@.len(),
        final(ranked)@ == old(ranked)@.insert(at as int, (v, i)),
        pairs_sorted(final(ranked)@),
{
    let mut at: usize = 0;
    while at < ranked.len() && ranked[at].0 >= v
        invariant
            at <= ranked@.len(),
            forall|k: int| 0 <= k < at ==> (#[trigger] ranked@[k]).0 >= v,
        decreases ranked@.len() - at,
    {
        at += 1;
    }
    let ghost before = ranked@;
    ranked.insert(at, (v, i));
    assert forall|a: int, b: int| 0 <= a < b < ranked@.len() implies pair_before(
        #[trigger] ranked@[a],
        #[trigger] ranked@[b],
    ) by {
        if b < at {
            assert(ranked@[a] == before[a] && ranked@[b] == before[b]);
        } else if b == at {
            assert(ranked@[a] == before[a]);
        } else if a < at {
            assert(ranked@[a] == before[a] && ranked@[b] == before[b - 1]);
        } else if a == at {
            assert(ranked@[b] == before[b - 1]);
            assert(before[at as int].0 < v);
            if b - 1 > at {
                assert(pair_before(before[at as int], before[b - 1]));
            }
        } else {
            assert(ranked@[a] == before[a - 1] && ranked@[b] == before[b - 1]);
        }
    }
    at
}

/// The items whose labels match `query`, best match first, in item order
/// among equal scores; `labels[i]` is the label of `items[i]`.
#[verifier::spinoff_prover]
#[verifier::rlimit(60)]
pub fn fuzzy_rank<T: Copy>(query: &str, items: &[T], labels: &[&str]) -> (r: Vec<T>)
    requires
        labels@.len() == items@.len(),
        forall|i: int| 0 <= i < labels@.len() ==> (#[trigger] labels@[i])@.len() < 0x1000_0000,
    ensures
        exists|idx: Seq<int>|
            is_ranking(label_scores(query@, labels@), idx) && r@.len() == idx.len() && (forall|k: int|
                0 <= k < idx.len() ==> #[trigger] r@[k] == items@[idx[k]]),
{
    let ghost scores = label_scores(query@, labels@);
    let mut ranked: Vec<(i32, usize)> = Vec::new();
    let ghost mut pos: Seq<int> = seq![];
    let mut i: usize = 0;
    while i < labels.len()
        invariant
            i <= labels@.len(),
            labels@.len() == items@.len(),
            scores == label_scores(query@, labels@),
            forall|m: int| 0 <= m < labels@.len() ==> (#[trigger] labels@[m])@.len() < 0x1000_0000,
            forall|k: int|
                0 <= k < ranked@.len() ==> (#[trigger] ranked@[k]).1 < i && scores[ranked@[k].1 as int]
                    == Some(ranked@[k].0 as int),
            pos.len() == i,
            forall|m: int|
                0 <= m < i && #[trigger] scores[m] is Some ==> 0 <= pos[m] < ranked@.len()
                    && ranked@[pos[m]].1 == m,
            pairs_sorted(ranked@),
        decreases labels@.len() - i,
    {
        let score = fuzzy_score(query, labels[i]);
        assert(scores[i as int] == spec_fuzzy_score(query@, labels@[i as int]@));
        if let Some(v) = score {
            let ghost before = ranked@;
            let at = insert_ranked(&mut ranked, v, i);
            proof {
                assert forall|k: int| 0 <= k < ranked@.len() implies (#[trigger] ranked@[k]).1 < i + 1
                    && scores[ranked@[k].1 as int] == Some(ranked@[k].0 as int) by {
                    if k < at {
                        assert(ranked@[k] == before[k]);
                    } else if k > at {
                        assert(ranked@[k] == before[k - 1]);
                    }
                }
                let old_pos = pos;
                pos = Seq::new(
                    (i + 1) as nat,
                    |m: int|
                        if m == i {
                            at as int
                        } else if old_pos[m] < at {
                            old_pos[m]
                        } else {
                            old_pos[m] + 1
                        },
                );
                assert forall|m: int| 0 <= m < i + 1 && #[trigger] scores[m] is Some implies 0 <= pos[m]
                    < ranked@.len() && ranked@[pos[m]].1 == m by {
                    if m < i {
                        let k = old_pos[m];
                        assert(before[k].1 == m);
                        if k < at {
                            assert(ranked@[k] == before[k]);
                        } else {
                            assert(ranked@[k + 1] == before[k]);
                        }
                    }
                }
            }
        } else {
            proof {
                pos = pos.push(0);
            }
        }
        i += 1;
    }
    let mut out: Vec<T> = Vec::new();
    let mut k: usize = 0;
    while k < ranked.len()
        invariant
            k <= ranked@.len(),
            out@.len() == k,
            labels@.len() == items@.len(),
            forall|j: int| 0 <= j < ranked@.len() ==> (#[trigger] ranked@[j]).1 < items@.len(),
            forall|j: int| 0 <= j < k ==> #[trigger] out@[j] == items@[ranked@[j].1 as int],
        decreases ranked@.len() - k,
    {
        out.push(items[ranked[k].1]);
        k += 1;
    }
    let ghost idx = Seq::new(ranked@.len(), |j: int| ranked@[j].1 as int);
    proof {
        assert forall|m: int| 0 <= m < scores.len() && #[trigger] scores[m] is Some implies idx.contains(m) by {
            assert(idx[pos[m]] == m);
        }
        assert forall|j: int, k2: int| 0 <= j < k2 < idx.len() implies ranks_before(scores, #[trigger] idx[j], #[trigger] idx[k2]) by {
            assert(pair_before(ranked@[j], ranked@[k2]));
        }
        assert(is_ranking(scores, idx));
        assert(forall|j: int| 0 <= j < idx.len() ==> #[trigger] out@[j] == items@[idx[j]]);
    }
    out
}

/// Entries of the four register types.
#[derive(Debug, Clone, PartialEq)]
pub struct Sections<T> {
    pub holdings: Vec<T>,
    pub inputs: Vec<T>,
    pub coils: Vec<T>,
    pub discretes: Vec<T>,
}

/// How many entries sections hold in all.
pub open spec fn sections_len<T>(s: Sections<T>) -> nat {
    s.holdings@.len() + s.inputs@.len() + s.coils@.len() + s.discretes@.len()
}

/// How many pins a pin list holds in all.
pub open spec fn pins_len(p: PinnedRegisters) -> nat {
    p.holdings@.len() + p.inputs@.len() + p.coils@.len() + p.discretes@.len()
}

/// Pasted or imported register data: pins, labels (`L` each) and custom
/// rules (`R` each), each part optional.
pub struct ImportPayload<L, R> {
    pub pinned_registers: Option<PinnedRegisters>,
    pub labels: Option<Sections<L>>,
    pub custom_rules: Option<Sections<R>>,
}

/// How many pins, labels and rules a payload holds.
pub open spec fn payload_counts<L, R>(p: &ImportPayload<L, R>) -> (nat, nat, nat) {
    (
        match p.pinned_registers {
            Some(x) => pins_len(x),
            None => 0,
        },
        match p.labels {
            Some(x) => sections_len(x),
            None => 0,
        },
        match p.custom_rules {
            Some(x) => sections_len(x),
            None => 0,
        },
    )
}

impl<L, R> ImportPayload<L, R> {
    /// How many registers the payload pins.
    pub fn pins(&self) -> (r: usize)
        requires
            payload_counts(self).0 <= usize::MAX,
        ensures
            r == payload_counts(self).0,
    {
        match &self.pinned_registers {
            Some(p) => section_count(p.holdings.len(), [p.inputs.len(), p.coils.len(), p.discretes.len()]),
            None => 0,
        }
    }

    /// How many labels the payload holds.
    pub fn labels(&self) -> (r: usize)
        requires
            payload_counts(self).1 <= usize::MAX,
        ensures
            r == payload_counts(self).1,
    {
        match &self.labels {
            Some(l) => section_count(l.holdings.len(), [l.inputs.len(), l.coils.len(), l.discretes.len()]),
            None => 0,
        }
    }

    /// How many custom rules the payload holds.
    pub fn rules(&self) -> (r: usize)
        requires
            payload_counts(self).2 <= usize::MAX,
        ensures
            r == payload_counts(self).2,
    {
        match &self.custom_rules {
            Some(c) => section_count(c.holdings.len(), [c.inputs.len(), c.coils.len(), c.discretes.len()]),
            None => 0,
        }
    }

    /// How many pins, labels and rules the payload holds in all.
    pub fn total(&self) -> (r: usize)
        requires
            payload_counts(self).0 + payload_counts(self).1 + payload_counts(self).2 <= usize::MAX,
        ensures
            r == payload_counts(self).0 + payload_counts(self).1 + payload_counts(self).2,
    {
        self.pins() + self.labels() + self.rules()
    }
}

} // verus!
