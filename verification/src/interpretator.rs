use vstd::prelude::*;
use crate::config::{
    column_at_rank, column_rank, spec_column_name, spec_column_width, Column, InterpretorConfig,
    visible_wf,
};
use crate::custom::CustomRepr;
use crate::modbus::{spec_make_dword, spec_make_word, WordOrder};
use crate::text::{
    dec, fill, hex, is_ws, push_char, push_decimal, push_fill, push_hex, push_signed, push_str,
    signed_dec, spaces, trim,
};

verus! {

/// Width of the address field.
pub const ADDRESS_W: usize = 7;

/// Width of the time field.
pub const TIME_W: usize = 12;

/// Width of the "ago" field.
pub const AGO_W: usize = 9;

/// Width given to a float in the inspect view.
pub const INSPECT_W: usize = 21;

/// `text` left-aligned in a field of width `w`, then one space: what
/// `{:<w$} ` writes.
pub open spec fn cell(text: Seq<char>, w: int) -> Seq<char> {
    text + fill(text.len() as int, w) + seq![' ']
}

/// `text` right-aligned in a field of width `w`: what `{:>w$}` writes.
pub open spec fn right(text: Seq<char>, w: int) -> Seq<char> {
    fill(text.len() as int, w) + text
}

/// `text` with leading zeros up to width `w`: what `{:0w$X}` writes.
pub open spec fn zero_padded(text: Seq<char>, w: int) -> Seq<char> {
    zeros(if text.len() < w { (w - text.len()) as nat } else { 0 }) + text
}

/// `n` zeros.
pub open spec fn zeros(n: nat) -> Seq<char> {
    Seq::new(n, |_i: int| '0')
}

/// How long ago a read was, from the seconds since it.
pub open spec fn ago_text(secs: int) -> Seq<char> {
    if secs <= 0 {
        "now"@
    } else if secs < 60 {
        dec(secs as nat) + "s ago"@
    } else if secs < 3600 {
        dec((secs / 60) as nat) + "m ago"@
    } else {
        ">1h ago"@
    }
}

/// The value of a BCD number of `nibbles` nibbles, or `None` when a
/// nibble is not a decimal digit.
pub open spec fn bcd_value(value: nat, nibbles: nat) -> Option<nat>
    decreases nibbles,
{
    if nibbles == 0 {
        Some(0)
    } else if value % 16 > 9 {
        None
    } else {
        match bcd_value(value / 16, (nibbles - 1) as nat) {
            Some(high) => Some(high * 10 + value % 16),
            None => None,
        }
    }
}

/// A byte as a printable character, `.` where it is not a graphic ASCII
/// character.
pub open spec fn glyph(b: u8) -> char {
    if 0x21 <= b <= 0x7e {
        b as char
    } else {
        '.'
    }
}

/// The glyphs of the big-endian bytes of `words`.
pub open spec fn ascii_text(words: Seq<u16>) -> Seq<char>
    decreases words.len(),
{
    if words.len() == 0 {
        seq![]
    } else {
        ascii_text(words.drop_last()) + seq![
            glyph((words.last() / 256) as u8),
            glyph((words.last() % 256) as u8),
        ]
    }
}

/// Binary digit `j` (from the most significant) of `value`.
pub open spec fn bit_char(value: u16, j: int) -> char {
    if (value >> ((15 - j) as u16)) & 1u16 == 1u16 {
        '1'
    } else {
        '0'
    }
}

/// The 16 binary digits of `value` in groups of four, one space between
/// groups.
pub open spec fn bits_text(value: u16) -> Seq<char> {
    Seq::new(
        19,
        |i: int|
            if i % 5 == 4 {
                ' '
            } else {
                bit_char(value, (i / 5) * 4 + i % 5)
            },
    )
}

fn glyph_of(b: u8) -> (c: char)
    ensures
        c == glyph(b),
{
    if 0x21 <= b && b <= 0x7e {
        b as char
    } else {
        '.'
    }
}

/// The glyphs of the big-endian bytes of `words`: printable ASCII as it
/// is, anything else as `.`.
pub fn ascii_words(words: &[u16]) -> (r: String)
    ensures
        r@ == ascii_text(words@),
{
    let mut out = String::new();
    let mut i: usize = 0;
    while i < words.len()
        invariant
            i <= words@.len(),
            out@ == ascii_text(words@.subrange(0, i as int)),
        decreases words@.len() - i,
    {
        let w = words[i];
        push_char(&mut out, glyph_of((w / 256) as u8));
        push_char(&mut out, glyph_of((w % 256) as u8));
        i += 1;
        proof {
            let sub = words@.subrange(0, i as int);
            assert(sub.drop_last() =~= words@.subrange(0, i - 1));
            assert(sub.last() == w);
            assert(out@ =~= ascii_text(sub));
        }
    }
    assert(words@.subrange(0, words@.len() as int) =~= words@);
    out
}

fn bits_cell(value: u16, out: &mut String)
    ensures
        final(out)@ == old(out)@ + bits_text(value),
{
    let ghost start = out@;
    let mut i: u16 = 0;
    while i < 19
        invariant
            i <= 19,
            out@ == start + bits_text(value).subrange(0, i as int),
        decreases 19 - i,
    {
        let c = if i % 5 == 4 {
            ' '
        } else {
            let j: u16 = (i / 5) * 4 + i % 5;
            if (value >> (15 - j)) & 1u16 == 1u16 {
                '1'
            } else {
                '0'
            }
        };
        assert(c == bits_text(value)[i as int]);
        push_char(out, c);
        i += 1;
        assert(bits_text(value).subrange(0, i as int) =~= bits_text(value).subrange(
            0,
            i - 1,
        ).push(c));
    }
    assert(bits_text(value).subrange(0, 19) =~= bits_text(value));
}

fn bcd(value: u64, nibbles: u64) -> (r: Option<u64>)
    requires
        nibbles <= 8,
    ensures
        r matches Some(n) ==> bcd_value(value as nat, nibbles as nat) == Some(n as nat) && n
            < pow10(nibbles as nat),
        r is None ==> bcd_value(value as nat, nibbles as nat) is None,
    decreases nibbles,
{
    if nibbles == 0 {
        return Some(0);
    }
    let low = value % 16;
    if low > 9 {
        return None;
    }
    match bcd(value / 16, nibbles - 1) {
        Some(high) => {
            proof {
                let p = pow10((nibbles - 1) as nat);
                assert(pow10(nibbles as nat) == 10 * p);
                lemma_pow10_bound((nibbles - 1) as nat);
                assert(high * 10 + low < 10 * p) by (nonlinear_arith)
                    requires
                        high < p,
                        low <= 9,
                ;
            }
            Some(high * 10 + low)
        },
        None => None,
    }
}

/// `10` to the power `n`.
pub open spec fn pow10(n: nat) -> nat
    decreases n,
{
    if n == 0 {
        1
    } else {
        10 * pow10((n - 1) as nat)
    }
}

proof fn lemma_pow10_bound(n: nat)
    requires
        n <= 7,
    ensures
        pow10(n) <= 10_000_000,
{
    reveal_with_fuel(pow10, 8);
    if n == 0 {
    } else if n == 1 {
    } else if n == 2 {
    } else if n == 3 {
    } else if n == 4 {
    } else if n == 5 {
    } else if n == 6 {
    } else {
        assert(pow10(7) == 10_000_000);
    }
}

pub fn push_zero_padded_hex(out: &mut String, n: u64, w: usize)
    ensures
        final(out)@ == old(out)@ + zero_padded(hex(n as nat), w as int),
{
    let mut digits = String::new();
    push_hex(&mut digits, n);
    let len = digits.as_str().unicode_len();
    let mut i: usize = len;
    let ghost start = out@;
    while i < w
        invariant
            len <= i,
            len < w ==> i <= w,
            len >= w ==> i == len,
            len == hex(n as nat).len(),
            digits@ == hex(n as nat),
            out@ == start + zeros((i - len) as nat),
        decreases w - i,
    {
        push_char(out, '0');
        i += 1;
        assert(zeros((i - len) as nat) =~= zeros((i - 1 - len) as nat).push('0'));
    }
    assert((i - len) as nat == (if len < w { (w - len) as nat } else { 0 }));
    push_str(out, digits.as_str());
    assert(out@ =~= start + zero_padded(hex(n as nat), w as int));
}

/// Appends `text` left-aligned in a field of width `w`, then one space.
fn push_cell(out: &mut String, text: &str, w: usize)
    ensures
        final(out)@ == old(out)@ + cell(text@, w as int),
{
    push_str(out, text);
    push_fill(out, text.unicode_len(), w);
    push_char(out, ' ');
    assert(out@ =~= old(out)@ + cell(text@, w as int));
}

/// How long ago a read was, from the seconds since it.
pub fn format_ago(secs: i64) -> (r: String)
    ensures
        r@ == ago_text(secs as int),
{
    let mut out = String::new();
    if secs <= 0 {
        push_str(&mut out, "now");
        proof {
            reveal_strlit("now");
        }
    } else if secs < 60 {
        push_decimal(&mut out, secs as u64);
        push_str(&mut out, "s ago");
    } else if secs < 3600 {
        push_decimal(&mut out, (secs / 60) as u64);
        push_str(&mut out, "m ago");
    } else {
        push_str(&mut out, ">1h ago");
    }
    out
}

/// Float renderings made by the caller, which this library does not
/// format: the register read as a half float, the 32-bit word as a single
/// and the 64-bit word as a double.
pub struct FloatTexts {
    pub half: String,
    pub single: String,
    pub double: String,
}

/// The register value of an optional neighbour, `0` where it is missing.
pub open spec fn or_zero(o: Option<u16>) -> u16 {
    match o {
        Some(v) => v,
        None => 0,
    }
}

/// The 32-bit word of a register and the next one.
pub open spec fn row_word(order: WordOrder, value: u16, next: Seq<Option<u16>>) -> u32 {
    spec_make_word(order, value, or_zero(next[0]))
}

/// The 64-bit word of a register and the next three.
pub open spec fn row_dword(order: WordOrder, value: u16, next: Seq<Option<u16>>) -> u64 {
    spec_make_dword(
        order,
        row_word(order, value, next),
        spec_make_word(order, or_zero(next[1]), or_zero(next[2])),
    )
}

/// The text of `column` for a register `value` followed by `next`: `?`
/// where the column needs neighbours that were not read.
pub open spec fn cell_text(
    column: Column,
    order: WordOrder,
    value: u16,
    next: Seq<Option<u16>>,
    custom: Option<Seq<char>>,
    floats: (Seq<char>, Seq<char>, Seq<char>),
) -> Seq<char> {
    let two = next[0] is Some;
    let four = two && next[1] is Some && next[2] is Some;
    let word = row_word(order, value, next);
    let dword = row_dword(order, value, next);
    match column {
        Column::U16 => dec(value as nat),
        Column::I16 => signed_dec((value as i16) as int),
        Column::U8s => dec((value / 256) as nat) + "/"@ + dec((value % 256) as nat),
        Column::I8s => signed_dec((((value / 256) as u8) as i8) as int) + "/"@ + signed_dec(
            (((value % 256) as u8) as i8) as int,
        ),
        Column::Hex => zero_padded(hex(value as nat), 4),
        Column::Hex32 => if two {
            zero_padded(hex(word as nat), 8)
        } else {
            "?"@
        },
        Column::F16 => floats.0,
        Column::Bcd => match bcd_value(value as nat, 4) {
            Some(n) => dec(n),
            None => "?"@,
        },
        Column::Bcd32 => if two {
            match bcd_value(word as nat, 8) {
                Some(n) => dec(n),
                None => "?"@,
            }
        } else {
            "?"@
        },
        Column::U32 => if two {
            dec(word as nat)
        } else {
            "?"@
        },
        Column::I32 => if two {
            signed_dec((word as i32) as int)
        } else {
            "?"@
        },
        Column::U32M10K => if two {
            dec((word / 65536) as nat) + "/"@ + dec((word % 65536) as nat)
        } else {
            "?"@
        },
        Column::I32M10K => if two {
            signed_dec(((word / 65536) as i16) as int) + "/"@ + signed_dec(
                ((word % 65536) as i16) as int,
            )
        } else {
            "?"@
        },
        Column::U64 => if four {
            dec(dword as nat)
        } else {
            "?"@
        },
        Column::I64 => if four {
            signed_dec((dword as i64) as int)
        } else {
            "?"@
        },
        Column::F32 => if two {
            floats.1
        } else {
            "?"@
        },
        Column::F64 => if four {
            floats.2
        } else {
            "?"@
        },
        Column::Ascii => ascii_text(seq![value, or_zero(next[0])]),
        Column::Bits => bits_text(value),
        Column::Custom => match custom {
            Some(t) => t,
            None => "-"@,
        },
    }
}

/// What a row's cells are computed from.
struct RowCtx<'a> {
    value: u16,
    next: [Option<u16>; 3],
    word: u32,
    dword: u64,
    custom: Option<&'a str>,
}

impl<'a> RowCtx<'a> {
    fn new(order: WordOrder, value: u16, next: [Option<u16>; 3], custom: Option<&'a str>) -> (r: Self)
        ensures
            r.value == value,
            r.next@ == next@,
            r.word == row_word(order, value, next@),
            r.dword == row_dword(order, value, next@),
            r.custom == custom,
    {
        let b = match next[0] {
            Some(v) => v,
            None => 0,
        };
        let c = match next[1] {
            Some(v) => v,
            None => 0,
        };
        let d = match next[2] {
            Some(v) => v,
            None => 0,
        };
        let word = order.make_word(value, b);
        let dword = order.make_dword(word, order.make_word(c, d));
        RowCtx { value, next, word, dword, custom }
    }

    /// Whether the register after this one was read.
    fn two(&self) -> (r: bool)
        ensures
            r == self.next@[0] is Some,
    {
        self.next[0].is_some()
    }

    /// Whether the three registers after this one were read.
    fn four(&self) -> (r: bool)
        ensures
            r == (self.next@[0] is Some && self.next@[1] is Some && self.next@[2] is Some),
    {
        self.next[0].is_some() && self.next[1].is_some() && self.next[2].is_some()
    }
}

/// The two base-10000 halves of a word as unsigned registers.
fn m10k_to_u32(value: u32) -> (r: (u16, u16))
    ensures
        r.0 == value / 65536,
        r.1 == value % 65536,
{
    ((value / 65536) as u16, (value % 65536) as u16)
}

/// The two base-10000 halves of a word as signed registers.
fn m10k_to_i32(value: u32) -> (r: (i16, i16))
    ensures
        r.0 == ((value / 65536) as i16),
        r.1 == ((value % 65536) as i16),
{
    ((value / 65536) as i16, (value % 65536) as i16)
}

fn push_bcd(out: &mut String, value: u64, nibbles: u64)
    requires
        nibbles <= 8,
    ensures
        final(out)@ == old(out)@ + match bcd_value(value as nat, nibbles as nat) {
            Some(n) => dec(n),
            None => "?"@,
        },
{
    match bcd(value, nibbles) {
        Some(n) => push_decimal(out, n),
        None => push_str(out, "?"),
    }
}

/// The view of an optional string.
pub open spec fn opt_view(o: Option<&str>) -> Option<Seq<char>> {
    match o {
        Some(t) => Some(t@),
        None => None,
    }
}

/// The views of the three float renderings.
pub open spec fn floats_view(f: &FloatTexts) -> (Seq<char>, Seq<char>, Seq<char>) {
    (f.half@, f.single@, f.double@)
}

fn push_short_cell(out: &mut String, column: Column, ctx: &RowCtx, floats: &FloatTexts)
    requires
        column == Column::U16 || column == Column::I16 || column == Column::U8s || column
            == Column::I8s || column == Column::Hex || column == Column::F16 || column
            == Column::Bcd || column == Column::Ascii || column == Column::Bits || column
            == Column::Custom,
    ensures
        forall|order: WordOrder|
            final(out)@ == old(out)@ + #[trigger] cell_text(
                column,
                order,
                ctx.value,
                ctx.next@,
                opt_view(ctx.custom),
                floats_view(floats),
            ),
{
    let value = ctx.value;
    match column {
        Column::U16 => push_decimal(out, value as u64),
        Column::I16 => push_signed(out, (value as i16) as i64),
        Column::U8s => {
            push_decimal(out, (value / 256) as u64);
            push_str(out, "/");
            push_decimal(out, (value % 256) as u64);
        },
        Column::I8s => {
            push_signed(out, (((value / 256) as u8) as i8) as i64);
            push_str(out, "/");
            push_signed(out, (((value % 256) as u8) as i8) as i64);
        },
        Column::Hex => push_zero_padded_hex(out, value as u64, 4),
        Column::F16 => push_str(out, floats.half.as_str()),
        Column::Bcd => push_bcd(out, value as u64, 4),
        Column::Ascii => {
            let b = match ctx.next[0] {
                Some(v) => v,
                None => 0,
            };
            let words = [value, b];
            let text = ascii_words(&words);
            assert(words@ =~= seq![value, or_zero(ctx.next@[0])]);
            push_str(out, text.as_str());
        },
        Column::Bits => bits_cell(value, out),
        _ => match ctx.custom {
            Some(t) => push_str(out, t),
            None => push_str(out, "-"),
        },
    }
    assert forall|order: WordOrder|
        out@ == old(out)@ + #[trigger] cell_text(
            column,
            order,
            value,
            ctx.next@,
            opt_view(ctx.custom),
            floats_view(floats),
        ) by {
        assert(out@ =~= old(out)@ + cell_text(
            column,
            order,
            value,
            ctx.next@,
            opt_view(ctx.custom),
            floats_view(floats),
        ));
    }
}

fn push_word_cell(out: &mut String, column: Column, order: WordOrder, ctx: &RowCtx, floats: &FloatTexts)
    requires
        ctx.word == row_word(order, ctx.value, ctx.next@),
        column == Column::Hex32 || column == Column::Bcd32 || column == Column::U32 || column
            == Column::I32 || column == Column::U32M10K || column == Column::I32M10K || column
            == Column::F32,
    ensures
        final(out)@ == old(out)@ + cell_text(
            column,
            order,
            ctx.value,
            ctx.next@,
            opt_view(ctx.custom),
            floats_view(floats),
        ),
{
    let two = ctx.two();
    let word = ctx.word;
    if !two {
        push_str(out, "?");
        return;
    }
    match column {
        Column::Hex32 => push_zero_padded_hex(out, word as u64, 8),
        Column::Bcd32 => push_bcd(out, word as u64, 8),
        Column::U32 => push_decimal(out, word as u64),
        Column::I32 => push_signed(out, (word as i32) as i64),
        Column::U32M10K => {
            let (high, low) = m10k_to_u32(word);
            push_decimal(out, high as u64);
            push_str(out, "/");
            push_decimal(out, low as u64);
        },
        Column::I32M10K => {
            let (high, low) = m10k_to_i32(word);
            push_signed(out, high as i64);
            push_str(out, "/");
            push_signed(out, low as i64);
        },
        _ => push_str(out, floats.single.as_str()),
    }
    assert(out@ =~= old(out)@ + cell_text(
        column,
        order,
        ctx.value,
        ctx.next@,
        opt_view(ctx.custom),
        floats_view(floats),
    ));
}

fn push_dword_cell(out: &mut String, column: Column, order: WordOrder, ctx: &RowCtx, floats: &FloatTexts)
    requires
        ctx.dword == row_dword(order, ctx.value, ctx.next@),
        column == Column::U64 || column == Column::I64 || column == Column::F64,
    ensures
        final(out)@ == old(out)@ + cell_text(
            column,
            order,
            ctx.value,
            ctx.next@,
            opt_view(ctx.custom),
            floats_view(floats),
        ),
{
    let four = ctx.four();
    if !four {
        push_str(out, "?");
        return;
    }
    match column {
        Column::U64 => push_decimal(out, ctx.dword),
        Column::I64 => push_signed(out, ctx.dword as i64),
        _ => push_str(out, floats.double.as_str()),
    }
}

fn push_cell_text(
    out: &mut String,
    column: Column,
    order: WordOrder,
    ctx: &RowCtx,
    floats: &FloatTexts,
)
    requires
        ctx.word == row_word(order, ctx.value, ctx.next@),
        ctx.dword == row_dword(order, ctx.value, ctx.next@),
    ensures
        final(out)@ == old(out)@ + cell_text(
            column,
            order,
            ctx.value,
            ctx.next@,
            opt_view(ctx.custom),
            floats_view(floats),
        ),
{
    match column {
        Column::Hex32 | Column::Bcd32 | Column::U32 | Column::I32 | Column::U32M10K
        | Column::I32M10K | Column::F32 => push_word_cell(out, column, order, ctx, floats),
        Column::U64 | Column::I64 | Column::F64 => push_dword_cell(out, column, order, ctx, floats),
        _ => push_short_cell(out, column, ctx, floats),
    }
}

/// The columns of `v` from position `k` of the column order on, in
/// column order.
pub open spec fn enabled_from(v: Seq<Column>, k: int) -> Seq<Column>
    decreases 20 - k,
{
    if k >= 20 {
        seq![]
    } else {
        (if v.contains(column_at_rank(k)) {
            seq![column_at_rank(k)]
        } else {
            seq![]
        }) + enabled_from(v, k + 1)
    }
}

/// The shown columns, in column order.
pub open spec fn enabled_columns(v: Seq<Column>) -> Seq<Column> {
    enabled_from(v, 0)
}

/// The header cells of `cols`.
pub open spec fn columns_header(cols: Seq<Column>) -> Seq<char>
    decreases cols.len(),
{
    if cols.len() == 0 {
        seq![]
    } else {
        cell(spec_column_name(cols[0]), spec_column_width(cols[0]) as int) + columns_header(
            cols.drop_first(),
        )
    }
}

/// The characters the cells of `cols` take, separators included.
pub open spec fn columns_len(cols: Seq<Column>) -> int
    decreases cols.len(),
{
    if cols.len() == 0 {
        0
    } else {
        spec_column_width(cols[0]) + 1 + columns_len(cols.drop_first())
    }
}

/// The time and "ago" fields that start a line.
pub open spec fn spec_prefix(cfg: InterpretorConfig, time: Seq<char>, ago: Seq<char>) -> Seq<
    char,
> {
    (if cfg.time {
        cell(time, TIME_W as int)
    } else {
        seq![]
    }) + (if cfg.ago {
        cell(ago, AGO_W as int)
    } else {
        seq![]
    })
}

/// The address field, right-aligned, then `: `.
pub open spec fn address_text(cfg: InterpretorConfig, address: u16) -> Seq<char> {
    right(
        if cfg.address_hex {
            hex(address as nat)
        } else {
            dec(address as nat)
        },
        ADDRESS_W as int,
    ) + ": "@
}

/// The header line: the field names in the places the fields take.
pub open spec fn spec_header(cfg: InterpretorConfig) -> Seq<char> {
    spec_prefix(cfg, "time"@, "ago"@) + right("address"@, ADDRESS_W as int) + ": "@
        + columns_header(enabled_columns(cfg.visible@)) + (if cfg.label {
        "label"@
    } else {
        seq![]
    })
}

/// The start of a row: time and age of the read (`-` when there is none)
/// and the address.
pub open spec fn row_prefix(
    cfg: InterpretorConfig,
    address: u16,
    read: Option<(Seq<char>, int)>,
) -> Seq<char> {
    spec_prefix(
        cfg,
        match read {
            Some((t, _)) => t,
            None => "-"@,
        },
        match read {
            Some((_, secs)) => ago_text(secs),
            None => "-"@,
        },
    ) + address_text(cfg, address)
}

/// The cells of `cols` for one register.
pub open spec fn row_cells(
    cols: Seq<Column>,
    order: WordOrder,
    value: u16,
    next: Seq<Option<u16>>,
    custom: Option<Seq<char>>,
    floats: (Seq<char>, Seq<char>, Seq<char>),
) -> Seq<char>
    decreases cols.len(),
{
    if cols.len() == 0 {
        seq![]
    } else {
        cell(
            cell_text(cols[0], order, value, next, custom, floats),
            spec_column_width(cols[0]) as int,
        ) + row_cells(cols.drop_first(), order, value, next, custom, floats)
    }
}

/// The `-` cells of `cols` for a register not read yet.
pub open spec fn placeholder_cells(cols: Seq<Column>) -> Seq<char>
    decreases cols.len(),
{
    if cols.len() == 0 {
        seq![]
    } else {
        cell("-"@, spec_column_width(cols[0]) as int) + placeholder_cells(cols.drop_first())
    }
}

/// The label that ends a row, where labels are shown.
pub open spec fn label_text(cfg: InterpretorConfig, label: Option<Seq<char>>) -> Seq<char> {
    if cfg.label {
        match label {
            Some(t) => t,
            None => seq![],
        }
    } else {
        seq![]
    }
}

/// A part of a line: its name, where it starts and how wide it is.
#[derive(Clone, Copy, Debug, PartialEq, Eq)]
pub struct RowSegment {
    pub name: &'static str,
    pub start: usize,
    pub width: usize,
}

/// The text of the part of `row` that starts at `start` and is `width`
/// characters wide (cut off at the end of `row`), trimmed.
pub open spec fn segment_text(row: Seq<char>, start: int, width: int) -> Seq<char> {
    let a = if start < row.len() {
        start
    } else {
        row.len() as int
    };
    let b = if start + width < row.len() {
        start + width
    } else {
        row.len() as int
    };
    trim(row.subrange(a, b))
}

/// Where the columns start in a line.
pub open spec fn columns_start(cfg: InterpretorConfig) -> int {
    (if cfg.time {
        TIME_W + 1
    } else {
        0
    }) + (if cfg.ago {
        AGO_W + 1
    } else {
        0
    }) + ADDRESS_W + 2
}

/// The segments of the cells of `cols`, the first starting at `start`.
pub open spec fn column_segments(cols: Seq<Column>, start: int) -> Seq<(Seq<char>, int, int)>
    decreases cols.len(),
{
    if cols.len() == 0 {
        seq![]
    } else {
        seq![(spec_column_name(cols[0]), start, spec_column_width(cols[0]) as int)]
            + column_segments(cols.drop_first(), start + spec_column_width(cols[0]) + 1)
    }
}

/// The parts of a line, in order: name, start and width of each.
pub open spec fn spec_segments(cfg: InterpretorConfig) -> Seq<(Seq<char>, int, int)> {
    let cols = enabled_columns(cfg.visible@);
    let ago_start = if cfg.time {
        TIME_W + 1
    } else {
        0
    };
    let address_start = columns_start(cfg) - ADDRESS_W - 2;
    (if cfg.time {
        seq![("time"@, 0int, TIME_W as int)]
    } else {
        seq![]
    }) + (if cfg.ago {
        seq![("ago"@, ago_start as int, AGO_W as int)]
    } else {
        seq![]
    }) + seq![("address"@, address_start, ADDRESS_W as int)] + column_segments(
        cols,
        columns_start(cfg),
    ) + (if cfg.label {
        seq![("label"@, columns_start(cfg) + columns_len(cols), usize::MAX as int)]
    } else {
        seq![]
    })
}

/// A segment as name, start and width.
pub open spec fn segment_view(s: RowSegment) -> (Seq<char>, int, int) {
    (s.name@, s.start as int, s.width as int)
}

impl RowSegment {
    /// The trimmed text of this part of `row`.
    pub fn text(self, row: &str) -> (r: String)
        ensures
            r@ == segment_text(row@, self.start as int, self.width as int),
    {
        let cs = crate::text::chars_of(row);
        let n = cs.len();
        let a = if self.start < n {
            self.start
        } else {
            n
        };
        let end = self.end();
        let b = if end < n {
            end
        } else {
            n
        };
        let part = crate::text::string_of(cs.as_slice(), a, b);
        crate::text::trimmed(part.as_str())
    }

    /// Where this part ends, at most `usize::MAX`.
    pub fn end(self) -> (r: usize)
        ensures
            r == (if self.start + self.width <= usize::MAX {
                (self.start + self.width) as usize
            } else {
                usize::MAX
            }),
    {
        self.start.saturating_add(self.width)
    }
}


/// The custom representation a column reads its value with, where it has
/// one.
pub open spec fn spec_custom_repr(c: Column) -> Option<CustomRepr> {
    match c {
        Column::U16 => Some(CustomRepr::U16),
        Column::I16 => Some(CustomRepr::I16),
        Column::F16 => Some(CustomRepr::F16),
        Column::U32 => Some(CustomRepr::U32),
        Column::I32 => Some(CustomRepr::I32),
        Column::F32 => Some(CustomRepr::F32),
        Column::U64 => Some(CustomRepr::U64),
        Column::I64 => Some(CustomRepr::I64),
        Column::F64 => Some(CustomRepr::F64),
        _ => None,
    }
}

/// How many registers a column's graph reads, where it can be graphed.
pub open spec fn spec_graph_width(c: Column) -> Option<nat> {
    match spec_custom_repr(c) {
        Some(repr) => Some(crate::custom::spec_register_count(repr)),
        None => match c {
            Column::Bcd => Some(1),
            Column::Bcd32 => Some(2),
            _ => None,
        },
    }
}

impl Column {
    /// How many registers the graph of this column reads, where it can be
    /// graphed.
    pub fn graph_width(self) -> (r: Option<usize>)
        ensures
            r matches Some(w) ==> spec_graph_width(self) == Some(w as nat),
            r is None ==> spec_graph_width(self) is None,
    {
        match self.custom_repr() {
            Some(repr) => Some(repr.register_count()),
            None => match self {
                Column::Bcd => Some(1),
                Column::Bcd32 => Some(2),
                _ => None,
            },
        }
    }

    /// Whether this column can be graphed.
    pub fn is_graphable(self) -> (r: bool)
        ensures
            r == spec_graph_width(self) is Some,
    {
        self.graph_width().is_some()
    }

    /// Whether this column's graph plots floats.
    pub fn graph_is_float(self) -> (r: bool)
        ensures
            r == (self == Column::F16 || self == Column::F32 || self == Column::F64),
    {
        match self {
            Column::F16 | Column::F32 | Column::F64 => true,
            _ => false,
        }
    }

    /// The custom representation this column reads its value with.
    pub fn custom_repr(self) -> (r: Option<CustomRepr>)
        ensures
            r == spec_custom_repr(self),
    {
        match self {
            Column::U16 => Some(CustomRepr::U16),
            Column::I16 => Some(CustomRepr::I16),
            Column::F16 => Some(CustomRepr::F16),
            Column::U32 => Some(CustomRepr::U32),
            Column::I32 => Some(CustomRepr::I32),
            Column::F32 => Some(CustomRepr::F32),
            Column::U64 => Some(CustomRepr::U64),
            Column::I64 => Some(CustomRepr::I64),
            Column::F64 => Some(CustomRepr::F64),
            _ => None,
        }
    }
}

/// The column at position `k` of the column order.
fn column_at(k: usize) -> (c: Column)
    requires
        k < 20,
    ensures
        c == column_at_rank(k as int),
{
    Column::ALL[k]
}

proof fn lemma_cons<A>(c: A, rest: Seq<A>)
    ensures
        (seq![c] + rest).len() > 0,
        (seq![c] + rest)[0] == c,
        (seq![c] + rest).drop_first() == rest,
{
    assert((seq![c] + rest).drop_first() =~= rest);
}

proof fn lemma_columns_len_bound(v: Seq<Column>, k: int)
    requires
        0 <= k <= 20,
    ensures
        0 <= columns_len(enabled_from(v, k)) <= 22 * (20 - k),
    decreases 20 - k,
{
    if k < 20 {
        lemma_columns_len_bound(v, k + 1);
        let c = column_at_rank(k);
        let rest = enabled_from(v, k + 1);
        if v.contains(c) {
            lemma_cons(c, rest);
        } else {
            assert(enabled_from(v, k) =~= rest);
        }
    }
}


/// A word that starts and ends with a non-space.
pub open spec fn is_word(w: Seq<char>) -> bool {
    w.len() > 0 && !is_ws(w[0]) && !is_ws(w.last())
}

proof fn lemma_name_fits(c: Column)
    ensures
        is_word(spec_column_name(c)),
        spec_column_name(c).len() <= spec_column_width(c),
{
    match c {
        Column::U16 => {
            reveal_strlit("u16");
        },
        Column::I16 => {
            reveal_strlit("i16");
        },
        Column::U8s => {
            reveal_strlit("u8");
        },
        Column::I8s => {
            reveal_strlit("i8");
        },
        Column::Hex => {
            reveal_strlit("hex");
        },
        Column::Hex32 => {
            reveal_strlit("hex32");
        },
        Column::F16 => {
            reveal_strlit("f16");
        },
        Column::Bcd => {
            reveal_strlit("bcd");
        },
        Column::Bcd32 => {
            reveal_strlit("bcd32");
        },
        Column::U32 => {
            reveal_strlit("u32");
        },
        Column::I32 => {
            reveal_strlit("i32");
        },
        Column::U32M10K => {
            reveal_strlit("u32 m10k");
        },
        Column::I32M10K => {
            reveal_strlit("i32 m10k");
        },
        Column::U64 => {
            reveal_strlit("u64");
        },
        Column::I64 => {
            reveal_strlit("i64");
        },
        Column::F32 => {
            reveal_strlit("f32");
        },
        Column::F64 => {
            reveal_strlit("f64");
        },
        Column::Ascii => {
            reveal_strlit("ascii");
        },
        Column::Bits => {
            reveal_strlit("bits");
        },
        Column::Custom => {
            reveal_strlit("custom");
        },
    }
}

proof fn lemma_fill_blank(len: int, n: int)
    ensures
        forall|j: int| 0 <= j < fill(len, n).len() ==> is_ws(#[trigger] fill(len, n)[j]),
        fill(len, n).len() == (if len < n {
            n - len
        } else {
            0
        }),
{
}

proof fn lemma_padded_word(w: Seq<char>, n: int)
    requires
        is_word(w),
    ensures
        trim(w + fill(w.len() as int, n)) == w,
{
    lemma_fill_blank(w.len() as int, n);
    crate::text::lemma_trim_padded(w, fill(w.len() as int, n));
}

proof fn lemma_columns_header_len(cols: Seq<Column>)
    ensures
        columns_header(cols).len() == columns_len(cols),
        columns_len(cols) >= 0,
    decreases cols.len(),
{
    if cols.len() > 0 {
        lemma_name_fits(cols[0]);
        lemma_columns_header_len(cols.drop_first());
    }
}

proof fn lemma_column_segment(cols: Seq<Column>, start: int, j: int)
    requires
        0 <= j < cols.len(),
    ensures
        column_segments(cols, start).len() == cols.len(),
        column_segments(cols, start)[j].0 == spec_column_name(cols[j]),
        column_segments(cols, start)[j].2 == spec_column_width(cols[j]),
        start <= column_segments(cols, start)[j].1,
        column_segments(cols, start)[j].1 + column_segments(cols, start)[j].2 < start + columns_len(
            cols,
        ),
        columns_header(cols).subrange(
            column_segments(cols, start)[j].1 - start,
            column_segments(cols, start)[j].1 - start + column_segments(cols, start)[j].2,
        ) == spec_column_name(cols[j]) + fill(
            spec_column_name(cols[j]).len() as int,
            spec_column_width(cols[j]) as int,
        ),
    decreases j,
{
    lemma_name_fits(cols[0]);
    lemma_columns_header_len(cols);
    lemma_columns_header_len(cols.drop_first());
    lemma_fill_blank(spec_column_name(cols[0]).len() as int, spec_column_width(cols[0]) as int);
    let head = cell(spec_column_name(cols[0]), spec_column_width(cols[0]) as int);
    let w0 = spec_column_width(cols[0]) as int;
    if j == 0 {
        lemma_segments_len(cols.drop_first(), start + w0 + 1);
        assert(columns_header(cols).subrange(0, w0) =~= spec_column_name(cols[0]) + fill(
            spec_column_name(cols[0]).len() as int,
            w0,
        ));
    } else {
        let rest = cols.drop_first();
        lemma_column_segment(rest, start + w0 + 1, j - 1);
        assert(rest[j - 1] == cols[j]);
        let seg = column_segments(rest, start + w0 + 1)[j - 1];
        assert(column_segments(cols, start)[j] == seg);
        assert(head.len() == w0 + 1);
        assert(columns_header(cols).subrange(seg.1 - start, seg.1 - start + seg.2)
            =~= columns_header(rest).subrange(
            seg.1 - (start + w0 + 1),
            seg.1 - (start + w0 + 1) + seg.2,
        ));
    }
}

proof fn lemma_segments_len(cols: Seq<Column>, start: int)
    ensures
        column_segments(cols, start).len() == cols.len(),
    decreases cols.len(),
{
    if cols.len() > 0 {
        lemma_segments_len(cols.drop_first(), start + spec_column_width(cols[0]) + 1);
    }
}

/// The i16 cell of a register is its value read as a signed 16-bit
/// number: values from 0x8000 on are negative, `-` followed by the
/// distance to 0x10000 (so 0xFFFF shows as `-1`); smaller ones are shown
/// as they are.
pub proof fn lemma_i16_cell_is_signed(
    order: WordOrder,
    value: u16,
    next: Seq<Option<u16>>,
    custom: Option<Seq<char>>,
    floats: (Seq<char>, Seq<char>, Seq<char>),
)
    ensures
        value >= 0x8000 ==> cell_text(Column::I16, order, value, next, custom, floats) == seq!['-'] + dec(
            (0x1_0000 - value) as nat,
        ),
        value < 0x8000 ==> cell_text(Column::I16, order, value, next, custom, floats) == dec(value as nat),
{
    assert(value >= 0x8000 ==> ((value as i16) as i32) == (value as i32) - 0x1_0000i32) by (bit_vector);
    assert(value < 0x8000 ==> ((value as i16) as i32) == (value as i32)) by (bit_vector);
}

/// The starts of `segs` rise strictly from one segment to the next.
pub open spec fn starts_rise(segs: Seq<(Seq<char>, int, int)>) -> bool {
    forall|i: int, j: int| 0 <= i < j < segs.len() ==> segs[i].1 < segs[j].1
}

proof fn lemma_columns_len_nonneg(cols: Seq<Column>)
    ensures
        columns_len(cols) >= cols.len(),
    decreases cols.len(),
{
    if cols.len() > 0 {
        lemma_columns_len_nonneg(cols.drop_first());
    }
}

proof fn lemma_column_segments_rise(cols: Seq<Column>, start: int)
    ensures
        column_segments(cols, start).len() == cols.len(),
        starts_rise(column_segments(cols, start)),
        forall|k: int| 0 <= k < cols.len() ==> start <= #[trigger] column_segments(cols, start)[k].1 < start
            + columns_len(cols),
    decreases cols.len(),
{
    if cols.len() > 0 {
        let w = spec_column_width(cols[0]) as int;
        let rest = cols.drop_first();
        lemma_column_segments_rise(rest, start + w + 1);
        lemma_columns_len_nonneg(rest);
        let segs = column_segments(cols, start);
        let tail = column_segments(rest, start + w + 1);
        assert(segs == seq![(spec_column_name(cols[0]), start, w)] + tail);
        assert forall|k: int| 0 <= k < cols.len() implies start <= #[trigger] segs[k].1 < start + columns_len(cols) by {
            if k > 0 {
                assert(segs[k] == tail[k - 1]);
            }
        }
        assert forall|i: int, j: int| 0 <= i < j < segs.len() implies segs[i].1 < segs[j].1 by {
            assert(segs[j] == tail[j - 1]);
            if i > 0 {
                assert(segs[i] == tail[i - 1]);
            }
        }
    }
}

proof fn lemma_rise_concat(a: Seq<(Seq<char>, int, int)>, b: Seq<(Seq<char>, int, int)>, m: int)
    requires
        starts_rise(a),
        starts_rise(b),
        forall|k: int| 0 <= k < a.len() ==> #[trigger] a[k].1 < m,
        forall|k: int| 0 <= k < b.len() ==> #[trigger] b[k].1 >= m,
    ensures
        starts_rise(a + b),
{
    let c = a + b;
    assert forall|i: int, j: int| 0 <= i < j < c.len() implies c[i].1 < c[j].1 by {
        if j < a.len() {
            assert(c[i] == a[i] && c[j] == a[j]);
        } else if i < a.len() {
            assert(c[i] == a[i] && c[j] == b[j - a.len()]);
        } else {
            assert(c[i] == b[i - a.len()] && c[j] == b[j - a.len()]);
        }
    }
}

/// The parts of a line follow one another: each starts after the one
/// before it.
pub proof fn lemma_segment_starts_rise(cfg: InterpretorConfig)
    ensures
        starts_rise(spec_segments(cfg)),
{
    let cols = enabled_columns(cfg.visible@);
    let cs = columns_start(cfg);
    let t: Seq<(Seq<char>, int, int)> = if cfg.time { seq![("time"@, 0int, TIME_W as int)] } else { seq![] };
    let ago_start = if cfg.time { TIME_W + 1 } else { 0 };
    let g: Seq<(Seq<char>, int, int)> = if cfg.ago { seq![("ago"@, ago_start as int, AGO_W as int)] } else { seq![] };
    let ad: Seq<(Seq<char>, int, int)> = seq![("address"@, cs - ADDRESS_W - 2, ADDRESS_W as int)];
    let colsegs = column_segments(cols, cs);
    let l: Seq<(Seq<char>, int, int)> = if cfg.label {
        seq![("label"@, cs + columns_len(cols), usize::MAX as int)]
    } else {
        seq![]
    };
    lemma_column_segments_rise(cols, cs);
    lemma_rise_concat(t, g, ago_start as int);
    lemma_rise_concat(t + g, ad, cs - ADDRESS_W - 2);
    lemma_rise_concat(t + g + ad, colsegs, cs);
    lemma_columns_len_nonneg(cols);
    let front = t + g + ad + colsegs;
    assert forall|k: int| 0 <= k < front.len() implies #[trigger] front[k].1 < cs + columns_len(cols) by {
        if k < (t + g + ad).len() {
            assert(front[k] == (t + g + ad)[k]);
            if k < (t + g).len() {
                assert((t + g + ad)[k] == (t + g)[k]);
                if k < t.len() {
                    assert((t + g)[k] == t[k]);
                } else {
                    assert((t + g)[k] == g[k - t.len()]);
                }
            } else {
                assert((t + g + ad)[k] == ad[k - (t + g).len()]);
            }
        } else {
            assert(front[k] == colsegs[k - (t + g + ad).len()]);
        }
    }
    lemma_rise_concat(front, l, cs + columns_len(cols));
    assert(spec_segments(cfg) == t + g + ad + colsegs + l);
}

/// Each part of a line that `row_segments` names holds, in the header,
/// that name and nothing else but spaces.
#[verifier::spinoff_prover]
#[verifier::rlimit(60)]
pub proof fn lemma_segments_line_up(cfg: InterpretorConfig)
    ensures
        forall|i: int|
            0 <= i < spec_segments(cfg).len() ==> segment_text(
                spec_header(cfg),
                #[trigger] spec_segments(cfg)[i].1,
                spec_segments(cfg)[i].2,
            ) == spec_segments(cfg)[i].0,
{
    reveal_strlit("time");
    reveal_strlit("ago");
    reveal_strlit("address");
    reveal_strlit("label");
    reveal_strlit(": ");
    let cols = enabled_columns(cfg.visible@);
    let h = spec_header(cfg);
    let segs = spec_segments(cfg);
    let p = spec_prefix(cfg, "time"@, "ago"@);
    let addr = right("address"@, ADDRESS_W as int) + ": "@;
    let c = columns_header(cols);
    let l = if cfg.label {
        "label"@
    } else {
        seq![]
    };
    lemma_columns_header_len(cols);
    lemma_segments_len(cols, columns_start(cfg));
    lemma_fill_blank(4, 12);
    lemma_fill_blank(3, 9);
    lemma_fill_blank(7, 7);
    assert(h =~= p + addr + c + l);
    assert(p.len() == columns_start(cfg) - 9);
    assert(addr =~= "address: "@) by {
        reveal_strlit("address: ");
    }
    let nt: int = if cfg.time {
        1
    } else {
        0
    };
    let na: int = if cfg.ago {
        1
    } else {
        0
    };
    let base = nt + na + 1;
    let cs = columns_start(cfg);
    assert(segs.len() == base + cols.len() + (if cfg.label {
        1int
    } else {
        0
    }));
    assert forall|i: int| 0 <= i < segs.len() implies segment_text(
        h,
        #[trigger] segs[i].1,
        segs[i].2,
    ) == segs[i].0 by {
        if i < nt {
            assert(segs[i] == ("time"@, 0int, 12int));
            assert(h.subrange(0, 12) =~= "time"@ + fill(4, 12));
            lemma_padded_word("time"@, 12);
        } else if i < nt + na {
            let st = nt * 13;
            assert(segs[i] == ("ago"@, st, 9int));
            assert(h.subrange(st, st + 9) =~= "ago"@ + fill(3, 9));
            lemma_padded_word("ago"@, 9);
        } else if i < base {
            let st = cs - 9;
            assert(segs[i] == ("address"@, st, 7int));
            assert(h.subrange(st, st + 7) =~= "address"@);
            crate::text::lemma_trim_word("address"@);
        } else if i < base + cols.len() {
            let j = i - base;
            lemma_column_segment(cols, cs, j);
            let seg = column_segments(cols, cs)[j];
            assert(segs[i] == seg);
            lemma_name_fits(cols[j]);
            lemma_padded_word(spec_column_name(cols[j]), spec_column_width(cols[j]) as int);
            assert(h.subrange(seg.1, seg.1 + seg.2) =~= c.subrange(seg.1 - cs, seg.1 - cs + seg.2));
        } else {
            let st = cs + columns_len(cols);
            assert(segs[i] == ("label"@, st, usize::MAX as int));
            assert(h.subrange(st, h.len() as int) =~= "label"@);
            crate::text::lemma_trim_word("label"@);
        }
    }
}

/// Formats register rows and the header above them.
pub struct Interpretor {
    config: InterpretorConfig,
    word_order: WordOrder,
    header: String,
}

impl Interpretor {
    /// The column settings in use.
    pub closed spec fn config_view(&self) -> InterpretorConfig {
        self.config
    }

    /// The word order in use.
    pub closed spec fn order_view(&self) -> WordOrder {
        self.word_order
    }

    /// The stored header matches the settings.
    pub closed spec fn wf(&self) -> bool {
        self.header@ == spec_header(self.config)
    }

    /// An interpretor for these settings and word order.
    pub fn new(interpretation: InterpretorConfig, word_order: WordOrder) -> (r: Self)
        ensures
            r.wf(),
            r.config_view() == interpretation,
            r.order_view() == word_order,
    {
        let mut interpretor = Interpretor { config: interpretation, word_order, header: String::new() };
        interpretor.rebuild_header();
        interpretor
    }

    fn rebuild_header(&mut self)
        ensures
            final(self).wf(),
            final(self).config == old(self).config,
            final(self).word_order == old(self).word_order,
    {
        let mut header = String::new();
        self.write_prefix(&mut header, "time", "ago");
        push_fill(&mut header, 7, ADDRESS_W);
        push_str(&mut header, "address");
        push_str(&mut header, ": ");
        proof {
            reveal_strlit("address");
            assert(fill(7, 7) + "address"@ =~= right("address"@, 7));
        }
        let ghost start = header@;
        let ghost v = self.config.visible@;
        let mut k: usize = 0;
        while k < 20
            invariant
                k <= 20,
                v == self.config.visible@,
                header@ + columns_header(enabled_from(v, k as int)) == start + columns_header(
                    enabled_from(v, 0),
                ),
            decreases 20 - k,
        {
            let c = column_at(k);
            let ghost rest = enabled_from(v, k + 1);
            if self.config.is_visible(c) {
                proof {
                    lemma_cons(c, rest);
                }
                push_cell(&mut header, c.name(), c.width());
                assert(header@ + columns_header(rest) =~= start + columns_header(
                    enabled_from(v, 0),
                ));
            } else {
                assert(enabled_from(v, k as int) =~= rest);
            }
            k += 1;
        }
        assert(header@ =~= start + columns_header(enabled_from(v, 0)));
        if self.config.label {
            push_str(&mut header, "label");
        }
        self.header = header;
        assert(self.header@ =~= spec_header(self.config));
    }

    fn write_prefix(&self, out: &mut String, time: &str, ago: &str)
        ensures
            final(out)@ == old(out)@ + spec_prefix(self.config, time@, ago@),
    {
        if self.config.time {
            push_cell(out, time, TIME_W);
        }
        if self.config.ago {
            push_cell(out, ago, AGO_W);
        }
        assert(out@ =~= old(out)@ + spec_prefix(self.config, time@, ago@));
    }

    fn write_address(&self, out: &mut String, value: u16)
        ensures
            final(out)@ == old(out)@ + address_text(self.config, value),
    {
        let mut digits = String::new();
        if self.config.address_hex {
            push_hex(&mut digits, value as u64);
        } else {
            push_decimal(&mut digits, value as u64);
        }
        push_fill(out, digits.as_str().unicode_len(), ADDRESS_W);
        push_str(out, digits.as_str());
        push_str(out, ": ");
        assert(out@ =~= old(out)@ + address_text(self.config, value));
    }

    fn write_row_prefix(&self, out: &mut String, address: u16, read: Option<(&str, i64)>)
        ensures
            final(out)@ == old(out)@ + row_prefix(
                self.config,
                address,
                match read {
                    Some((t, secs)) => Some((t@, secs as int)),
                    None => None,
                },
            ),
    {
        if self.config.time {
            match read {
                Some((t, _)) => push_cell(out, t, TIME_W),
                None => push_cell(out, "-", TIME_W),
            }
        }
        if self.config.ago {
            match read {
                Some((_, secs)) => {
                    let text = format_ago(secs);
                    push_cell(out, text.as_str(), AGO_W);
                },
                None => push_cell(out, "-", AGO_W),
            }
        }
        let ghost mid = out@;
        self.write_address(out, address);
        let ghost r = match read {
            Some((t, secs)) => Some((t@, secs as int)),
            None => None,
        };
        assert(out@ =~= old(out)@ + row_prefix(self.config, address, r));
    }

    /// Shows or hides `column`, and redraws the header.
    pub fn toggle(&mut self, column: Column)
        ensures
            final(self).wf(),
            final(self).config_view().visible@ == crate::config::spec_toggle(
                old(self).config_view().visible@,
                column,
            ),
            final(self).config_view().time == old(self).config_view().time,
            final(self).config_view().ago == old(self).config_view().ago,
            final(self).config_view().label == old(self).config_view().label,
            final(self).config_view().address_hex == old(self).config_view().address_hex,
            final(self).config_view() == (InterpretorConfig {
                visible: final(self).config_view().visible,
                ..old(self).config_view()
            }),
            final(self).order_view() == old(self).order_view(),
    {
        self.config.toggle(column);
        self.rebuild_header();
    }

    /// Whether `column` is shown.
    pub fn is_enabled(&self, column: Column) -> (r: bool)
        ensures
            r == self.config_view().visible@.contains(column),
    {
        self.config.get(column)
    }

    /// A copy of the column settings.
    pub fn config(&self) -> (r: InterpretorConfig)
        ensures
            r.visible@ == self.config_view().visible@,
            r.time == self.config_view().time,
            r.ago == self.config_view().ago,
            r.label == self.config_view().label,
            r.address_hex == self.config_view().address_hex,
            r.label_width == self.config_view().label_width,
            r.custom_width == self.config_view().custom_width,
    {
        let mut visible: Vec<Column> = Vec::new();
        let mut i: usize = 0;
        while i < self.config.visible.len()
            invariant
                i <= self.config.visible@.len(),
                visible@ == self.config.visible@.subrange(0, i as int),
            decreases self.config.visible@.len() - i,
        {
            visible.push(self.config.visible[i]);
            i += 1;
            assert(visible@ =~= self.config.visible@.subrange(0, i as int));
        }
        assert(visible@ =~= self.config.visible@);
        InterpretorConfig {
            visible,
            time: self.config.time,
            ago: self.config.ago,
            label: self.config.label,
            address_hex: self.config.address_hex,
            label_width: self.config.label_width,
            custom_width: self.config.custom_width,
        }
    }

    /// Reads 32- and 64-bit values in `word_order` from now on.
    pub fn set_word_order(&mut self, word_order: WordOrder)
        requires
            old(self).wf(),
        ensures
            final(self).wf(),
            final(self).order_view() == word_order,
            final(self).config_view() == old(self).config_view(),
    {
        self.word_order = word_order;
    }

    /// The header line.
    pub fn header(&self) -> (r: &str)
        requires
            self.wf(),
        ensures
            r@ == spec_header(self.config_view()),
    {
        self.header.as_str()
    }

    /// How many characters a row takes before its first cell.
    pub fn prefix_width(&self) -> (r: u16)
        ensures
            r == row_prefix(self.config_view(), 0, None).len(),
            r == columns_start(self.config_view()),
    {
        let mut prefix = String::new();
        self.write_row_prefix(&mut prefix, 0, None);
        proof {
            reveal_strlit("-");
            reveal_strlit(": ");
            assert(dec(0) =~= seq!['0']);
        }
        prefix.as_str().unicode_len() as u16
    }

    /// The parts of a line, in order, with where each starts.
    pub fn row_segments(&self) -> (r: Vec<RowSegment>)
        ensures
            r@.len() == spec_segments(self.config_view()).len(),
            forall|i: int|
                0 <= i < r@.len() ==> segment_view(#[trigger] r@[i]) == spec_segments(
                    self.config_view(),
                )[i],
    {
        let cfg = &self.config;
        let mut segments: Vec<RowSegment> = Vec::new();
        let mut start: usize = 0;
        if cfg.time {
            segments.push(RowSegment { name: "time", start, width: TIME_W });
            start += TIME_W + 1;
        }
        if cfg.ago {
            segments.push(RowSegment { name: "ago", start, width: AGO_W });
            start += AGO_W + 1;
        }
        segments.push(RowSegment { name: "address", start, width: ADDRESS_W });
        start += ADDRESS_W + 2;
        let ghost v = cfg.visible@;
        let ghost head = Seq::new(segments@.len(), |i: int| segment_view(segments@[i]));
        assert(start == columns_start(*cfg));
        let ghost first = start as int;
        proof {
            lemma_columns_len_bound(v, 0);
        }
        let mut k: usize = 0;
        while k < 20
            invariant
                k <= 20,
                v == cfg.visible@,
                first == columns_start(*cfg),
                head.len() <= segments@.len(),
                forall|i: int| 0 <= i < head.len() ==> segment_view(#[trigger] segments@[i]) == head[i],
                Seq::new((segments@.len() - head.len()) as nat, |i: int| segment_view(segments@[head.len() + i]))
                    + column_segments(enabled_from(v, k as int), start as int)
                    == column_segments(enabled_from(v, 0), first),
                start as int + columns_len(enabled_from(v, k as int)) == first + columns_len(enabled_from(v, 0)),
                first + columns_len(enabled_from(v, 0)) <= 1000,
            decreases 20 - k,
        {
            let c = column_at(k);
            let ghost rest = enabled_from(v, k + 1);
            if cfg.is_visible(c) {
                proof {
                    lemma_cons(c, rest);
                    lemma_columns_len_bound(v, k + 1);
                }
                let ghost before = segments@;
                segments.push(RowSegment { name: c.name(), start, width: c.width() });
                start += c.width() + 1;
                assert(Seq::new((segments@.len() - head.len()) as nat, |i: int| segment_view(segments@[head.len() + i]))
                    =~= Seq::new((before.len() - head.len()) as nat, |i: int| segment_view(before[head.len() + i]))
                    + seq![segment_view(segments@[before.len() as int])]);
            } else {
                assert(enabled_from(v, k as int) =~= rest);
            }
            k += 1;
        }
        if cfg.label {
            segments.push(RowSegment { name: "label", start, width: usize::MAX });
        }
        assert(Seq::new(segments@.len(), |i: int| segment_view(segments@[i])) =~= spec_segments(*cfg));
        segments
    }

    /// The row of a register not read yet: `-` in every field but the
    /// address, then the label where labels are shown.
    pub fn placeholder(&self, address: u16, label: Option<&str>) -> (r: String)
        ensures
            r@ == row_prefix(self.config_view(), address, None) + placeholder_cells(
                enabled_columns(self.config_view().visible@),
            ) + label_text(self.config_view(), opt_view(label)),
    {
        let mut row = String::new();
        self.write_row_prefix(&mut row, address, None);
        let ghost start = row@;
        let ghost v = self.config.visible@;
        let mut k: usize = 0;
        while k < 20
            invariant
                k <= 20,
                v == self.config.visible@,
                row@ + placeholder_cells(enabled_from(v, k as int)) == start + placeholder_cells(
                    enabled_from(v, 0),
                ),
            decreases 20 - k,
        {
            let c = column_at(k);
            let ghost rest = enabled_from(v, k + 1);
            if self.config.is_visible(c) {
                proof {
                    lemma_cons(c, rest);
                }
                push_cell(&mut row, "-", c.width());
                assert(row@ + placeholder_cells(rest) =~= start + placeholder_cells(
                    enabled_from(v, 0),
                ));
            } else {
                assert(enabled_from(v, k as int) =~= rest);
            }
            k += 1;
        }
        assert(row@ =~= start + placeholder_cells(enabled_from(v, 0)));
        if self.config.label {
            if let Some(text) = label {
                push_str(&mut row, text);
            }
        }
        assert(row@ =~= row_prefix(self.config, address, None) + placeholder_cells(
            enabled_columns(v),
        ) + label_text(self.config, opt_view(label)));
        row
    }

    /// The row of a register read `elapsed_secs` seconds ago at
    /// `time_text`: time, age, address, a cell per shown column and the
    /// label. `next` holds the registers after it, where they were read;
    /// `floats` holds the float renderings of the value.
    pub fn format_row(
        &self,
        address: u16,
        value: u16,
        next: [Option<u16>; 3],
        time_text: &str,
        elapsed_secs: i64,
        custom: Option<&str>,
        label: Option<&str>,
        floats: &FloatTexts,
    ) -> (r: String)
        ensures
            r@ == row_prefix(self.config_view(), address, Some((time_text@, elapsed_secs as int)))
                + row_cells(
                enabled_columns(self.config_view().visible@),
                self.order_view(),
                value,
                next@,
                opt_view(custom),
                floats_view(floats),
            ) + label_text(self.config_view(), opt_view(label)),
    {
        let mut row = String::new();
        self.write_row_prefix(&mut row, address, Some((time_text, elapsed_secs)));
        let ctx = RowCtx::new(self.word_order, value, next, custom);
        let ghost start = row@;
        let ghost v = self.config.visible@;
        let ghost order = self.word_order;
        let ghost fv = floats_view(floats);
        let ghost cv = opt_view(custom);
        let mut k: usize = 0;
        while k < 20
            invariant
                k <= 20,
                v == self.config.visible@,
                order == self.word_order,
                ctx.value == value,
                ctx.next@ == next@,
                ctx.custom == custom,
                cv == opt_view(custom),
                fv == floats_view(floats),
                ctx.word == row_word(order, value, next@),
                ctx.dword == row_dword(order, value, next@),
                row@ + row_cells(enabled_from(v, k as int), order, value, next@, cv, fv) == start
                    + row_cells(enabled_from(v, 0), order, value, next@, cv, fv),
            decreases 20 - k,
        {
            let c = column_at(k);
            let ghost rest = enabled_from(v, k + 1);
            if self.config.is_visible(c) {
                proof {
                    lemma_cons(c, rest);
                }
                let mut text = String::new();
                push_cell_text(&mut text, c, self.word_order, &ctx, floats);
                push_cell(&mut row, text.as_str(), c.width());
                assert(row@ + row_cells(rest, order, value, next@, cv, fv) =~= start + row_cells(
                    enabled_from(v, 0),
                    order,
                    value,
                    next@,
                    cv,
                    fv,
                ));
            } else {
                assert(enabled_from(v, k as int) =~= rest);
            }
            k += 1;
        }
        assert(row@ =~= start + row_cells(enabled_from(v, 0), order, value, next@, cv, fv));
        if self.config.label {
            if let Some(text) = label {
                push_str(&mut row, text);
            }
        }
        row
    }

    /// Every column's reading of a register, shown or not, in column
    /// order, then the label.
    pub fn interpret_all(
        &self,
        value: u16,
        next: [Option<u16>; 3],
        custom: Option<&str>,
        label: Option<&str>,
        floats: &FloatTexts,
    ) -> (r: Vec<(&'static str, String)>)
        ensures
            r@.len() == 21,
            forall|k: int|
                0 <= k < 20 ==> (#[trigger] r@[k]).0@ == spec_column_name(column_at_rank(k))
                    && r@[k].1@ == cell_text(
                    column_at_rank(k),
                    self.order_view(),
                    value,
                    next@,
                    opt_view(custom),
                    floats_view(floats),
                ),
            r@[20].0@ == "label"@,
            r@[20].1@ == match label {
                Some(t) => t@,
                None => seq![],
            },
    {
        let ctx = RowCtx::new(self.word_order, value, next, custom);
        let mut entries: Vec<(&'static str, String)> = Vec::new();
        let mut k: usize = 0;
        while k < 20
            invariant
                k <= 20,
                entries@.len() == k,
                ctx.value == value,
                ctx.next@ == next@,
                ctx.custom == custom,
                ctx.word == row_word(self.word_order, value, next@),
                ctx.dword == row_dword(self.word_order, value, next@),
                forall|j: int|
                    0 <= j < k ==> (#[trigger] entries@[j]).0@ == spec_column_name(column_at_rank(j))
                        && entries@[j].1@ == cell_text(
                        column_at_rank(j),
                        self.word_order,
                        value,
                        next@,
                        opt_view(custom),
                        floats_view(floats),
                    ),
            decreases 20 - k,
        {
            let c = column_at(k);
            let mut text = String::new();
            push_cell_text(&mut text, c, self.word_order, &ctx, floats);
            entries.push((c.name(), text));
            k += 1;
        }
        let mut last = String::new();
        if let Some(t) = label {
            push_str(&mut last, t);
        }
        entries.push(("label", last));
        entries
    }
}

} // verus!
