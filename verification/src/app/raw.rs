use vstd::prelude::*;
use crate::parse::parse_unsigned;
use crate::parse;
use crate::interpretator::{push_zero_padded_hex, zero_padded};
use crate::state::{MessageKind, RawField, RawParams, StatusMessage};
use crate::text::{utf8_char_len, bytes_below, chars_of, dec, hex, is_whitespace, pop_char, push_char, push_chars, push_decimal, push_str, trim, trimmed_chars, utf8_bytes};
use crate::text;

verus! {

/// `s` without its whitespace.
pub open spec fn without_ws(s: Seq<char>) -> Seq<char> {
    s.filter(|c: char| !text::is_ws(c))
}

/// The bytes that hex pairs `h[2i..2i+2]` for `i < k` write, as long as each
/// pair is a hex number.
pub open spec fn hex_pairs(h: Seq<char>, k: nat) -> Option<Seq<u8>>
    decreases k,
{
    if k == 0 {
        Some(Seq::empty())
    } else {
        match hex_pairs(h, (k - 1) as nat) {
            Some(bytes) => match parse::spec_parse_unsigned(h.subrange(2 * k - 2, (2 * k) as int), 16, 255) {
                Some(b) => Some(bytes.push(b as u8)),
                None => None,
            },
            None => None,
        }
    }
}

/// The first pair, before index `k`, that is no hex number.
pub open spec fn first_bad_pair(h: Seq<char>, k: nat) -> int
    decreases k,
{
    if k == 0 {
        -1
    } else if hex_pairs(h, (k - 1) as nat) is None {
        first_bad_pair(h, (k - 1) as nat)
    } else {
        (k - 1) as int
    }
}

proof fn lemma_bad_pair(h: Seq<char>, k: nat)
    requires
        hex_pairs(h, k) is None,
    ensures
        0 <= first_bad_pair(h, k) < k,
        hex_pairs(h, first_bad_pair(h, k) as nat) is Some,
        parse::spec_parse_unsigned(
            h.subrange(2 * first_bad_pair(h, k), 2 * first_bad_pair(h, k) + 2),
            16,
            255,
        ) is None,
    decreases k,
{
    if hex_pairs(h, (k - 1) as nat) is None {
        lemma_bad_pair(h, (k - 1) as nat);
    }
}

/// Reads the data bytes of a raw request: hex digits in pairs, whitespace
/// anywhere ignored.
pub fn parse_hex_bytes(input: &str) -> (r: Result<Vec<u8>, String>)
    requires
        !hex_splits_char(input@),
    ensures
        match spec_hex_bytes(input@) {
            Ok(bytes) => r matches Ok(v) && v@ == bytes,
            Err(e) => r matches Err(x) && x@ == e,
        },
{
    let cs = chars_of(input);
    let mut cleaned: Vec<char> = Vec::new();
    let mut i: usize = 0;
    while i < cs.len()
        invariant
            i <= cs@.len(),
            cs@ == input@,
            cleaned@ == cs@.take(i as int).filter(|c: char| !text::is_ws(c)),
        decreases cs@.len() - i,
    {
        proof {
            assert(cs@.take(i + 1).drop_last() =~= cs@.take(i as int));
            reveal(Seq::filter);
            assert(cs@.take(i + 1).last() == cs@[i as int]);
        }
        if !is_whitespace(cs[i]) {
            cleaned.push(cs[i]);
        }
        i += 1;
    }
    assert(cs@.take(cs@.len() as int) =~= cs@);
    let ghost h = cleaned@;
    assert(h == without_ws(input@));
    let n = cleaned.len();
    let mut odd = false;
    let mut j: usize = 0;
    while j < n
        invariant
            j <= n,
            n == h.len(),
            h == cleaned@,
            odd == (text::utf8_bytes(h.take(j as int)) % 2 == 1),
        decreases n - j,
    {
        assert(h.take(j + 1).drop_last() =~= h.take(j as int));
        let w = utf8_char_len(cleaned[j]);
        if w % 2 == 1 {
            odd = !odd;
        }
        j += 1;
    }
    assert(h.take(n as int) =~= h);
    if odd {
        let mut e = String::new();
        push_str(&mut e, "hex data needs an even number of digits");
        return Err(e);
    }
    let mut q: usize = 0;
    while q < n && (cleaned[q] as u32) < 128
        invariant
            q <= n,
            n == h.len(),
            h == cleaned@,
            forall|t: int| 0 <= t < q ==> (h[t] as u32) < 128,
        decreases n - q,
    {
        q += 1;
    }
    proof {
        lemma_ascii_run(h, q as int);
    }
    let m = if q == n { n / 2 } else { q / 2 };
    let mut bytes: Vec<u8> = Vec::new();
    let mut k: usize = 0;
    while k < m
        invariant
            k <= m,
            2 * m <= n,
            n == h.len(),
            h == cleaned@,
            h == without_ws(input@),
            text::utf8_bytes(h) % 2 == 0,
            ascii_run(h) == q,
            q <= n,
            m == (if q == n { n / 2 } else { q / 2 }),
            hex_pairs(h, k as nat) == Some(bytes@),
        decreases m - k,
    {
        let mut pair: Vec<char> = Vec::new();
        pair.push(cleaned[2 * k]);
        pair.push(cleaned[2 * k + 1]);
        assert(pair@ =~= h.subrange(2 * k, 2 * k + 2));
        match parse_unsigned(pair.as_slice(), 16, 255) {
            Some(b) => {
                bytes.push(b as u8);
                k += 1;
            },
            None => {
                let mut e = String::new();
                push_str(&mut e, "invalid hex byte '");
                push_chars(&mut e, pair.as_slice(), 0, 2);
                push_str(&mut e, "'");
                proof {
                    assert(hex_pairs(h, (k + 1) as nat) is None);
                    lemma_no_pairs_after(h, (k + 1) as nat, m as nat);
                    lemma_first_bad_is(h, k as nat, m as nat);
                    assert(pair@.subrange(0, 2) =~= pair@);
                }
                return Err(e);
            },
        }
    }
    if q < n {
        let mut e = String::new();
        push_str(&mut e, "invalid hex byte '");
        let ghost before = e@;
        push_char(&mut e, cleaned[q]);
        assert(e@ =~= before + seq![h[q as int]]);
        push_str(&mut e, "'");
        assert(hex_pairs(h, m as nat) == Some(bytes@));
        return Err(e);
    }
    proof {
        lemma_ascii_bytes(h);
    }
    Ok(bytes)
}

proof fn lemma_no_pairs_after(h: Seq<char>, k: nat, m: nat)
    requires
        k <= m,
        hex_pairs(h, k) is None,
    ensures
        hex_pairs(h, m) is None,
    decreases m - k,
{
    if k < m {
        lemma_no_pairs_after(h, k, (m - 1) as nat);
    }
}

proof fn lemma_first_bad_is(h: Seq<char>, k: nat, m: nat)
    requires
        k < m,
        hex_pairs(h, k) is Some,
        hex_pairs(h, k + 1) is None,
    ensures
        first_bad_pair(h, m) == k,
    decreases m - k,
{
    if k + 1 < m {
        lemma_no_pairs_after(h, k + 1, (m - 1) as nat);
        lemma_first_bad_is(h, k, (m - 1) as nat);
    }
}

/// How many characters at the start of `h` are ASCII.
pub open spec fn ascii_run(h: Seq<char>) -> nat
    decreases h.len(),
{
    if h.len() == 0 {
        0
    } else if (h[0] as u32) < 128 {
        1 + ascii_run(h.drop_first())
    } else {
        0
    }
}

/// What reading the data bytes of `input` gives: the bytes, or the error
/// `parse_hex_bytes` reports. The digits are taken two bytes of their
/// UTF-8 text at a time; a pair that holds a character beyond ASCII is no
/// hex byte.
pub open spec fn spec_hex_bytes(input: Seq<char>) -> Result<Seq<u8>, Seq<char>> {
    let h = without_ws(input);
    let q = ascii_run(h);
    let m = if q == h.len() { h.len() / 2 } else { q / 2 };
    if text::utf8_bytes(h) % 2 == 1 {
        Err("hex data needs an even number of digits"@)
    } else {
        match hex_pairs(h, m) {
            Some(bytes) => if q == h.len() {
                Ok(bytes)
            } else {
                Err("invalid hex byte '"@ + seq![h[q as int]] + "'"@)
            },
            None => {
                let k = first_bad_pair(h, m);
                Err("invalid hex byte '"@ + h.subrange(2 * k, 2 * k + 2) + "'"@)
            },
        }
    }
}

/// Whether reading the data bytes of `input` would cut a character in
/// two: the first character beyond ASCII is reached by the pairs before it
/// and does not fill a pair of bytes on its own.
pub open spec fn hex_splits_char(input: Seq<char>) -> bool {
    let h = without_ws(input);
    let q = ascii_run(h);
    &&& text::utf8_bytes(h) % 2 == 0
    &&& q < h.len()
    &&& hex_pairs(h, q / 2) is Some
    &&& !(q % 2 == 0 && text::utf8_len(h[q as int]) == 2)
}

proof fn lemma_ascii_run(h: Seq<char>, q: int)
    requires
        0 <= q <= h.len(),
        forall|j: int| 0 <= j < q ==> (h[j] as u32) < 128,
        q < h.len() ==> (h[q] as u32) >= 128,
    ensures
        ascii_run(h) == q,
    decreases q,
{
    if q > 0 {
        lemma_ascii_run(h.drop_first(), q - 1);
    }
}

proof fn lemma_ascii_bytes(h: Seq<char>)
    requires
        forall|j: int| 0 <= j < h.len() ==> (h[j] as u32) < 128,
    ensures
        text::utf8_bytes(h) == h.len(),
    decreases h.len(),
{
    if h.len() > 0 {
        lemma_ascii_bytes(h.drop_last());
    }
}

/// Whether `c` is an ASCII hex digit.
pub open spec fn is_hex_digit(c: char) -> bool {
    ('0' <= c <= '9') || ('a' <= c <= 'f') || ('A' <= c <= 'F')
}

/// A byte as two uppercase hex digits.
pub open spec fn hex_byte(b: u8) -> Seq<char> {
    zero_padded(hex(b as nat), 2)
}

/// Bytes as pairs of hex digits, separated by spaces.
pub open spec fn hex_line(bytes: Seq<u8>) -> Seq<char>
    decreases bytes.len(),
{
    if bytes.len() == 0 {
        Seq::empty()
    } else if bytes.len() == 1 {
        hex_byte(bytes[0])
    } else {
        hex_line(bytes.drop_last()) + " "@ + hex_byte(bytes.last())
    }
}

fn status_of(text: &str, kind: MessageKind) -> (r: StatusMessage)
    ensures
        r.text@ == text@,
        r.kind == kind,
{
    let mut s = String::new();
    push_str(&mut s, text);
    StatusMessage { text: s, kind }
}

impl Default for RawParams {
    fn default() -> (r: Self)
        ensures
            r.code@.len() == 0 && r.data@.len() == 0 && r.field == RawField::Code && r.response is None
                && r.status is None,
    {
        RawParams { code: String::new(), data: String::new(), field: RawField::Code, response: None, status: None }
    }
}

impl RawParams {
    /// Moves between the function code and the data.
    pub fn switch_field(&mut self)
        ensures
            final(self).field == (if old(self).field == RawField::Code {
                RawField::Data
            } else {
                RawField::Code
            }),
            final(self).code == old(self).code && final(self).data == old(self).data,
    {
        self.field = match self.field {
            RawField::Code => RawField::Data,
            RawField::Data => RawField::Code,
        };
    }

    /// Types `c`: a decimal digit into a function code of under three
    /// bytes, a hex digit or a space into the data; anything else is
    /// dropped.
    pub fn type_char(&mut self, c: char)
        ensures
            old(self).field == RawField::Code && '0' <= c <= '9' && utf8_bytes(old(self).code@) < 3
                ==> final(self).code@ == old(self).code@.push(c),
            !(old(self).field == RawField::Code && '0' <= c <= '9' && utf8_bytes(old(self).code@) < 3)
                ==> final(self).code == old(self).code,
            old(self).field == RawField::Data && (is_hex_digit(c) || c == ' ') ==> final(self).data@
                == old(self).data@.push(c),
            !(old(self).field == RawField::Data && (is_hex_digit(c) || c == ' ')) ==> final(self).data
                == old(self).data,
            final(self).field == old(self).field && final(self).status == old(self).status,
    {
        match self.field {
            RawField::Code => {
                if '0' <= c && c <= '9' && bytes_below(self.code.as_str(), 3) {
                    push_char(&mut self.code, c);
                }
            },
            RawField::Data => {
                let hex_digit = ('0' <= c && c <= '9') || ('a' <= c && c <= 'f') || ('A' <= c && c <= 'F');
                if hex_digit || c == ' ' {
                    push_char(&mut self.data, c);
                }
            },
        }
    }

    /// Deletes the last character of the field the cursor is on.
    pub fn backspace(&mut self)
        ensures
            old(self).field == RawField::Code ==> final(self).code@ == (if old(self).code@.len() == 0 {
                old(self).code@
            } else {
                old(self).code@.drop_last()
            }) && final(self).data == old(self).data,
            old(self).field == RawField::Data ==> final(self).data@ == (if old(self).data@.len() == 0 {
                old(self).data@
            } else {
                old(self).data@.drop_last()
            }) && final(self).code == old(self).code,
            final(self).field == old(self).field,
    {
        match self.field {
            RawField::Code => {
                pop_char(&mut self.code);
            },
            RawField::Data => {
                pop_char(&mut self.data);
            },
        }
    }

    /// The send key: checks the request and returns the function code and
    /// the data bytes to send, saying "Sending..."; where it cannot send,
    /// says why (writes are off, a bad function code, bad data, no device,
    /// a busy device, the first that holds) and returns nothing.
    pub fn send(&mut self, read_only: bool, connected: bool, slot_free: bool) -> (r: Option<(u8, Vec<u8>)>)
        requires
            !read_only && parse::spec_parse_unsigned(trim(old(self).code@), 10, 255) is Some ==> !hex_splits_char(
                old(self).data@,
            ),
        ensures
            final(self).code == old(self).code && final(self).data == old(self).data && final(self).field
                == old(self).field && final(self).response == old(self).response,
            final(self).status is Some,
            read_only ==> r is None && final(self).status->0.kind == MessageKind::Warn
                && final(self).status->0.text@
                == "Read-only mode is on - custom calls may write and are disabled"@,
            !read_only && parse::spec_parse_unsigned(trim(old(self).code@), 10, 255) is None ==> r is None
                && final(self).status->0.kind == MessageKind::Failure && final(self).status->0.text@
                == "Function code must be 0-255"@,
            !read_only && parse::spec_parse_unsigned(trim(old(self).code@), 10, 255) is Some ==> ({
                let code = parse::spec_parse_unsigned(trim(old(self).code@), 10, 255)->0;
                match spec_hex_bytes(old(self).data@) {
                    Err(e) => r is None && final(self).status->0.kind == MessageKind::Failure
                        && final(self).status->0.text@ == e,
                    Ok(bytes) => if !connected {
                        r is None && final(self).status->0.kind == MessageKind::Failure
                            && final(self).status->0.text@ == "No device connected"@
                    } else if !slot_free {
                        r is None && final(self).status->0.kind == MessageKind::Info
                            && final(self).status->0.text@ == "Device is busy."@
                    } else {
                        r is Some && (r->0).0 == code && (r->0).1@ == bytes && final(self).status->0.kind
                            == MessageKind::Info && final(self).status->0.text@ == "Sending..."@
                    },
                }
            }),
    {
        if read_only {
            self.status = Some(status_of("Read-only mode is on - custom calls may write and are disabled", MessageKind::Warn));
            return None;
        }
        let code_chars = trimmed_chars(self.code.as_str());
        let code = match parse_unsigned(code_chars.as_slice(), 10, 255) {
            Some(v) => v as u8,
            None => {
                self.status = Some(status_of("Function code must be 0-255", MessageKind::Failure));
                return None;
            },
        };
        let data = match parse_hex_bytes(self.data.as_str()) {
            Ok(bytes) => bytes,
            Err(e) => {
                self.status = Some(StatusMessage { text: e, kind: MessageKind::Failure });
                return None;
            },
        };
        if !connected {
            self.status = Some(status_of("No device connected", MessageKind::Failure));
            return None;
        }
        if !slot_free {
            self.status = Some(status_of("Device is busy.", MessageKind::Info));
            return None;
        }
        self.status = Some(status_of("Sending...", MessageKind::Info));
        Some((code, data))
    }

    /// Takes the device's answer to the request, `None` where the call
    /// task died: the bytes returned as hex pairs, or why it failed.
    pub fn apply_result(&mut self, result: Option<Result<Vec<u8>, String>>)
        ensures
            final(self).code == old(self).code && final(self).data == old(self).data && final(self).field
                == old(self).field,
            final(self).status is Some,
            result is None ==> final(self).response == old(self).response && final(self).status->0.kind
                == MessageKind::Failure && final(self).status->0.text@ == "Failed: task stopped unexpectedly"@,
            result matches Some(Ok(bytes)) ==> final(self).response is Some && final(self).response->0@
                == (if bytes@.len() == 0 {
                "(empty)"@
            } else {
                hex_line(bytes@)
            }) && final(self).status->0.kind == MessageKind::Success && final(self).status->0.text@
                == dec(bytes@.len()) + " byte(s) returned"@,
            result matches Some(Err(e)) ==> final(self).response is None && final(self).status->0.kind
                == MessageKind::Failure && final(self).status->0.text@ == "Failed: "@ + e@,
    {
        match result {
            None => {
                self.status = Some(status_of("Failed: task stopped unexpectedly", MessageKind::Failure));
            },
            Some(Ok(bytes)) => {
                let mut line = String::new();
                if bytes.len() == 0 {
                    push_str(&mut line, "(empty)");
                } else {
                    let mut i: usize = 0;
                    while i < bytes.len()
                        invariant
                            i <= bytes@.len(),
                            line@ == hex_line(bytes@.take(i as int)),
                        decreases bytes@.len() - i,
                    {
                        proof {
                            assert(bytes@.take(i + 1).drop_last() =~= bytes@.take(i as int));
                        }
                        let ghost before = line@;
                        if i > 0 {
                            push_char(&mut line, ' ');
                        }
                        push_zero_padded_hex(&mut line, bytes[i] as u64, 2);
                        i += 1;
                        proof {
                            if i > 1 {
                                reveal_strlit(" ");
                                assert(line@ =~= before + " "@ + hex_byte(bytes@[i - 1]));
                                assert(hex_line(bytes@.take(i as int)) == hex_line(bytes@.take(i - 1)) + " "@ + hex_byte(
                                    bytes@.take(i as int).last(),
                                ));
                            } else {
                                assert(line@ =~= hex_byte(bytes@[0]));
                            }
                        }
                    }
                    assert(bytes@.take(bytes@.len() as int) =~= bytes@);
                }
                self.response = Some(line);
                let mut text = String::new();
                push_decimal(&mut text, bytes.len() as u64);
                push_str(&mut text, " byte(s) returned");
                self.status = Some(StatusMessage { text, kind: MessageKind::Success });
            },
            Some(Err(e)) => {
                self.response = None;
                let mut text = String::new();
                push_str(&mut text, "Failed: ");
                push_str(&mut text, e.as_str());
                self.status = Some(StatusMessage { text, kind: MessageKind::Failure });
            },
        }
    }
}

} // verus!
