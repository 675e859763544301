use vstd::prelude::*;
use vstd::string::*;

verus! {

/// Unicode `White_Space`, the characters `char::is_whitespace` accepts.
pub open spec fn is_ws(c: char) -> bool {
    let u = c as u32;
    (0x9 <= u <= 0xD) || u == 0x20 || u == 0x85 || u == 0xA0 || u == 0x1680 || (0x2000 <= u
        <= 0x200A) || u == 0x2028 || u == 0x2029 || u == 0x202F || u == 0x205F || u == 0x3000
}

pub fn is_whitespace(c: char) -> (r: bool)
    ensures
        r == is_ws(c),
{
    let u = c as u32;
    (0x9 <= u && u <= 0xD) || u == 0x20 || u == 0x85 || u == 0xA0 || u == 0x1680 || (0x2000 <= u
        && u <= 0x200A) || u == 0x2028 || u == 0x2029 || u == 0x202F || u == 0x205F || u == 0x3000
}

/// `s` without leading whitespace.
pub open spec fn trim_start(s: Seq<char>) -> Seq<char>
    decreases s.len(),
{
    if s.len() > 0 && is_ws(s[0]) {
        trim_start(s.drop_first())
    } else {
        s
    }
}

/// `s` without trailing whitespace.
pub open spec fn trim_end(s: Seq<char>) -> Seq<char>
    decreases s.len(),
{
    if s.len() > 0 && is_ws(s.last()) {
        trim_end(s.drop_last())
    } else {
        s
    }
}

/// `s` without leading and trailing whitespace, as `str::trim` gives it.
pub open spec fn trim(s: Seq<char>) -> Seq<char> {
    trim_end(trim_start(s))
}

/// The ASCII lowercase of a character; other characters stay as they are.
pub open spec fn ascii_lower(c: char) -> char {
    if 'A' <= c <= 'Z' {
        ((c as u32) + 32) as char
    } else {
        c
    }
}

pub open spec fn ascii_lower_seq(s: Seq<char>) -> Seq<char> {
    s.map_values(|c: char| ascii_lower(c))
}

/// Equal up to ASCII case, as `str::eq_ignore_ascii_case` compares.
pub open spec fn eq_ignore_case(a: Seq<char>, b: Seq<char>) -> bool {
    ascii_lower_seq(a) == ascii_lower_seq(b)
}

/// `needle` occurs in `hay` starting at `i`.
pub open spec fn occurs_at(hay: Seq<char>, needle: Seq<char>, i: int) -> bool {
    0 <= i && i + needle.len() <= hay.len() && hay.subrange(i, i + needle.len()) == needle
}

pub open spec fn contains_seq(hay: Seq<char>, needle: Seq<char>) -> bool {
    exists|i: int| occurs_at(hay, needle, i)
}

/// Appends one character to `s` with `String::push`.
#[verifier::external_body]
pub fn push_char(s: &mut String, c: char)
    ensures
        final(s)@ == old(s)@.push(c),
{
    s.push(c);
}

pub fn push_str(s: &mut String, t: &str)
    ensures
        final(s)@ == old(s)@ + t@,
{
    s.append(t);
}

/// The characters of `s`.
pub fn chars_of(s: &str) -> (v: Vec<char>)
    ensures
        v@ == s@,
{
    let n = s.unicode_len();
    let mut v: Vec<char> = Vec::new();
    let mut i: usize = 0;
    while i < n
        invariant
            n == s@.len(),
            i <= n,
            v@ == s@.subrange(0, i as int),
        decreases n - i,
    {
        let c = s.get_char(i);
        v.push(c);
        i += 1;
    }
    v
}

/// Appends the characters `cs[from..to]` to `s`.
pub fn push_chars(s: &mut String, cs: &[char], from: usize, to: usize)
    requires
        from <= to <= cs@.len(),
    ensures
        final(s)@ == old(s)@ + cs@.subrange(from as int, to as int),
{
    let mut i = from;
    while i < to
        invariant
            from <= i <= to,
            to <= cs@.len(),
            s@ == old(s)@ + cs@.subrange(from as int, i as int),
        decreases to - i,
    {
        push_char(s, cs[i]);
        i += 1;
        assert(cs@.subrange(from as int, i as int) =~= cs@.subrange(from as int, i - 1).push(
            cs@[i - 1],
        ));
    }
}

/// A new string holding `cs[from..to]`.
pub fn string_of(cs: &[char], from: usize, to: usize) -> (r: String)
    requires
        from <= to <= cs@.len(),
    ensures
        r@ == cs@.subrange(from as int, to as int),
{
    let mut s = String::new();
    push_chars(&mut s, cs, from, to);
    s
}

/// `n` spaces.
pub open spec fn spaces(n: nat) -> Seq<char> {
    Seq::new(n, |_i: int| ' ')
}

/// `n - len` spaces, none when `len >= n`: the padding that fills a field
/// of width `n`.
pub open spec fn fill(len: int, n: int) -> Seq<char> {
    if len < n {
        spaces((n - len) as nat)
    } else {
        seq![]
    }
}

/// Appends `n` spaces.
pub fn push_spaces(s: &mut String, n: usize)
    ensures
        final(s)@ == old(s)@ + spaces(n as nat),
{
    let mut i: usize = 0;
    while i < n
        invariant
            i <= n,
            s@ == old(s)@ + spaces(i as nat),
        decreases n - i,
    {
        push_char(s, ' ');
        i += 1;
        assert(spaces(i as nat) =~= spaces((i - 1) as nat).push(' '));
    }
}

/// Appends the padding that brings a field of `len` characters to width `n`.
pub fn push_fill(s: &mut String, len: usize, n: usize)
    ensures
        final(s)@ == old(s)@ + fill(len as int, n as int),
{
    if len < n {
        push_spaces(s, n - len);
    } else {
        assert(old(s)@ + fill(len as int, n as int) =~= old(s)@);
    }
}

/// Trailing spaces after a word that starts and ends with a non-space
/// are all that `trim` takes away.
pub proof fn lemma_trim_padded(w: Seq<char>, pad: Seq<char>)
    requires
        w.len() > 0,
        !is_ws(w[0]),
        !is_ws(w.last()),
        forall|j: int| 0 <= j < pad.len() ==> is_ws(#[trigger] pad[j]),
    ensures
        trim(w + pad) == w,
{
    let s = w + pad;
    assert(trim_start(s) == s);
    lemma_trim_end_prefix(s, w.len() as int);
    assert(s.subrange(0, w.len() as int) =~= w);
    assert(trim_end(w) == w);
}

/// A word that starts and ends with a non-space is its own trim.
pub proof fn lemma_trim_word(w: Seq<char>)
    requires
        w.len() > 0,
        !is_ws(w[0]),
        !is_ws(w.last()),
    ensures
        trim(w) == w,
{
    lemma_trim_padded(w, seq![]);
    assert(w + seq![] =~= w);
}

proof fn lemma_trim_start_suffix(s: Seq<char>, k: int)
    requires
        0 <= k <= s.len(),
        forall|j: int| 0 <= j < k ==> is_ws(s[j]),
    ensures
        trim_start(s) == trim_start(s.subrange(k, s.len() as int)),
    decreases k,
{
    if k > 0 {
        assert(is_ws(s[0]));
        lemma_trim_start_suffix(s.drop_first(), k - 1);
        assert(s.drop_first().subrange(k - 1, s.drop_first().len() as int) =~= s.subrange(
            k,
            s.len() as int,
        ));
    } else {
        assert(s.subrange(0, s.len() as int) =~= s);
    }
}

proof fn lemma_trim_end_prefix(s: Seq<char>, k: int)
    requires
        0 <= k <= s.len(),
        forall|j: int| k <= j < s.len() ==> is_ws(s[j]),
    ensures
        trim_end(s) == trim_end(s.subrange(0, k)),
    decreases s.len() - k,
{
    if k < s.len() {
        assert(is_ws(s.last()));
        lemma_trim_end_prefix(s.drop_last(), k);
        assert(s.drop_last().subrange(0, k) =~= s.subrange(0, k));
    } else {
        assert(s.subrange(0, k) =~= s);
    }
}

/// The bounds `[lo, hi)` of `trim(cs)` inside `cs`.
pub fn trim_bounds(cs: &[char]) -> (r: (usize, usize))
    ensures
        r.0 <= r.1 <= cs@.len(),
        cs@.subrange(r.0 as int, r.1 as int) == trim(cs@),
{
    let n = cs.len();
    let mut lo: usize = 0;
    while lo < n && is_whitespace(cs[lo])
        invariant
            lo <= n,
            n == cs@.len(),
            forall|j: int| 0 <= j < lo ==> is_ws(cs@[j]),
        decreases n - lo,
    {
        lo += 1;
    }
    proof {
        lemma_trim_start_suffix(cs@, lo as int);
    }
    let rest = Ghost(cs@.subrange(lo as int, n as int));
    assert(lo == n || !is_ws(rest@[0]));
    assert(trim_start(rest@) == rest@);
    let mut hi: usize = n;
    while hi > lo && is_whitespace(cs[hi - 1])
        invariant
            lo <= hi <= n,
            n == cs@.len(),
            forall|j: int| hi <= j < n ==> is_ws(cs@[j]),
        decreases hi,
    {
        hi -= 1;
    }
    proof {
        lemma_trim_end_prefix(rest@, hi - lo);
        assert(rest@.subrange(0, hi - lo) =~= cs@.subrange(lo as int, hi as int));
        let t = cs@.subrange(lo as int, hi as int);
        assert(t.len() == 0 || !is_ws(t.last()));
    }
    (lo, hi)
}

/// The characters of `trim(s)`.
pub fn trimmed_chars(s: &str) -> (v: Vec<char>)
    ensures
        v@ == trim(s@),
{
    let cs = chars_of(s);
    let (lo, hi) = trim_bounds(cs.as_slice());
    let mut v: Vec<char> = Vec::new();
    let mut i = lo;
    while i < hi
        invariant
            lo <= i <= hi <= cs@.len(),
            v@ == cs@.subrange(lo as int, i as int),
        decreases hi - i,
    {
        v.push(cs[i]);
        i += 1;
        assert(cs@.subrange(lo as int, i as int) =~= cs@.subrange(lo as int, i - 1).push(
            cs@[i - 1],
        ));
    }
    v
}

/// `trim(s)` as a new string, like `s.trim().to_string()`.
pub fn trimmed(s: &str) -> (r: String)
    ensures
        r@ == trim(s@),
{
    let cs = chars_of(s);
    let (lo, hi) = trim_bounds(cs.as_slice());
    string_of(cs.as_slice(), lo, hi)
}

/// Whether `trim(s)` is empty, that is whether `s` is all whitespace.
pub fn is_blank(s: &str) -> (r: bool)
    ensures
        r == (trim(s@).len() == 0),
{
    let cs = chars_of(s);
    let (lo, hi) = trim_bounds(cs.as_slice());
    lo == hi
}

pub fn to_ascii_lower(c: char) -> (r: char)
    ensures
        r == ascii_lower(c),
{
    if 'A' <= c && c <= 'Z' {
        ((c as u8) + 32) as char
    } else {
        c
    }
}

/// The characters of `s` in ASCII lowercase.
pub fn ascii_lowercase_chars(s: &str) -> (v: Vec<char>)
    ensures
        v@ == ascii_lower_seq(s@),
{
    let cs = chars_of(s);
    let mut v: Vec<char> = Vec::new();
    let mut i: usize = 0;
    while i < cs.len()
        invariant
            i <= cs@.len(),
            cs@ == s@,
            v@ == ascii_lower_seq(s@).subrange(0, i as int),
        decreases cs@.len() - i,
    {
        v.push(to_ascii_lower(cs[i]));
        i += 1;
        assert(ascii_lower_seq(s@).subrange(0, i as int) =~= ascii_lower_seq(s@).subrange(
            0,
            i - 1,
        ).push(ascii_lower(s@[i - 1])));
    }
    assert(ascii_lower_seq(s@).subrange(0, i as int) =~= ascii_lower_seq(s@));
    v
}

pub fn eq_ignore_ascii_case(a: &str, b: &str) -> (r: bool)
    ensures
        r == eq_ignore_case(a@, b@),
{
    let x = ascii_lowercase_chars(a);
    let y = ascii_lowercase_chars(b);
    if x.len() != y.len() {
        assert(x@.len() != y@.len());
        return false;
    }
    let mut i: usize = 0;
    while i < x.len()
        invariant
            i <= x@.len(),
            x@.len() == y@.len(),
            x@ == ascii_lower_seq(a@),
            y@ == ascii_lower_seq(b@),
            forall|j: int| 0 <= j < i ==> x@[j] == y@[j],
        decreases x@.len() - i,
    {
        if x[i] != y[i] {
            assert(x@[i as int] != y@[i as int]);
            assert(x@ != y@);
            return false;
        }
        i += 1;
    }
    assert(x@ =~= y@);
    true
}

/// The first position at which `needle` occurs in `hay` at or after `from`.
pub fn find_from(hay: &[char], needle: &[char], from: usize) -> (r: Option<usize>)
    requires
        from <= hay@.len(),
    ensures
        r matches Some(i) ==> from <= i && occurs_at(hay@, needle@, i as int) && forall|j: int|
            from <= j < i ==> !occurs_at(hay@, needle@, j),
        r is None ==> forall|j: int| from <= j ==> !occurs_at(hay@, needle@, j),
{
    let n = hay.len();
    let m = needle.len();
    if m > n {
        return None;
    }
    let mut i = from;
    while i <= n - m
        invariant
            from <= i,
            m <= n,
            n == hay@.len(),
            m == needle@.len(),
            forall|j: int| from <= j < i ==> !occurs_at(hay@, needle@, j),
        decreases n - i,
    {
        let mut k: usize = 0;
        let mut same = true;
        while k < m
            invariant
                k <= m,
                i + m <= n,
                n == hay@.len(),
                m == needle@.len(),
                same == forall|t: int| 0 <= t < k ==> hay@[i + t] == needle@[t],
            decreases m - k,
        {
            if hay[i + k] != needle[k] {
                same = false;
            }
            k += 1;
        }
        if same {
            assert(hay@.subrange(i as int, i + m) =~= needle@);
            return Some(i);
        }
        assert(!occurs_at(hay@, needle@, i as int)) by {
            if occurs_at(hay@, needle@, i as int) {
                let t = choose|t: int| 0 <= t < m && hay@[i + t] != needle@[t];
                assert(hay@.subrange(i as int, i + m)[t] == hay@[i + t]);
            }
        }
        i += 1;
    }
    None
}


/// The end of the word that starts at `i`: the first whitespace at or
/// after `i`, or the end of `s`.
pub open spec fn word_end(s: Seq<char>, i: int) -> int
    decreases s.len() - i,
{
    if i >= s.len() || i < 0 || is_ws(s[i]) {
        i
    } else {
        word_end(s, i + 1)
    }
}

pub proof fn lemma_word_end(s: Seq<char>, i: int)
    requires
        0 <= i <= s.len(),
    ensures
        i <= word_end(s, i) <= s.len(),
        forall|k: int| i <= k < word_end(s, i) ==> !is_ws(s[k]),
        word_end(s, i) < s.len() ==> is_ws(s[word_end(s, i)]),
    decreases s.len() - i,
{
    if !(i >= s.len() || is_ws(s[i])) {
        lemma_word_end(s, i + 1);
    }
}

/// The whitespace-separated words of `s[i..]`, as `str::split_whitespace`
/// yields them.
pub open spec fn split_from(s: Seq<char>, i: int) -> Seq<Seq<char>>
    decreases s.len() - i,
{
    if i >= s.len() || i < 0 {
        Seq::empty()
    } else if is_ws(s[i]) {
        split_from(s, i + 1)
    } else {
        let e = word_end(s, i + 1);
        proof {
            lemma_word_end(s, i + 1);
        }
        seq![s.subrange(i, e)] + split_from(s, e)
    }
}

pub open spec fn split_ws(s: Seq<char>) -> Seq<Seq<char>> {
    split_from(s, 0)
}

/// The words of `cs`, split at whitespace.
pub fn split_whitespace(cs: &[char]) -> (r: Vec<Vec<char>>)
    ensures
        r@.len() == split_ws(cs@).len(),
        forall|k: int| 0 <= k < r@.len() ==> #[trigger] r@[k]@ == split_ws(cs@)[k],
{
    let n = cs.len();
    let mut words: Vec<Vec<char>> = Vec::new();
    let ghost done: Seq<Seq<char>> = Seq::empty();
    let mut i: usize = 0;
    while i < n
        invariant
            i <= n,
            n == cs@.len(),
            words@.len() == done.len(),
            forall|k: int| 0 <= k < words@.len() ==> #[trigger] words@[k]@ == done[k],
            split_ws(cs@) == done + split_from(cs@, i as int),
        decreases n - i,
    {
        if is_whitespace(cs[i]) {
            i += 1;
        } else {
            let start = i;
            let mut w: Vec<char> = Vec::new();
            w.push(cs[i]);
            i += 1;
            proof {
                lemma_word_end(cs@, i as int);
            }
            while i < n && !is_whitespace(cs[i])
                invariant
                    start < i <= n,
                    n == cs@.len(),
                    w@ == cs@.subrange(start as int, i as int),
                    word_end(cs@, start + 1) == word_end(cs@, i as int),
                decreases n - i,
            {
                w.push(cs[i]);
                i += 1;
                assert(w@ =~= cs@.subrange(start as int, i as int));
            }
            proof {
                let e = word_end(cs@, start + 1);
                assert(e == i);
                assert(split_from(cs@, start as int) == seq![cs@.subrange(start as int, e)]
                    + split_from(cs@, e));
                done = done.push(w@);
                assert(split_ws(cs@) =~= done + split_from(cs@, i as int));
            }
            words.push(w);
        }
    }
    proof {
        assert(split_from(cs@, i as int) == Seq::<Seq<char>>::empty());
        assert(done + Seq::<Seq<char>>::empty() =~= done);
    }
    words
}

/// The lowercase of a string as `str::to_lowercase` gives it, by the
/// Unicode `Lowercase` mapping.
pub uninterp spec fn lowercase(s: Seq<char>) -> Seq<char>;

/// Lowercases a string with `str::to_lowercase`; on ASCII text that is the
/// ASCII lowercase.
#[verifier::external_body]
pub fn to_lowercase(s: &str) -> (r: String)
    ensures
        r@ == lowercase(s@),
        (forall|i: int| 0 <= i < s@.len() ==> (s@[i] as u32) < 128) ==> r@ == ascii_lower_seq(s@),
{
    s.to_lowercase()
}

/// Whether `needle` occurs anywhere in `hay`.
pub fn contains_chars(hay: &[char], needle: &[char]) -> (r: bool)
    ensures
        r == contains_seq(hay@, needle@),
{
    match find_from(hay, needle, 0) {
        Some(i) => true,
        None => false,
    }
}


/// The character of digit `d` (0-15), with uppercase letters past 9.
pub open spec fn digit_char(d: nat) -> char {
    if d < 10 {
        ((d + 48) as u8) as char
    } else {
        ((d + 55) as u8) as char
    }
}

/// The digits of `n` in base `base`, most significant first, without
/// leading zeros (`0` is written as one digit).
pub open spec fn radix_digits(n: nat, base: nat) -> Seq<char>
    decreases n,
{
    if base < 2 || n < base {
        seq![digit_char(n)]
    } else {
        proof {
            vstd::arithmetic::div_mod::lemma_div_decreases(n as int, base as int);
        }
        radix_digits(n / base, base).push(digit_char(n % base))
    }
}

/// Decimal digits of `n`, as `{}` formats an unsigned number.
pub open spec fn dec(n: nat) -> Seq<char> {
    radix_digits(n, 10)
}

/// Uppercase hexadecimal digits of `n`, as `{:X}` formats it.
pub open spec fn hex(n: nat) -> Seq<char> {
    radix_digits(n, 16)
}

fn digit_to_char(d: u64) -> (c: char)
    requires
        d < 16,
    ensures
        c == digit_char(d as nat),
{
    if d < 10 {
        ((d + 48) as u8) as char
    } else {
        ((d + 55) as u8) as char
    }
}

/// Appends the digits of `n` in base `base` (10 or 16).
pub fn push_radix(s: &mut String, n: u64, base: u64)
    requires
        base == 10 || base == 16,
    ensures
        final(s)@ == old(s)@ + radix_digits(n as nat, base as nat),
    decreases n,
{
    if n >= base {
        push_radix(s, n / base, base);
    }
    push_char(s, digit_to_char(n % base));
    proof {
        if n < base {
            assert(n % base == n);
        }
    }
}

/// Appends `n` in decimal.
pub fn push_decimal(s: &mut String, n: u64)
    ensures
        final(s)@ == old(s)@ + dec(n as nat),
{
    push_radix(s, n, 10);
}

/// Appends `n` in uppercase hexadecimal.
pub fn push_hex(s: &mut String, n: u64)
    ensures
        final(s)@ == old(s)@ + hex(n as nat),
{
    push_radix(s, n, 16);
}

/// Appends `n` in decimal with a leading `-` when it is negative, as `{}`
/// formats a signed number.
pub fn push_signed(s: &mut String, n: i64)
    ensures
        final(s)@ == old(s)@ + signed_dec(n as int),
{
    if n < 0 {
        push_char(s, '-');
        let magnitude: u64 = if n == i64::MIN {
            0x8000_0000_0000_0000
        } else {
            (-n) as u64
        };
        push_decimal(s, magnitude);
        assert(s@ =~= old(s)@ + signed_dec(n as int));
    } else {
        push_decimal(s, n as u64);
    }
}

/// `n` in decimal with a leading `-` when negative.
pub open spec fn signed_dec(n: int) -> Seq<char> {
    if n < 0 {
        seq!['-'] + dec((-n) as nat)
    } else {
        dec(n as nat)
    }
}

/// How many characters `radix_digits` writes.
pub proof fn lemma_radix_digits_len(n: nat, base: nat)
    ensures
        radix_digits(n, base).len() >= 1,
    decreases n,
{
    if !(base < 2 || n < base) {
        vstd::arithmetic::div_mod::lemma_div_decreases(n as int, base as int);
        lemma_radix_digits_len(n / base, base);
    }
}


/// Whether two strings hold the same characters.
pub fn str_eq(a: &str, b: &str) -> (r: bool)
    ensures
        r == (a@ == b@),
{
    let x = chars_of(a);
    let y = chars_of(b);
    if x.len() != y.len() {
        return false;
    }
    let mut i: usize = 0;
    while i < x.len()
        invariant
            i <= x@.len(),
            x@.len() == y@.len(),
            x@ == a@,
            y@ == b@,
            forall|j: int| 0 <= j < i ==> x@[j] == y@[j],
        decreases x@.len() - i,
    {
        if x[i] != y[i] {
            assert(x@[i as int] != y@[i as int]);
            return false;
        }
        i += 1;
    }
    assert(x@ =~= y@);
    true
}

/// Bytes the UTF-8 encoding of `c` takes.
pub open spec fn utf8_len(c: char) -> nat {
    let u = c as u32;
    if u < 0x80 {
        1
    } else if u < 0x800 {
        2
    } else if u < 0x10000 {
        3
    } else {
        4
    }
}

/// Bytes the UTF-8 encoding of `s` takes.
pub open spec fn utf8_bytes(s: Seq<char>) -> nat
    decreases s.len(),
{
    if s.len() == 0 {
        0
    } else {
        utf8_bytes(s.drop_last()) + utf8_len(s.last())
    }
}

/// Bytes the UTF-8 encoding of `c` takes.
pub fn utf8_char_len(c: char) -> (r: usize)
    ensures
        r == utf8_len(c),
{
    let u = c as u32;
    if u < 0x80 {
        1
    } else if u < 0x800 {
        2
    } else if u < 0x10000 {
        3
    } else {
        4
    }
}

/// Whether the UTF-8 encoding of `s` takes fewer than `limit` bytes, as
/// `s.len() < limit` compares.
pub fn bytes_below(s: &str, limit: usize) -> (r: bool)
    ensures
        r == (utf8_bytes(s@) < limit),
{
    if limit == 0 {
        return false;
    }
    let cs = chars_of(s);
    let mut bytes: usize = 0;
    let mut i: usize = 0;
    assert(cs@.take(0) =~= Seq::<char>::empty());
    while i < cs.len()
        invariant
            i <= cs@.len(),
            cs@ == s@,
            bytes == utf8_bytes(cs@.take(i as int)),
            bytes < limit,
        decreases cs@.len() - i,
    {
        assert(cs@.take(i + 1).drop_last() =~= cs@.take(i as int));
        let n = utf8_char_len(cs[i]);
        if n >= limit - bytes {
            proof {
                lemma_utf8_bytes_grow(cs@, i + 1);
            }
            return false;
        }
        bytes = bytes + n;
        i += 1;
    }
    assert(cs@.take(cs@.len() as int) =~= cs@);
    true
}

proof fn lemma_utf8_bytes_grow(s: Seq<char>, k: int)
    requires
        0 <= k <= s.len(),
    ensures
        utf8_bytes(s.take(k)) <= utf8_bytes(s),
    decreases s.len() - k,
{
    if k < s.len() {
        lemma_utf8_bytes_grow(s, k + 1);
        assert(s.take(k + 1).drop_last() =~= s.take(k));
    } else {
        assert(s.take(k) =~= s);
    }
}

/// Takes the last character off `s`, as `String::pop` does.
pub fn pop_char(s: &mut String) -> (r: Option<char>)
    ensures
        old(s)@.len() == 0 ==> r is None && final(s)@ == old(s)@,
        old(s)@.len() > 0 ==> r == Some(old(s)@.last()) && final(s)@ == old(s)@.drop_last(),
{
    let cs = chars_of(s.as_str());
    let n = cs.len();
    if n == 0 {
        return None;
    }
    let last = cs[n - 1];
    *s = string_of(cs.as_slice(), 0, n - 1);
    assert(cs@.subrange(0, n - 1) =~= old(s)@.drop_last());
    Some(last)
}

} // verus!
