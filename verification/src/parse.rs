use vstd::prelude::*;

verus! {

/// The value of `c` as a digit in base `radix` (10 or 16).
pub open spec fn digit_value(c: char, radix: nat) -> Option<nat> {
    if '0' <= c <= '9' && ((c as nat) - ('0' as nat)) < radix {
        Some(((c as nat) - ('0' as nat)) as nat)
    } else if radix == 16 && 'a' <= c <= 'f' {
        Some(((c as nat) - ('a' as nat) + 10) as nat)
    } else if radix == 16 && 'A' <= c <= 'F' {
        Some(((c as nat) - ('A' as nat) + 10) as nat)
    } else {
        None
    }
}

/// The number the digits `s` write in base `radix`, when every character is
/// a digit; an empty string writes no number.
pub open spec fn digits_value(s: Seq<char>, radix: nat) -> Option<nat>
    decreases s.len(),
{
    if s.len() == 0 {
        None
    } else if s.len() == 1 {
        digit_value(s[0], radix)
    } else {
        match (digits_value(s.drop_last(), radix), digit_value(s.last(), radix)) {
            (Some(v), Some(d)) => Some(v * radix + d),
            _ => None,
        }
    }
}

/// An unsigned integer as `from_str_radix` reads it: an optional `+`, then
/// digits, worth at most `max`.
pub open spec fn spec_parse_unsigned(s: Seq<char>, radix: nat, max: nat) -> Option<nat> {
    let body = if s.len() > 0 && s[0] == '+' {
        s.drop_first()
    } else {
        s
    };
    match digits_value(body, radix) {
        Some(v) => if v <= max {
            Some(v)
        } else {
            None
        },
        None => None,
    }
}

/// A signed 64-bit integer as `str::parse` reads it: an optional sign, then
/// decimal digits, within the range of `i64`.
pub open spec fn spec_parse_i64(s: Seq<char>) -> Option<int> {
    if s.len() > 0 && s[0] == '-' {
        match digits_value(s.drop_first(), 10) {
            Some(v) => if v <= 0x8000_0000_0000_0000 {
                Some(-v)
            } else {
                None
            },
            None => None,
        }
    } else {
        match spec_parse_unsigned(s, 10, 0x7fff_ffff_ffff_ffff) {
            Some(v) => Some(v as int),
            None => None,
        }
    }
}

fn digit(c: char, radix: u32) -> (r: Option<u64>)
    requires
        radix == 10 || radix == 16,
    ensures
        r matches Some(d) ==> digit_value(c, radix as nat) == Some(d as nat) && d < radix,
        r is None ==> digit_value(c, radix as nat) is None,
{
    if '0' <= c && c <= '9' && (c as u32) - ('0' as u32) < radix {
        Some(((c as u32) - ('0' as u32)) as u64)
    } else if radix == 16 && 'a' <= c && c <= 'f' {
        Some(((c as u32) - ('a' as u32) + 10) as u64)
    } else if radix == 16 && 'A' <= c && c <= 'F' {
        Some(((c as u32) - ('A' as u32) + 10) as u64)
    } else {
        None
    }
}

proof fn lemma_digits_grow(s: Seq<char>, radix: nat, n: int)
    requires
        radix >= 2,
        1 <= n <= s.len(),
        digits_value(s.take(n), radix) is Some,
    ensures
        digits_value(s.take(n - 1), radix) is Some || n == 1,
        n > 1 ==> digits_value(s.take(n), radix)->0 >= digits_value(s.take(n - 1), radix)->0,
{
    if n > 1 {
        assert(s.take(n).drop_last() =~= s.take(n - 1));
        assert(digits_value(s.take(n - 1), radix)->0 * radix >= digits_value(s.take(n - 1), radix)->0) by (nonlinear_arith)
            requires radix >= 2;
    }
}

proof fn lemma_digits_prefix_fail(s: Seq<char>, radix: nat, n: int)
    requires
        radix >= 2,
        1 <= n <= s.len(),
        digits_value(s.take(n), radix) is None,
    ensures
        digits_value(s, radix) is None,
    decreases s.len() - n,
{
    if n < s.len() {
        assert(s.take(n + 1).drop_last() =~= s.take(n));
        lemma_digits_prefix_fail(s, radix, n + 1);
    } else {
        assert(s.take(n) =~= s);
    }
}

proof fn lemma_digits_prefix_big(s: Seq<char>, radix: nat, n: int, max: nat)
    requires
        radix >= 2,
        1 <= n <= s.len(),
        digits_value(s.take(n), radix) matches Some(v) && v > max,
    ensures
        digits_value(s, radix) is None || digits_value(s, radix)->0 > max,
    decreases s.len() - n,
{
    if n < s.len() {
        assert(s.take(n + 1).drop_last() =~= s.take(n));
        if digits_value(s.take(n + 1), radix) is Some {
            let v = digits_value(s.take(n), radix)->0;
            let w = digits_value(s.take(n + 1), radix)->0;
            assert(w >= v * radix);
            assert(v * radix >= v) by (nonlinear_arith)
                requires radix >= 2;
            lemma_digits_prefix_big(s, radix, n + 1, max);
        } else {
            lemma_digits_prefix_fail(s, radix, n + 1);
        }
    } else {
        assert(s.take(n) =~= s);
    }
}

/// The digits `cs[from..]` in base `radix`, when they form a number of at
/// most `max`.
pub fn parse_digits(cs: &[char], from: usize, radix: u32, max: u64) -> (r: Option<u64>)
    requires
        radix == 10 || radix == 16,
        from <= cs@.len(),
    ensures
        r matches Some(v) ==> digits_value(cs@.skip(from as int), radix as nat) == Some(v as nat)
            && v <= max,
        r is None ==> (digits_value(cs@.skip(from as int), radix as nat) is None || digits_value(
            cs@.skip(from as int),
            radix as nat,
        )->0 > max),
{
    let ghost s = cs@.skip(from as int);
    let n = cs.len();
    if from == n {
        return None;
    }
    let mut value: u64 = 0;
    let mut i = from;
    while i < n
        invariant
            from <= i <= n,
            n == cs@.len(),
            s == cs@.skip(from as int),
            radix == 10 || radix == 16,
            i > from ==> digits_value(s.take(i - from), radix as nat) == Some(value as nat),
            value <= max,
        decreases n - i,
    {
        let d = digit(cs[i], radix);
        proof {
            assert(s.take(i - from + 1).drop_last() =~= s.take(i - from));
            assert(s.take(i - from + 1).last() == cs@[i as int]);
        }
        match d {
            None => {
                proof {
                    if i == from {
                        assert(s.take(1) =~= seq![cs@[i as int]]);
                    }
                    lemma_digits_prefix_fail(s, radix as nat, i - from + 1);
                }
                return None;
            },
            Some(dv) => {
                let next = if i == from {
                    Some(dv)
                } else {
                    match value.checked_mul(radix as u64) {
                        Some(m) => m.checked_add(dv),
                        None => None,
                    }
                };
                proof {
                    if i == from {
                        assert(s.take(1) =~= seq![cs@[i as int]]);
                    }
                }
                match next {
                    Some(nv) if nv <= max => {
                        value = nv;
                    },
                    _ => {
                        proof {
                            assert(digits_value(s.take(i - from + 1), radix as nat) is Some);
                            assert(digits_value(s.take(i - from + 1), radix as nat)->0 > max);
                            lemma_digits_prefix_big(s, radix as nat, i - from + 1, max as nat);
                        }
                        return None;
                    },
                }
            },
        }
        i += 1;
    }
    proof {
        assert(s.take(n - from) =~= s);
    }
    Some(value)
}

/// Reads an unsigned number: an optional `+`, then digits in base `radix`,
/// worth at most `max`.
pub fn parse_unsigned(cs: &[char], radix: u32, max: u64) -> (r: Option<u64>)
    requires
        radix == 10 || radix == 16,
    ensures
        r matches Some(v) ==> spec_parse_unsigned(cs@, radix as nat, max as nat) == Some(v as nat),
        r is None ==> spec_parse_unsigned(cs@, radix as nat, max as nat) is None,
{
    let from: usize = if cs.len() > 0 && cs[0] == '+' {
        1
    } else {
        0
    };
    proof {
        if from == 1 {
            assert(cs@.skip(1) =~= cs@.drop_first());
        } else {
            assert(cs@.skip(0) =~= cs@);
        }
    }
    parse_digits(cs, from, radix, max)
}

/// Reads a signed 64-bit decimal number.
pub fn parse_i64(cs: &[char]) -> (r: Option<i64>)
    ensures
        r matches Some(v) ==> spec_parse_i64(cs@) == Some(v as int),
        r is None ==> spec_parse_i64(cs@) is None,
{
    if cs.len() > 0 && cs[0] == '-' {
        proof {
            assert(cs@.skip(1) =~= cs@.drop_first());
        }
        match parse_digits(cs, 1, 10, 0x8000_0000_0000_0000) {
            Some(v) => {
                if v == 0x8000_0000_0000_0000 {
                    Some(i64::MIN)
                } else {
                    Some(-(v as i64))
                }
            },
            None => None,
        }
    } else {
        match parse_unsigned(cs, 10, 0x7fff_ffff_ffff_ffff) {
            Some(v) => Some(v as i64),
            None => None,
        }
    }
}

} // verus!
