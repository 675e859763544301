use vstd::prelude::*;

verus! {

/// Unsigned integers whose decimal digits can be edited one at a time.
pub trait Decimal: Sized + Copy {
    /// The number as a mathematical integer.
    spec fn value(self) -> nat;

    /// The largest value of the type.
    spec fn max_value() -> nat;

    /// `self * 10 + digit`, or `None` where that does not fit in the type.
    fn push_digit(self, digit: u8) -> (r: Option<Self>)
        requires
            digit < 10,
        ensures
            self.value() * 10 + digit <= Self::max_value() ==> (r matches Some(x) && x.value()
                == self.value() * 10 + digit),
            self.value() * 10 + digit > Self::max_value() ==> r is None,
    ;

    /// `self / 10`.
    fn pop_digit(self) -> (r: Self)
        ensures
            r.value() == self.value() / 10,
    ;
}

impl Decimal for u8 {
    open spec fn value(self) -> nat {
        self as nat
    }

    open spec fn max_value() -> nat {
        u8::MAX as nat
    }

    fn push_digit(self, digit: u8) -> (r: Option<u8>) {
        if self < 25 || (self == 25 && digit <= 5) {
            Some(self * 10 + digit as u8)
        } else {
            None
        }
    }

    fn pop_digit(self) -> (r: u8) {
        self / 10
    }
}

impl Decimal for u16 {
    open spec fn value(self) -> nat {
        self as nat
    }

    open spec fn max_value() -> nat {
        u16::MAX as nat
    }

    fn push_digit(self, digit: u8) -> (r: Option<u16>) {
        if self < 6553 || (self == 6553 && digit <= 5) {
            Some(self * 10 + digit as u16)
        } else {
            None
        }
    }

    fn pop_digit(self) -> (r: u16) {
        self / 10
    }
}

impl Decimal for u32 {
    open spec fn value(self) -> nat {
        self as nat
    }

    open spec fn max_value() -> nat {
        u32::MAX as nat
    }

    fn push_digit(self, digit: u8) -> (r: Option<u32>) {
        if self < 429496729 || (self == 429496729 && digit <= 5) {
            Some(self * 10 + digit as u32)
        } else {
            None
        }
    }

    fn pop_digit(self) -> (r: u32) {
        self / 10
    }
}

impl Decimal for u64 {
    open spec fn value(self) -> nat {
        self as nat
    }

    open spec fn max_value() -> nat {
        u64::MAX as nat
    }

    fn push_digit(self, digit: u8) -> (r: Option<u64>) {
        if self < 1844674407370955161 || (self == 1844674407370955161 && digit <= 5) {
            Some(self * 10 + digit as u64)
        } else {
            None
        }
    }

    fn pop_digit(self) -> (r: u64) {
        self / 10
    }
}

/// Appends the decimal `digit` to `*v`; a value that would no longer fit is left unchanged.
pub fn digit_add<T: Decimal>(v: &mut T, digit: u8)
    requires
        digit < 10,
    ensures
        old(v).value() * 10 + digit <= T::max_value() ==> final(v).value() == old(v).value() * 10
            + digit,
        old(v).value() * 10 + digit > T::max_value() ==> *final(v) == *old(v),
{
    if let Some(c) = v.push_digit(digit) {
        *v = c;
    }
}

/// Drops the last decimal digit of `*v`.
pub fn digit_remove<T: Decimal>(v: &mut T)
    ensures
        final(v).value() == old(v).value() / 10,
{
    *v = v.pop_digit();
}

/// Removing a digit just added gives the number back.
pub proof fn lemma_digit_round_trip(value: nat, digit: nat)
    requires
        digit < 10,
    ensures
        (value * 10 + digit) / 10 == value,
{
    assert((value * 10 + digit) / 10 == value) by (nonlinear_arith)
        requires
            digit < 10,
    ;
}

/// Index reached from `index` by one step in a list of `len` items,
/// wrapping at both ends; a stale index is first clamped to the last item.
pub open spec fn wrapped_index(index: int, len: int, forward: bool) -> int {
    if len <= 0 {
        0
    } else {
        let i = if index < len - 1 {
            index
        } else {
            len - 1
        };
        if forward {
            if i == len - 1 {
                0
            } else {
                i + 1
            }
        } else {
            if i == 0 {
                len - 1
            } else {
                i - 1
            }
        }
    }
}

pub fn wrap_index(index: u16, len: u16, forward: bool) -> (r: u16)
    ensures
        r == wrapped_index(index as int, len as int, forward),
        len == 0 ==> r == 0,
        len > 0 ==> r < len,
{
    if len == 0 {
        return 0;
    }
    let last = len - 1;
    let index = if index < last {
        index
    } else {
        last
    };
    if forward {
        if index == last {
            0
        } else {
            index + 1
        }
    } else {
        if index == 0 {
            last
        } else {
            index - 1
        }
    }
}

/// A step forward followed by a step back returns to the (clamped) start,
/// and the other way round.
pub proof fn lemma_wrap_round_trip(index: u16, len: u16)
    requires
        len > 0,
    ensures
        wrapped_index(wrapped_index(index as int, len as int, true), len as int, false) == if index
            < len {
            index as int
        } else {
            len - 1
        },
        wrapped_index(wrapped_index(index as int, len as int, false), len as int, true) == if index
            < len {
            index as int
        } else {
            len - 1
        },
{
}

/// The item after (or before) `current` in `items`, wrapping at both ends;
/// an item that is not listed counts as the first one.
pub open spec fn cycled<T>(items: Seq<T>, current: T, forward: bool) -> T {
    if items.len() == 0 {
        current
    } else {
        let i = if items.contains(current) {
            items.index_of_first(current)->0
        } else {
            0
        };
        let n = items.len() as int;
        if forward {
            items[(i + 1) % n]
        } else {
            items[(i + n - 1) % n]
        }
    }
}

/// The item `cycle` gives is one of the items (the current one where
/// there are none); stepping forward and then back, or back and then
/// forward, over items that are listed once each, comes back to a listed
/// current item.
pub proof fn lemma_cycled_round_trip<T>(items: Seq<T>, current: T, forward: bool)
    ensures
        items.len() > 0 ==> items.contains(cycled(items, current, forward)),
        items.len() == 0 ==> cycled(items, current, forward) == current,
        items.no_duplicates() && items.contains(current) ==> cycled(items, cycled(items, current, forward), !forward)
            == current,
{
    if items.len() > 0 {
        let n = items.len() as int;
        let i = if items.contains(current) {
            items.index_of_first(current)->0
        } else {
            0
        };
        if items.contains(current) {
            items.index_of_first_ensures(current);
        }
        let j = if forward { (i + 1) % n } else { (i + n - 1) % n };
        assert(0 <= j < n);
        assert(items.contains(items[j]));
        if items.no_duplicates() && items.contains(current) {
            let next = items[j];
            items.index_of_first_ensures(next);
            let k = items.index_of_first(next)->0;
            assert(k == j);
            if forward {
                assert((j + n - 1) % n == i) by {
                    vstd::arithmetic::div_mod::lemma_fundamental_div_mod(i + 1, n);
                    if i + 1 < n {
                        vstd::arithmetic::div_mod::lemma_small_mod((i + 1) as nat, n as nat);
                        vstd::arithmetic::div_mod::lemma_mod_add_multiples_vanish(i, n);
                        vstd::arithmetic::div_mod::lemma_small_mod(i as nat, n as nat);
                    } else {
                        vstd::arithmetic::div_mod::lemma_mod_self_0(n);
                        vstd::arithmetic::div_mod::lemma_small_mod((n - 1) as nat, n as nat);
                    }
                }
            } else {
                assert((j + 1) % n == i) by {
                    if i == 0 {
                        vstd::arithmetic::div_mod::lemma_small_mod((n - 1) as nat, n as nat);
                        vstd::arithmetic::div_mod::lemma_mod_self_0(n);
                    } else {
                        vstd::arithmetic::div_mod::lemma_mod_add_multiples_vanish(i - 1, n);
                        vstd::arithmetic::div_mod::lemma_small_mod((i - 1) as nat, n as nat);
                        vstd::arithmetic::div_mod::lemma_small_mod(i as nat, n as nat);
                    }
                }
            }
        }
    }
}

pub fn cycle<T: Copy + PartialEq>(items: &[T], current: T, forward: bool) -> (r: T)
    requires
        vstd::laws_eq::obeys_concrete_eq::<T>(),
    ensures
        r == cycled(items@, current, forward),
{
    broadcast use vstd::seq_lib::group_seq_properties;
    if items.len() == 0 {
        return current;
    }
    let n = items.len();
    let mut i: usize = 0;
    let mut found = false;
    while i < n
        invariant_except_break
            !found,
        invariant
            n == items@.len(),
            i <= n,
            vstd::laws_eq::obeys_concrete_eq::<T>(),
            forall|k: int| 0 <= k < i ==> items@[k] != current,
        ensures
            found ==> i < n && items@[i as int] == current,
            !found ==> i == n,
            forall|k: int| 0 <= k < i ==> items@[k] != current,
        decreases n - i,
    {
        proof {
            reveal(vstd::laws_eq::obeys_concrete_eq);
        }
        if items[i] == current {
            found = true;
            break;
        }
        i += 1;
    }
    proof {
        if found {
            assert(items@.contains(current));
            items@.index_of_first_ensures(current);
        } else {
            assert(!items@.contains(current));
        }
    }
    let i = if found { i } else { 0 };
    if forward {
        let j = if i + 1 == n {
            0
        } else {
            i + 1
        };
        proof {
            if i + 1 == n {
                vstd::arithmetic::div_mod::lemma_mod_self_0(n as int);
            } else {
                vstd::arithmetic::div_mod::lemma_small_mod((i + 1) as nat, n as nat);
            }
        }
        items[j]
    } else {
        let j = if i == 0 {
            n - 1
        } else {
            i - 1
        };
        proof {
            if i == 0 {
                vstd::arithmetic::div_mod::lemma_small_mod((n - 1) as nat, n as nat);
            } else {
                vstd::arithmetic::div_mod::lemma_mod_adds((i - 1) as int, n as int, n as int);
                vstd::arithmetic::div_mod::lemma_mod_self_0(n as int);
                vstd::arithmetic::div_mod::lemma_small_mod((i - 1) as nat, n as nat);
            }
        }
        items[j]
    }
}

/// Horizontal scroll position after one step of eight columns,
/// kept within `0..=max`.
pub fn step_hscroll(current: u16, max: u16, right: bool) -> (r: u16)
    ensures
        r <= max,
        r == if right {
            vstd::math::min(
                vstd::math::min(current as int, max as int) + 8,
                max as int,
            )
        } else {
            vstd::math::max(vstd::math::min(current as int, max as int) - 8, 0)
        },
{
    let current = if current < max {
        current
    } else {
        max
    };
    if right {
        if current as u32 + 8 < max as u32 {
            current + 8
        } else {
            max
        }
    } else {
        if current >= 8 {
            current - 8
        } else {
            0
        }
    }
}

} // verus!
