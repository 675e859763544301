use vstd::prelude::*;
use crate::config::registers::cell_key;
use crate::register::{same_cell, RegisterCell, RegisterType};
use crate::text::{push_decimal, push_str};

verus! {

broadcast use vstd::seq_lib::group_to_multiset_ensures;

/// The cells are in register order: by type, then by address.
pub open spec fn cells_sorted(s: Seq<RegisterCell>) -> bool {
    forall|i: int, j: int| 0 <= i < j < s.len() ==> cell_key(#[trigger] s[i]) <= cell_key(#[trigger] s[j])
}

/// The cells are in register order, each once.
pub open spec fn cells_strictly_sorted(s: Seq<RegisterCell>) -> bool {
    forall|i: int, j: int| 0 <= i < j < s.len() ==> cell_key(#[trigger] s[i]) < cell_key(#[trigger] s[j])
}

fn key_of(c: RegisterCell) -> (r: u32)
    ensures
        r == cell_key(c),
{
    let rank: u32 = match c.0 {
        RegisterType::Holding => 0,
        RegisterType::Input => 1,
        RegisterType::Coil => 2,
        RegisterType::Discrete => 3,
    };
    rank * 0x1_0000 + c.1 as u32
}

/// Puts the cells in register order, keeping each as often as it occurs.
pub fn sort_cells(v: &mut Vec<RegisterCell>)
    ensures
        cells_sorted(final(v)@),
        final(v)@.to_multiset() == old(v)@.to_multiset(),
{
    let mut out: Vec<RegisterCell> = Vec::new();
    let n = v.len();
    let mut i: usize = 0;
    while i < n
        invariant
            i <= n,
            n == v@.len(),
            v@ == old(v)@,
            cells_sorted(out@),
            out@.to_multiset() == v@.take(i as int).to_multiset(),
        decreases n - i,
    {
        let x = v[i];
        let kx = key_of(x);
        let mut j: usize = 0;
        while j < out.len() && key_of(out[j]) <= kx
            invariant
                j <= out@.len(),
                kx == cell_key(x),
                forall|k: int| 0 <= k < j ==> cell_key(#[trigger] out@[k]) <= kx,
            decreases out@.len() - j,
        {
            j += 1;
        }
        let ghost before = out@;
        out.insert(j, x);
        proof {
            assert(out@ == before.insert(j as int, x));
            assert forall|a: int, b: int| 0 <= a < b < out@.len() implies cell_key(#[trigger] out@[a]) <= cell_key(
                #[trigger] out@[b],
            ) by {
                if b < j {
                    assert(out@[a] == before[a] && out@[b] == before[b]);
                } else if b == j {
                    assert(out@[a] == before[a]);
                } else if a == j {
                    assert(out@[b] == before[b - 1]);
                    assert(cell_key(before[j as int]) > kx);
                    if b - 1 > j {
                        assert(cell_key(before[j as int]) <= cell_key(before[b - 1]));
                    }
                } else if a < j {
                    assert(out@[a] == before[a] && out@[b] == before[b - 1]);
                } else {
                    assert(out@[a] == before[a - 1] && out@[b] == before[b - 1]);
                }
            }
            vstd::seq_lib::to_multiset_insert(before, j as int, x);
            assert(v@.take(i + 1) == v@.take(i as int).push(x));
            vstd::seq_lib::to_multiset_build(v@.take(i as int), x);
        }
        i += 1;
    }
    proof {
        assert(v@.take(n as int) == v@);
    }
    *v = out;
}

/// Whether `cell` is in `cells`.
pub fn contains_cell(cells: &[RegisterCell], cell: RegisterCell) -> (r: Option<usize>)
    ensures
        r matches Some(i) ==> i < cells@.len() && cells@[i as int] == cell && forall|k: int|
            0 <= k < i ==> cells@[k] != cell,
        r is None ==> !cells@.contains(cell),
{
    let mut i: usize = 0;
    while i < cells.len()
        invariant
            i <= cells@.len(),
            forall|k: int| 0 <= k < i ==> cells@[k] != cell,
        decreases cells@.len() - i,
    {
        if same_cell(cells[i], cell) {
            return Some(i);
        }
        i += 1;
    }
    None
}

/// Drops every cell equal to the one before it.
pub fn dedup_cells(v: &mut Vec<RegisterCell>)
    requires
        cells_sorted(old(v)@),
    ensures
        cells_strictly_sorted(final(v)@),
        forall|c: RegisterCell| final(v)@.contains(c) <==> old(v)@.contains(c),
{
    let mut out: Vec<RegisterCell> = Vec::new();
    let n = v.len();
    let mut i: usize = 0;
    while i < n
        invariant
            i <= n,
            n == v@.len(),
            v@ == old(v)@,
            cells_sorted(v@),
            cells_strictly_sorted(out@),
            forall|c: RegisterCell| out@.contains(c) <==> v@.take(i as int).contains(c),
            i > 0 ==> out@.len() > 0 && out@.last() == v@[i - 1],
            out@.len() <= i,
        decreases n - i,
    {
        let x = v[i];
        let ghost before = out@;
        let ghost prefix = v@.take(i as int);
        let ghost next = v@.take(i + 1);
        assert(next == prefix.push(x));
        if out.len() == 0 || !same_cell(out[out.len() - 1], x) {
            out.push(x);
            proof {
                assert(out@ == before.push(x));
                if i > 0 {
                    assert(before[before.len() - 1] == v@[i - 1]);
                    assert(v@[i - 1] != x);
                    assert(cell_key(v@[i - 1]) <= cell_key(v@[i as int]));
                    if cell_key(v@[i - 1]) == cell_key(x) {
                        crate::config::registers::lemma_cell_key_injective(v@[i - 1], x);
                    }
                    assert(cell_key(before[before.len() - 1]) < cell_key(x));
                }
                assert forall|a: int, b: int| 0 <= a < b < out@.len() implies cell_key(#[trigger] out@[a]) < cell_key(
                    #[trigger] out@[b],
                ) by {
                    if b == out@.len() - 1 {
                        assert(out@[a] == before[a]);
                        assert(out@[b] == x);
                        if a < before.len() - 1 {
                            assert(cell_key(before[a]) < cell_key(before[before.len() - 1]));
                        }
                    } else {
                        assert(out@[a] == before[a] && out@[b] == before[b]);
                    }
                }
                assert forall|c: RegisterCell| out@.contains(c) <==> next.contains(c) by {
                    if out@.contains(c) && c != x {
                        let k = choose|k: int| 0 <= k < out@.len() && out@[k] == c;
                        assert(before[k] == c);
                        assert(before.contains(c));
                        let m = choose|m: int| 0 <= m < prefix.len() && prefix[m] == c;
                        assert(next[m] == c);
                    }
                    if next.contains(c) && c != x {
                        let m = choose|m: int| 0 <= m < i + 1 && next[m] == c;
                        assert(prefix[m] == c);
                        assert(prefix.contains(c));
                        assert(before.contains(c));
                        let k = choose|k: int| 0 <= k < before.len() && before[k] == c;
                        assert(out@[k] == before[k]);
                    }
                    if c == x {
                        assert(out@[out@.len() - 1] == x);
                        assert(next[i as int] == x);
                    }
                }
            }
        } else {
            proof {
                assert forall|c: RegisterCell| out@.contains(c) <==> next.contains(c) by {
                    if next.contains(c) {
                        let m = choose|m: int| 0 <= m < i + 1 && next[m] == c;
                        if m < i {
                            assert(prefix[m] == c);
                            assert(prefix.contains(c));
                        } else {
                            assert(out@[out@.len() - 1] == c);
                        }
                    }
                    if out@.contains(c) {
                        assert(prefix.contains(c));
                        let m = choose|m: int| 0 <= m < prefix.len() && prefix[m] == c;
                        assert(next[m] == c);
                    }
                }
            }
        }
        i += 1;
    }
    proof {
        assert(v@.take(n as int) == v@);
    }
    *v = out;
}

/// Pins `cell`, or unpins it where it is pinned (its first occurrence),
/// then puts the pins in register order. Tells whether it pinned.
pub fn toggle_pin(pins: &mut Vec<RegisterCell>, cell: RegisterCell) -> (pinned: bool)
    ensures
        pinned == !old(pins)@.contains(cell),
        cells_sorted(final(pins)@),
        final(pins)@.to_multiset() == (if pinned {
            old(pins)@.to_multiset().insert(cell)
        } else {
            old(pins)@.to_multiset().remove(cell)
        }),
{
    let pinned = match contains_cell(pins.as_slice(), cell) {
        Some(i) => {
            let ghost before = pins@;
            pins.remove(i);
            proof {
                vstd::seq_lib::to_multiset_remove(before, i as int);
            }
            false
        },
        None => {
            let ghost before = pins@;
            pins.push(cell);
            proof {
                vstd::seq_lib::to_multiset_build(before, cell);
            }
            true
        },
    };
    sort_cells(pins);
    pinned
}

/// Adds the cells of `incoming` that are not pinned yet, then keeps every
/// pin once, in register order.
pub fn merge_pins(pins: &mut Vec<RegisterCell>, incoming: &[RegisterCell])
    ensures
        cells_strictly_sorted(final(pins)@),
        forall|c: RegisterCell| final(pins)@.contains(c) <==> (old(pins)@.contains(c) || incoming@.contains(c)),
{
    let ghost orig = pins@;
    let mut i: usize = 0;
    while i < incoming.len()
        invariant
            i <= incoming@.len(),
            forall|c: RegisterCell|
                #![trigger pins@.contains(c)]
                #![trigger incoming@.take(i as int).contains(c)]
                pins@.contains(c) <==> (orig.contains(c) || incoming@.take(i as int).contains(c)),
        decreases incoming@.len() - i,
    {
        let cell = incoming[i];
        let ghost before = pins@;
        let ghost next = incoming@.take(i + 1);
        let ghost prefix = incoming@.take(i as int);
        assert(next == prefix.push(cell));
        let found = contains_cell(pins.as_slice(), cell);
        if found.is_none() {
            pins.push(cell);
            assert(pins@ == before.push(cell));
        } else {
            assert(before.contains(cell));
            assert(pins@ == before);
        }
        proof {
            assert forall|c: RegisterCell|
                pins@.contains(c) <==> (orig.contains(c) || next.contains(c)) by {
                if pins@.contains(c) && c != cell {
                    let k = choose|k: int| 0 <= k < pins@.len() && pins@[k] == c;
                    assert(before[k] == c);
                    assert(before.contains(c));
                }
                if before.contains(c) {
                    let k = choose|k: int| 0 <= k < before.len() && before[k] == c;
                    assert(pins@[k] == c);
                }
                if c == cell && !before.contains(c) {
                    assert(pins@[pins@.len() - 1] == c);
                }
                if next.contains(c) && c != cell {
                    let m = choose|m: int| 0 <= m < i + 1 && next[m] == c;
                    assert(prefix[m] == c);
                    assert(prefix.contains(c));
                    assert(before.contains(c));
                }
                if prefix.contains(c) {
                    let m = choose|m: int| 0 <= m < i && prefix[m] == c;
                    assert(next[m] == c);
                }
                if c == cell {
                    assert(next[i as int] == c);
                }
            }
        }
        i += 1;
    }
    let ghost all = incoming@.take(incoming@.len() as int);
    assert(all == incoming@);
    let ghost merged = pins@;
    sort_cells(pins);
    let ghost sorted = pins@;
    proof {
        assert forall|c: RegisterCell| sorted.contains(c) <==> merged.contains(c) by {
            assert(sorted.to_multiset().count(c) == merged.to_multiset().count(c));
        }
    }
    dedup_cells(pins);
    proof {
        assert forall|c: RegisterCell| pins@.contains(c) <==> (old(pins)@.contains(c) || incoming@.contains(c)) by {
            assert(pins@.contains(c) <==> sorted.contains(c));
            assert(sorted.contains(c) <==> merged.contains(c));
            assert(merged.contains(c) <==> (orig.contains(c) || all.contains(c)));
        }
    }
}

proof fn lemma_sorted_cells_unique(a: Seq<RegisterCell>, b: Seq<RegisterCell>)
    requires
        cells_sorted(a),
        cells_sorted(b),
        a.to_multiset() == b.to_multiset(),
    ensures
        a == b,
    decreases a.len(),
{
    broadcast use vstd::multiset::group_multiset_axioms;
    if a.len() == 0 {
        if b.len() > 0 {
            assert(b.to_multiset().count(b[0]) > 0);
        }
        assert(a =~= b);
    } else {
        assert(a.to_multiset().count(a[0]) > 0);
        assert(b.contains(a[0]));
        assert(a.to_multiset().len() == b.to_multiset().len());
        assert(b.len() > 0);
        assert(b.to_multiset().count(b[0]) > 0);
        assert(a.contains(b[0]));
        let i = choose|i: int| 0 <= i < a.len() && a[i] == b[0];
        let j = choose|j: int| 0 <= j < b.len() && b[j] == a[0];
        assert(cell_key(a[0]) <= cell_key(a[i]));
        assert(cell_key(b[0]) <= cell_key(b[j]));
        crate::config::registers::lemma_cell_key_injective(a[0], b[0]);
        let a1 = a.drop_first();
        let b1 = b.drop_first();
        assert(a == seq![a[0]] + a1);
        assert(b == seq![b[0]] + b1);
        vstd::seq_lib::to_multiset_remove(a, 0);
        vstd::seq_lib::to_multiset_remove(b, 0);
        assert(a.remove(0) == a1);
        assert(b.remove(0) == b1);
        assert forall|x: int, y: int| 0 <= x < y < a1.len() implies cell_key(#[trigger] a1[x]) <= cell_key(#[trigger] a1[y]) by {
            assert(a1[x] == a[x + 1] && a1[y] == a[y + 1]);
        }
        assert forall|x: int, y: int| 0 <= x < y < b1.len() implies cell_key(#[trigger] b1[x]) <= cell_key(#[trigger] b1[y]) by {
            assert(b1[x] == b[x + 1] && b1[y] == b[y + 1]);
        }
        lemma_sorted_cells_unique(a1, b1);
    }
}

/// Pinning a register twice gives back the pins in register order: where
/// the register is pinned at most once, toggling it on and off (or off and
/// on) leaves the same pins.
pub proof fn lemma_toggle_pin_twice(p0: Seq<RegisterCell>, p1: Seq<RegisterCell>, p2: Seq<RegisterCell>, cell: RegisterCell)
    requires
        cells_sorted(p0),
        p0.to_multiset().count(cell) <= 1,
        cells_sorted(p2),
        p1.to_multiset() == (if !p0.contains(cell) {
            p0.to_multiset().insert(cell)
        } else {
            p0.to_multiset().remove(cell)
        }),
        p2.to_multiset() == (if !p1.contains(cell) {
            p1.to_multiset().insert(cell)
        } else {
            p1.to_multiset().remove(cell)
        }),
    ensures
        p2 == p0,
{
    broadcast use vstd::multiset::group_multiset_axioms;
    assert(p2.to_multiset() =~= p0.to_multiset());
    lemma_sorted_cells_unique(p2, p0);
}

/// The status line after pinning or unpinning `cell`.
pub open spec fn pin_text(pinned: bool, cell: RegisterCell) -> Seq<char> {
    (if pinned {
        "Pinned "@
    } else {
        "Unpinned "@
    }) + crate::register::spec_type_name(cell.0) + " @"@ + crate::text::dec(cell.1 as nat)
}

/// Writes the status line after pinning or unpinning `cell`.
pub fn pin_status(pinned: bool, cell: RegisterCell) -> (r: String)
    ensures
        r@ == pin_text(pinned, cell),
{
    let mut s = String::new();
    if pinned {
        push_str(&mut s, "Pinned ");
    } else {
        push_str(&mut s, "Unpinned ");
    }
    push_str(&mut s, cell.0.name());
    push_str(&mut s, " @");
    push_decimal(&mut s, cell.1 as u64);
    s
}

} // verus!
