use vstd::prelude::*;
use crate::config::registers::cell_key;
use crate::register::{RegisterCell, RegisterType};
use crate::state::LabelParams;
use crate::text::{pop_char, push_char};

verus! {

/// The entry a list keyed by register gives `c`: its last one there.
pub open spec fn entry_at<V>(s: Seq<(RegisterCell, V)>, c: RegisterCell) -> Option<V>
    decreases s.len(),
{
    if s.len() == 0 {
        None
    } else if s.last().0 == c {
        Some(s.last().1)
    } else {
        entry_at(s.drop_last(), c)
    }
}

/// The list holds each register once, in register order.
pub open spec fn keyed_sorted<V>(s: Seq<(RegisterCell, V)>) -> bool {
    forall|i: int, j: int| 0 <= i < j < s.len() ==> cell_key((#[trigger] s[i]).0) < cell_key((#[trigger] s[j]).0)
}

proof fn lemma_entry_at_listed<V>(s: Seq<(RegisterCell, V)>, c: RegisterCell, v: V)
    requires
        keyed_sorted(s),
    ensures
        entry_at(s, c) == Some(v) <==> s.contains((c, v)),
    decreases s.len(),
{
    if s.len() > 0 {
        let rest = s.drop_last();
        assert forall|i: int, j: int| 0 <= i < j < rest.len() implies cell_key((#[trigger] rest[i]).0) < cell_key(
            (#[trigger] rest[j]).0,
        ) by {
            assert(rest[i] == s[i] && rest[j] == s[j]);
        }
        lemma_entry_at_listed(rest, c, v);
        assert(s == rest.push(s.last()));
        if s.contains((c, v)) {
            let k = choose|k: int| 0 <= k < s.len() && s[k] == (c, v);
            if k < rest.len() {
                assert(rest[k] == (c, v));
                if s.last().0 == c {
                    assert(cell_key(s[k].0) < cell_key(s[s.len() - 1].0));
                }
            }
        }
        if rest.contains((c, v)) {
            let k = choose|k: int| 0 <= k < rest.len() && rest[k] == (c, v);
            assert(s[k] == (c, v));
        }
        if s.last().0 == c && s.last().1 == v {
            assert(s[s.len() - 1] == (c, v));
        }
    }
}

proof fn lemma_entry_at_same<V>(s1: Seq<(RegisterCell, V)>, s2: Seq<(RegisterCell, V)>, c: RegisterCell)
    requires
        keyed_sorted(s1),
        keyed_sorted(s2),
        forall|v: V| s1.contains((c, v)) <==> s2.contains((c, v)),
    ensures
        entry_at(s1, c) == entry_at(s2, c),
{
    if let Some(v) = entry_at(s1, c) {
        lemma_entry_at_listed(s1, c, v);
        lemma_entry_at_listed(s2, c, v);
    } else if let Some(v) = entry_at(s2, c) {
        lemma_entry_at_listed(s1, c, v);
        lemma_entry_at_listed(s2, c, v);
    }
}

/// The entry a list in register order gives the register at index `i` is
/// the one there.
pub proof fn lemma_entry_at_found<V>(s: Seq<(RegisterCell, V)>, c: RegisterCell, i: int)
    requires
        keyed_sorted(s),
        0 <= i < s.len(),
        s[i].0 == c,
    ensures
        entry_at(s, c) == Some(s[i].1),
{
    assert(s[i] == (c, s[i].1));
    lemma_entry_at_listed(s, c, s[i].1);
}

/// A register a list in register order does not hold has no entry.
pub proof fn lemma_entry_at_missing<V>(s: Seq<(RegisterCell, V)>, c: RegisterCell)
    requires
        keyed_sorted(s),
        forall|k: int| 0 <= k < s.len() ==> cell_key((#[trigger] s[k]).0) != cell_key(c),
    ensures
        entry_at(s, c) is None,
{
    if let Some(v) = entry_at(s, c) {
        lemma_entry_at_listed(s, c, v);
        let k = choose|k: int| 0 <= k < s.len() && s[k] == (c, v);
        assert(cell_key(s[k].0) != cell_key(c));
    }
}

fn key_of(c: RegisterCell) -> (r: u32)
    ensures
        r == cell_key(c),
{
    let rank: u32 = match c.0 {
        RegisterType::Holding => 0,
        RegisterType::Input => 1,
        RegisterType::Coil => 2,
        RegisterType::Discrete => 3,
    };
    rank * 0x1_0000 + c.1 as u32
}

/// Where `c` is in a list in register order: `Ok` with its index, or `Err`
/// with the index it would take.
pub fn find_cell<V>(s: &[(RegisterCell, V)], c: RegisterCell) -> (r: Result<usize, usize>)
    requires
        keyed_sorted(s@),
    ensures
        r matches Ok(i) ==> i < s@.len() && s@[i as int].0 == c,
        r matches Err(i) ==> i <= s@.len() && (forall|k: int| 0 <= k < i ==> cell_key((#[trigger] s@[k]).0) < cell_key(c))
            && (forall|k: int| i <= k < s@.len() ==> cell_key((#[trigger] s@[k]).0) > cell_key(c)),
{
    let kc = key_of(c);
    let mut i: usize = 0;
    while i < s.len()
        invariant
            i <= s@.len(),
            kc == cell_key(c),
            keyed_sorted(s@),
            forall|k: int| 0 <= k < i ==> cell_key((#[trigger] s@[k]).0) < kc,
        decreases s@.len() - i,
    {
        let k = key_of(s[i].0);
        if k == kc {
            proof {
                crate::config::registers::lemma_cell_key_injective(s@[i as int].0, c);
            }
            return Ok(i);
        }
        if k > kc {
            assert forall|m: int| i <= m < s@.len() implies cell_key((#[trigger] s@[m]).0) > cell_key(c) by {
                if m > i {
                    assert(cell_key(s@[i as int].0) < cell_key(s@[m].0));
                }
            }
            return Err(i);
        }
        i += 1;
    }
    Err(i)
}

/// Sets the entry of `c`, or removes it for `None`, keeping the list in
/// register order; the other registers keep theirs.
pub fn set_entry<V>(s: &mut Vec<(RegisterCell, V)>, c: RegisterCell, v: Option<V>)
    requires
        keyed_sorted(old(s)@),
    ensures
        keyed_sorted(final(s)@),
        forall|d: RegisterCell| #[trigger] entry_at(final(s)@, d) == (if d == c {
            v
        } else {
            entry_at(old(s)@, d)
        }),
{
    let ghost s0 = s@;
    let ghost mut at: int = 0;
    let ghost mut found: bool = false;
    match find_cell(s.as_slice(), c) {
        Ok(i) => {
            let ghost w = v;
            match v {
                Some(x) => {
                    s.set(i, (c, x));
                },
                None => {
                    s.remove(i);
                },
            }
            proof {
                at = i as int;
                found = true;
                assert(set_shape(s0, s@, c, w, at, found));
            }
        },
        Err(i) => {
            let ghost w = v;
            proof {
                assert forall|k: int| 0 <= k < s0.len() implies (#[trigger] s0[k]).0 != c by {
                    if k < i {
                        assert(cell_key(s0[k].0) < cell_key(c));
                    } else {
                        assert(cell_key(s0[k].0) > cell_key(c));
                    }
                }
            }
            match v {
                Some(x) => {
                    s.insert(i, (c, x));
                },
                None => {},
            }
            proof {
                at = i as int;
                found = false;
                assert(set_shape(s0, s@, c, w, at, found));
            }
        },
    }
    proof {
        let s1 = s@;
        assert(set_shape(s0, s1, c, v, at, found));
        assert forall|a: int, b: int| 0 <= a < b < s1.len() implies cell_key((#[trigger] s1[a]).0) < cell_key(
            (#[trigger] s1[b]).0,
        ) by {
            lemma_set_entry_shape(s0, s1, c, v, at, found, a, b);
        }
        assert forall|d: RegisterCell| #[trigger] entry_at(s1, d) == (if d == c {
            v
        } else {
            entry_at(s0, d)
        }) by {
            lemma_set_entry_contains(s0, s1, c, v, at, found, d);
            if d == c {
                match v {
                    Some(x) => {
                        lemma_entry_at_listed(s1, c, x);
                        if let Some(y) = entry_at(s1, c) {
                            lemma_entry_at_listed(s1, c, y);
                        }
                    },
                    None => {
                        if let Some(y) = entry_at(s1, c) {
                            lemma_entry_at_listed(s1, c, y);
                        }
                    },
                }
            } else {
                lemma_entry_at_same(s1, s0, d);
            }
        }
    }
}

/// The list after setting the entry of `c`, found at `i` or to be put at
/// `i`: how it stands to the one before.
pub open spec fn set_shape<V>(
    s0: Seq<(RegisterCell, V)>,
    s1: Seq<(RegisterCell, V)>,
    c: RegisterCell,
    v: Option<V>,
    i: int,
    found: bool,
) -> bool {
    if found {
        &&& 0 <= i < s0.len()
        &&& s0[i].0 == c
        &&& match v {
            Some(x) => s1 == s0.update(i, (c, x)),
            None => s1 == s0.remove(i),
        }
    } else {
        &&& forall|k: int| 0 <= k < s0.len() ==> (#[trigger] s0[k]).0 != c
        &&& 0 <= i <= s0.len()
        &&& forall|k: int| 0 <= k < i ==> cell_key((#[trigger] s0[k]).0) < cell_key(c)
        &&& forall|k: int| i <= k < s0.len() ==> cell_key((#[trigger] s0[k]).0) > cell_key(c)
        &&& match v {
            Some(x) => s1 == s0.insert(i, (c, x)),
            None => s1 == s0,
        }
    }
}

proof fn lemma_set_entry_shape<V>(
    s0: Seq<(RegisterCell, V)>,
    s1: Seq<(RegisterCell, V)>,
    c: RegisterCell,
    v: Option<V>,
    i: int,
    found: bool,
    a: int,
    b: int,
)
    requires
        keyed_sorted(s0),
        set_shape(s0, s1, c, v, i, found),
        0 <= a < b < s1.len(),
    ensures
        cell_key(s1[a].0) < cell_key(s1[b].0),
{
    if found {
        match v {
            Some(x) => {
                assert(s1[a].0 == s0[a].0 && s1[b].0 == s0[b].0);
            },
            None => {
                let a0 = if a < i { a } else { a + 1 };
                let b0 = if b < i { b } else { b + 1 };
                assert(s1[a] == s0[a0] && s1[b] == s0[b0]);
            },
        }
    } else {
        match v {
            Some(x) => {
                if b < i {
                    assert(s1[a] == s0[a] && s1[b] == s0[b]);
                } else if b == i {
                    assert(s1[a] == s0[a]);
                } else if a == i {
                    assert(s1[b] == s0[b - 1]);
                } else if a < i {
                    assert(s1[a] == s0[a] && s1[b] == s0[b - 1]);
                } else {
                    assert(s1[a] == s0[a - 1] && s1[b] == s0[b - 1]);
                }
            },
            None => {},
        }
    }
}

proof fn lemma_set_entry_contains<V>(
    s0: Seq<(RegisterCell, V)>,
    s1: Seq<(RegisterCell, V)>,
    c: RegisterCell,
    v: Option<V>,
    i: int,
    found: bool,
    d: RegisterCell,
)
    requires
        keyed_sorted(s0),
        set_shape(s0, s1, c, v, i, found),
    ensures
        d != c ==> forall|x: V| s1.contains((d, x)) <==> s0.contains((d, x)),
        d == c ==> forall|x: V| s1.contains((d, x)) <==> v == Some(x),
{
    assert forall|x: V| s1.contains((d, x)) <==> (if d == c {
        v == Some(x)
    } else {
        s0.contains((d, x))
    }) by {
        if found {
            if s1.contains((d, x)) {
                let k = choose|k: int| 0 <= k < s1.len() && s1[k] == (d, x);
                match v {
                    Some(y) => {
                        if k != i {
                            assert(s0[k] == (d, x));
                            assert(s0.contains((d, x)));
                            if d == c {
                                assert(cell_key(s0[k].0) != cell_key(s0[i].0));
                            }
                        }
                    },
                    None => {
                        let k0 = if k < i { k } else { k + 1 };
                        assert(s0[k0] == (d, x));
                        assert(s0.contains((d, x)));
                        if d == c {
                            assert(cell_key(s0[k0].0) != cell_key(s0[i].0));
                        }
                    },
                }
            }
            if d == c && v == Some(x) {
                assert(s1[i] == (c, x));
            }
            if d != c && s0.contains((d, x)) {
                let k = choose|k: int| 0 <= k < s0.len() && s0[k] == (d, x);
                assert(k != i);
                match v {
                    Some(y) => {
                        assert(s1[k] == (d, x));
                    },
                    None => {
                        let k1 = if k < i { k } else { k - 1 };
                        assert(s1[k1] == (d, x));
                    },
                }
            }
        } else {
            if s0.contains((d, x)) {
                let k = choose|k: int| 0 <= k < s0.len() && s0[k] == (d, x);
                assert(s0[k].0 != c);
                match v {
                    Some(y) => {
                        let k1 = if k < i { k } else { k + 1 };
                        assert(s1[k1] == (d, x));
                    },
                    None => {},
                }
            }
            if s1.contains((d, x)) {
                let k = choose|k: int| 0 <= k < s1.len() && s1[k] == (d, x);
                match v {
                    Some(y) => {
                        if k != i {
                            let k0 = if k < i { k } else { k - 1 };
                            assert(s0[k0] == (d, x));
                            assert(s0.contains((d, x)));
                        }
                    },
                    None => {
                        assert(s0[k] == (d, x));
                    },
                }
            }
            if d == c && v == Some(x) {
                assert(s1[i] == (c, x));
            }
        }
    }
}

/// The label of `c` in labels kept in register order, or an empty text.
pub fn label_text_for(labels: &[(RegisterCell, String)], c: RegisterCell) -> (r: String)
    requires
        keyed_sorted(labels@),
    ensures
        r@ == (match entry_at(labels@, c) {
            Some(t) => t@,
            None => Seq::empty(),
        }),
{
    match find_cell(labels, c) {
        Ok(i) => {
            proof {
                lemma_entry_at_listed(labels@, c, labels@[i as int].1);
                assert(labels@[i as int] == (c, labels@[i as int].1));
            }
            labels[i].1.clone()
        },
        Err(i) => {
            proof {
                if let Some(t) = entry_at(labels@, c) {
                    lemma_entry_at_listed(labels@, c, t);
                    let k = choose|k: int| 0 <= k < labels@.len() && labels@[k] == (c, t);
                }
            }
            String::new()
        },
    }
}

impl LabelParams {
    /// The label popup on `c`, with its current label.
    pub fn open(labels: &[(RegisterCell, String)], c: RegisterCell) -> (r: LabelParams)
        requires
            keyed_sorted(labels@),
        ensures
            r.register_type == c.0 && r.position == c.1,
            r.text@ == (match entry_at(labels@, c) {
                Some(t) => t@,
                None => Seq::empty(),
            }),
    {
        LabelParams { position: c.1, register_type: c.0, text: label_text_for(labels, c) }
    }

    /// Types a character.
    pub fn type_char(&mut self, ch: char)
        ensures
            final(self).text@ == old(self).text@.push(ch),
            final(self).position == old(self).position && final(self).register_type == old(self).register_type,
    {
        push_char(&mut self.text, ch);
    }

    /// Deletes the last character.
    pub fn backspace(&mut self)
        ensures
            final(self).text@ == (if old(self).text@.len() == 0 {
                old(self).text@
            } else {
                old(self).text@.drop_last()
            }),
            final(self).position == old(self).position && final(self).register_type == old(self).register_type,
    {
        pop_char(&mut self.text);
    }

    /// Saves the label into `labels`: an empty text removes the register's
    /// label, any other sets it.
    pub fn commit(self, labels: &mut Vec<(RegisterCell, String)>)
        requires
            keyed_sorted(old(labels)@),
        ensures
            keyed_sorted(final(labels)@),
            forall|d: RegisterCell| #[trigger] entry_at(final(labels)@, d) == (if d == (self.register_type, self.position) {
                if self.text@.len() == 0 {
                    None
                } else {
                    Some(self.text)
                }
            } else {
                entry_at(old(labels)@, d)
            }),
    {
        let cell = (self.register_type, self.position);
        let empty = self.text.as_str().unicode_len() == 0;
        let v = if empty {
            None
        } else {
            Some(self.text)
        };
        set_entry(labels, cell, v);
    }
}

} // verus!
