use vstd::prelude::*;
use crate::app::label::{entry_at, find_cell, keyed_sorted, lemma_entry_at_found, lemma_entry_at_missing, set_entry};
use crate::custom::{clone_entries, copy_items, CustomRepr, CustomRule, CustomRuleView};
use crate::parse::{parse_unsigned, spec_parse_unsigned};
use crate::register::RegisterCell;
use crate::state::{CustomParams, CustomParamsView};
use crate::text::{dec, push_char, push_decimal, push_str, trim, trimmed_chars};

verus! {

/// The decimals the editor's text gives: none for a blank text, else the
/// number it writes (at most 10); an error for anything else.
pub open spec fn spec_decimals(text: Seq<char>) -> Result<Option<u8>, Seq<char>> {
    let t = trim(text);
    if t.len() == 0 {
        Ok(None)
    } else {
        match spec_parse_unsigned(t, 10, 255) {
            Some(v) => Ok(Some(vstd::math::min(v as int, 10) as u8)),
            None => Err("decimals: invalid"@),
        }
    }
}

/// The rule the editor `c` describes, with `decimals` for its decimals.
pub open spec fn rule_of_editor(c: CustomParamsView, decimals: Option<u8>) -> CustomRuleView {
    CustomRuleView {
        address: c.address,
        repr: c.repr,
        ops: c.ops,
        enum_map: c.enum_map,
        bits: c.bits,
        next: c.next,
        decimals: decimals,
        prefix: c.prefix,
        suffix: c.suffix,
        word_order: c.word_order,
    }
}

/// The custom rule the editor describes, at the register it edits; an
/// error where its decimals are not a number.
pub fn build_custom_rule(c: &CustomParams) -> (r: Result<(RegisterCell, CustomRule), String>)
    ensures
        match spec_decimals(c@.decimals) {
            Ok(d) => r matches Ok(x) && x.0 == (c.register_type, c.address) && x.1@ == rule_of_editor(c@, d),
            Err(e) => r matches Err(t) && t@ == e,
        },
{
    let t = trimmed_chars(c.decimals.as_str());
    let decimals = if t.len() == 0 {
        None
    } else {
        match parse_unsigned(t.as_slice(), 10, 255) {
            Some(v) => Some(if v > 10 {
                10u8
            } else {
                v as u8
            }),
            None => {
                let mut e = String::new();
                push_str(&mut e, "decimals: invalid");
                return Err(e);
            },
        }
    };
    let rule = CustomRule {
        address: c.address,
        repr: c.repr,
        ops: copy_items(&c.ops),
        enum_map: clone_entries(&c.enum_map),
        bits: clone_entries(&c.bits),
        next: copy_items(&c.next),
        decimals,
        prefix: c.prefix.clone(),
        suffix: c.suffix.clone(),
        word_order: c.word_order,
    };
    Ok(((c.register_type, c.address), rule))
}

/// The editor opened on the register `cell`: filled from its rule in
/// `rules` where it has one (its decimals as text), else blank.
pub open spec fn editor_for(cell: RegisterCell, rule: Option<CustomRuleView>) -> CustomParamsView {
    let blank = CustomParamsView {
        address: cell.1,
        register_type: cell.0,
        repr: CustomRepr::U16,
        word_order: None,
        next: seq![],
        ops: seq![],
        enum_map: seq![],
        bits: seq![],
        decimals: seq![],
        prefix: seq![],
        suffix: seq![],
        op_buffer: seq![],
        enum_buffer: seq![],
        bit_buffer: seq![],
        next_buffer: seq![],
        selected: 0,
        existed: false,
        error: None,
    };
    match rule {
        Some(r) => CustomParamsView {
            repr: r.repr,
            word_order: r.word_order,
            next: r.next,
            ops: r.ops,
            enum_map: r.enum_map,
            bits: r.bits,
            decimals: match r.decimals {
                Some(d) => dec(d as nat),
                None => seq![],
            },
            prefix: r.prefix,
            suffix: r.suffix,
            existed: true,
            ..blank
        },
        None => blank,
    }
}

impl CustomParams {
    /// The rule editor on the register `cell`, with `rules` kept in
    /// register order.
    pub fn open(rules: &[(RegisterCell, CustomRule)], cell: RegisterCell) -> (r: CustomParams)
        requires
            keyed_sorted(rules@),
        ensures
            r@ == editor_for(
                cell,
                match entry_at(rules@, cell) {
                    Some(rule) => Some(rule@),
                    None => None,
                },
            ),
    {
        let mut p = CustomParams {
            address: cell.1,
            register_type: cell.0,
            repr: CustomRepr::U16,
            word_order: None,
            next: Vec::new(),
            ops: Vec::new(),
            enum_map: Vec::new(),
            bits: Vec::new(),
            decimals: String::new(),
            prefix: String::new(),
            suffix: String::new(),
            op_buffer: String::new(),
            enum_buffer: String::new(),
            bit_buffer: String::new(),
            next_buffer: String::new(),
            selected: 0,
            existed: false,
            error: None,
        };
        match find_cell(rules, cell) {
            Ok(i) => {
                proof {
                    lemma_entry_at_found(rules@, cell, i as int);
                }
                let rule = &rules[i].1;
                p.repr = rule.repr;
                p.word_order = rule.word_order;
                p.next = copy_items(&rule.next);
                p.ops = copy_items(&rule.ops);
                p.enum_map = clone_entries(&rule.enum_map);
                p.bits = clone_entries(&rule.bits);
                if let Some(d) = rule.decimals {
                    push_decimal(&mut p.decimals, d as u64);
                }
                p.prefix = rule.prefix.clone();
                p.suffix = rule.suffix.clone();
                p.existed = true;
            },
            Err(_) => {
                proof {
                    lemma_entry_at_missing(rules@, cell);
                }
            },
        }
        p
    }

    /// Saves the rule the editor describes into `rules` and tells whether
    /// it did (the editor then closes); where the decimals are not a
    /// number, shows the error instead and leaves `rules` alone.
    pub fn commit_to(&mut self, rules: &mut Vec<(RegisterCell, CustomRule)>) -> (saved: bool)
        requires
            keyed_sorted(old(rules)@),
        ensures
            keyed_sorted(final(rules)@),
            saved == spec_decimals(old(self)@.decimals) is Ok,
            saved ==> (forall|d: RegisterCell|
                d != (old(self).register_type, old(self).address) ==> #[trigger] entry_at(final(rules)@, d)
                    == entry_at(old(rules)@, d)) && (entry_at(final(rules)@, (old(self).register_type, old(self).address))
                matches Some(rule) && rule@ == rule_of_editor(old(self)@, spec_decimals(old(self)@.decimals)->Ok_0))
                && *final(self) == *old(self),
            !saved ==> final(rules)@ == old(rules)@ && final(self)@ == (CustomParamsView {
                error: Some(spec_decimals(old(self)@.decimals)->Err_0),
                ..old(self)@
            }),
    {
        match build_custom_rule(self) {
            Ok((cell, rule)) => {
                set_entry(rules, cell, Some(rule));
                true
            },
            Err(e) => {
                self.error = Some(e);
                false
            },
        }
    }
}

/// Removes the rule of `cell` from `rules`; tells whether it had one.
pub fn remove_rule(rules: &mut Vec<(RegisterCell, CustomRule)>, cell: RegisterCell) -> (removed: bool)
    requires
        keyed_sorted(old(rules)@),
    ensures
        removed == entry_at(old(rules)@, cell) is Some,
        keyed_sorted(final(rules)@),
        forall|d: RegisterCell| #[trigger] entry_at(final(rules)@, d) == if d == cell {
            None
        } else {
            entry_at(old(rules)@, d)
        },
{
    let had = match find_cell(rules.as_slice(), cell) {
        Ok(i) => {
            proof {
                lemma_entry_at_found(rules@, cell, i as int);
            }
            true
        },
        Err(_) => {
            proof {
                lemma_entry_at_missing(rules@, cell);
            }
            false
        },
    };
    set_entry(rules, cell, None);
    had
}

/// What the rule editor shows of the rule at work: the registers it reads
/// with their values, the value before the rule's steps, and its output.
#[derive(Debug, PartialEq)]
pub struct CustomPreview {
    pub words: String,
    pub base: Option<String>,
    pub output: String,
}

/// The words a preview reads, as `address:value` pairs joined by two
/// spaces.
pub open spec fn sources_text(addresses: Seq<u16>, values: Seq<u16>) -> Seq<char>
    decreases addresses.len(),
{
    if addresses.len() == 0 {
        seq![]
    } else if addresses.len() == 1 {
        dec(addresses[0] as nat) + ":"@ + dec(values[0] as nat)
    } else {
        sources_text(addresses.drop_last(), values.drop_last()) + "  "@ + dec(addresses.last() as nat) + ":"@
            + dec(values.last() as nat)
    }
}

/// Gathers the values last read at the rule's registers `addresses`
/// (`values[i]` for `addresses[i]`): the words and their `address:value`
/// list, or which register has not been read yet.
pub fn preview_words(addresses: &[u16], values: &[Option<u16>]) -> (r: Result<(Vec<u16>, String), String>)
    requires
        addresses@.len() == values@.len(),
    ensures
        (forall|i: int| 0 <= i < values@.len() ==> values@[i] is Some) ==> (r matches Ok(x) && x.0@.len()
            == values@.len() && (forall|i: int| 0 <= i < values@.len() ==> values@[i] == Some(#[trigger] x.0@[i]))
            && x.1@ == sources_text(addresses@, x.0@)),
        (exists|i: int| 0 <= i < values@.len() && values@[i] is None) ==> (r matches Err(e) && exists|i: int|
            0 <= i < values@.len() && values@[i] is None && (forall|j: int| 0 <= j < i ==> values@[j] is Some)
                && e@ == "waiting for register "@ + dec(addresses@[i] as nat)),
{
    let mut words: Vec<u16> = Vec::new();
    let mut text = String::new();
    let mut i: usize = 0;
    while i < values.len()
        invariant
            i <= values@.len(),
            addresses@.len() == values@.len(),
            words@.len() == i,
            forall|j: int| 0 <= j < i ==> #[trigger] values@[j] == Some(words@[j]),
            text@ == sources_text(addresses@.take(i as int), words@),
        decreases values@.len() - i,
    {
        match values[i] {
            Some(n) => {
                let ghost before = text@;
                if i > 0 {
                    push_str(&mut text, "  ");
                }
                push_decimal(&mut text, addresses[i] as u64);
                push_char(&mut text, ':');
                push_decimal(&mut text, n as u64);
                let ghost prev_words = words@;
                words.push(n);
                proof {
                    let a = addresses@.take(i + 1);
                    assert(a.drop_last() == addresses@.take(i as int));
                    assert(words@.drop_last() == prev_words);
                    reveal_strlit(":");
                    reveal_strlit("  ");
                    if i > 0 {
                        assert(text@ == before + "  "@ + dec(addresses@[i as int] as nat) + ":"@ + dec(n as nat));
                    } else {
                        assert(text@ == dec(addresses@[0] as nat) + ":"@ + dec(n as nat));
                    }
                }
                i += 1;
            },
            None => {
                let mut e = String::new();
                push_str(&mut e, "waiting for register ");
                push_decimal(&mut e, addresses[i] as u64);
                assert(values@[i as int] is None && (forall|j: int| 0 <= j < i ==> values@[j] is Some));
                return Err(e);
            },
        }
    }
    assert(addresses@.take(values@.len() as int) == addresses@);
    Ok((words, text))
}

/// Where `a` first stands in `addrs`.
pub open spec fn first_index(addrs: Seq<u16>, a: u16) -> Option<int>
    decreases addrs.len(),
{
    if addrs.len() == 0 {
        None
    } else if addrs[0] == a {
        Some(0)
    } else {
        match first_index(addrs.drop_first(), a) {
            Some(p) => Some(p + 1),
            None => None,
        }
    }
}

/// The further registers a rule reads after its own.
pub open spec fn further_words(rule: CustomRule) -> Seq<u16> {
    crate::custom::spec_word_addresses(rule.address, crate::custom::spec_register_count(rule.repr), rule.next@).drop_first()
}

/// What a register without a rule of its own shows when it is read as
/// part of another's value: the first rule of its type, in address order,
/// whose further registers hold it; an arrow up when it directly follows
/// its owner in that rule's order, else the owner's address.
pub open spec fn spec_continuation(rules: Seq<(RegisterCell, CustomRule)>, cell: RegisterCell) -> Option<Seq<char>>
    decreases rules.len(),
{
    if rules.len() == 0 {
        None
    } else {
        let (owner, rule) = rules[0];
        match first_index(further_words(rule), cell.1) {
            Some(p) if owner.0 == cell.0 => {
                let next = owner.1 + p + 1;
                let wrapped = if next > u16::MAX { next - 65536 } else { next };
                Some(if cell.1 == wrapped { "part of \u{2191}"@ } else { "part of "@ + dec(owner.1 as nat) })
            },
            _ => spec_continuation(rules.drop_first(), cell),
        }
    }
}

proof fn lemma_word_addresses_len(address: u16, count: nat, next: Seq<u16>)
    ensures
        crate::custom::spec_word_addresses(address, count, next).len() == count,
    decreases count,
{
    if count > 1 {
        lemma_word_addresses_len(address, (count - 1) as nat, next);
    }
}

fn index_in(addrs: &Vec<u16>, from: usize, a: u16) -> (r: Option<usize>)
    requires
        from <= addrs@.len(),
    ensures
        match first_index(addrs@.skip(from as int), a) {
            Some(p) => r matches Some(j) && j == p + from,
            None => r is None,
        },
        r matches Some(j) ==> from <= j < addrs@.len(),
    decreases addrs@.len() - from,
{
    if from == addrs.len() {
        return None;
    }
    assert(addrs@.skip(from as int).drop_first() =~= addrs@.skip(from + 1));
    if addrs[from] == a {
        Some(from)
    } else {
        index_in(addrs, from + 1, a)
    }
}

/// The continuation text for `cell` (see `spec_continuation`).
pub fn continuation_of(rules: &[(RegisterCell, CustomRule)], cell: RegisterCell) -> (r: Option<String>)
    ensures
        match r {
            Some(t) => spec_continuation(rules@, cell) == Some(t@),
            None => spec_continuation(rules@, cell) is None,
        },
{
    let mut k: usize = 0;
    assert(rules@.skip(0) =~= rules@);
    while k < rules.len()
        invariant
            k <= rules@.len(),
            spec_continuation(rules@, cell) == spec_continuation(rules@.skip(k as int), cell),
        decreases rules@.len() - k,
    {
        assert(rules@.skip(k as int).drop_first() =~= rules@.skip(k + 1));
        let owner = rules[k].0;
        let rule = &rules[k].1;
        if owner.0 == cell.0 {
            let addrs = rule.word_addresses();
            proof {
                lemma_word_addresses_len(rule.address, crate::custom::spec_register_count(rule.repr), rule.next@);
                crate::custom::lemma_max_registers_is_widest();
                assert(addrs@.skip(1) =~= further_words(*rule));
            }
            if addrs.len() >= 1 {
                match index_in(&addrs, 1, cell.1) {
                    Some(j) => {
                        let p = (j - 1) as u16;
                        proof {
                            assert(first_index(further_words(*rule), cell.1) == Some(p as int));
                            let rest = rules@.skip(k as int);
                            assert(rest[0] == (owner, *rule));
                        }
                        let mut t = String::new();
                        if cell.1 == owner.1.wrapping_add(p + 1) {
                            push_str(&mut t, "part of \u{2191}");
                        } else {
                            push_str(&mut t, "part of ");
                            push_decimal(&mut t, owner.1 as u64);
                        }
                        return Some(t);
                    },
                    None => {},
                }
            }
        }
        k += 1;
    }
    None
}

/// The registers read so far, up to the first further one that was not.
pub open spec fn leading_known(s: Seq<Option<u16>>) -> Seq<u16>
    decreases s.len(),
{
    if s.len() == 0 {
        Seq::empty()
    } else {
        match s[0] {
            Some(v) => seq![v] + leading_known(s.drop_first()),
            None => Seq::empty(),
        }
    }
}

/// The words a rule's value is computed from: the register's own value,
/// then the values found for the rule's further registers (`further[i]`
/// for the i-th), up to the first that was not found.
pub fn collect_words(value: u16, further: &[Option<u16>]) -> (r: Vec<u16>)
    ensures
        r@ == seq![value] + leading_known(further@),
{
    let mut words: Vec<u16> = Vec::new();
    words.push(value);
    let mut i: usize = 0;
    assert(further@.skip(0) =~= further@);
    while i < further.len()
        invariant
            i <= further@.len(),
            seq![value] + leading_known(further@) == words@ + leading_known(further@.skip(i as int)),
        decreases further@.len() - i,
    {
        assert(further@.skip(i as int).drop_first() =~= further@.skip(i + 1));
        match further[i] {
            Some(n) => {
                proof {
                    let rest = further@.skip(i as int);
                    assert(leading_known(rest) == seq![n] + leading_known(further@.skip(i + 1)));
                    assert(words@.push(n) + leading_known(further@.skip(i + 1)) =~= words@ + (seq![n]
                        + leading_known(further@.skip(i + 1))));
                }
                words.push(n);
            },
            None => {
                proof {
                    assert(words@ + Seq::<u16>::empty() =~= words@);
                }
                return words;
            },
        }
        i += 1;
    }
    proof {
        assert(further@.skip(i as int) =~= Seq::<Option<u16>>::empty());
        assert(words@ + Seq::<u16>::empty() =~= words@);
    }
    words
}

} // verus!
