use vstd::prelude::*;
use crate::custom::{CustomRule, CustomRuleView};
use crate::register::{type_rank, RegisterCell, RegisterType};

verus! {

/// What the configuration keeps of one register: its label, whether it is
/// pinned, its custom rule.
#[derive(Debug, PartialEq)]
pub struct RegisterEntry {
    pub address: u16,
    pub label: Option<String>,
    pub pinned: bool,
    pub custom: Option<CustomRule>,
}

/// A register entry as values.
pub ghost struct RegisterEntryView {
    pub address: u16,
    pub label: Option<Seq<char>>,
    pub pinned: bool,
    pub custom: Option<CustomRuleView>,
}

impl View for RegisterEntry {
    type V = RegisterEntryView;

    open spec fn view(&self) -> RegisterEntryView {
        RegisterEntryView {
            address: self.address,
            label: match self.label {
                Some(t) => Some(t@),
                None => None,
            },
            pinned: self.pinned,
            custom: match self.custom {
                Some(r) => Some(r@),
                None => None,
            },
        }
    }
}

/// The registers the configuration describes, one list per register type.
#[derive(Debug, PartialEq)]
pub struct Registers {
    pub holdings: Vec<RegisterEntry>,
    pub inputs: Vec<RegisterEntry>,
    pub coils: Vec<RegisterEntry>,
    pub discretes: Vec<RegisterEntry>,
}

/// The pinned registers of a list of entries of type `t`, in order.
pub open spec fn section_pins(t: RegisterType, s: Seq<RegisterEntry>) -> Seq<RegisterCell>
    decreases s.len(),
{
    if s.len() == 0 {
        seq![]
    } else {
        section_pins(t, s.drop_last()) + (if s.last().pinned {
            seq![(t, s.last().address)]
        } else {
            seq![]
        })
    }
}

/// The labels of a list of entries of type `t`, in order.
pub open spec fn section_labels(t: RegisterType, s: Seq<RegisterEntry>) -> Seq<(RegisterCell, Seq<char>)>
    decreases s.len(),
{
    if s.len() == 0 {
        seq![]
    } else {
        section_labels(t, s.drop_last()) + (match s.last().label {
            Some(text) => seq![((t, s.last().address), text@)],
            None => seq![],
        })
    }
}


/// A custom rule as it stands at `address`.
pub open spec fn placed_rule(address: u16, rule: CustomRuleView) -> CustomRuleView {
    CustomRuleView { address: address, ..rule }
}

/// The custom rules of a list of entries of type `t`, in order, each
/// placed at its entry's address.
pub open spec fn section_rules(t: RegisterType, s: Seq<RegisterEntry>) -> Seq<(RegisterCell, CustomRuleView)>
    decreases s.len(),
{
    if s.len() == 0 {
        seq![]
    } else {
        section_rules(t, s.drop_last()) + (match s.last().custom {
            Some(rule) => seq![((t, s.last().address), placed_rule(s.last().address, rule@))],
            None => seq![],
        })
    }
}

/// The pinned registers, type after type.
pub open spec fn pins_view(r: &Registers) -> Seq<RegisterCell> {
    section_pins(RegisterType::Holding, r.holdings@) + section_pins(RegisterType::Input, r.inputs@)
        + section_pins(RegisterType::Coil, r.coils@) + section_pins(RegisterType::Discrete, r.discretes@)
}

/// The labels, type after type.
pub open spec fn labels_view(r: &Registers) -> Seq<(RegisterCell, Seq<char>)> {
    section_labels(RegisterType::Holding, r.holdings@) + section_labels(RegisterType::Input, r.inputs@)
        + section_labels(RegisterType::Coil, r.coils@) + section_labels(
        RegisterType::Discrete,
        r.discretes@,
    )
}

/// The custom rules, type after type.
pub open spec fn rules_view(r: &Registers) -> Seq<(RegisterCell, CustomRuleView)> {
    section_rules(RegisterType::Holding, r.holdings@) + section_rules(RegisterType::Input, r.inputs@)
        + section_rules(RegisterType::Coil, r.coils@) + section_rules(RegisterType::Discrete, r.discretes@)
}

/// How many entries the lists hold in all.
pub open spec fn entry_count(r: &Registers) -> nat {
    r.holdings@.len() + r.inputs@.len() + r.coils@.len() + r.discretes@.len()
}

proof fn lemma_section_lens(t: RegisterType, s: Seq<RegisterEntry>)
    ensures
        section_pins(t, s).len() <= s.len(),
        section_labels(t, s).len() <= s.len(),
        section_rules(t, s).len() <= s.len(),
    decreases s.len(),
{
    if s.len() > 0 {
        lemma_section_lens(t, s.drop_last());
    }
}

fn count_section(t: RegisterType, s: &Vec<RegisterEntry>) -> (r: (usize, usize, usize))
    ensures
        r.0 == section_pins(t, s@).len(),
        r.1 == section_labels(t, s@).len(),
        r.2 == section_rules(t, s@).len(),
{
    let mut pins: usize = 0;
    let mut labels: usize = 0;
    let mut rules: usize = 0;
    let mut i: usize = 0;
    while i < s.len()
        invariant
            i <= s@.len(),
            pins == section_pins(t, s@.take(i as int)).len(),
            labels == section_labels(t, s@.take(i as int)).len(),
            rules == section_rules(t, s@.take(i as int)).len(),
        decreases s@.len() - i,
    {
        proof {
            assert(s@.take(i + 1).drop_last() =~= s@.take(i as int));
            lemma_section_lens(t, s@.take(i as int));
        }
        if s[i].pinned {
            pins += 1;
        }
        if s[i].label.is_some() {
            labels += 1;
        }
        if s[i].custom.is_some() {
            rules += 1;
        }
        i += 1;
    }
    assert(s@.take(s@.len() as int) =~= s@);
    (pins, labels, rules)
}

impl Registers {
    /// No registers.
    pub fn new() -> (r: Self)
        ensures
            r.holdings@.len() == 0 && r.inputs@.len() == 0 && r.coils@.len() == 0
                && r.discretes@.len() == 0,
    {
        Registers { holdings: Vec::new(), inputs: Vec::new(), coils: Vec::new(), discretes: Vec::new() }
    }

    fn counts(&self) -> (r: (usize, usize, usize))
        requires
            entry_count(self) <= usize::MAX,
        ensures
            r.0 == pins_view(self).len(),
            r.1 == labels_view(self).len(),
            r.2 == rules_view(self).len(),
    {
        proof {
            lemma_section_lens(RegisterType::Holding, self.holdings@);
            lemma_section_lens(RegisterType::Input, self.inputs@);
            lemma_section_lens(RegisterType::Coil, self.coils@);
            lemma_section_lens(RegisterType::Discrete, self.discretes@);
        }
        let h = count_section(RegisterType::Holding, &self.holdings);
        let i = count_section(RegisterType::Input, &self.inputs);
        let c = count_section(RegisterType::Coil, &self.coils);
        let d = count_section(RegisterType::Discrete, &self.discretes);
        (h.0 + i.0 + c.0 + d.0, h.1 + i.1 + c.1 + d.1, h.2 + i.2 + c.2 + d.2)
    }

    /// How many registers are pinned.
    pub fn pins(&self) -> (r: usize)
        requires
            entry_count(self) <= usize::MAX,
        ensures
            r == pins_view(self).len(),
    {
        self.counts().0
    }

    /// How many registers have a label.
    pub fn labels(&self) -> (r: usize)
        requires
            entry_count(self) <= usize::MAX,
        ensures
            r == labels_view(self).len(),
    {
        self.counts().1
    }

    /// How many registers have a custom rule.
    pub fn rules(&self) -> (r: usize)
        requires
            entry_count(self) <= usize::MAX,
        ensures
            r == rules_view(self).len(),
    {
        self.counts().2
    }

    /// How many pins, labels and rules there are in all.
    pub fn total(&self) -> (r: usize)
        requires
            3 * entry_count(self) <= usize::MAX,
        ensures
            r == pins_view(self).len() + labels_view(self).len() + rules_view(self).len(),
    {
        let (p, l, c) = self.counts();
        proof {
            lemma_section_lens(RegisterType::Holding, self.holdings@);
            lemma_section_lens(RegisterType::Input, self.inputs@);
            lemma_section_lens(RegisterType::Coil, self.coils@);
            lemma_section_lens(RegisterType::Discrete, self.discretes@);
            assert(p <= entry_count(self));
            assert(l <= entry_count(self));
            assert(c <= entry_count(self));
            assert(p + l + c <= usize::MAX);
        }
        p + l + c
    }
}

/// The label texts of a list of labels, as values.
pub open spec fn labels_of(v: Seq<(RegisterCell, String)>) -> Seq<(RegisterCell, Seq<char>)> {
    v.map_values(|x: (RegisterCell, String)| (x.0, x.1@))
}

/// The rules of a list of rules, as values.
pub open spec fn rules_of(v: Seq<(RegisterCell, CustomRule)>) -> Seq<(RegisterCell, CustomRuleView)> {
    v.map_values(|x: (RegisterCell, CustomRule)| (x.0, x.1@))
}

fn split_section(
    t: RegisterType,
    section: Vec<RegisterEntry>,
    pinned: &mut Vec<RegisterCell>,
    labels: &mut Vec<(RegisterCell, String)>,
    rules: &mut Vec<(RegisterCell, CustomRule)>,
)
    ensures
        final(pinned)@ == old(pinned)@ + section_pins(t, section@),
        labels_of(final(labels)@) == labels_of(old(labels)@) + section_labels(t, section@),
        rules_of(final(rules)@) == rules_of(old(rules)@) + section_rules(t, section@),
{
    let ghost orig = section@;
    let mut rest = section;
    let n = rest.len();
    let mut k: usize = 0;
    while rest.len() > 0
        invariant
            k <= orig.len(),
            orig.len() == n,
            rest@ == orig.skip(k as int),
            pinned@ == old(pinned)@ + section_pins(t, orig.take(k as int)),
            labels_of(labels@) == labels_of(old(labels)@) + section_labels(t, orig.take(k as int)),
            rules_of(rules@) == rules_of(old(rules)@) + section_rules(t, orig.take(k as int)),
        decreases rest@.len(),
    {
        let entry = rest.remove(0);
        proof {
            assert(orig.take(k + 1).drop_last() =~= orig.take(k as int));
            assert(orig.take(k + 1).last() == entry);
        }
        let ghost before_l = labels@;
        let ghost before_r = rules@;
        let address = entry.address;
        if entry.pinned {
            pinned.push((t, address));
        }
        match entry.label {
            Some(text) => {
                labels.push(((t, address), text));
                assert(labels_of(labels@) =~= labels_of(before_l).push(((t, address), text@)));
            },
            None => {},
        }
        match entry.custom {
            Some(rule) => {
                let mut rule = rule;
                rule.address = address;
                rules.push(((t, address), rule));
                assert(rules_of(rules@) =~= rules_of(before_r).push(((t, address), rule@)));
            },
            None => {},
        }
        k += 1;
        proof {
            assert(rest@ =~= orig.skip(k as int));
            assert(pinned@ =~= old(pinned)@ + section_pins(t, orig.take(k as int)));
            assert(labels_of(labels@) =~= labels_of(old(labels)@) + section_labels(t, orig.take(k as int)));
            assert(rules_of(rules@) =~= rules_of(old(rules)@) + section_rules(t, orig.take(k as int)));
        }
    }
    assert(orig.take(k as int) =~= orig);
}

impl Registers {
    /// The pinned registers, the labels and the custom rules, each in
    /// register order (type, then the order of the lists); each rule is
    /// placed at its entry's address.
    pub fn into_views(self) -> (r: (Vec<RegisterCell>, Vec<(RegisterCell, String)>, Vec<(RegisterCell, CustomRule)>))
        ensures
            r.0@ == pins_view(&self),
            labels_of(r.1@) == labels_view(&self),
            rules_of(r.2@) == rules_view(&self),
    {
        let ghost this = self;
        let mut pinned: Vec<RegisterCell> = Vec::new();
        let mut labels: Vec<(RegisterCell, String)> = Vec::new();
        let mut rules: Vec<(RegisterCell, CustomRule)> = Vec::new();
        assert(labels_of(labels@) =~= seq![]);
        assert(rules_of(rules@) =~= seq![]);
        split_section(RegisterType::Holding, self.holdings, &mut pinned, &mut labels, &mut rules);
        split_section(RegisterType::Input, self.inputs, &mut pinned, &mut labels, &mut rules);
        split_section(RegisterType::Coil, self.coils, &mut pinned, &mut labels, &mut rules);
        split_section(RegisterType::Discrete, self.discretes, &mut pinned, &mut labels, &mut rules);
        assert(pinned@ =~= pins_view(&this));
        assert(labels_of(labels@) =~= labels_view(&this));
        assert(rules_of(rules@) =~= rules_view(&this));
        (pinned, labels, rules)
    }
}

/// Where a register sits in register order: by type, then by address.
pub open spec fn cell_key(c: RegisterCell) -> int {
    type_rank(c.0) * 0x1_0000 + c.1
}

/// The label `labels` gives `c`: its last one there.
pub open spec fn label_at(labels: Seq<(RegisterCell, Seq<char>)>, c: RegisterCell) -> Option<Seq<char>>
    decreases labels.len(),
{
    if labels.len() == 0 {
        None
    } else if labels.last().0 == c {
        Some(labels.last().1)
    } else {
        label_at(labels.drop_last(), c)
    }
}

/// The rule `rules` gives `c`: its last one there.
pub open spec fn rule_at(rules: Seq<(RegisterCell, CustomRuleView)>, c: RegisterCell) -> Option<CustomRuleView>
    decreases rules.len(),
{
    if rules.len() == 0 {
        None
    } else if rules.last().0 == c {
        Some(rules.last().1)
    } else {
        rule_at(rules.drop_last(), c)
    }
}

/// Whether `c` is pinned, labelled or given a rule.
pub open spec fn in_views(
    c: RegisterCell,
    pins: Seq<RegisterCell>,
    labels: Seq<(RegisterCell, Seq<char>)>,
    rules: Seq<(RegisterCell, CustomRuleView)>,
) -> bool {
    pins.contains(c) || label_at(labels, c) is Some || rule_at(rules, c) is Some
}

/// The entry the views make of `c`.
pub open spec fn entry_for(
    c: RegisterCell,
    pins: Seq<RegisterCell>,
    labels: Seq<(RegisterCell, Seq<char>)>,
    rules: Seq<(RegisterCell, CustomRuleView)>,
) -> RegisterEntryView {
    RegisterEntryView {
        address: c.1,
        label: label_at(labels, c),
        pinned: pins.contains(c),
        custom: rule_at(rules, c),
    }
}

/// `s` lists, by increasing address, exactly the registers of type `t`
/// that the views name, each with the entry the views make of it.
pub open spec fn section_from_views(
    t: RegisterType,
    s: Seq<RegisterEntry>,
    pins: Seq<RegisterCell>,
    labels: Seq<(RegisterCell, Seq<char>)>,
    rules: Seq<(RegisterCell, CustomRuleView)>,
) -> bool {
    &&& forall|i: int, j: int| 0 <= i < j < s.len() ==> (#[trigger] s[i]).address < (#[trigger] s[j]).address
    &&& forall|i: int|
        0 <= i < s.len() ==> in_views((t, (#[trigger] s[i]).address), pins, labels, rules) && s[i]@
            == entry_for((t, s[i].address), pins, labels, rules)
    &&& forall|a: u16|
        #[trigger] in_views((t, a), pins, labels, rules) ==> exists|i: int| 0 <= i < s.len() && (#[trigger] s[i]).address == a
}

pub proof fn lemma_cell_key_injective(a: RegisterCell, b: RegisterCell)
    requires
        cell_key(a) == cell_key(b),
    ensures
        a == b,
{
    assert(a.1 == b.1);
    assert(type_rank(a.0) == type_rank(b.0));
}

/// A register with nothing recorded.
pub open spec fn blank_view(c: RegisterCell) -> RegisterEntryView {
    RegisterEntryView { address: c.1, label: None, pinned: false, custom: None }
}


/// The addresses of a list of entries increase strictly.
pub open spec fn addresses_increase(s: Seq<RegisterEntry>) -> bool {
    forall|i: int, j: int| 0 <= i < j < s.len() ==> (#[trigger] s[i]).address < (#[trigger] s[j]).address
}

/// Finds the entry for `address` in a list ordered by address, adding a
/// blank one in its place where it is missing.
fn upsert(s: &mut Vec<RegisterEntry>, address: u16) -> (r: (usize, bool))
    requires
        addresses_increase(old(s)@),
    ensures
        r.0 < final(s)@.len(),
        final(s)@[r.0 as int].address == address,
        addresses_increase(final(s)@),
        !r.1 ==> final(s)@ == old(s)@,
        r.1 ==> r.0 <= old(s)@.len() && final(s)@ == old(s)@.insert(r.0 as int, final(s)@[r.0 as int]) && final(s)@[r.0 as int]@
            == blank_view((RegisterType::Holding, address)) && forall|k: int|
            0 <= k < old(s)@.len() ==> (#[trigger] old(s)@[k]).address != address,
{
    let mut i: usize = 0;
    while i < s.len()
        invariant
            i <= s@.len(),
            *s == *old(s),
            forall|k: int| 0 <= k < i ==> (#[trigger] s@[k]).address < address,
        ensures
            i <= s@.len(),
            *s == *old(s),
            forall|k: int| 0 <= k < i ==> (#[trigger] s@[k]).address < address,
            i < s@.len() ==> s@[i as int].address >= address,
        decreases s@.len() - i,
    {
        if s[i].address >= address {
            break;
        }
        i += 1;
    }
    if i < s.len() && s[i].address == address {
        return (i, false);
    }
    assert forall|k: int| 0 <= k < s@.len() implies (#[trigger] s@[k]).address != address by {
        if k > i {
            assert(s@[i as int].address < s@[k].address);
        }
    }
    let ghost before = s@;
    s.insert(i, RegisterEntry { address, label: None, pinned: false, custom: None });
    assert forall|a: int, b: int| 0 <= a < b < s@.len() implies (#[trigger] s@[a]).address < (
    #[trigger] s@[b]).address by {
        if b < i {
            assert(s@[a] == before[a] && s@[b] == before[b]);
        } else if b == i {
            assert(s@[a] == before[a]);
        } else if a < i {
            assert(s@[a] == before[a] && s@[b] == before[b - 1]);
        } else if a == i {
            assert(s@[b] == before[b - 1]);
            if b - 1 > i {
                assert(before[i as int].address < before[b - 1].address);
            }
        } else {
            assert(s@[a] == before[a - 1] && s@[b] == before[b - 1]);
        }
    }
    (i, true)
}

/// The list of entries of type `t` after the views grow by what they say of
/// `c`: where `c` is of type `t`, the entry at `idx` is the one the grown
/// views make of it, changed in place or newly added there; other lists
/// stay as they were.
proof fn lemma_section_step(
    t: RegisterType,
    before: Seq<RegisterEntry>,
    after: Seq<RegisterEntry>,
    c: RegisterCell,
    idx: int,
    inserted: bool,
    pins: Seq<RegisterCell>,
    labels: Seq<(RegisterCell, Seq<char>)>,
    rules: Seq<(RegisterCell, CustomRuleView)>,
    pins2: Seq<RegisterCell>,
    labels2: Seq<(RegisterCell, Seq<char>)>,
    rules2: Seq<(RegisterCell, CustomRuleView)>,
)
    requires
        section_from_views(t, before, pins, labels, rules),
        forall|k: RegisterCell|
            k != c ==> in_views(k, pins2, labels2, rules2) == in_views(k, pins, labels, rules)
                && entry_for(k, pins2, labels2, rules2) == entry_for(k, pins, labels, rules),
        in_views(c, pins2, labels2, rules2),
        c.0 != t ==> after == before,
        c.0 == t ==> 0 <= idx < after.len() && after[idx].address == c.1 && after[idx]@ == entry_for(
            c,
            pins2,
            labels2,
            rules2,
        ) && addresses_increase(after) && (if inserted {
            idx <= before.len() && after == before.insert(idx, after[idx])
        } else {
            idx < before.len() && before[idx].address == c.1 && after == before.update(idx, after[idx])
        }),
    ensures
        section_from_views(t, after, pins2, labels2, rules2),
{
    if c.0 != t {
        assert forall|i: int|
            0 <= i < after.len() implies in_views((t, (#[trigger] after[i]).address), pins2, labels2, rules2)
            && after[i]@ == entry_for((t, after[i].address), pins2, labels2, rules2) by {
            assert((t, after[i].address) != c);
        }
        assert forall|a: u16| #[trigger] in_views((t, a), pins2, labels2, rules2) implies exists|i: int|
            0 <= i < after.len() && (#[trigger] after[i]).address == a by {
            assert((t, a) != c);
            assert(in_views((t, a), pins, labels, rules));
        }
    } else {
        if inserted {
            before.insert_ensures(idx, after[idx]);
        }
        assert forall|i: int|
            0 <= i < after.len() implies in_views((t, (#[trigger] after[i]).address), pins2, labels2, rules2)
            && after[i]@ == entry_for((t, after[i].address), pins2, labels2, rules2) by {
            if i != idx {
                let j = if inserted && i > idx {
                    i - 1
                } else {
                    i
                };
                assert(after[i] == before[j]);
                assert(before[j].address != c.1) by {
                    if before[j].address == c.1 {
                        if inserted {
                            assert(in_views((t, before[j].address), pins, labels, rules));
                            if i < idx {
                                assert(after[i].address < after[idx].address);
                            } else {
                                assert(after[idx].address < after[i].address);
                            }
                        } else {
                            assert(before[j].address != before[idx].address) by {
                                if j < idx {
                                    assert(before[j].address < before[idx].address);
                                } else {
                                    assert(before[idx].address < before[j].address);
                                }
                            }
                        }
                    }
                }
                assert((t, after[i].address) != c);
            }
        }
        assert forall|a: u16| #[trigger] in_views((t, a), pins2, labels2, rules2) implies exists|i: int|
            0 <= i < after.len() && (#[trigger] after[i]).address == a by {
            if a == c.1 {
                assert(after[idx].address == a);
            } else {
                assert((t, a) != c);
                assert(in_views((t, a), pins, labels, rules));
                let j = choose|j: int| 0 <= j < before.len() && (#[trigger] before[j]).address == a;
                if inserted {
                    if j < idx {
                        assert(after[j] == before[j]);
                    } else {
                        assert(after[j + 1] == before[j]);
                    }
                } else {
                    assert(j != idx);
                    assert(after[j] == before[j]);
                }
            }
        }
    }
}

/// What the views say of one register.
pub enum Change {
    Pin,
    Label(String),
    Rule(CustomRule),
}

/// An entry with what a change says added.
pub open spec fn applied(e: RegisterEntryView, change: Change) -> RegisterEntryView {
    match change {
        Change::Pin => RegisterEntryView { pinned: true, ..e },
        Change::Label(text) => RegisterEntryView { label: Some(text@), ..e },
        Change::Rule(rule) => RegisterEntryView { custom: Some(rule@), ..e },
    }
}

fn record_in(s: &mut Vec<RegisterEntry>, address: u16, change: Change) -> (r: (usize, bool))
    requires
        addresses_increase(old(s)@),
    ensures
        r.0 < final(s)@.len(),
        final(s)@[r.0 as int].address == address,
        addresses_increase(final(s)@),
        r.1 ==> r.0 <= old(s)@.len() && final(s)@ == old(s)@.insert(r.0 as int, final(s)@[r.0 as int])
            && final(s)@[r.0 as int]@ == applied(blank_view((RegisterType::Holding, address)), change)
            && forall|k: int| 0 <= k < old(s)@.len() ==> (#[trigger] old(s)@[k]).address != address,
        !r.1 ==> r.0 < old(s)@.len() && old(s)@[r.0 as int].address == address && final(s)@ == old(
            s,
        )@.update(r.0 as int, final(s)@[r.0 as int]) && final(s)@[r.0 as int]@ == applied(
            old(s)@[r.0 as int]@,
            change,
        ),
{
    let (idx, inserted) = upsert(s, address);
    let ghost mid = s@;
    let mut e = s.remove(idx);
    match change {
        Change::Pin => {
            e.pinned = true;
        },
        Change::Label(text) => {
            e.label = Some(text);
        },
        Change::Rule(rule) => {
            e.custom = Some(rule);
        },
    }
    s.insert(idx, e);
    proof {
        assert(s@ =~= mid.update(idx as int, e));
        assert forall|a: int, b: int| 0 <= a < b < s@.len() implies (#[trigger] s@[a]).address < (
        #[trigger] s@[b]).address by {
            assert(mid[a].address < mid[b].address);
        }
        if inserted {
            assert(s@ =~= old(s)@.insert(idx as int, e));
        } else {
            assert(s@ =~= old(s)@.update(idx as int, e));
        }
    }
    (idx, inserted)
}

/// The list of entries of type `t`.
pub open spec fn section_of(r: &Registers, t: RegisterType) -> Seq<RegisterEntry> {
    match t {
        RegisterType::Holding => r.holdings@,
        RegisterType::Input => r.inputs@,
        RegisterType::Coil => r.coils@,
        RegisterType::Discrete => r.discretes@,
    }
}

/// Every list holds, by increasing address, the registers of its type the
/// views name, each with the entry the views make of it.
pub open spec fn registers_from_views(
    r: &Registers,
    pins: Seq<RegisterCell>,
    labels: Seq<(RegisterCell, Seq<char>)>,
    rules: Seq<(RegisterCell, CustomRuleView)>,
) -> bool {
    &&& section_from_views(RegisterType::Holding, r.holdings@, pins, labels, rules)
    &&& section_from_views(RegisterType::Input, r.inputs@, pins, labels, rules)
    &&& section_from_views(RegisterType::Coil, r.coils@, pins, labels, rules)
    &&& section_from_views(RegisterType::Discrete, r.discretes@, pins, labels, rules)
}

impl Registers {
    fn record(&mut self, c: RegisterCell, change: Change) -> (r: (usize, bool))
        requires
            addresses_increase(old(self).holdings@),
            addresses_increase(old(self).inputs@),
            addresses_increase(old(self).coils@),
            addresses_increase(old(self).discretes@),
        ensures
            forall|t: RegisterType| t != c.0 ==> section_of(final(self), t) == section_of(old(self), t),
            ({
                let before = section_of(old(self), c.0);
                let after = section_of(final(self), c.0);
                &&& r.0 < after.len()
                &&& after[r.0 as int].address == c.1
                &&& addresses_increase(after)
                &&& r.1 ==> r.0 <= before.len() && after == before.insert(r.0 as int, after[r.0 as int])
                    && after[r.0 as int]@ == applied(blank_view(c), change) && forall|k: int|
                    0 <= k < before.len() ==> (#[trigger] before[k]).address != c.1
                &&& !r.1 ==> r.0 < before.len() && before[r.0 as int].address == c.1 && after
                    == before.update(r.0 as int, after[r.0 as int]) && after[r.0 as int]@ == applied(
                    before[r.0 as int]@,
                    change,
                )
            }),
            addresses_increase(final(self).holdings@),
            addresses_increase(final(self).inputs@),
            addresses_increase(final(self).coils@),
            addresses_increase(final(self).discretes@),
    {
        match c.0 {
            RegisterType::Holding => record_in(&mut self.holdings, c.1, change),
            RegisterType::Input => record_in(&mut self.inputs, c.1, change),
            RegisterType::Coil => record_in(&mut self.coils, c.1, change),
            RegisterType::Discrete => record_in(&mut self.discretes, c.1, change),
        }
    }
}

proof fn lemma_record_step(
    before: &Registers,
    after: &Registers,
    c: RegisterCell,
    idx: int,
    inserted: bool,
    pins: Seq<RegisterCell>,
    labels: Seq<(RegisterCell, Seq<char>)>,
    rules: Seq<(RegisterCell, CustomRuleView)>,
    pins2: Seq<RegisterCell>,
    labels2: Seq<(RegisterCell, Seq<char>)>,
    rules2: Seq<(RegisterCell, CustomRuleView)>,
)
    requires
        registers_from_views(before, pins, labels, rules),
        forall|k: RegisterCell|
            k != c ==> in_views(k, pins2, labels2, rules2) == in_views(k, pins, labels, rules)
                && entry_for(k, pins2, labels2, rules2) == entry_for(k, pins, labels, rules),
        in_views(c, pins2, labels2, rules2),
        forall|t: RegisterType| t != c.0 ==> section_of(after, t) == section_of(before, t),
        ({
            let b = section_of(before, c.0);
            let a = section_of(after, c.0);
            &&& 0 <= idx < a.len()
            &&& a[idx].address == c.1
            &&& a[idx]@ == entry_for(c, pins2, labels2, rules2)
            &&& addresses_increase(a)
            &&& inserted ==> idx <= b.len() && a == b.insert(idx, a[idx])
            &&& !inserted ==> idx < b.len() && b[idx].address == c.1 && a == b.update(idx, a[idx])
        }),
    ensures
        registers_from_views(after, pins2, labels2, rules2),
{
    assert(section_of(after, RegisterType::Holding) == after.holdings@);
    assert(section_of(after, RegisterType::Input) == after.inputs@);
    assert(section_of(after, RegisterType::Coil) == after.coils@);
    assert(section_of(after, RegisterType::Discrete) == after.discretes@);
    assert(section_of(before, RegisterType::Holding) == before.holdings@);
    assert(section_of(before, RegisterType::Input) == before.inputs@);
    assert(section_of(before, RegisterType::Coil) == before.coils@);
    assert(section_of(before, RegisterType::Discrete) == before.discretes@);
    lemma_section_step(RegisterType::Holding, before.holdings@, after.holdings@, c, idx, inserted, pins, labels, rules, pins2, labels2, rules2);
    lemma_section_step(RegisterType::Input, before.inputs@, after.inputs@, c, idx, inserted, pins, labels, rules, pins2, labels2, rules2);
    lemma_section_step(RegisterType::Coil, before.coils@, after.coils@, c, idx, inserted, pins, labels, rules, pins2, labels2, rules2);
    lemma_section_step(RegisterType::Discrete, before.discretes@, after.discretes@, c, idx, inserted, pins, labels, rules, pins2, labels2, rules2);
}

/// The entry at the recorded place was what the views before made of `c`,
/// or blank where they did not name it.
proof fn lemma_recorded_was(
    before: &Registers,
    c: RegisterCell,
    idx: int,
    inserted: bool,
    pins: Seq<RegisterCell>,
    labels: Seq<(RegisterCell, Seq<char>)>,
    rules: Seq<(RegisterCell, CustomRuleView)>,
)
    requires
        registers_from_views(before, pins, labels, rules),
        inserted ==> forall|k: int|
            0 <= k < section_of(before, c.0).len() ==> (#[trigger] section_of(before, c.0)[k]).address != c.1,
        !inserted ==> 0 <= idx < section_of(before, c.0).len() && section_of(before, c.0)[idx].address == c.1,
    ensures
        inserted ==> !in_views(c, pins, labels, rules),
        !inserted ==> section_of(before, c.0)[idx]@ == entry_for(c, pins, labels, rules),
{
    let s = section_of(before, c.0);
    assert(section_from_views(c.0, s, pins, labels, rules));
    if inserted {
        if in_views(c, pins, labels, rules) {
            assert(in_views((c.0, c.1), pins, labels, rules));
            let i = choose|i: int| 0 <= i < s.len() && (#[trigger] s[i]).address == c.1;
            assert(s[i].address != c.1);
        }
    } else {
        assert(s[idx]@ == entry_for((c.0, s[idx].address), pins, labels, rules));
    }
}

impl Registers {
    /// The entries the pinned registers, the labels and the custom rules
    /// make: one per register any of them names, by type and then by
    /// address; a register named twice keeps the last label and the last
    /// rule given it.
    pub fn from_views(
        pinned: &[RegisterCell],
        labels: &[(RegisterCell, String)],
        rules: &[(RegisterCell, CustomRule)],
    ) -> (r: Self)
        ensures
            registers_from_views(&r, pinned@, labels_of(labels@), rules_of(rules@)),
    {
        let mut regs = Registers::new();
        let ghost no_labels: Seq<(RegisterCell, Seq<char>)> = seq![];
        let ghost no_rules: Seq<(RegisterCell, CustomRuleView)> = seq![];
        assert(registers_from_views(&regs, pinned@.take(0), no_labels, no_rules)) by {
            assert forall|c: RegisterCell| !in_views(c, pinned@.take(0), no_labels, no_rules) by {
                assert(!pinned@.take(0).contains(c));
            }
        }
        let mut i: usize = 0;
        while i < pinned.len()
            invariant
                i <= pinned@.len(),
                registers_from_views(&regs, pinned@.take(i as int), no_labels, no_rules),
                addresses_increase(regs.holdings@),
                addresses_increase(regs.inputs@),
                addresses_increase(regs.coils@),
                addresses_increase(regs.discretes@),
            decreases pinned@.len() - i,
        {
            let c = pinned[i];
            let ghost before = regs;
            let ghost p = pinned@.take(i as int);
            let ghost p2 = pinned@.take(i + 1);
            assert(p2 =~= p.push(c));
            let (idx, inserted) = regs.record(c, Change::Pin);
            proof {
                lemma_recorded_was(&before, c, idx as int, inserted, p, no_labels, no_rules);
                assert forall|k: RegisterCell| k != c implies in_views(k, p2, no_labels, no_rules) == in_views(k, p, no_labels, no_rules)
                    && entry_for(k, p2, no_labels, no_rules) == entry_for(k, p, no_labels, no_rules) by {
                    assert(p2.contains(k) == p.contains(k)) by {
                        if p2.contains(k) {
                            let j = choose|j: int| 0 <= j < p2.len() && p2[j] == k;
                            assert(j < p.len());
                            assert(p[j] == k);
                        }
                        if p.contains(k) {
                            let j = choose|j: int| 0 <= j < p.len() && p[j] == k;
                            assert(p2[j] == k);
                        }
                    }
                }
                assert(p2[p.len() as int] == c);
                assert(p2.contains(c));
                lemma_record_step(&before, &regs, c, idx as int, inserted, p, no_labels, no_rules, p2, no_labels, no_rules);
            }
            i += 1;
        }
        assert(pinned@.take(pinned@.len() as int) =~= pinned@);
        assert(labels_of(labels@.take(0)) =~= no_labels);
        let ghost pins = pinned@;
        let mut j: usize = 0;
        while j < labels.len()
            invariant
                j <= labels@.len(),
                pins == pinned@,
                registers_from_views(&regs, pins, labels_of(labels@.take(j as int)), no_rules),
                addresses_increase(regs.holdings@),
                addresses_increase(regs.inputs@),
                addresses_increase(regs.coils@),
                addresses_increase(regs.discretes@),
            decreases labels@.len() - j,
        {
            let c = labels[j].0;
            let text = labels[j].1.clone();
            let ghost before = regs;
            let ghost l = labels_of(labels@.take(j as int));
            let ghost l2 = labels_of(labels@.take(j + 1));
            assert(l2 =~= l.push((c, text@)));
            let (idx, inserted) = regs.record(c, Change::Label(text));
            proof {
                lemma_recorded_was(&before, c, idx as int, inserted, pins, l, no_rules);
                assert(l2.drop_last() =~= l);
                lemma_record_step(&before, &regs, c, idx as int, inserted, pins, l, no_rules, pins, l2, no_rules);
            }
            j += 1;
        }
        assert(labels@.take(labels@.len() as int) =~= labels@);
        assert(rules_of(rules@.take(0)) =~= no_rules);
        let ghost ls = labels_of(labels@);
        let mut k: usize = 0;
        while k < rules.len()
            invariant
                k <= rules@.len(),
                pins == pinned@,
                ls == labels_of(labels@),
                registers_from_views(&regs, pins, ls, rules_of(rules@.take(k as int))),
                addresses_increase(regs.holdings@),
                addresses_increase(regs.inputs@),
                addresses_increase(regs.coils@),
                addresses_increase(regs.discretes@),
            decreases rules@.len() - k,
        {
            let c = rules[k].0;
            let rule = rules[k].1.clone();
            let ghost before = regs;
            let ghost r = rules_of(rules@.take(k as int));
            let ghost r2 = rules_of(rules@.take(k + 1));
            assert(r2 =~= r.push((c, rule@)));
            let (idx, inserted) = regs.record(c, Change::Rule(rule));
            proof {
                lemma_recorded_was(&before, c, idx as int, inserted, pins, ls, r);
                assert(r2.drop_last() =~= r);
                lemma_record_step(&before, &regs, c, idx as int, inserted, pins, ls, r, pins, ls, r2);
            }
            k += 1;
        }
        assert(rules@.take(rules@.len() as int) =~= rules@);
        regs
    }
}

/// The items of `s` have strictly increasing keys.
pub open spec fn keys_increase<A>(s: Seq<A>, key: spec_fn(A) -> int) -> bool {
    forall|i: int, j: int| 0 <= i < j < s.len() ==> key(#[trigger] s[i]) < key(#[trigger] s[j])
}

proof fn lemma_sorted_eq<A>(s1: Seq<A>, s2: Seq<A>, key: spec_fn(A) -> int)
    requires
        keys_increase(s1, key),
        keys_increase(s2, key),
        forall|x: A| s1.contains(x) <==> s2.contains(x),
    ensures
        s1 == s2,
    decreases s1.len(),
{
    if s1.len() == 0 {
        if s2.len() > 0 {
            assert(s2.contains(s2[0]));
        }
        assert(s1 =~= s2);
    } else {
        assert(s1.contains(s1[0]));
        let j = choose|j: int| 0 <= j < s2.len() && s2[j] == s1[0];
        assert(s2.contains(s2[0]));
        let i = choose|i: int| 0 <= i < s1.len() && s1[i] == s2[0];
        if j > 0 {
            assert(key(s2[0]) < key(s2[j]));
            if i > 0 {
                assert(key(s1[0]) < key(s1[i]));
            }
        }
        assert(s1[0] == s2[0]);
        let t1 = s1.drop_first();
        let t2 = s2.drop_first();
        assert forall|x: A| t1.contains(x) <==> t2.contains(x) by {
            if t1.contains(x) {
                let a = choose|a: int| 0 <= a < t1.len() && t1[a] == x;
                assert(s1[a + 1] == x);
                assert(s1.contains(x));
                let b = choose|b: int| 0 <= b < s2.len() && s2[b] == x;
                if b == 0 {
                    assert(key(s1[0]) < key(s1[a + 1]));
                }
                assert(t2[b - 1] == x);
            }
            if t2.contains(x) {
                let a = choose|a: int| 0 <= a < t2.len() && t2[a] == x;
                assert(s2[a + 1] == x);
                assert(s2.contains(x));
                let b = choose|b: int| 0 <= b < s1.len() && s1[b] == x;
                if b == 0 {
                    assert(key(s2[0]) < key(s2[a + 1]));
                }
                assert(t1[b - 1] == x);
            }
        }
        assert forall|a: int, b: int| 0 <= a < b < t1.len() implies key(#[trigger] t1[a]) < key(#[trigger] t1[b]) by {
            assert(t1[a] == s1[a + 1] && t1[b] == s1[b + 1]);
        }
        assert forall|a: int, b: int| 0 <= a < b < t2.len() implies key(#[trigger] t2[a]) < key(#[trigger] t2[b]) by {
            assert(t2[a] == s2[a + 1] && t2[b] == s2[b + 1]);
        }
        lemma_sorted_eq(t1, t2, key);
        assert(s1 =~= seq![s1[0]] + t1);
        assert(s2 =~= seq![s2[0]] + t2);
    }
}

/// The key of a pinned cell.
pub open spec fn pin_key() -> spec_fn(RegisterCell) -> int {
    |c: RegisterCell| cell_key(c)
}

/// The key of a label.
pub open spec fn label_key() -> spec_fn((RegisterCell, Seq<char>)) -> int {
    |x: (RegisterCell, Seq<char>)| cell_key(x.0)
}

/// The key of a rule.
pub open spec fn rule_key() -> spec_fn((RegisterCell, CustomRuleView)) -> int {
    |x: (RegisterCell, CustomRuleView)| cell_key(x.0)
}

proof fn lemma_section_pins(t: RegisterType, s: Seq<RegisterEntry>)
    requires
        addresses_increase(s),
    ensures
        forall|c: RegisterCell|
            #[trigger] section_pins(t, s).contains(c) <==> c.0 == t && exists|i: int|
                0 <= i < s.len() && (#[trigger] s[i]).address == c.1 && s[i].pinned,
        keys_increase(section_pins(t, s), pin_key()),
        forall|k: int| 0 <= k < section_pins(t, s).len() ==> exists|i: int|
            0 <= i < s.len() && (#[trigger] s[i]).address == (#[trigger] section_pins(t, s)[k]).1,
    decreases s.len(),
{
    if s.len() > 0 {
        let s0 = s.drop_last();
        assert(addresses_increase(s0)) by {
            assert forall|i: int, j: int| 0 <= i < j < s0.len() implies (#[trigger] s0[i]).address < (#[trigger] s0[j]).address by {
                assert(s0[i] == s[i] && s0[j] == s[j]);
            }
        }
        lemma_section_pins(t, s0);
        let prev = section_pins(t, s0);
        let last = s.last();
        let tail: Seq<RegisterCell> = if last.pinned { seq![(t, last.address)] } else { seq![] };
        assert(section_pins(t, s) == prev + tail);
        assert forall|c: RegisterCell| #[trigger] section_pins(t, s).contains(c) <==> c.0 == t && exists|i: int|
            0 <= i < s.len() && (#[trigger] s[i]).address == c.1 && s[i].pinned by {
            if section_pins(t, s).contains(c) {
                let k = choose|k: int| 0 <= k < section_pins(t, s).len() && section_pins(t, s)[k] == c;
                if k < prev.len() {
                    assert(prev[k] == c);
                    assert(prev.contains(c));
                    let i = choose|i: int| 0 <= i < s0.len() && (#[trigger] s0[i]).address == c.1 && s0[i].pinned;
                    assert(s[i] == s0[i]);
                } else {
                    assert(s[s.len() - 1] == last);
                }
            }
            if c.0 == t && exists|i: int| 0 <= i < s.len() && (#[trigger] s[i]).address == c.1 && s[i].pinned {
                let i = choose|i: int| 0 <= i < s.len() && (#[trigger] s[i]).address == c.1 && s[i].pinned;
                if i < s.len() - 1 {
                    assert(s0[i] == s[i]);
                    assert(prev.contains(c));
                    let k = choose|k: int| 0 <= k < prev.len() && prev[k] == c;
                    assert(section_pins(t, s)[k] == c);
                } else {
                    assert(section_pins(t, s)[prev.len() as int] == c);
                }
            }
        }
        assert forall|k: int| 0 <= k < section_pins(t, s).len() implies exists|i: int|
            0 <= i < s.len() && (#[trigger] s[i]).address == (#[trigger] section_pins(t, s)[k]).1 by {
            if k < prev.len() {
                assert(section_pins(t, s)[k] == prev[k]);
                let i = choose|i: int| 0 <= i < s0.len() && (#[trigger] s0[i]).address == prev[k].1;
                assert(s[i] == s0[i]);
            } else {
                assert(s[s.len() - 1].address == section_pins(t, s)[k].1);
            }
        }
        assert forall|a: int, b: int| 0 <= a < b < section_pins(t, s).len() implies pin_key()(#[trigger] section_pins(t, s)[a])
            < pin_key()(#[trigger] section_pins(t, s)[b]) by {
            let full = section_pins(t, s);
            if b < prev.len() {
                assert(full[a] == prev[a] && full[b] == prev[b]);
            } else {
                assert(full[a] == prev[a]);
                let i = choose|i: int| 0 <= i < s0.len() && (#[trigger] s0[i]).address == prev[a].1;
                assert(s[i] == s0[i]);
                assert(s[i].address < s[s.len() - 1].address);
                assert(full[b] == (t, last.address));
                assert(prev.contains(prev[a]));
                assert(prev[a].0 == t);
            }
        }
    }
}

proof fn lemma_section_labels(t: RegisterType, s: Seq<RegisterEntry>)
    requires
        addresses_increase(s),
    ensures
        forall|x: (RegisterCell, Seq<char>)|
            #[trigger] section_labels(t, s).contains(x) <==> x.0.0 == t && exists|i: int|
                0 <= i < s.len() && (#[trigger] s[i]).address == x.0.1 && s[i].label is Some && s[i].label->0@ == x.1,
        keys_increase(section_labels(t, s), label_key()),
        forall|k: int| 0 <= k < section_labels(t, s).len() ==> exists|i: int|
            0 <= i < s.len() && (#[trigger] s[i]).address == (#[trigger] section_labels(t, s)[k]).0.1,
    decreases s.len(),
{
    if s.len() > 0 {
        let s0 = s.drop_last();
        assert(addresses_increase(s0)) by {
            assert forall|i: int, j: int| 0 <= i < j < s0.len() implies (#[trigger] s0[i]).address < (#[trigger] s0[j]).address by {
                assert(s0[i] == s[i] && s0[j] == s[j]);
            }
        }
        lemma_section_labels(t, s0);
        let prev = section_labels(t, s0);
        let last = s.last();
        let tail: Seq<(RegisterCell, Seq<char>)> = match last.label { Some(text) => seq![((t, last.address), text@)], None => seq![] };
        assert(section_labels(t, s) == prev + tail);
        assert forall|c: (RegisterCell, Seq<char>)| #[trigger] section_labels(t, s).contains(c) <==> c.0.0 == t && exists|i: int|
            0 <= i < s.len() && (#[trigger] s[i]).address == c.0.1 && s[i].label is Some && s[i].label->0@ == c.1 by {
            if section_labels(t, s).contains(c) {
                let k = choose|k: int| 0 <= k < section_labels(t, s).len() && section_labels(t, s)[k] == c;
                if k < prev.len() {
                    assert(prev[k] == c);
                    assert(prev.contains(c));
                    let i = choose|i: int| 0 <= i < s0.len() && (#[trigger] s0[i]).address == c.0.1 && s0[i].label is Some && s0[i].label->0@ == c.1;
                    assert(s[i] == s0[i]);
                } else {
                    assert(s[s.len() - 1] == last);
                }
            }
            if c.0.0 == t && exists|i: int| 0 <= i < s.len() && (#[trigger] s[i]).address == c.0.1 && s[i].label is Some && s[i].label->0@ == c.1 {
                let i = choose|i: int| 0 <= i < s.len() && (#[trigger] s[i]).address == c.0.1 && s[i].label is Some && s[i].label->0@ == c.1;
                if i < s.len() - 1 {
                    assert(s0[i] == s[i]);
                    assert(prev.contains(c));
                    let k = choose|k: int| 0 <= k < prev.len() && prev[k] == c;
                    assert(section_labels(t, s)[k] == c);
                } else {
                    assert(section_labels(t, s)[prev.len() as int] == c);
                }
            }
        }
        assert forall|k: int| 0 <= k < section_labels(t, s).len() implies exists|i: int|
            0 <= i < s.len() && (#[trigger] s[i]).address == (#[trigger] section_labels(t, s)[k]).0.1 by {
            if k < prev.len() {
                assert(section_labels(t, s)[k] == prev[k]);
                let i = choose|i: int| 0 <= i < s0.len() && (#[trigger] s0[i]).address == prev[k].0.1;
                assert(s[i] == s0[i]);
            } else {
                assert(s[s.len() - 1].address == section_labels(t, s)[k].0.1);
            }
        }
        assert forall|a: int, b: int| 0 <= a < b < section_labels(t, s).len() implies label_key()(#[trigger] section_labels(t, s)[a])
            < label_key()(#[trigger] section_labels(t, s)[b]) by {
            let full = section_labels(t, s);
            if b < prev.len() {
                assert(full[a] == prev[a] && full[b] == prev[b]);
            } else {
                assert(full[a] == prev[a]);
                let i = choose|i: int| 0 <= i < s0.len() && (#[trigger] s0[i]).address == prev[a].0.1;
                assert(s[i] == s0[i]);
                assert(s[i].address < s[s.len() - 1].address);
                assert(full[b].0 == (t, last.address));
                assert(prev.contains(prev[a]));
                assert(prev[a].0.0 == t);
            }
        }
    }
}

proof fn lemma_section_rules(t: RegisterType, s: Seq<RegisterEntry>)
    requires
        addresses_increase(s),
    ensures
        forall|x: (RegisterCell, CustomRuleView)|
            #[trigger] section_rules(t, s).contains(x) <==> x.0.0 == t && exists|i: int|
                0 <= i < s.len() && (#[trigger] s[i]).address == x.0.1 && s[i].custom is Some && x.1 == placed_rule(s[i].address, s[i].custom->0@),
        keys_increase(section_rules(t, s), rule_key()),
        forall|k: int| 0 <= k < section_rules(t, s).len() ==> exists|i: int|
            0 <= i < s.len() && (#[trigger] s[i]).address == (#[trigger] section_rules(t, s)[k]).0.1,
    decreases s.len(),
{
    if s.len() > 0 {
        let s0 = s.drop_last();
        assert(addresses_increase(s0)) by {
            assert forall|i: int, j: int| 0 <= i < j < s0.len() implies (#[trigger] s0[i]).address < (#[trigger] s0[j]).address by {
                assert(s0[i] == s[i] && s0[j] == s[j]);
            }
        }
        lemma_section_rules(t, s0);
        let prev = section_rules(t, s0);
        let last = s.last();
        let tail: Seq<(RegisterCell, CustomRuleView)> = match last.custom { Some(rule) => seq![((t, last.address), placed_rule(last.address, rule@))], None => seq![] };
        assert(section_rules(t, s) == prev + tail);
        assert forall|c: (RegisterCell, CustomRuleView)| #[trigger] section_rules(t, s).contains(c) <==> c.0.0 == t && exists|i: int|
            0 <= i < s.len() && (#[trigger] s[i]).address == c.0.1 && s[i].custom is Some && c.1 == placed_rule(s[i].address, s[i].custom->0@) by {
            if section_rules(t, s).contains(c) {
                let k = choose|k: int| 0 <= k < section_rules(t, s).len() && section_rules(t, s)[k] == c;
                if k < prev.len() {
                    assert(prev[k] == c);
                    assert(prev.contains(c));
                    let i = choose|i: int| 0 <= i < s0.len() && (#[trigger] s0[i]).address == c.0.1 && s0[i].custom is Some && c.1 == placed_rule(s0[i].address, s0[i].custom->0@);
                    assert(s[i] == s0[i]);
                } else {
                    assert(s[s.len() - 1] == last);
                }
            }
            if c.0.0 == t && exists|i: int| 0 <= i < s.len() && (#[trigger] s[i]).address == c.0.1 && s[i].custom is Some && c.1 == placed_rule(s[i].address, s[i].custom->0@) {
                let i = choose|i: int| 0 <= i < s.len() && (#[trigger] s[i]).address == c.0.1 && s[i].custom is Some && c.1 == placed_rule(s[i].address, s[i].custom->0@);
                if i < s.len() - 1 {
                    assert(s0[i] == s[i]);
                    assert(prev.contains(c));
                    let k = choose|k: int| 0 <= k < prev.len() && prev[k] == c;
                    assert(section_rules(t, s)[k] == c);
                } else {
                    assert(section_rules(t, s)[prev.len() as int] == c);
                }
            }
        }
        assert forall|k: int| 0 <= k < section_rules(t, s).len() implies exists|i: int|
            0 <= i < s.len() && (#[trigger] s[i]).address == (#[trigger] section_rules(t, s)[k]).0.1 by {
            if k < prev.len() {
                assert(section_rules(t, s)[k] == prev[k]);
                let i = choose|i: int| 0 <= i < s0.len() && (#[trigger] s0[i]).address == prev[k].0.1;
                assert(s[i] == s0[i]);
            } else {
                assert(s[s.len() - 1].address == section_rules(t, s)[k].0.1);
            }
        }
        assert forall|a: int, b: int| 0 <= a < b < section_rules(t, s).len() implies rule_key()(#[trigger] section_rules(t, s)[a])
            < rule_key()(#[trigger] section_rules(t, s)[b]) by {
            let full = section_rules(t, s);
            if b < prev.len() {
                assert(full[a] == prev[a] && full[b] == prev[b]);
            } else {
                assert(full[a] == prev[a]);
                let i = choose|i: int| 0 <= i < s0.len() && (#[trigger] s0[i]).address == prev[a].0.1;
                assert(s[i] == s0[i]);
                assert(s[i].address < s[s.len() - 1].address);
                assert(full[b].0 == (t, last.address));
                assert(prev.contains(prev[a]));
                assert(prev[a].0.0 == t);
            }
        }
    }
}


pub proof fn lemma_add_contains<A>(x: Seq<A>, y: Seq<A>, e: A)
    ensures
        (x + y).contains(e) <==> x.contains(e) || y.contains(e),
{
    if (x + y).contains(e) {
        let k = choose|k: int| 0 <= k < (x + y).len() && (x + y)[k] == e;
        if k < x.len() {
            assert(x[k] == e);
        } else {
            assert(y[k - x.len()] == e);
        }
    }
    if x.contains(e) {
        let k = choose|k: int| 0 <= k < x.len() && x[k] == e;
        assert((x + y)[k] == e);
    }
    if y.contains(e) {
        let k = choose|k: int| 0 <= k < y.len() && y[k] == e;
        assert((x + y)[x.len() + k] == e);
    }
}

/// The keys of `s` all lie in band `b`: from `b * 0x1_0000` up to the next band.
pub open spec fn keys_in_band<A>(s: Seq<A>, key: spec_fn(A) -> int, b: int) -> bool {
    forall|k: int| 0 <= k < s.len() ==> b * 0x1_0000 <= #[trigger] key(s[k]) < (b + 1) * 0x1_0000
}

proof fn lemma_bands_increase<A>(a: Seq<A>, b: Seq<A>, c: Seq<A>, d: Seq<A>, key: spec_fn(A) -> int)
    requires
        keys_increase(a, key),
        keys_increase(b, key),
        keys_increase(c, key),
        keys_increase(d, key),
        keys_in_band(a, key, 0),
        keys_in_band(b, key, 1),
        keys_in_band(c, key, 2),
        keys_in_band(d, key, 3),
    ensures
        keys_increase(a + b + c + d, key),
{
    let ab = a + b;
    let abc = ab + c;
    let all = abc + d;
    assert forall|i: int, j: int| 0 <= i < j < all.len() implies key(#[trigger] all[i]) < key(#[trigger] all[j]) by {
        let la = a.len() as int;
        let lb = b.len() as int;
        let lc = c.len() as int;
        if j < la {
            assert(all[i] == a[i] && all[j] == a[j]);
        } else if j < la + lb {
            assert(all[j] == b[j - la]);
            if i < la {
                assert(all[i] == a[i]);
            } else {
                assert(all[i] == b[i - la]);
            }
        } else if j < la + lb + lc {
            assert(all[j] == c[j - la - lb]);
            if i < la {
                assert(all[i] == a[i]);
            } else if i < la + lb {
                assert(all[i] == b[i - la]);
            } else {
                assert(all[i] == c[i - la - lb]);
            }
        } else {
            assert(all[j] == d[j - la - lb - lc]);
            if i < la {
                assert(all[i] == a[i]);
            } else if i < la + lb {
                assert(all[i] == b[i - la]);
            } else if i < la + lb + lc {
                assert(all[i] == c[i - la - lb]);
            } else {
                assert(all[i] == d[i - la - lb - lc]);
            }
        }
    }
}

pub proof fn lemma_label_at_listed(labels: Seq<(RegisterCell, Seq<char>)>, c: RegisterCell, v: Seq<char>)
    requires
        keys_increase(labels, label_key()),
    ensures
        label_at(labels, c) == Some(v) <==> labels.contains((c, v)),
    decreases labels.len(),
{
    if labels.len() > 0 {
        let rest = labels.drop_last();
        assert forall|i: int, j: int| 0 <= i < j < rest.len() implies label_key()(#[trigger] rest[i]) < label_key()(
            #[trigger] rest[j],
        ) by {
            assert(rest[i] == labels[i] && rest[j] == labels[j]);
        }
        lemma_label_at_listed(rest, c, v);
        assert(labels == rest.push(labels.last()));
        if labels.contains((c, v)) {
            let k = choose|k: int| 0 <= k < labels.len() && labels[k] == (c, v);
            if k < rest.len() {
                assert(rest[k] == (c, v));
                if labels.last().0 == c {
                    assert(label_key()(labels[k]) < label_key()(labels[labels.len() - 1]));
                }
            }
        }
        if rest.contains((c, v)) {
            let k = choose|k: int| 0 <= k < rest.len() && rest[k] == (c, v);
            assert(labels[k] == (c, v));
        }
        if labels.last().0 == c && labels.last().1 == v {
            assert(labels[labels.len() - 1] == (c, v));
        }
    }
}

pub proof fn lemma_rule_at_listed(rules: Seq<(RegisterCell, CustomRuleView)>, c: RegisterCell, v: CustomRuleView)
    requires
        keys_increase(rules, rule_key()),
    ensures
        rule_at(rules, c) == Some(v) <==> rules.contains((c, v)),
    decreases rules.len(),
{
    if rules.len() > 0 {
        let rest = rules.drop_last();
        assert forall|i: int, j: int| 0 <= i < j < rest.len() implies rule_key()(#[trigger] rest[i]) < rule_key()(
            #[trigger] rest[j],
        ) by {
            assert(rest[i] == rules[i] && rest[j] == rules[j]);
        }
        lemma_rule_at_listed(rest, c, v);
        assert(rules == rest.push(rules.last()));
        if rules.contains((c, v)) {
            let k = choose|k: int| 0 <= k < rules.len() && rules[k] == (c, v);
            if k < rest.len() {
                assert(rest[k] == (c, v));
                if rules.last().0 == c {
                    assert(rule_key()(rules[k]) < rule_key()(rules[rules.len() - 1]));
                }
            }
        }
        if rest.contains((c, v)) {
            let k = choose|k: int| 0 <= k < rest.len() && rest[k] == (c, v);
            assert(rules[k] == (c, v));
        }
        if rules.last().0 == c && rules.last().1 == v {
            assert(rules[rules.len() - 1] == (c, v));
        }
    }
}


proof fn lemma_pins_of_section(
    t: RegisterType,
    s: Seq<RegisterEntry>,
    pins: Seq<RegisterCell>,
    labels: Seq<(RegisterCell, Seq<char>)>,
    rules: Seq<(RegisterCell, CustomRuleView)>,
)
    requires
        section_from_views(t, s, pins, labels, rules),
    ensures
        forall|c: RegisterCell| #[trigger] section_pins(t, s).contains(c) <==> c.0 == t && pins.contains(c),
        keys_increase(section_pins(t, s), pin_key()),
        keys_in_band(section_pins(t, s), pin_key(), type_rank(t)),
{
    lemma_section_pins(t, s);
    let out = section_pins(t, s);
    assert forall|c: RegisterCell| #[trigger] out.contains(c) <==> c.0 == t && pins.contains(c) by {
        if out.contains(c) {
            let i = choose|i: int| 0 <= i < s.len() && (#[trigger] s[i]).address == c.1 && s[i].pinned;
            assert(s[i]@ == entry_for((t, s[i].address), pins, labels, rules));
            assert(c == (t, s[i].address));
        }
        if c.0 == t && pins.contains(c) {
            assert(in_views((t, c.1), pins, labels, rules));
            let i = choose|i: int| 0 <= i < s.len() && (#[trigger] s[i]).address == c.1;
            assert(s[i]@ == entry_for((t, s[i].address), pins, labels, rules));
            assert(c == (t, s[i].address));
        }
    }
    assert forall|k: int| 0 <= k < out.len() implies type_rank(t) * 0x1_0000 <= #[trigger] pin_key()(out[k])
        < (type_rank(t) + 1) * 0x1_0000 by {
        assert(out.contains(out[k]));
    }
}

proof fn lemma_labels_of_section(
    t: RegisterType,
    s: Seq<RegisterEntry>,
    pins: Seq<RegisterCell>,
    labels: Seq<(RegisterCell, Seq<char>)>,
    rules: Seq<(RegisterCell, CustomRuleView)>,
)
    requires
        section_from_views(t, s, pins, labels, rules),
        keys_increase(labels, label_key()),
    ensures
        forall|x: (RegisterCell, Seq<char>)| #[trigger] section_labels(t, s).contains(x) <==> x.0.0 == t && labels.contains(x),
        keys_increase(section_labels(t, s), label_key()),
        keys_in_band(section_labels(t, s), label_key(), type_rank(t)),
{
    lemma_section_labels(t, s);
    let out = section_labels(t, s);
    assert forall|x: (RegisterCell, Seq<char>)| #[trigger] out.contains(x) <==> x.0.0 == t && labels.contains(x) by {
        lemma_label_at_listed(labels, x.0, x.1);
        if out.contains(x) {
            let i = choose|i: int|
                0 <= i < s.len() && (#[trigger] s[i]).address == x.0.1 && s[i].label is Some && s[i].label->0@ == x.1;
            assert(s[i]@ == entry_for((t, s[i].address), pins, labels, rules));
            assert(x.0 == (t, s[i].address));
        }
        if x.0.0 == t && labels.contains(x) {
            assert(in_views((t, x.0.1), pins, labels, rules));
            let i = choose|i: int| 0 <= i < s.len() && (#[trigger] s[i]).address == x.0.1;
            assert(s[i]@ == entry_for((t, s[i].address), pins, labels, rules));
            assert(x.0 == (t, s[i].address));
        }
    }
    assert forall|k: int| 0 <= k < out.len() implies type_rank(t) * 0x1_0000 <= #[trigger] label_key()(out[k])
        < (type_rank(t) + 1) * 0x1_0000 by {
        assert(out.contains(out[k]));
    }
}

proof fn lemma_rules_of_section(
    t: RegisterType,
    s: Seq<RegisterEntry>,
    pins: Seq<RegisterCell>,
    labels: Seq<(RegisterCell, Seq<char>)>,
    rules: Seq<(RegisterCell, CustomRuleView)>,
)
    requires
        section_from_views(t, s, pins, labels, rules),
        keys_increase(rules, rule_key()),
        forall|k: int| 0 <= k < rules.len() ==> (#[trigger] rules[k]).1.address == rules[k].0.1,
    ensures
        forall|x: (RegisterCell, CustomRuleView)| #[trigger] section_rules(t, s).contains(x) <==> x.0.0 == t && rules.contains(x),
        keys_increase(section_rules(t, s), rule_key()),
        keys_in_band(section_rules(t, s), rule_key(), type_rank(t)),
{
    lemma_section_rules(t, s);
    let out = section_rules(t, s);
    assert forall|x: (RegisterCell, CustomRuleView)| #[trigger] out.contains(x) <==> x.0.0 == t && rules.contains(x) by {
        lemma_rule_at_listed(rules, x.0, x.1);
        if out.contains(x) {
            let i = choose|i: int|
                0 <= i < s.len() && (#[trigger] s[i]).address == x.0.1 && s[i].custom is Some && x.1 == placed_rule(
                    s[i].address,
                    s[i].custom->0@,
                );
            assert(s[i]@ == entry_for((t, s[i].address), pins, labels, rules));
            let r = s[i].custom->0@;
            assert(rule_at(rules, (t, s[i].address)) == Some(r));
            lemma_rule_at_listed(rules, x.0, r);
            let k = choose|k: int| 0 <= k < rules.len() && rules[k] == (x.0, r);
            assert(rules[k].1.address == rules[k].0.1);
            assert(placed_rule(s[i].address, r) == r);
            assert(x.0 == (t, s[i].address));
        }
        if x.0.0 == t && rules.contains(x) {
            assert(in_views((t, x.0.1), pins, labels, rules));
            let i = choose|i: int| 0 <= i < s.len() && (#[trigger] s[i]).address == x.0.1;
            assert(s[i]@ == entry_for((t, s[i].address), pins, labels, rules));
            assert(x.0 == (t, s[i].address));
            let k = choose|k: int| 0 <= k < rules.len() && rules[k] == x;
            assert(rules[k].1.address == rules[k].0.1);
            assert(placed_rule(s[i].address, x.1) == x.1);
        }
    }
    assert forall|k: int| 0 <= k < out.len() implies type_rank(t) * 0x1_0000 <= #[trigger] rule_key()(out[k])
        < (type_rank(t) + 1) * 0x1_0000 by {
        assert(out.contains(out[k]));
    }
}

/// Reading the pinned registers, the labels and the rules back out of the
/// entries that views make gives those views again, where the views list
/// each register once, in register order, and each rule sits at its
/// register's address.
pub proof fn lemma_views_round_trip(
    r: &Registers,
    pins: Seq<RegisterCell>,
    labels: Seq<(RegisterCell, Seq<char>)>,
    rules: Seq<(RegisterCell, CustomRuleView)>,
)
    requires
        registers_from_views(r, pins, labels, rules),
        keys_increase(pins, pin_key()),
        keys_increase(labels, label_key()),
        keys_increase(rules, rule_key()),
        forall|k: int| 0 <= k < rules.len() ==> (#[trigger] rules[k]).1.address == rules[k].0.1,
    ensures
        pins_view(r) == pins,
        labels_view(r) == labels,
        rules_view(r) == rules,
{
    let h = RegisterType::Holding;
    let i = RegisterType::Input;
    let c = RegisterType::Coil;
    let d = RegisterType::Discrete;
    lemma_pins_of_section(h, r.holdings@, pins, labels, rules);
    lemma_pins_of_section(i, r.inputs@, pins, labels, rules);
    lemma_pins_of_section(c, r.coils@, pins, labels, rules);
    lemma_pins_of_section(d, r.discretes@, pins, labels, rules);
    lemma_labels_of_section(h, r.holdings@, pins, labels, rules);
    lemma_labels_of_section(i, r.inputs@, pins, labels, rules);
    lemma_labels_of_section(c, r.coils@, pins, labels, rules);
    lemma_labels_of_section(d, r.discretes@, pins, labels, rules);
    lemma_rules_of_section(h, r.holdings@, pins, labels, rules);
    lemma_rules_of_section(i, r.inputs@, pins, labels, rules);
    lemma_rules_of_section(c, r.coils@, pins, labels, rules);
    lemma_rules_of_section(d, r.discretes@, pins, labels, rules);

    let (ph, pi, pc, pd) = (
        section_pins(h, r.holdings@),
        section_pins(i, r.inputs@),
        section_pins(c, r.coils@),
        section_pins(d, r.discretes@),
    );
    lemma_bands_increase(ph, pi, pc, pd, pin_key());
    assert forall|x: RegisterCell| pins_view(r).contains(x) <==> pins.contains(x) by {
        lemma_add_contains(ph + pi + pc, pd, x);
        lemma_add_contains(ph + pi, pc, x);
        lemma_add_contains(ph, pi, x);
        assert(ph.contains(x) ==> x.0 == h);
    }
    lemma_sorted_eq(pins_view(r), pins, pin_key());

    let (lh, li, lc, ld) = (
        section_labels(h, r.holdings@),
        section_labels(i, r.inputs@),
        section_labels(c, r.coils@),
        section_labels(d, r.discretes@),
    );
    lemma_bands_increase(lh, li, lc, ld, label_key());
    assert forall|x: (RegisterCell, Seq<char>)| labels_view(r).contains(x) <==> labels.contains(x) by {
        lemma_add_contains(lh + li + lc, ld, x);
        lemma_add_contains(lh + li, lc, x);
        lemma_add_contains(lh, li, x);
    }
    lemma_sorted_eq(labels_view(r), labels, label_key());

    let (rh, ri, rc, rd) = (
        section_rules(h, r.holdings@),
        section_rules(i, r.inputs@),
        section_rules(c, r.coils@),
        section_rules(d, r.discretes@),
    );
    lemma_bands_increase(rh, ri, rc, rd, rule_key());
    assert forall|x: (RegisterCell, CustomRuleView)| rules_view(r).contains(x) <==> rules.contains(x) by {
        lemma_add_contains(rh + ri + rc, rd, x);
        lemma_add_contains(rh + ri, rc, x);
        lemma_add_contains(rh, ri, x);
    }
    lemma_sorted_eq(rules_view(r), rules, rule_key());
}

} // verus!
