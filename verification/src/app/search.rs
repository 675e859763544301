use vstd::prelude::*;
use crate::parse::parse_unsigned;
use crate::parse;
use crate::app::{fuzzy_rank, is_ranking, label_scores, spec_fuzzy_score};
use crate::config::registers::{label_at, labels_of};
use crate::register::{same_cell, spec_type_name, RegisterCell, RegisterType};
use crate::state::{spec_scroll, ReadPanel, ReadParams, SearchMatch, SearchParams};
use crate::text::{chars_of, push_char, push_decimal, push_str, string_of, trim_bounds};
use crate::text;

verus! {

/// The digits and base of an address: hexadecimal after an `x`, `X`, `0x`
/// or `0X` prefix, decimal otherwise.
pub open spec fn spec_address_digits(t: Seq<char>) -> (Seq<char>, nat) {
    if t.len() > 0 && (t[0] == 'x' || t[0] == 'X') {
        (t.drop_first(), 16)
    } else if t.len() >= 2 && t[0] == '0' && (t[1] == 'x' || t[1] == 'X') {
        (t.skip(2), 16)
    } else {
        (t, 10)
    }
}

/// The address `s` names, trimmed; numbers past the address range name the
/// last address.
pub open spec fn spec_parse_address(s: Seq<char>) -> Option<u16> {
    let (digits, radix) = spec_address_digits(text::trim(s));
    match parse::spec_parse_unsigned(digits, radix, u32::MAX as nat) {
        Some(v) => Some(vstd::math::min(v as int, u16::MAX as int) as u16),
        None => None,
    }
}

/// Where a go-to query leads from `current`, with the hint shown for it: a
/// `+` or `-` moves by an address offset, clamped to the address range;
/// anything else is an address to jump to.
pub open spec fn spec_parse_target(s: Seq<char>, current: u16) -> Option<(u16, Seq<char>)> {
    let t = text::trim(s);
    if t.len() > 0 && (t[0] == '+' || t[0] == '-') {
        match spec_parse_address(t.drop_first()) {
            Some(offset) => {
                let up = t[0] == '+';
                let target = if up {
                    current + offset
                } else {
                    current - offset
                };
                Some(
                    (
                        vstd::math::min(vstd::math::max(target, 0), u16::MAX as int) as u16,
                        "move by "@ + seq![t[0]] + text::dec(offset as nat),
                    ),
                )
            },
            None => None,
        }
    } else {
        match spec_parse_address(s) {
            Some(a) => Some((a, "jump to this address"@)),
            None => None,
        }
    }
}

fn parse_address_chars(cs: &[char]) -> (r: Option<u16>)
    ensures
        r == spec_parse_address(cs@),
{
    let (lo, hi) = trim_bounds(cs);
    let ghost t = cs@.subrange(lo as int, hi as int);
    let mut digits: Vec<char> = Vec::new();
    let (from, radix) = if hi > lo && (cs[lo] == 'x' || cs[lo] == 'X') {
        (lo + 1, 16u32)
    } else if hi - lo >= 2 && cs[lo] == '0' && (cs[lo + 1] == 'x' || cs[lo + 1] == 'X') {
        (lo + 2, 16u32)
    } else {
        (lo, 10u32)
    };
    let mut i = from;
    while i < hi
        invariant
            lo <= from <= i <= hi <= cs@.len(),
            digits@ == cs@.subrange(from as int, i as int),
        decreases hi - i,
    {
        digits.push(cs[i]);
        i += 1;
        assert(digits@ =~= cs@.subrange(from as int, i as int));
    }
    proof {
        let (d, rdx) = spec_address_digits(t);
        assert(d =~= digits@);
        assert(rdx == radix);
    }
    match parse_unsigned(digits.as_slice(), radix, u32::MAX as u64) {
        Some(v) => Some(if v > u16::MAX as u64 {
            u16::MAX
        } else {
            v as u16
        }),
        None => None,
    }
}

/// The address a go-to query names.
pub fn parse_address(input: &str) -> (r: Option<u16>)
    ensures
        r == spec_parse_address(input@),
{
    let cs = chars_of(input);
    parse_address_chars(cs.as_slice())
}

/// Where a go-to query leads from `current`, and the hint to show for it.
pub fn parse_target(input: &str, current: u16) -> (r: Option<(u16, String)>)
    ensures
        spec_parse_target(input@, current) is None ==> r is None,
        spec_parse_target(input@, current) matches Some((a, h)) ==> (r matches Some((b, g)) && b
            == a && g@ == h),
{
    let cs = chars_of(input);
    let (lo, hi) = trim_bounds(cs.as_slice());
    let ghost t = cs@.subrange(lo as int, hi as int);
    assert(t == text::trim(input@));
    if hi > lo && (cs[lo] == '+' || cs[lo] == '-') {
        let sign = cs[lo];
        assert(t.len() > 0 && t[0] == sign);
        let mut rest: Vec<char> = Vec::new();
        let mut i = lo + 1;
        while i < hi
            invariant
                lo < i <= hi <= cs@.len(),
                rest@ == cs@.subrange(lo + 1, i as int),
            decreases hi - i,
        {
            rest.push(cs[i]);
            i += 1;
            assert(rest@ =~= cs@.subrange(lo + 1, i as int));
        }
        assert(rest@ =~= t.drop_first());
        let offset = match parse_address_chars(rest.as_slice()) {
            Some(o) => o,
            None => return None,
        };
        let target: u16 = if sign == '+' {
            if current as u32 + offset as u32 > u16::MAX as u32 {
                u16::MAX
            } else {
                current + offset
            }
        } else {
            if current >= offset {
                current - offset
            } else {
                0
            }
        };
        let mut hint = String::new();
        push_str(&mut hint, "move by ");
        push_char(&mut hint, sign);
        push_decimal(&mut hint, offset as u64);
        proof {
            assert(hint@ =~= "move by "@ + seq![t[0]] + text::dec(offset as nat));
            assert(spec_parse_address(t.drop_first()) == Some(offset));
            let up = t[0] == '+';
            let tgt = if up { current + offset } else { current - offset };
            assert(target as int == vstd::math::min(vstd::math::max(tgt, 0), u16::MAX as int));
            assert(spec_parse_target(input@, current) == Some((target, hint@)));
        }
        Some((target, hint))
    } else {
        assert(!(t.len() > 0 && (t[0] == '+' || t[0] == '-')));
        match parse_address_chars(cs.as_slice()) {
            Some(a) => {
                let mut hint = String::new();
                push_str(&mut hint, "jump to this address");
                assert(spec_parse_address(input@) == Some(a));
                assert(spec_parse_target(input@, current) == Some((a, hint@)));
                Some((a, hint))
            },
            None => None,
        }
    }
}

/// The register type a search query names by its first letter (`h`, `i`,
/// `c` or `d`, in either case), with the rest of the query; without one, the
/// current type and the whole query.
pub open spec fn query_kind(q: Seq<char>, current: RegisterType) -> (RegisterType, Seq<char>) {
    if q.len() > 0 && (q[0] == 'h' || q[0] == 'H') {
        (RegisterType::Holding, q.drop_first())
    } else if q.len() > 0 && (q[0] == 'i' || q[0] == 'I') {
        (RegisterType::Input, q.drop_first())
    } else if q.len() > 0 && (q[0] == 'c' || q[0] == 'C') {
        (RegisterType::Coil, q.drop_first())
    } else if q.len() > 0 && (q[0] == 'd' || q[0] == 'D') {
        (RegisterType::Discrete, q.drop_first())
    } else {
        (current, q)
    }
}

/// A search query that starts with the first letter of a register
/// type's name, in either case, targets that type with the rest of the
/// query; a query that starts with no such letter keeps the current type.
pub proof fn lemma_query_letter_names_type(q: Seq<char>, current: RegisterType, t: RegisterType)
    ensures
        q.len() > 0 && text::ascii_lower(q[0]) == text::ascii_lower(spec_type_name(t)[0]) ==> query_kind(q, current)
            == (t, q.drop_first()),
        (q.len() == 0 || forall|u: RegisterType| text::ascii_lower(q[0]) != text::ascii_lower(#[trigger] spec_type_name(u)[0]))
            ==> query_kind(q, current) == (current, q),
{
    reveal_strlit("Holding");
    reveal_strlit("Input");
    reveal_strlit("Coil");
    reveal_strlit("Discrete");
    if q.len() > 0 {
        assert(spec_type_name(RegisterType::Holding)[0] == 'H');
        assert(spec_type_name(RegisterType::Input)[0] == 'I');
        assert(spec_type_name(RegisterType::Coil)[0] == 'C');
        assert(spec_type_name(RegisterType::Discrete)[0] == 'D');
        let c = q[0];
        assert(text::ascii_lower('H') == 'h');
        assert(text::ascii_lower('I') == 'i');
        assert(text::ascii_lower('C') == 'c');
        assert(text::ascii_lower('D') == 'd');
        assert(text::ascii_lower(c) == 'h' <==> (c == 'h' || c == 'H'));
        assert(text::ascii_lower(c) == 'i' <==> (c == 'i' || c == 'I'));
        assert(text::ascii_lower(c) == 'c' <==> (c == 'c' || c == 'C'));
        assert(text::ascii_lower(c) == 'd' <==> (c == 'd' || c == 'D'));
    }
}

/// The register a search query leads to from `current`, if it names one.
pub open spec fn search_target(q: Seq<char>, current: RegisterCell) -> Option<RegisterCell> {
    let (t, rest) = query_kind(q, current.0);
    match spec_parse_target(rest, current.1) {
        Some((a, _)) => Some((t, a)),
        None => None,
    }
}

/// The labels other than the one of `target`, in order.
pub open spec fn other_labels(labels: Seq<(RegisterCell, Seq<char>)>, target: Option<RegisterCell>) -> Seq<
    (RegisterCell, Seq<char>),
>
    decreases labels.len(),
{
    if labels.len() == 0 {
        labels
    } else {
        let rest = other_labels(labels.drop_last(), target);
        if Some(labels.last().0) == target {
            rest
        } else {
            rest.push(labels.last())
        }
    }
}

/// The scores of labels against a query.
pub open spec fn scores_of(q: Seq<char>, labels: Seq<(RegisterCell, Seq<char>)>) -> Seq<Option<int>> {
    labels.map_values(|x: (RegisterCell, Seq<char>)| spec_fuzzy_score(q, x.1))
}

/// The labels at positions `picks`, as search matches.
fn label_matches(labels: &[(RegisterCell, String)], picks: &[usize]) -> (r: Vec<SearchMatch>)
    requires
        forall|k: int| 0 <= k < picks@.len() ==> #[trigger] picks@[k] < labels@.len(),
    ensures
        r@.len() == picks@.len(),
        forall|k: int|
            0 <= k < picks@.len() ==> (#[trigger] r@[k]).cell == labels@[picks@[k] as int].0 && r@[k].text@
                == labels@[picks@[k] as int].1@ && r@[k].labeled,
{
    let mut out: Vec<SearchMatch> = Vec::new();
    let mut k: usize = 0;
    while k < picks.len()
        invariant
            k <= picks@.len(),
            out@.len() == k,
            forall|m: int| 0 <= m < picks@.len() ==> #[trigger] picks@[m] < labels@.len(),
            forall|m: int|
                0 <= m < k ==> (#[trigger] out@[m]).cell == labels@[picks@[m] as int].0 && out@[m].text@
                    == labels@[picks@[m] as int].1@ && out@[m].labeled,
        decreases picks@.len() - k,
    {
        let j = picks[k];
        out.push(SearchMatch::label(labels[j].0, labels[j].1.clone()));
        k += 1;
    }
    out
}

/// The search results for `query` with the cursor at `current`: first the
/// register the query names as an address or a move, if it does (with its
/// label, or the hint); then every other label that fuzzily matches the
/// query, best first, in list order among equal scores.
#[verifier::spinoff_prover]
#[verifier::rlimit(50)]
pub fn search_matches(query: &str, current: RegisterCell, labels: &[(RegisterCell, String)]) -> (r: Vec<
    SearchMatch,
>)
    requires
        forall|i: int| 0 <= i < labels@.len() ==> (#[trigger] labels@[i]).1@.len() < 0x1000_0000,
    ensures
        ({
            let q = query@;
            let (t, rest) = query_kind(q, current.0);
            let target = spec_parse_target(rest, current.1);
            let lv = labels_of(labels@);
            let others = other_labels(lv, search_target(q, current));
            let head: int = if target is Some {
                1
            } else {
                0
            };
            &&& (target matches Some((a, hint)) ==> r@[0].cell == (t, a) && (match label_at(lv, (t, a)) {
                Some(text) => r@[0].labeled && r@[0].text@ == text,
                None => !r@[0].labeled && r@[0].text@ == hint,
            }))
            &&& exists|idx: Seq<int>|
                is_ranking(scores_of(q, others), idx) && r@.len() == head + idx.len() && forall|k: int|
                    0 <= k < idx.len() ==> (#[trigger] r@[head + k]).cell == others[idx[k]].0
                        && r@[head + k].text@ == others[idx[k]].1 && r@[head + k].labeled
        }),
{
    let cs = chars_of(query);
    let first_kind: Option<RegisterType> = if cs.len() == 0 {
        None
    } else if cs[0] == 'h' || cs[0] == 'H' {
        Some(RegisterType::Holding)
    } else if cs[0] == 'i' || cs[0] == 'I' {
        Some(RegisterType::Input)
    } else if cs[0] == 'c' || cs[0] == 'C' {
        Some(RegisterType::Coil)
    } else if cs[0] == 'd' || cs[0] == 'D' {
        Some(RegisterType::Discrete)
    } else {
        None
    };
    let (register_type, numeric) = match first_kind {
        Some(t) => (t, string_of(cs.as_slice(), 1, cs.len())),
        None => (current.0, string_of(cs.as_slice(), 0, cs.len())),
    };
    proof {
        let (t, rest) = query_kind(query@, current.0);
        if first_kind is Some {
            assert(numeric@ =~= query@.drop_first());
        } else {
            assert(numeric@ =~= query@);
        }
        assert(register_type == t && numeric@ == rest);
    }
    let ghost lv = labels_of(labels@);
    let mut matches: Vec<SearchMatch> = Vec::new();
    let target: Option<RegisterCell> = match parse_target(numeric.as_str(), current.1) {
        Some((address, hint)) => {
            let cell = (register_type, address);
            let mut found: Option<usize> = None;
            let mut i: usize = 0;
            while i < labels.len()
                invariant
                    i <= labels@.len(),
                    lv == labels_of(labels@),
                    found matches Some(j) ==> j < i && label_at(lv.take(i as int), cell) == Some(lv[j as int].1)
                        && lv[j as int].0 == cell,
                    found is None ==> label_at(lv.take(i as int), cell) is None,
                decreases labels@.len() - i,
            {
                proof {
                    assert(lv.take(i + 1).drop_last() =~= lv.take(i as int));
                }
                if same_cell(labels[i].0, cell) {
                    found = Some(i);
                }
                i += 1;
            }
            assert(lv.take(labels@.len() as int) =~= lv);
            match found {
                Some(j) => matches.push(SearchMatch::label(cell, labels[j].1.clone())),
                None => matches.push(SearchMatch::hint(cell, hint)),
            }
            Some(cell)
        },
        None => None,
    };
    assert(target == search_target(query@, current));
    let ghost head = matches@.len() as int;
    let ghost first = matches@;
    let mut keep: Vec<usize> = Vec::new();
    let mut texts: Vec<&str> = Vec::new();
    let mut i: usize = 0;
    while i < labels.len()
        invariant
            i <= labels@.len(),
            lv == labels_of(labels@),
            keep@.len() == texts@.len(),
            keep@.len() == other_labels(lv.take(i as int), target).len(),
            forall|m: int| 0 <= m < keep@.len() ==> #[trigger] keep@[m] < labels@.len()
                && lv[keep@[m] as int] == other_labels(lv.take(i as int), target)[m]
                && texts@[m]@ == lv[keep@[m] as int].1,
            forall|m: int| 0 <= m < texts@.len() ==> (#[trigger] texts@[m])@.len() < 0x1000_0000,
            forall|m: int| 0 <= m < labels@.len() ==> (#[trigger] labels@[m]).1@.len() < 0x1000_0000,
        decreases labels@.len() - i,
    {
        proof {
            assert(lv.take(i + 1).drop_last() =~= lv.take(i as int));
        }
        let same = match target {
            Some(c) => same_cell(labels[i].0, c),
            None => false,
        };
        if !same {
            keep.push(i);
            texts.push(labels[i].1.as_str());
        }
        i += 1;
    }
    assert(lv.take(labels@.len() as int) =~= lv);
    let ghost others = other_labels(lv, target);
    assert forall|m: int| 0 <= m < texts@.len() implies #[trigger] label_scores(query@, texts@)[m] == scores_of(
        query@,
        others,
    )[m] by {
        assert(texts@[m]@ == lv[keep@[m] as int].1);
    }
    assert(label_scores(query@, texts@) =~= scores_of(query@, others));
    let ranked = fuzzy_rank(query, keep.as_slice(), texts.as_slice());
    let ghost idx = choose|idx: Seq<int>|
        is_ranking(label_scores(query@, texts@), idx) && ranked@.len() == idx.len() && (forall|k: int|
            0 <= k < idx.len() ==> #[trigger] ranked@[k] == keep@[idx[k]]);
    let mut tail = label_matches(labels, ranked.as_slice());
    let ghost before = matches@;
    let ghost tail_v = tail@;
    matches.append(&mut tail);
    proof {
        assert forall|n: int| 0 <= n < idx.len() implies (#[trigger] matches@[head + n]).cell == others[idx[n]].0
            && matches@[head + n].text@ == others[idx[n]].1 && matches@[head + n].labeled by {
            assert(matches@ == before + tail_v);
            assert(matches@[head + n] == tail_v[n]);
            let j = ranked@[n];
            assert(j == keep@[idx[n]]);
            assert(0 <= idx[n] < others.len());
            assert(lv[j as int] == others[idx[n]]);
        }
        if head == 1 {
            assert(matches@[0] == first[0]);
        }
    }
    matches
}

impl SearchParams {
    /// Shows `matches`, the first one selected and in view.
    pub fn show(&mut self, matches: Vec<SearchMatch>, rows: u16)
        ensures
            final(self).matches == matches,
            (final(self).selected, final(self).top) == spec_scroll(0, 0, rows, matches@.len() as u16),
            final(self).query == old(self).query,
    {
        self.matches = matches;
        self.selected = 0;
        self.top = 0;
        self.scroll(rows);
    }

    /// Moves the selection one match up or down, keeping it in view.
    pub fn move_selection(&mut self, down: bool, rows: u16)
        ensures
            (final(self).selected, final(self).top) == spec_scroll(
                (if down {
                    vstd::math::min(old(self).selected + 1, u16::MAX as int)
                } else {
                    vstd::math::max(old(self).selected - 1, 0)
                }) as u16,
                old(self).top,
                rows,
                old(self).matches@.len() as u16,
            ),
            final(self).matches == old(self).matches && final(self).query == old(self).query,
    {
        self.selected = if down {
            self.selected.saturating_add(1)
        } else {
            self.selected.saturating_sub(1)
        };
        self.scroll(rows);
    }

    /// The register of the selected match, if a match is selected.
    pub fn selected_cell(&self) -> (r: Option<RegisterCell>)
        ensures
            r == (if (self.selected as int) < self.matches@.len() {
                Some(self.matches@[self.selected as int].cell)
            } else {
                None
            }),
    {
        if (self.selected as usize) < self.matches.len() {
            Some(self.matches[self.selected as usize].cell)
        } else {
            None
        }
    }
}

impl ReadParams {
    /// Puts the cursor on `cell`, out of a list panel into the main one,
    /// and scrolls it into view. Tells whether the register type changed.
    pub fn jump_to(&mut self, cell: RegisterCell, rows: u16, matrix_cols: u16) -> (type_changed: bool)
        ensures
            type_changed == (cell.0 != old(self).register_type),
            final(self).register_type == cell.0,
            final(self).position == cell.1,
            final(self).panel == (if old(self).panel == ReadPanel::Matrix {
                ReadPanel::Matrix
            } else {
                ReadPanel::Main
            }),
            final(self).window_start == crate::state::spec_window_start(
                cell.1,
                rows,
                final(self).panel == ReadPanel::Matrix,
                matrix_cols,
            ),
            final(self).popup == old(self).popup,
    {
        let type_changed = cell.0 != self.register_type;
        if self.panel != ReadPanel::Matrix {
            self.panel = ReadPanel::Main;
        }
        self.register_type = cell.0;
        self.position = cell.1;
        self.scroll_to_cursor(rows, matrix_cols);
        type_changed
    }
}

} // verus!
