use vstd::prelude::*;
use crate::config::{spec_panel_enabled, BatchAnchor, CyclePanels};
use crate::app::label::{entry_at, find_cell, keyed_sorted, lemma_entry_at_found, lemma_entry_at_missing};
use crate::app::pin::{cells_strictly_sorted, dedup_cells, sort_cells};
use crate::config::registers::lemma_add_contains;
use crate::custom::{spec_register_count, spec_word_addresses, CustomRule};
use crate::register::{same_cell, RegisterCell, RegisterType};
use crate::state::{ReadPanel, ReadParams};

verus! {

broadcast use vstd::seq_lib::group_to_multiset_ensures;

/// Columns taken by the address prefix of a Matrix row.
pub const MATRIX_PREFIX_W: u16 = 7;

/// Columns taken by one Matrix cell.
pub const MATRIX_CELL_W: u16 = 6;

/// How many Matrix cells fit in `width` columns, and at least one.
pub fn fit_matrix_cols(width: u16) -> (r: u16)
    ensures
        r == vstd::math::max(
            (if width >= MATRIX_PREFIX_W {
                width - MATRIX_PREFIX_W
            } else {
                0
            }) / (MATRIX_CELL_W as int),
            1,
        ),
        r >= 1,
{
    let free = if width >= MATRIX_PREFIX_W {
        width - MATRIX_PREFIX_W
    } else {
        0
    };
    let cols = free / MATRIX_CELL_W;
    if cols >= 1 {
        cols
    } else {
        1
    }
}

/// The cursor moved by `step` rows, up or down, stopping at the ends of the
/// address range.
pub fn step_pos(value: u16, up: bool, step: u16) -> (r: u16)
    ensures
        r == (if up {
            vstd::math::max(value - step, 0)
        } else {
            vstd::math::min(value + step, u16::MAX as int)
        }),
{
    if up {
        if value >= step {
            value - step
        } else {
            0
        }
    } else {
        if value as u32 + step as u32 <= u16::MAX as u32 {
            value + step
        } else {
            u16::MAX
        }
    }
}

/// Sum of `costs[lo..hi]`.
pub open spec fn range_cost(costs: Seq<usize>, lo: int, hi: int) -> int
    decreases hi - lo,
{
    if lo >= hi {
        0
    } else {
        costs[lo] + range_cost(costs, lo + 1, hi)
    }
}

/// The window `[start, end)` grows one register at a time, each time by a
/// neighbour whose cost fits in what is `left` of the budget: the only one
/// that fits, or, where both fit, the one the anchor picks (`Middle`
/// alternates, starting before the cursor).
pub open spec fn grow_window(
    costs: Seq<usize>,
    start: int,
    end: int,
    left: int,
    prefer_before: bool,
    anchor: BatchAnchor,
) -> (int, int)
    decreases costs.len() - (end - start),
{
    if !(0 <= start < end <= costs.len()) {
        (start, end)
    } else {
        let before = start > 0 && costs[start - 1] <= left;
        let after = end < costs.len() && costs[end] <= left;
        if !before && !after {
            (start, end)
        } else {
            let grow_before = if before && after {
                match anchor {
                    BatchAnchor::Start => false,
                    BatchAnchor::End => true,
                    BatchAnchor::Middle => prefer_before,
                }
            } else {
                before
            };
            let prefer_next = if before && after && anchor == BatchAnchor::Middle {
                !prefer_before
            } else {
                prefer_before
            };
            if grow_before {
                grow_window(costs, start - 1, end, left - costs[start - 1], prefer_next, anchor)
            } else {
                grow_window(costs, start, end + 1, left - costs[end], prefer_next, anchor)
            }
        }
    }
}

/// The part of the budget left once the cursor's own register is paid for.
pub open spec fn initial_left(costs: Seq<usize>, pos: int, budget: int) -> int {
    if budget >= costs[pos] {
        budget - costs[pos]
    } else {
        0
    }
}

proof fn lemma_range_cost_push(costs: Seq<usize>, lo: int, hi: int)
    requires
        lo <= hi,
    ensures
        range_cost(costs, lo, hi + 1) == range_cost(costs, lo, hi) + costs[hi],
    decreases hi - lo,
{
    if lo < hi {
        lemma_range_cost_push(costs, lo + 1, hi);
    } else {
        assert(range_cost(costs, hi + 1, hi + 1) == 0);
    }
}

/// The range `[start, end)` of registers read around `pos`: it starts as the
/// cursor alone and grows register by register while the costs of the
/// added registers fit in what the cursor leaves of `budget`.
pub fn sized_window(costs: &[usize], pos: usize, budget: usize, anchor: BatchAnchor) -> (r: (
    usize,
    usize,
))
    requires
        pos < costs@.len(),
    ensures
        (r.0 as int, r.1 as int) == grow_window(
            costs@,
            pos as int,
            pos + 1,
            initial_left(costs@, pos as int, budget as int),
            true,
            anchor,
        ),
        r.0 <= pos < r.1 <= costs@.len(),
        range_cost(costs@, r.0 as int, r.1 as int) - costs@[pos as int] <= initial_left(
            costs@,
            pos as int,
            budget as int,
        ),
        r.0 == 0 || range_cost(costs@, r.0 as int, r.1 as int) - costs@[pos as int]
            + costs@[r.0 - 1] > initial_left(costs@, pos as int, budget as int),
        r.1 == costs@.len() || range_cost(costs@, r.0 as int, r.1 as int) - costs@[pos as int]
            + costs@[r.1 as int] > initial_left(costs@, pos as int, budget as int),
{
    let n = costs.len();
    let mut start = pos;
    let mut end = pos + 1;
    let mut left: usize = if budget >= costs[pos] {
        budget - costs[pos]
    } else {
        0
    };
    let mut prefer_before = true;
    let ghost left0 = left as int;
    proof {
        reveal_with_fuel(range_cost, 2);
    }
    loop
        invariant
            n == costs@.len(),
            0 <= start <= pos < end <= n,
            left0 == initial_left(costs@, pos as int, budget as int),
            range_cost(costs@, start as int, end as int) - costs@[pos as int] + left == left0,
            grow_window(costs@, start as int, end as int, left as int, prefer_before, anchor)
                == grow_window(costs@, pos as int, pos + 1, left0, true, anchor),
        ensures
            0 <= start <= pos < end <= n,
            range_cost(costs@, start as int, end as int) - costs@[pos as int] + left == left0,
            (start as int, end as int) == grow_window(costs@, pos as int, pos + 1, left0, true, anchor),
            start == 0 || costs@[start - 1] > left,
            end == n || costs@[end as int] > left,
        decreases n - (end - start),
    {
        let before = start > 0 && costs[start - 1] <= left;
        let after = end < n && costs[end] <= left;
        if !before && !after {
            break;
        }
        let grow_before = if before && after {
            match anchor {
                BatchAnchor::Start => false,
                BatchAnchor::End => true,
                BatchAnchor::Middle => {
                    let g = prefer_before;
                    prefer_before = !prefer_before;
                    g
                },
            }
        } else {
            before
        };
        if grow_before {
            proof {
                assert(range_cost(costs@, start - 1, end as int) == costs@[start - 1] + range_cost(
                    costs@,
                    start as int,
                    end as int,
                ));
            }
            left = left - costs[start - 1];
            start = start - 1;
        } else {
            proof {
                lemma_range_cost_push(costs@, start as int, end as int);
            }
            left = left - costs[end];
            end = end + 1;
        }
    }
    (start, end)
}

/// The cells of type `t` in `s`, in order.
pub open spec fn cells_of_type(s: Seq<RegisterCell>, t: RegisterType) -> Seq<RegisterCell>
    decreases s.len(),
{
    if s.len() == 0 {
        s
    } else {
        let rest = cells_of_type(s.drop_last(), t);
        if s.last().0 == t {
            rest.push(s.last())
        } else {
            rest
        }
    }
}

/// Picks the cells of type `t`.
pub fn cells_of(cells: &[RegisterCell], t: RegisterType) -> (r: Vec<RegisterCell>)
    ensures
        r@ == cells_of_type(cells@, t),
{
    let mut out: Vec<RegisterCell> = Vec::new();
    let mut i: usize = 0;
    while i < cells.len()
        invariant
            i <= cells@.len(),
            out@ == cells_of_type(cells@.take(i as int), t),
        decreases cells@.len() - i,
    {
        proof {
            assert(cells@.take(i + 1).drop_last() == cells@.take(i as int));
        }
        if cells[i].0 == t {
            out.push(cells[i]);
        }
        i += 1;
    }
    assert(cells@.take(cells@.len() as int) == cells@);
    out
}

/// The cells a list panel shows out of `all`: every one, or those of the
/// current type where panels follow it.
pub fn panel_cells(all: &[RegisterCell], follow_type: bool, current: RegisterType) -> (r: Vec<RegisterCell>)
    ensures
        r@ == (if follow_type {
            cells_of_type(all@, current)
        } else {
            all@
        }),
{
    if follow_type {
        cells_of(all, current)
    } else {
        let mut out: Vec<RegisterCell> = Vec::new();
        let mut i: usize = 0;
        while i < all.len()
            invariant
                i <= all@.len(),
                out@ == all@.take(i as int),
            decreases all@.len() - i,
        {
            out.push(all[i]);
            i += 1;
        }
        assert(all@.take(all@.len() as int) == all@);
        out
    }
}

/// Whether the panel is empty only because it follows the register type.
pub fn panel_hidden_by_type(all: &[RegisterCell], follow_type: bool, current: RegisterType) -> (r: bool)
    ensures
        r == (follow_type && cells_of_type(all@, current).len() == 0 && all@.len() > 0),
{
    follow_type && cells_of(all, current).len() == 0 && all.len() > 0
}

/// How many register types occur in `cells`.
pub open spec fn types_present(cells: Seq<RegisterCell>) -> int {
    (if cells_of_type(cells, RegisterType::Holding).len() > 0 { 1int } else { 0 }) + (if cells_of_type(
        cells,
        RegisterType::Input,
    ).len() > 0 {
        1int
    } else {
        0
    }) + (if cells_of_type(cells, RegisterType::Coil).len() > 0 { 1int } else { 0 }) + (if cells_of_type(
        cells,
        RegisterType::Discrete,
    ).len() > 0 {
        1int
    } else {
        0
    })
}

/// The break lines a list panel draws between its groups of types.
pub fn panel_group_breaks(cells: &[RegisterCell]) -> (r: u16)
    ensures
        r == vstd::math::max(types_present(cells@) - 1, 0),
{
    let mut present: u16 = 0;
    if cells_of(cells, RegisterType::Holding).len() > 0 {
        present += 1;
    }
    if cells_of(cells, RegisterType::Input).len() > 0 {
        present += 1;
    }
    if cells_of(cells, RegisterType::Coil).len() > 0 {
        present += 1;
    }
    if cells_of(cells, RegisterType::Discrete).len() > 0 {
        present += 1;
    }
    present.saturating_sub(1)
}

/// The rows a list panel scrolls by: the visible rows less its break
/// lines, at least one.
pub fn panel_scroll_rows(visible_rows: u16, breaks: u16) -> (r: u16)
    ensures
        r == vstd::math::max(visible_rows - breaks, 1),
{
    let rows = visible_rows.saturating_sub(breaks);
    if rows >= 1 {
        rows
    } else {
        1
    }
}

/// The panel after `p` in the panel order.
pub open spec fn panel_after(p: ReadPanel) -> ReadPanel {
    match p {
        ReadPanel::Main => ReadPanel::Pinned,
        ReadPanel::Pinned => ReadPanel::Labeled,
        ReadPanel::Labeled => ReadPanel::Custom,
        ReadPanel::Custom => ReadPanel::Matrix,
        ReadPanel::Matrix => ReadPanel::Main,
    }
}

/// The first panel the panel key cycles to from `p`, looking at most
/// `steps` panels ahead (the last one looked at where none is cycled
/// through).
pub open spec fn next_enabled_panel(c: CyclePanels, p: ReadPanel, steps: nat) -> ReadPanel
    decreases steps,
{
    if steps == 0 {
        p
    } else if spec_panel_enabled(c, panel_after(p)) {
        panel_after(p)
    } else {
        next_enabled_panel(c, panel_after(p), (steps - 1) as nat)
    }
}

/// The panel the panel key moves to: the next one cycled through.
pub fn next_panel(c: &CyclePanels, current: ReadPanel) -> (r: ReadPanel)
    ensures
        r == next_enabled_panel(*c, current, 5),
        spec_panel_enabled(*c, r),
{
    let mut next = current;
    let mut k: usize = 0;
    while k < 5
        invariant
            k <= 5,
            next_enabled_panel(*c, next, (5 - k) as nat) == next_enabled_panel(*c, current, 5),
        decreases 5 - k,
    {
        let after = match next {
            ReadPanel::Main => ReadPanel::Pinned,
            ReadPanel::Pinned => ReadPanel::Labeled,
            ReadPanel::Labeled => ReadPanel::Custom,
            ReadPanel::Custom => ReadPanel::Matrix,
            ReadPanel::Matrix => ReadPanel::Main,
        };
        if c.enabled(after) {
            return after;
        }
        next = after;
        k += 1;
    }
    proof {
        assert(next_enabled_panel(*c, current, 5) == next_enabled_panel(*c, next, 0));
        reveal_with_fuel(next_enabled_panel, 6);
    }
    next
}

/// The register the cursor is on: in the main and matrix panels the read
/// position; in a list panel the listed register it selects, or the read
/// position past the end of the list.
pub fn cursor_cell(read: &ReadParams, cells: &[RegisterCell]) -> (r: RegisterCell)
    ensures
        r == (if read.panel == ReadPanel::Main || read.panel == ReadPanel::Matrix {
            (read.register_type, read.position)
        } else if (read.pinned_index as int) < cells@.len() {
            cells@[read.pinned_index as int]
        } else {
            (read.register_type, read.position)
        }),
{
    match read.panel {
        ReadPanel::Main | ReadPanel::Matrix => (read.register_type, read.position),
        _ => if (read.pinned_index as usize) < cells.len() {
            cells[read.pinned_index as usize]
        } else {
            (read.register_type, read.position)
        },
    }
}

/// Where `c` is in `s`: its first index, or 0 where it is not there.
pub open spec fn position_in(s: Seq<RegisterCell>, c: RegisterCell) -> int {
    if s.contains(c) {
        s.index_of_first(c)->0
    } else {
        0
    }
}

/// How many registers reading `c` costs: those of its custom rule, else one.
pub open spec fn cell_cost(rules: Seq<(RegisterCell, CustomRule)>, c: RegisterCell) -> usize {
    match entry_at(rules, c) {
        Some(r) => spec_register_count(r.repr) as usize,
        None => 1,
    }
}

/// The costs of reading the cells `same`.
pub open spec fn costs_of(same: Seq<RegisterCell>, rules: Seq<(RegisterCell, CustomRule)>) -> Seq<usize> {
    same.map_values(|c: RegisterCell| cell_cost(rules, c))
}

/// A batch of `batch` (at least one, at most `len`) cells around `pos`,
/// placed by the anchor and kept inside the list.
pub open spec fn plain_window(len: int, pos: int, batch: int, anchor: BatchAnchor) -> (int, int) {
    let b = vstd::math::min(vstd::math::max(batch, 1), len);
    let start0 = match anchor {
        BatchAnchor::Start => pos,
        BatchAnchor::Middle => vstd::math::max(pos - b / 2, 0),
        BatchAnchor::End => vstd::math::max(pos - (b - 1), 0),
    };
    let start = vstd::math::min(start0, len - b);
    (start, start + b)
}

/// The part of `same` a list panel reads around `pos`: by register cost
/// where custom rules are batched by their registers, else by count.
pub open spec fn refresh_window(
    same: Seq<RegisterCell>,
    pos: int,
    batch: int,
    by_registers: bool,
    anchor: BatchAnchor,
    rules: Seq<(RegisterCell, CustomRule)>,
) -> (int, int) {
    if by_registers {
        let costs = costs_of(same, rules);
        grow_window(costs, pos, pos + 1, initial_left(costs, pos, vstd::math::max(batch, 1)), true, anchor)
    } else {
        plain_window(same.len() as int, pos, batch, anchor)
    }
}

/// The registers reading `c` takes: `c`, then the further registers of its
/// custom rule.
pub open spec fn cell_registers(rules: Seq<(RegisterCell, CustomRule)>, c: RegisterCell) -> Seq<RegisterCell> {
    seq![c] + match entry_at(rules, c) {
        Some(r) => spec_word_addresses(r.address, spec_register_count(r.repr), r.next@).skip(1).map_values(
            |a: u16| (c.0, a),
        ),
        None => Seq::empty(),
    }
}

fn registers_of_cell(rules: &[(RegisterCell, CustomRule)], c: RegisterCell) -> (r: Vec<RegisterCell>)
    requires
        keyed_sorted(rules@),
    ensures
        r@ == cell_registers(rules@, c),
{
    let mut out: Vec<RegisterCell> = Vec::new();
    out.push(c);
    match find_cell(rules, c) {
        Ok(i) => {
            proof {
                lemma_entry_at_found(rules@, c, i as int);
            }
            let words = rules[i].1.word_addresses();
            let ghost tail = words@.skip(1).map_values(|a: u16| (c.0, a));
            let mut k: usize = 1;
            while k < words.len()
                invariant
                    1 <= k,
                    k <= words@.len() || words@.len() == 0,
                    out@ == seq![c] + words@.skip(1).take(k - 1).map_values(|a: u16| (c.0, a)),
                decreases words@.len() - k,
            {
                out.push((c.0, words[k]));
                k += 1;
                assert(out@ =~= seq![c] + words@.skip(1).take(k - 1).map_values(|a: u16| (c.0, a)));
            }
            if words.len() > 0 {
                assert(words@.skip(1).take(words@.len() - 1) =~= words@.skip(1));
            } else {
                assert(words@.skip(1) =~= Seq::<u16>::empty());
                assert(out@ =~= seq![c] + words@.skip(1).map_values(|a: u16| (c.0, a)));
            }
        },
        Err(_) => {
            proof {
                lemma_entry_at_missing(rules@, c);
            }
            assert(out@ =~= cell_registers(rules@, c));
        },
    }
    out
}

/// The registers a list panel reads around the cursor `cursor`, out of the
/// panel's `cells`: those of its type, a window of them around the cursor
/// (see `refresh_window`; `by_registers` where the custom panel batches by
/// register cost), each with its rule's further registers; each register
/// once, in register order. None where the panel lists no register of the
/// cursor's type.
pub fn panel_refresh_window(
    cells: &[RegisterCell],
    cursor: RegisterCell,
    batch: usize,
    by_registers: bool,
    anchor: BatchAnchor,
    rules: &[(RegisterCell, CustomRule)],
) -> (r: Vec<RegisterCell>)
    requires
        keyed_sorted(rules@),
    ensures
        ({
            let same = cells_of_type(cells@, cursor.0);
            let w = refresh_window(same, position_in(same, cursor), batch as int, by_registers, anchor, rules@);
            &&& same.len() == 0 ==> r@.len() == 0
            &&& same.len() > 0 ==> cells_strictly_sorted(r@) && forall|x: RegisterCell|
                r@.contains(x) <==> exists|k: int|
                    w.0 <= k < w.1 && #[trigger] cell_registers(rules@, same[k]).contains(x)
        }),
{
    let same = cells_of(cells, cursor.0);
    let n = same.len();
    if n == 0 {
        return Vec::new();
    }
    let b: usize = if batch >= 1 {
        batch
    } else {
        1
    };
    let mut pos: usize = 0;
    let mut i: usize = 0;
    while i < n
        invariant_except_break
            pos == 0,
        invariant
            i <= n,
            n == same@.len(),
            forall|j: int| 0 <= j < i ==> same@[j] != cursor,
        ensures
            i <= n,
            forall|j: int| 0 <= j < i ==> same@[j] != cursor,
            i < n ==> same@[i as int] == cursor && pos == i,
            i == n ==> pos == 0,
        decreases n - i,
    {
        if same_cell(same[i], cursor) {
            pos = i;
            break;
        }
        i += 1;
    }
    proof {
        let s = same@;
        if i < n {
            assert(s[i as int] == cursor);
            assert(s.contains(cursor));
            s.index_of_first_ensures(cursor);
            let f = s.index_of_first(cursor)->0;
            if f < i {
                assert(s[f] != cursor);
            }
            if f > i {
                assert(s[i as int] == cursor);
            }
            assert(pos as int == position_in(s, cursor));
        } else {
            assert(!s.contains(cursor));
            assert(pos as int == position_in(s, cursor));
        }
    }
    let (start, end) = if by_registers {
        let mut costs: Vec<usize> = Vec::new();
        let mut k: usize = 0;
        while k < n
            invariant
                k <= n,
                n == same@.len(),
                keyed_sorted(rules@),
                costs@ == same@.take(k as int).map_values(|c: RegisterCell| cell_cost(rules@, c)),
            decreases n - k,
        {
            let cost = match find_cell(rules, same[k]) {
                Ok(j) => {
                    proof {
                        lemma_entry_at_found(rules@, same@[k as int], j as int);
                    }
                    rules[j].1.repr.register_count()
                },
                Err(_) => {
                    proof {
                        lemma_entry_at_missing(rules@, same@[k as int]);
                    }
                    1
                },
            };
            costs.push(cost);
            k += 1;
            assert(costs@ =~= same@.take(k as int).map_values(|c: RegisterCell| cell_cost(rules@, c)));
        }
        assert(same@.take(n as int) =~= same@);
        sized_window(costs.as_slice(), pos, b, anchor)
    } else {
        let bb = if b < n {
            b
        } else {
            n
        };
        let start0 = match anchor {
            BatchAnchor::Start => pos,
            BatchAnchor::Middle => pos.saturating_sub(bb / 2),
            BatchAnchor::End => pos.saturating_sub(bb - 1),
        };
        let start = if start0 < n - bb {
            start0
        } else {
            n - bb
        };
        (start, start + bb)
    };
    let ghost w = refresh_window(same@, pos as int, batch as int, by_registers, anchor, rules@);
    assert(start as int == w.0 && end as int == w.1);
    let mut regs: Vec<RegisterCell> = Vec::new();
    let mut k: usize = start;
    while k < end
        invariant
            start <= k <= end <= n,
            n == same@.len(),
            keyed_sorted(rules@),
            forall|x: RegisterCell|
                #![trigger regs@.contains(x)]
                regs@.contains(x) <==> exists|j: int|
                    start <= j < k && #[trigger] cell_registers(rules@, same@[j]).contains(x),
        decreases end - k,
    {
        let mut more = registers_of_cell(rules, same[k]);
        let ghost before = regs@;
        let ghost added = more@;
        regs.append(&mut more);
        proof {
            assert(regs@ == before + added);
            assert forall|x: RegisterCell| #[trigger] regs@.contains(x) <==> exists|j: int|
                start <= j < k + 1 && #[trigger] cell_registers(rules@, same@[j]).contains(x) by {
                lemma_add_contains(before, added, x);
                if added.contains(x) {
                    assert(cell_registers(rules@, same@[k as int]).contains(x));
                }
                if exists|j: int| start <= j < k + 1 && #[trigger] cell_registers(rules@, same@[j]).contains(x) {
                    let j = choose|j: int| start <= j < k + 1 && #[trigger] cell_registers(rules@, same@[j]).contains(x);
                    if j < k {
                        assert(before.contains(x));
                    }
                }
            }
        }
        k += 1;
    }
    let ghost merged = regs@;
    sort_cells(&mut regs);
    let ghost sorted = regs@;
    proof {
        assert forall|x: RegisterCell| sorted.contains(x) <==> merged.contains(x) by {
            assert(sorted.to_multiset().count(x) == merged.to_multiset().count(x));
        }
    }
    dedup_cells(&mut regs);
    proof {
        assert forall|x: RegisterCell| regs@.contains(x) <==> merged.contains(x) by {
            assert(regs@.contains(x) <==> sorted.contains(x));
        }
    }
    regs
}

} // verus!
