use vstd::prelude::*;
use crate::config::{column_at_rank, Column};
use crate::config::registers::lemma_add_contains;
use crate::custom::{spec_register_count, spec_word_addresses, CustomRule, CustomRuleView};
use crate::app::label::{entry_at, find_cell, keyed_sorted};
use crate::app::pin::{cells_strictly_sorted, dedup_cells, sort_cells};
use crate::interpretator::{spec_graph_width, Interpretor, RowSegment};
use crate::num_ops::{wrap_index, wrapped_index};
use crate::register::{same_cell, spec_type_marker, RegisterCell};
use crate::state::{ColumnsParams, MessageKind, ReadParams, StatusMessage};
use crate::text::{dec, pop_char, push_char, push_decimal, push_str, str_eq};

verus! {

broadcast use vstd::seq_lib::group_to_multiset_ensures;

/// How many rows the two-column list of `count` columns has.
pub open spec fn grid_rows(count: u16) -> int {
    (count as int + 1) / 2
}

impl ColumnsParams {
    /// Types into the filter, back to the first match.
    pub fn type_char(&mut self, c: char)
        ensures
            final(self).query@ == old(self).query@.push(c),
            final(self).selected == 0,
    {
        push_char(&mut self.query, c);
        self.selected = 0;
    }

    /// Deletes the last character of the filter, back to the first match.
    pub fn backspace(&mut self)
        ensures
            final(self).query@ == (if old(self).query@.len() == 0 {
                old(self).query@
            } else {
                old(self).query@.drop_last()
            }),
            final(self).selected == 0,
    {
        pop_char(&mut self.query);
        self.selected = 0;
    }

    /// Moves up or down within the half of the two-column list the
    /// selection is in, wrapping around; `count` is how many columns match.
    pub fn move_in_grid(&mut self, count: u16, down: bool)
        ensures
            ({
                let rows = grid_rows(count);
                let s = old(self).selected as int;
                final(self).selected == (if s < rows {
                    wrapped_index(s, rows, down)
                } else {
                    rows + wrapped_index(s - rows, count - rows, down)
                })
            }),
            final(self).query == old(self).query,
    {
        let rows = count / 2 + count % 2;
        if self.selected < rows {
            self.selected = wrap_index(self.selected, rows, down);
        } else {
            self.selected = rows + wrap_index(self.selected - rows, count - rows, down);
        }
    }

    /// Moves to the same row of the other half of the list, within the
    /// matches.
    pub fn switch_side(&mut self, count: u16, right: bool)
        ensures
            ({
                let rows = grid_rows(count);
                let s = old(self).selected as int;
                let row = if s < rows {
                    s
                } else {
                    s - rows
                };
                final(self).selected == (if count == 0 {
                    s
                } else if right {
                    vstd::math::min(rows + row, count - 1)
                } else {
                    row
                })
            }),
            final(self).query == old(self).query,
    {
        if count == 0 {
            return;
        }
        let rows = count / 2 + count % 2;
        let row = if self.selected < rows {
            self.selected
        } else {
            self.selected - rows
        };
        self.selected = if right {
            if rows + row < count - 1 {
                rows + row
            } else {
                count - 1
            }
        } else {
            row
        };
    }
}

/// How many series the graph holds at most.
pub const MAX_HELD: usize = 3;

/// The name a held series goes by: its label, or its type marker and
/// address.
pub open spec fn series_name(label: Option<Seq<char>>, cell: RegisterCell) -> Seq<char> {
    match label {
        Some(t) => t,
        None => spec_type_marker(cell.0) + dec(cell.1 as nat),
    }
}

/// Writes the name a held series goes by.
pub fn series_name_text(label: Option<&str>, cell: RegisterCell) -> (r: String)
    ensures
        r@ == series_name(
            match label {
                Some(t) => Some(t@),
                None => None,
            },
            cell,
        ),
{
    let mut s = String::new();
    match label {
        Some(t) => push_str(&mut s, t),
        None => {
            push_str(&mut s, cell.0.marker());
            push_decimal(&mut s, cell.1 as u64);
        },
    }
    s
}

fn quoted(before: &str, name: &str, after: &str) -> (r: String)
    ensures
        r@ == before@ + name@ + after@,
{
    let mut s = String::new();
    push_str(&mut s, before);
    push_str(&mut s, name);
    push_str(&mut s, after);
    s
}

impl ReadParams {
    /// Holds the register `cell` on the graph, or lets it go where it is
    /// held; at most three are held. Returns the status to show, `name`
    /// being what the register goes by.
    pub fn hold_series(&mut self, cell: RegisterCell, name: &str) -> (r: StatusMessage)
        ensures
            old(self).graph_series@.contains(cell) ==> ({
                let i = old(self).graph_series@.index_of_first(cell)->0;
                &&& final(self).graph_series@ == old(self).graph_series@.remove(i)
                &&& r.kind == MessageKind::Success
                &&& r.text@ == "Released \""@ + name@ + "\" from the graph"@
            }),
            !old(self).graph_series@.contains(cell) && old(self).graph_series@.len() >= 3 ==> final(self).graph_series == old(self).graph_series && r.kind == MessageKind::Warn && r.text@
                == "Up to 3 held series"@,
            !old(self).graph_series@.contains(cell) && old(self).graph_series@.len() < 3 ==> final(self).graph_series@ == old(self).graph_series@.push(cell) && r.kind == MessageKind::Success
                && r.text@ == "Holding \""@ + name@ + "\" on the graph"@,
            final(self).position == old(self).position && final(self).register_type == old(self).register_type,
    {
        let n = self.graph_series.len();
        let mut i: usize = 0;
        while i < n
            invariant
                i <= n,
                n == self.graph_series@.len(),
                *self == *old(self),
                forall|k: int| 0 <= k < i ==> self.graph_series@[k] != cell,
            decreases n - i,
        {
            if same_cell(self.graph_series[i], cell) {
                proof {
                    let s = self.graph_series@;
                    assert(s[i as int] == cell);
                    assert(s.contains(cell));
                    s.index_of_first_ensures(cell);
                    let f = s.index_of_first(cell)->0;
                    if f < i {
                        assert(s[f] != cell);
                    }
                    if f > i {
                        assert(s[i as int] != cell);
                    }
                    assert(f == i);
                }
                self.graph_series.remove(i);
                return StatusMessage { text: quoted("Released \"", name, "\" from the graph"), kind: MessageKind::Success };
            }
            i += 1;
        }
        if n >= MAX_HELD {
            let mut text = String::new();
            push_str(&mut text, "Up to 3 held series");
            return StatusMessage { text, kind: MessageKind::Warn };
        }
        self.graph_series.push(cell);
        StatusMessage { text: quoted("Holding \"", name, "\" on the graph"), kind: MessageKind::Success }
    }

    /// Arms the column copy on the address column, or on the first part
    /// of the row where there is none; with no parts nothing changes.
    pub fn arm_copy_column(&mut self, segments: &[RowSegment])
        requires
            segments@.len() <= u16::MAX,
        ensures
            segments@.len() == 0 ==> final(self).copy_column == old(self).copy_column,
            segments@.len() > 0 ==> (final(self).copy_column matches Some(i) && (i as int) < segments@.len()
                && ((exists|k: int| 0 <= k < segments@.len() && segments@[k].name@ == "address"@) ==> segments@[i as int].name@
                == "address"@ && forall|k: int| 0 <= k < i ==> segments@[k].name@ != "address"@)
                && (!(exists|k: int| 0 <= k < segments@.len() && segments@[k].name@ == "address"@) ==> i == 0)),
            final(self).position == old(self).position && final(self).col_offset == old(self).col_offset,
    {
        let n = segments.len();
        if n == 0 {
            return;
        }
        let mut i: usize = 0;
        while i < n
            invariant
                i <= n,
                n == segments@.len(),
                n <= u16::MAX,
                *self == *old(self),
                forall|k: int| 0 <= k < i ==> segments@[k].name@ != "address"@,
            decreases n - i,
        {
            if str_eq(segments[i].name, "address") {
                self.copy_column = Some(i as u16);
                return;
            }
            i += 1;
        }
        self.copy_column = Some(0);
    }
}

impl ReadParams {
    /// Moves the armed column copy one part of the row left or right,
    /// within the `count` parts; unarmed, nothing changes.
    pub fn step_copy_column(&mut self, right: bool, count: u16)
        ensures
            old(self).copy_column is None ==> final(self).copy_column is None,
            old(self).copy_column matches Some(i) ==> final(self).copy_column == Some(
                (if right {
                    vstd::math::min(vstd::math::min(i + 1, u16::MAX as int), vstd::math::max(count - 1, 0))
                } else {
                    vstd::math::max(i - 1, 0)
                }) as u16,
            ),
            final(self).position == old(self).position && final(self).col_offset == old(self).col_offset,
    {
        let last = count.saturating_sub(1);
        if let Some(index) = self.copy_column {
            let next = if right {
                let up = index.saturating_add(1);
                if up < last {
                    up
                } else {
                    last
                }
            } else {
                index.saturating_sub(1)
            };
            self.copy_column = Some(next);
        }
    }
}

/// The horizontal scroll that brings the part of the row from `start` to
/// `end` into view, `prefix` columns of the row being always shown and
/// `viewport` wide in all: none for a part inside the prefix; else the
/// current `offset` where the part is in view, else just enough to show it;
/// never past `max`.
pub open spec fn spec_column_offset(start: int, end: int, prefix: int, viewport: int, offset: int, max: int) -> int {
    if start < prefix {
        0
    } else {
        let visible = vstd::math::max(viewport - prefix, 1);
        let s = start - prefix;
        let e = vstd::math::max(end - prefix, 0);
        let next = if s < offset {
            s
        } else if e > offset + visible {
            e - visible
        } else {
            offset
        };
        vstd::math::min(next, max)
    }
}

/// Computes the scroll that brings a part of the row into view.
pub fn column_offset(start: usize, end: usize, prefix: u16, viewport: u16, offset: u16, max: u16) -> (r: u16)
    ensures
        r == spec_column_offset(start as int, end as int, prefix as int, viewport as int, offset as int, max as int),
{
    let prefix = prefix as usize;
    if start < prefix {
        return 0;
    }
    let visible: usize = if viewport as usize > prefix + 1 {
        viewport as usize - prefix
    } else {
        1
    };
    let s = start - prefix;
    let e = end.saturating_sub(prefix);
    let offset = offset as usize;
    let next = if s < offset {
        s
    } else if e > offset + visible {
        e - visible
    } else {
        offset
    };
    if next < max as usize {
        next as u16
    } else {
        max
    }
}

/// The columns from the first `k` of the column order that can be graphed
/// and are shown.
pub open spec fn graphable_upto(visible: Seq<Column>, k: int) -> Seq<Column>
    decreases k,
{
    if k <= 0 {
        Seq::empty()
    } else {
        let rest = graphable_upto(visible, k - 1);
        let c = column_at_rank(k - 1);
        if spec_graph_width(c) is Some && visible.contains(c) {
            rest.push(c)
        } else {
            rest
        }
    }
}

/// The columns the graph can plot: those shown that can be graphed, in
/// column order, then the custom column where it is shown and the register
/// has a custom rule.
pub open spec fn spec_graphable(visible: Seq<Column>, rule_here: bool) -> Seq<Column> {
    let base = graphable_upto(visible, 20);
    if visible.contains(Column::Custom) && rule_here {
        base.push(Column::Custom)
    } else {
        base
    }
}

/// Lists the columns the graph can plot.
pub fn graphable_columns(interpretor: &Interpretor, rule_here: bool) -> (r: Vec<Column>)
    ensures
        r@ == spec_graphable(interpretor.config_view().visible@, rule_here),
{
    let all = Column::ALL;
    let mut out: Vec<Column> = Vec::new();
    let mut k: usize = 0;
    while k < 20
        invariant
            k <= 20,
            out@ == graphable_upto(interpretor.config_view().visible@, k as int),
            forall|i: int| 0 <= i < 20 ==> all@[i] == column_at_rank(i),
        decreases 20 - k,
    {
        let c = all[k];
        if c.is_graphable() && interpretor.is_enabled(c) {
            out.push(c);
        }
        k += 1;
    }
    if interpretor.is_enabled(Column::Custom) && rule_here {
        out.push(Column::Custom);
    }
    out
}

/// The first position of `c` in `cols`, if it is there.
pub open spec fn first_at(cols: Seq<Column>, c: Column, k: int) -> bool {
    0 <= k < cols.len() && cols[k] == c && forall|j: int| 0 <= j < k ==> cols[j] != c
}

fn find_column(cols: &[Column], c: Column) -> (r: Option<usize>)
    ensures
        r matches Some(k) ==> first_at(cols@, c, k as int),
        r is None ==> !cols@.contains(c),
{
    let mut k: usize = 0;
    while k < cols.len()
        invariant
            k <= cols@.len(),
            forall|j: int| 0 <= j < k ==> cols@[j] != c,
        decreases cols@.len() - k,
    {
        if cols[k] == c {
            return Some(k);
        }
        k += 1;
    }
    None
}

/// The column the graph plots: the chosen one where it can be plotted,
/// else the first that can.
pub fn active_graph_column(cols: &[Column], current: Column) -> (r: Option<Column>)
    ensures
        cols@.contains(current) ==> r == Some(current),
        !cols@.contains(current) && cols@.len() > 0 ==> r == Some(cols@[0]),
        cols@.len() == 0 ==> r is None,
{
    match find_column(cols, current) {
        Some(_) => Some(current),
        None => if cols.len() > 0 {
            Some(cols[0])
        } else {
            None
        },
    }
}

/// The column the graph moves on to: the one after the chosen one,
/// wrapping around, or the first where the chosen one cannot be plotted.
pub fn next_graph_column(cols: &[Column], current: Column) -> (r: Option<Column>)
    ensures
        cols@.len() == 0 ==> r is None,
        cols@.len() > 0 && !cols@.contains(current) ==> r == Some(cols@[0]),
        cols@.len() > 0 && cols@.contains(current) ==> exists|k: int|
            first_at(cols@, current, k) && r == Some(cols@[(k + 1) % (cols@.len() as int)]),
{
    if cols.len() == 0 {
        return None;
    }
    match find_column(cols, current) {
        Some(k) => {
            let next = if k + 1 < cols.len() {
                k + 1
            } else {
                0
            };
            proof {
                let n = cols@.len() as int;
                let j = k as int + 1;
                if j < n {
                    assert(j % n == j) by (nonlinear_arith)
                        requires
                            0 <= j < n,
                    ;
                } else {
                    assert(j % n == 0) by (nonlinear_arith)
                        requires
                            j == n,
                            n > 0,
                    ;
                }
            }
            Some(cols[next])
        },
        None => Some(cols[0]),
    }
}

/// The registers the graph reads for the held series `cell`: the coil or
/// input itself; with the custom column, the registers of its rule (none
/// without one); else as many registers from it as the plotted column
/// spans (one where it spans none).
pub open spec fn series_cells(cell: RegisterCell, column: Option<Column>, rule: Option<CustomRuleView>) -> Seq<RegisterCell> {
    if cell.0 == crate::register::RegisterType::Coil || cell.0 == crate::register::RegisterType::Discrete {
        seq![cell]
    } else if column == Some(Column::Custom) {
        match rule {
            Some(r) => spec_word_addresses(r.address, spec_register_count(r.repr), r.next).map_values(
                |a: u16| (cell.0, a),
            ),
            None => Seq::empty(),
        }
    } else {
        let w: int = match column {
            Some(c) => match spec_graph_width(c) {
                Some(w) => w as int,
                None => 1,
            },
            None => 1,
        };
        Seq::new(w as nat, |o: int| (cell.0, ((cell.1 + o) % 0x1_0000) as u16))
    }
}

/// The rule a list of rules keyed by register gives `cell`, as a value.
pub open spec fn rule_view_at(rules: Seq<(RegisterCell, CustomRule)>, cell: RegisterCell) -> Option<CustomRuleView> {
    match entry_at(rules, cell) {
        Some(r) => Some(r@),
        None => None,
    }
}

fn cells_of_series(cell: RegisterCell, column: Option<Column>, rules: &[(RegisterCell, CustomRule)]) -> (r: Vec<RegisterCell>)
    requires
        keyed_sorted(rules@),
    ensures
        r@ == series_cells(cell, column, rule_view_at(rules@, cell)),
{
    let mut out: Vec<RegisterCell> = Vec::new();
    if cell.0.is_bit() {
        out.push(cell);
        assert(out@ =~= seq![cell]);
        return out;
    }
    let custom = match column {
        Some(c) => c == Column::Custom,
        None => false,
    };
    if custom {
        match find_cell(rules, cell) {
            Ok(i) => {
                proof {
                    crate::app::label::lemma_entry_at_found(rules@, cell, i as int);
                }
                let addresses = rules[i].1.word_addresses();
                let mut k: usize = 0;
                while k < addresses.len()
                    invariant
                        k <= addresses@.len(),
                        out@ == addresses@.take(k as int).map_values(|a: u16| (cell.0, a)),
                    decreases addresses@.len() - k,
                {
                    out.push((cell.0, addresses[k]));
                    k += 1;
                    assert(out@ =~= addresses@.take(k as int).map_values(|a: u16| (cell.0, a)));
                }
                assert(addresses@.take(addresses@.len() as int) =~= addresses@);
            },
            Err(_) => {
                proof {
                    crate::app::label::lemma_entry_at_missing(rules@, cell);
                }
                assert(out@ =~= Seq::<RegisterCell>::empty());
            },
        }
        return out;
    }
    let width: usize = match column {
        Some(c) => match c.graph_width() {
            Some(w) => w,
            None => 1,
        },
        None => 1,
    };
    assert(width <= 4);
    let mut o: usize = 0;
    while o < width
        invariant
            o <= width,
            width <= 4,
            out@ == Seq::new(o as nat, |j: int| (cell.0, ((cell.1 + j) % 0x1_0000) as u16)),
        decreases width - o,
    {
        let a = ((cell.1 as u64 + o as u64) % 0x1_0000) as u16;
        out.push((cell.0, a));
        o += 1;
        assert(out@ =~= Seq::new(o as nat, |j: int| (cell.0, ((cell.1 + j) % 0x1_0000) as u16)));
    }
    out
}

/// The registers the graph reads besides the cursor's, for the held series:
/// those of each series (see `series_cells`), each once, in register
/// order; none while the graph is hidden. `rules` are the custom rules in
/// register order.
pub fn graph_registers(
    graph: bool,
    column: Option<Column>,
    series: &[RegisterCell],
    rules: &[(RegisterCell, CustomRule)],
) -> (r: Vec<RegisterCell>)
    requires
        keyed_sorted(rules@),
    ensures
        !graph ==> r@.len() == 0,
        graph ==> cells_strictly_sorted(r@),
        graph ==> forall|x: RegisterCell|
            r@.contains(x) <==> exists|i: int|
                0 <= i < series@.len() && #[trigger] series_cells(series@[i], column, rule_view_at(rules@, series@[i])).contains(x),
{
    let mut regs: Vec<RegisterCell> = Vec::new();
    if !graph {
        return regs;
    }
    let mut i: usize = 0;
    while i < series.len()
        invariant
            i <= series@.len(),
            keyed_sorted(rules@),
            forall|x: RegisterCell|
                #![trigger regs@.contains(x)]
                regs@.contains(x) <==> exists|j: int|
                    0 <= j < i && #[trigger] series_cells(series@[j], column, rule_view_at(rules@, series@[j])).contains(x),
        decreases series@.len() - i,
    {
        let mut more = cells_of_series(series[i], column, rules);
        let ghost before = regs@;
        let ghost added = more@;
        regs.append(&mut more);
        proof {
            assert(regs@ == before + added);
            assert forall|x: RegisterCell| #[trigger] regs@.contains(x) <==> exists|j: int|
                0 <= j < i + 1 && #[trigger] series_cells(series@[j], column, rule_view_at(rules@, series@[j])).contains(x) by {
                lemma_add_contains(before, added, x);
                if added.contains(x) {
                    assert(series_cells(series@[i as int], column, rule_view_at(rules@, series@[i as int])).contains(x));
                }
                if exists|j: int|
                    0 <= j < i + 1 && #[trigger] series_cells(series@[j], column, rule_view_at(rules@, series@[j])).contains(x) {
                    let j = choose|j: int|
                        0 <= j < i + 1 && #[trigger] series_cells(series@[j], column, rule_view_at(rules@, series@[j])).contains(x);
                    if j < i {
                        assert(before.contains(x));
                    }
                }
            }
        }
        i += 1;
    }
    let ghost merged = regs@;
    sort_cells(&mut regs);
    let ghost sorted = regs@;
    proof {
        assert forall|x: RegisterCell| sorted.contains(x) <==> merged.contains(x) by {
            assert(sorted.to_multiset().count(x) == merged.to_multiset().count(x));
        }
    }
    dedup_cells(&mut regs);
    proof {
        assert forall|x: RegisterCell| regs@.contains(x) <==> merged.contains(x) by {
            assert(regs@.contains(x) <==> sorted.contains(x));
        }
    }
    regs
}

} // verus!
