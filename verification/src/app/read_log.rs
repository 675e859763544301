use vstd::prelude::*;
use crate::app::label::{entry_at, find_cell, keyed_sorted, lemma_entry_at_found, lemma_entry_at_missing, set_entry};
use crate::custom::copy_items;
use crate::logger::keep_last;
use crate::register::{RegisterCell, RegisterCellValue, RegisterType};
use crate::state::{ConnectionStatus, ReadParams};

verus! {

/// What was last read from a register: its value, when (milliseconds on
/// the caller's clock), whether it differs from the value read before, and
/// the values read, oldest first.
#[derive(Debug, PartialEq)]
pub struct ReadEntry {
    pub value: u16,
    pub at: u64,
    pub changed: bool,
    pub history: Vec<u16>,
}

/// A read entry as values.
pub ghost struct ReadEntryView {
    pub value: u16,
    pub at: u64,
    pub changed: bool,
    pub history: Seq<u16>,
}

impl View for ReadEntry {
    type V = ReadEntryView;

    open spec fn view(&self) -> ReadEntryView {
        ReadEntryView { value: self.value, at: self.at, changed: self.changed, history: self.history@ }
    }
}

/// The entry after reading `value` at `now` where `before` was the entry:
/// changed where a different value was read before; the history grows by
/// the value and keeps its last `cap` values.
pub open spec fn read_again(before: Option<ReadEntryView>, value: u16, now: u64, cap: int) -> ReadEntryView {
    ReadEntryView {
        value: value,
        at: now,
        changed: match before {
            Some(e) => e.value != value,
            None => false,
        },
        history: keep_last(
            match before {
                Some(e) => e.history,
                None => Seq::empty(),
            }.push(value),
            cap,
        ),
    }
}

/// The log after reading `values` in order.
pub open spec fn read_all(
    log: Map<RegisterCell, ReadEntryView>,
    values: Seq<RegisterCellValue>,
    now: u64,
    cap: int,
) -> Map<RegisterCell, ReadEntryView>
    decreases values.len(),
{
    if values.len() == 0 {
        log
    } else {
        let before = read_all(log, values.drop_last(), now, cap);
        let (cell, value) = values.last();
        before.insert(cell, read_again(if before.contains_key(cell) { Some(before[cell]) } else { None }, value, now, cap))
    }
}

/// The values read from the registers, by register.
pub struct ReadLog {
    entries: Vec<(RegisterCell, ReadEntry)>,
}

impl View for ReadLog {
    type V = Map<RegisterCell, ReadEntryView>;

    closed spec fn view(&self) -> Map<RegisterCell, ReadEntryView> {
        Map::new(
            |c: RegisterCell| entry_at(self.entries@, c) is Some,
            |c: RegisterCell| entry_at(self.entries@, c)->0@,
        )
    }
}

impl ReadLog {
    /// The entries are kept in register order, each register once.
    #[verifier::type_invariant]
    closed spec fn wf(&self) -> bool {
        keyed_sorted(self.entries@)
    }

    /// An empty log.
    pub fn new() -> (r: Self)
        ensures
            r@ == Map::<RegisterCell, ReadEntryView>::empty(),
    {
        let r = ReadLog { entries: Vec::new() };
        assert(r@ =~= Map::<RegisterCell, ReadEntryView>::empty());
        r
    }

    /// The entry of `cell`, if it was read.
    pub fn get(&self, cell: RegisterCell) -> (r: Option<&ReadEntry>)
        ensures
            self@.contains_key(cell) ==> (r matches Some(e) && e@ == self@[cell]),
            !self@.contains_key(cell) ==> r is None,
    {
        proof {
            use_type_invariant(self);
        }
        match find_cell(self.entries.as_slice(), cell) {
            Ok(i) => {
                proof {
                    lemma_entry_at_found(self.entries@, cell, i as int);
                }
                Some(&self.entries[i].1)
            },
            Err(_) => {
                proof {
                    lemma_entry_at_missing(self.entries@, cell);
                }
                None
            },
        }
    }

    /// The value last read from `cell`.
    pub fn value(&self, cell: RegisterCell) -> (r: Option<u16>)
        ensures
            r == (if self@.contains_key(cell) {
                Some(self@[cell].value)
            } else {
                None
            }),
    {
        match self.get(cell) {
            Some(e) => Some(e.value),
            None => None,
        }
    }

    /// Forgets everything read.
    pub fn clear(&mut self)
        ensures
            final(self)@ == Map::<RegisterCell, ReadEntryView>::empty(),
    {
        self.entries = Vec::new();
        assert(self@ =~= Map::<RegisterCell, ReadEntryView>::empty());
    }

    /// Records `value` read from `cell` at `now`, keeping the last `cap`
    /// values of its history.
    pub fn record(&mut self, cell: RegisterCell, value: u16, now: u64, cap: usize)
        ensures
            final(self)@ == old(self)@.insert(
                cell,
                read_again(
                    if old(self)@.contains_key(cell) {
                        Some(old(self)@[cell])
                    } else {
                        None
                    },
                    value,
                    now,
                    cap as int,
                ),
            ),
    {
        let ghost before = if self@.contains_key(cell) {
            Some(self@[cell])
        } else {
            None
        };
        let (changed, mut history) = match self.get(cell) {
            Some(e) => (e.value != value, copy_items(&e.history)),
            None => (false, Vec::new()),
        };
        let ghost all = history@.push(value);
        history.push(value);
        if history.len() > cap {
            let drop = history.len() - cap;
            let mut kept: Vec<u16> = Vec::new();
            let mut k: usize = drop;
            while k < history.len()
                invariant
                    drop <= k <= history@.len(),
                    kept@ == history@.subrange(drop as int, k as int),
                decreases history@.len() - k,
            {
                kept.push(history[k]);
                k += 1;
                assert(kept@ =~= history@.subrange(drop as int, k as int));
            }
            assert(kept@ =~= all.skip(all.len() - cap));
            history = kept;
        }
        let entry = ReadEntry { value, at: now, changed, history };
        assert(entry@ == read_again(before, value, now, cap as int));
        proof {
            use_type_invariant(&*self);
        }
        let mut entries: Vec<(RegisterCell, ReadEntry)> = Vec::new();
        std::mem::swap(&mut entries, &mut self.entries);
        set_entry(&mut entries, cell, Some(entry));
        self.entries = entries;
        proof {
            assert(self@ =~= old(self)@.insert(cell, read_again(before, value, now, cap as int))) by {
                assert forall|d: RegisterCell| #[trigger] self@.contains_key(d) <==> old(self)@.insert(
                    cell,
                    read_again(before, value, now, cap as int),
                ).contains_key(d) by {}
            }
        }
    }

    /// Records the values read at `now`, in order.
    pub fn record_all(&mut self, values: &[RegisterCellValue], now: u64, cap: usize)
        ensures
            final(self)@ == read_all(old(self)@, values@, now, cap as int),
    {
        let ghost start = self@;
        let mut i: usize = 0;
        while i < values.len()
            invariant
                i <= values@.len(),
                self@ == read_all(start, values@.take(i as int), now, cap as int),
            decreases values@.len() - i,
        {
            let (cell, value) = values[i];
            proof {
                assert(values@.take(i + 1).drop_last() == values@.take(i as int));
                assert(values@.take(i + 1).last() == (cell, value));
            }
            self.record(cell, value, now, cap);
            i += 1;
        }
        assert(values@.take(values@.len() as int) == values@);
    }
}

/// A register read again shows the value just read, and its history ends
/// with that value and holds at most `cap` values (one at least).
pub proof fn lemma_read_again_shows_the_value(before: Option<ReadEntryView>, value: u16, now: u64, cap: int)
    requires
        cap >= 1,
    ensures
        read_again(before, value, now, cap).value == value,
        read_again(before, value, now, cap).history.len() >= 1,
        read_again(before, value, now, cap).history.last() == value,
        read_again(before, value, now, cap).history.len() <= cap,
        before is Some && before->0.history.len() < cap ==> read_again(before, value, now, cap).history
            == before->0.history.push(value),
{
    let h = match before {
        Some(e) => e.history,
        None => Seq::empty(),
    }.push(value);
    if h.len() > cap {
        assert(h.skip(h.len() - cap).last() == h.last());
    }
}

/// What a refresh result changes once applied.
#[derive(Debug, PartialEq)]
pub enum RefreshApplied {
    /// The result is for a register type no longer shown: only the loading
    /// mark is dropped.
    Stale,
    /// The result was applied: the connection state it shows, and for a
    /// read of the main range whether it failed (a running sweep moves on
    /// by it).
    Applied { connection: ConnectionStatus, main_failed: Option<bool> },
}

/// A read result as values.
pub open spec fn result_view(r: Option<Result<Vec<RegisterCellValue>, String>>) -> Option<
    Result<Seq<RegisterCellValue>, Seq<char>>,
> {
    match r {
        Some(Ok(v)) => Some(Ok(v@)),
        Some(Err(e)) => Some(Err(e@)),
        None => None,
    }
}

/// The values a read result holds, none for a failed read.
pub open spec fn read_values(r: Option<Result<Seq<RegisterCellValue>, Seq<char>>>) -> Seq<RegisterCellValue> {
    match r {
        Some(Ok(v)) => v,
        _ => Seq::empty(),
    }
}

/// Applies the result of a refresh of `register_type` that read the main
/// range (`main`) or a panel's registers (`pinned`) and took `duration_ms`:
/// a result for the main range of a type no longer shown is stale; else
/// every value read is recorded at `now` (the main range first), the read
/// view shows the duration and the main range's error, and the connection
/// state follows the result (`current` where it read nothing).
pub fn apply_refresh(
    read: &mut ReadParams,
    log: &mut ReadLog,
    register_type: RegisterType,
    main: Option<Result<Vec<RegisterCellValue>, String>>,
    pinned: Option<Result<Vec<RegisterCellValue>, String>>,
    duration_ms: u64,
    now: u64,
    cap: u16,
    current: &ConnectionStatus,
) -> (r: RefreshApplied)
    ensures
        main is Some && old(read).register_type != register_type ==> r == RefreshApplied::Stale
            && !final(read).loading && final(log)@ == old(log)@ && final(read).read_duration == old(
            read,
        ).read_duration && final(read).read_error == old(read).read_error,
        !(main is Some && old(read).register_type != register_type) ==> ({
            let mv = result_view(main);
            let pv = result_view(pinned);
            &&& final(log)@ == read_all(
                read_all(old(log)@, read_values(mv), now, vstd::math::max(cap as int, 1)),
                read_values(pv),
                now,
                vstd::math::max(cap as int, 1),
            )
            &&& !final(read).loading
            &&& final(read).read_duration == Some(duration_ms)
            &&& final(read).read_error == (match main {
                Some(Err(e)) => Some(e),
                Some(Ok(_)) => None,
                None => old(read).read_error,
            })
            &&& (r matches RefreshApplied::Applied { connection, main_failed } && main_failed == (match main {
                Some(Err(_)) => Some(true),
                Some(Ok(_)) => Some(false),
                None => None,
            }) && (match (mv, pv) {
                (Some(Ok(_)), _) => connection == ConnectionStatus::Connected,
                (_, Some(Ok(_))) => connection == ConnectionStatus::Connected,
                (Some(Err(e)), _) => connection matches ConnectionStatus::Error(t) && t@ == e,
                (_, Some(Err(e))) => connection matches ConnectionStatus::Error(t) && t@ == e,
                _ => connection == *current,
            }))
        }),
        final(read).register_type == old(read).register_type && final(read).position == old(read).position
            && final(read).popup == old(read).popup,
{
    if main.is_some() && read.register_type != register_type {
        read.loading = false;
        return RefreshApplied::Stale;
    }
    let cap_n: usize = if cap >= 1 {
        cap as usize
    } else {
        1
    };
    match &main {
        Some(Ok(values)) => log.record_all(values.as_slice(), now, cap_n),
        _ => {},
    }
    proof {
        if !(main matches Some(Ok(_))) {
            assert(read_values(result_view(main)) =~= Seq::<RegisterCellValue>::empty());
        }
    }
    match &pinned {
        Some(Ok(values)) => log.record_all(values.as_slice(), now, cap_n),
        _ => {},
    }
    proof {
        if !(pinned matches Some(Ok(_))) {
            assert(read_values(result_view(pinned)) =~= Seq::<RegisterCellValue>::empty());
        }
    }
    let main_ok = match &main {
        Some(Ok(_)) => true,
        _ => false,
    };
    let pinned_ok = match &pinned {
        Some(Ok(_)) => true,
        _ => false,
    };
    let connection = if main_ok || pinned_ok {
        ConnectionStatus::Connected
    } else {
        match (&main, &pinned) {
            (Some(Err(e)), _) => ConnectionStatus::Error(e.clone()),
            (_, Some(Err(e))) => ConnectionStatus::Error(e.clone()),
            _ => current.clone_status(),
        }
    };
    read.read_duration = Some(duration_ms);
    read.loading = false;
    let main_failed = match &main {
        Some(Err(e)) => {
            read.read_error = Some(e.clone());
            Some(true)
        },
        Some(Ok(_)) => {
            read.read_error = None;
            Some(false)
        },
        None => None,
    };
    RefreshApplied::Applied { connection, main_failed }
}

impl ConnectionStatus {
    /// A copy of the state.
    pub fn clone_status(&self) -> (r: ConnectionStatus)
        ensures
            r == *self,
    {
        match self {
            ConnectionStatus::Unknown => ConnectionStatus::Unknown,
            ConnectionStatus::Reading => ConnectionStatus::Reading,
            ConnectionStatus::Connected => ConnectionStatus::Connected,
            ConnectionStatus::Reconnecting => ConnectionStatus::Reconnecting,
            ConnectionStatus::Error(e) => ConnectionStatus::Error(e.clone()),
        }
    }
}

} // verus!
