//! The decisions of the main loop: when to refresh, when to reconnect and
//! what a finished reconnect leaves behind, when quitting asks first, and
//! how the registers of a panel are read in runs.
use vstd::prelude::*;
use crate::config::Startup;
use crate::register::{RegisterCell, RegisterCellValue};
use crate::state::{ConnectionStatus, MessageKind, ReadParams, StatusMessage};
use crate::app::{reconnect_backoff, spec_backoff_ms};
use crate::text::{push_decimal, push_str, dec};

verus! {

/// How far a run that starts at `i` and already holds `n` registers
/// reaches: it takes the next register while there is one, the run is
/// shorter than `batch`, and that register is of the same type and at the
/// next address.
pub open spec fn run_end(regs: Seq<RegisterCell>, i: int, n: int, batch: int) -> int
    decreases batch - n,
{
    if 0 <= i && i + n < regs.len() && n < batch && regs[i + n].0 == regs[i].0 && regs[i + n].1 == regs[i].1 + n {
        run_end(regs, i, n + 1, batch)
    } else {
        n
    }
}

proof fn lemma_run_end_bounds(regs: Seq<RegisterCell>, i: int, n: int, batch: int)
    requires
        0 <= i,
        1 <= n,
        i + n <= regs.len(),
    ensures
        n <= run_end(regs, i, n, batch),
        i + run_end(regs, i, n, batch) <= regs.len(),
        n <= batch ==> run_end(regs, i, n, batch) <= batch,
    decreases batch - n,
{
    if 0 <= i && i + n < regs.len() && n < batch && regs[i + n].0 == regs[i].0 && regs[i + n].1 == regs[i].1 + n {
        lemma_run_end_bounds(regs, i, n + 1, batch);
    }
}

/// The runs, from position `i` on, in which the registers are read: each
/// run as its first register and its length.
pub open spec fn runs_from(regs: Seq<RegisterCell>, i: int, batch: int) -> Seq<(RegisterCell, int)>
    decreases regs.len() - i,
{
    if i < 0 || i >= regs.len() {
        Seq::empty()
    } else {
        let n = run_end(regs, i, 1, batch);
        if 1 <= n && i + n <= regs.len() {
            seq![(regs[i], n)] + runs_from(regs, i + n, batch)
        } else {
            Seq::empty()
        }
    }
}

/// The runs of contiguous registers of one type, at most `batch` long
/// (at least one), in which the registers of a panel are read.
pub open spec fn read_runs(regs: Seq<RegisterCell>, batch: u16) -> Seq<(RegisterCell, int)> {
    runs_from(regs, 0, if batch >= 1 { batch as int } else { 1 })
}

/// The runs as first register and length, each length fitting a `u16`.
pub open spec fn runs_match(r: Seq<(RegisterCell, u16)>, runs: Seq<(RegisterCell, int)>) -> bool {
    &&& r.len() == runs.len()
    &&& forall|k: int| 0 <= k < r.len() ==> (#[trigger] r[k]).0 == runs[k].0 && r[k].1 == runs[k].1
}

/// Splits the registers of a panel into the runs that are read one request
/// each: a run goes on while the next register has the same type and the
/// next address, up to `batch` registers (at least one).
pub fn read_runs_of(regs: &Vec<RegisterCell>, batch: u16) -> (r: Vec<(RegisterCell, u16)>)
    ensures
        runs_match(r@, read_runs(regs@, batch)),
{
    let b: u16 = if batch >= 1 { batch } else { 1 };
    let ghost gb = b as int;
    let mut out: Vec<(RegisterCell, u16)> = Vec::new();
    let mut i: usize = 0;
    while i < regs.len()
        invariant
            i <= regs.len(),
            gb == b as int,
            1 <= b,
            gb == (if batch >= 1 { batch as int } else { 1 }),
            out@.len() + runs_from(regs@, i as int, gb).len() == read_runs(regs@, batch).len(),
            runs_match(out@, read_runs(regs@, batch).take(out@.len() as int)),
            forall|k: int| 0 <= k < runs_from(regs@, i as int, gb).len() ==> #[trigger] runs_from(regs@, i as int, gb)[k]
                == read_runs(regs@, batch)[out@.len() + k],
        decreases regs.len() - i,
    {
        let (kind, start) = regs[i];
        let mut run_len: usize = 1;
        proof {
            lemma_run_end_bounds(regs@, i as int, 1, gb);
        }
        let mut extending = true;
        while extending && i + run_len < regs.len() && run_len < b as usize
            invariant
                i < regs.len(),
                1 <= run_len <= b,
                i + run_len <= regs.len(),
                (kind, start) == regs@[i as int],
                run_end(regs@, i as int, run_len as int, gb) == run_end(regs@, i as int, 1, gb),
                !extending ==> run_end(regs@, i as int, run_len as int, gb) == run_len,
                gb == b as int,
            decreases b - run_len + (if extending { 1int } else { 0int }),
        {
            let (next_kind, next_addr) = regs[i + run_len];
            if next_kind == kind && (start as usize) + run_len == next_addr as usize {
                run_len += 1;
            } else {
                extending = false;
            }
        }
        proof {
            lemma_run_end_bounds(regs@, i as int, 1, gb);
            let n = run_end(regs@, i as int, 1, gb);
            assert(n == run_len);
            let rest = runs_from(regs@, i as int, gb);
            assert(rest == seq![(regs@[i as int], n)] + runs_from(regs@, i + n, gb));
            assert(rest[0] == (regs@[i as int], n));
            assert forall|k: int| 0 <= k < runs_from(regs@, i + n, gb).len() implies #[trigger] runs_from(
                regs@,
                i + n,
                gb,
            )[k] == read_runs(regs@, batch)[out@.len() + 1 + k] by {
                assert(rest[k + 1] == runs_from(regs@, i + n, gb)[k]);
            }
        }
        out.push(((kind, start), run_len as u16));
        i += run_len;
    }
    out
}

/// The registers of a run that starts at `start` and holds `n` of them.
pub open spec fn run_cells(start: RegisterCell, n: int) -> Seq<RegisterCell> {
    Seq::new(n as nat, |j: int| (start.0, (start.1 + j) as u16))
}

/// The registers that a list of runs reads, in order.
pub open spec fn expand_runs(runs: Seq<(RegisterCell, int)>) -> Seq<RegisterCell>
    decreases runs.len(),
{
    if runs.len() == 0 {
        Seq::empty()
    } else {
        run_cells(runs[0].0, runs[0].1) + expand_runs(runs.drop_first())
    }
}

proof fn lemma_run_end_contiguous(regs: Seq<RegisterCell>, i: int, n: int, batch: int)
    requires
        0 <= i,
        1 <= n,
        i + n <= regs.len(),
        forall|j: int| 0 <= j < n ==> #[trigger] regs[i + j] == (regs[i].0, (regs[i].1 + j) as u16),
    ensures
        forall|j: int| 0 <= j < run_end(regs, i, n, batch) ==> #[trigger] regs[i + j] == (regs[i].0, (
            regs[i].1 + j) as u16),
    decreases batch - n,
{
    if 0 <= i && i + n < regs.len() && n < batch && regs[i + n].0 == regs[i].0 && regs[i + n].1 == regs[i].1 + n {
        assert forall|j: int| 0 <= j < n + 1 implies #[trigger] regs[i + j] == (regs[i].0, (regs[i].1 + j) as u16) by {
            if j == n {
                assert(regs[i + n].1 == (regs[i].1 + n) as u16);
            }
        }
        lemma_run_end_contiguous(regs, i, n + 1, batch);
    }
}

proof fn lemma_runs_from_cover(regs: Seq<RegisterCell>, i: int, batch: int)
    requires
        0 <= i <= regs.len(),
        1 <= batch,
    ensures
        expand_runs(runs_from(regs, i, batch)) == regs.skip(i),
        forall|k: int| 0 <= k < runs_from(regs, i, batch).len() ==> 1 <= #[trigger] runs_from(regs, i, batch)[k].1 <= batch,
    decreases regs.len() - i,
{
    if i < regs.len() {
        let n = run_end(regs, i, 1, batch);
        lemma_run_end_bounds(regs, i, 1, batch);
        assert forall|j: int| 0 <= j < 1 implies #[trigger] regs[i + j] == (regs[i].0, (regs[i].1 + j) as u16) by {
            assert(regs[i].1 == (regs[i].1 + 0) as u16);
        }
        lemma_run_end_contiguous(regs, i, 1, batch);
        lemma_runs_from_cover(regs, i + n, batch);
        let runs = runs_from(regs, i, batch);
        assert(runs == seq![(regs[i], n)] + runs_from(regs, i + n, batch));
        assert(runs.drop_first() == runs_from(regs, i + n, batch));
        assert forall|j: int| 0 <= j < n implies #[trigger] run_cells(regs[i], n)[j] == regs.subrange(i, i + n)[j] by {
            assert(regs[i + j] == (regs[i].0, (regs[i].1 + j) as u16));
        }
        assert(run_cells(regs[i], n) =~= regs.subrange(i, i + n));
        assert(regs.skip(i) == regs.subrange(i, i + n) + regs.skip(i + n));
        assert forall|k: int| 0 <= k < runs.len() implies 1 <= #[trigger] runs[k].1 <= batch by {
            if k > 0 {
                assert(runs[k] == runs_from(regs, i + n, batch)[k - 1]);
            }
        }
    } else {
        assert(regs.skip(i) == Seq::<RegisterCell>::empty());
    }
}

/// Reading a panel in runs reads each of its registers once, in order: the
/// runs, laid end to end, give back the registers, and each run holds at
/// least one register and at most `batch` (or one, for a batch of zero).
pub proof fn lemma_read_runs_cover(regs: Seq<RegisterCell>, batch: u16)
    ensures
        expand_runs(read_runs(regs, batch)) == regs,
        forall|k: int| 0 <= k < read_runs(regs, batch).len() ==> 1 <= #[trigger] read_runs(regs, batch)[k].1 <= (
            if batch >= 1 { batch as int } else { 1 }),
{
    lemma_runs_from_cover(regs, 0, if batch >= 1 { batch as int } else { 1 });
    assert(regs.skip(0) == regs);
}

/// The registers of a run paired with the values read for them, or the
/// error that the device answered with another number of values.
pub open spec fn spec_pair_run(cells: Seq<RegisterCell>, values: Seq<u16>) -> Result<Seq<RegisterCellValue>, ()> {
    if cells.len() == values.len() {
        Ok(Seq::new(cells.len(), |j: int| (cells[j], values[j])))
    } else {
        Err(())
    }
}

/// Pairs the registers of a run with the values read for them; a run
/// answered with another number of values is an error naming both counts
/// and the run's first address.
pub fn pair_run(cells: &[RegisterCell], values: &Vec<u16>) -> (r: Result<Vec<RegisterCellValue>, String>)
    requires
        cells@.len() >= 1,
    ensures
        cells@.len() == values@.len() ==> (r matches Ok(v) && v@ == Seq::new(
            cells@.len(),
            |j: int| (cells@[j], values@[j]),
        )),
        cells@.len() != values@.len() ==> (r matches Err(e) && e@ == "Expected "@ + dec(cells@.len())
            + " value(s) at "@ + dec(cells@[0].1 as nat) + ", got "@ + dec(values@.len())),
{
    if cells.len() != values.len() {
        let mut e = String::new();
        push_str(&mut e, "Expected ");
        push_decimal(&mut e, cells.len() as u64);
        push_str(&mut e, " value(s) at ");
        push_decimal(&mut e, cells[0].1 as u64);
        push_str(&mut e, ", got ");
        push_decimal(&mut e, values.len() as u64);
        return Err(e);
    }
    let mut out: Vec<RegisterCellValue> = Vec::new();
    let mut j: usize = 0;
    while j < cells.len()
        invariant
            j <= cells@.len(),
            cells@.len() == values@.len(),
            out@ == Seq::new(j as nat, |k: int| (cells@[k], values@[k])),
        decreases cells.len() - j,
    {
        out.push((cells[j], values[j]));
        j += 1;
        proof {
            assert(out@ =~= Seq::new(j as nat, |k: int| (cells@[k], values@[k])));
        }
    }
    Ok(out)
}

/// The values of a read of `values.len()` registers of one type from
/// `start` on, each paired with its register.
pub fn cells_with_values(register_type: crate::register::RegisterType, start: u16, values: &Vec<u16>) -> (r: Vec<RegisterCellValue>)
    requires
        start + values@.len() <= u16::MAX + 1,
    ensures
        r@ == Seq::new(values@.len(), |j: int| ((register_type, (start + j) as u16), values@[j])),
{
    let mut out: Vec<RegisterCellValue> = Vec::new();
    let mut j: usize = 0;
    while j < values.len()
        invariant
            j <= values@.len(),
            start + values@.len() <= u16::MAX + 1,
            out@ == Seq::new(j as nat, |k: int| ((register_type, (start + k) as u16), values@[k])),
        decreases values.len() - j,
    {
        out.push(((register_type, start + j as u16), values[j]));
        j += 1;
        proof {
            assert(out@ =~= Seq::new(j as nat, |k: int| ((register_type, (start + k) as u16), values@[k])));
        }
    }
    out
}

/// Reconnecting after a lost network connection: the failed attempts so
/// far, and the time (in milliseconds) before which no new attempt starts.
#[derive(Debug, Clone, Copy, PartialEq, Eq, Structural)]
pub struct ReconnectState {
    pub attempts: u32,
    pub next_at: Option<u64>,
}

impl Default for ReconnectState {
    fn default() -> (r: Self)
        ensures
            r.attempts == 0,
            r.next_at is None,
    {
        ReconnectState { attempts: 0, next_at: None }
    }
}

/// What a tick does about the connection.
#[derive(Debug, Clone, Copy, PartialEq, Eq, Structural)]
pub enum ReconnectStep {
    /// The connection needs nothing; the tick goes on.
    Idle,
    /// A reconnect is due later; the tick does nothing else.
    Wait,
    /// A reconnect starts now; the tick does nothing else.
    Start,
}

/// Whether the connection needs a reconnect: only a network device, while
/// the read view is open and the connection failed or is being rebuilt.
pub open spec fn needs_reconnect(device_present: bool, reading: bool, network: bool, connection: ConnectionStatus) -> bool {
    device_present && reading && network && (connection is Error || connection is Reconnecting)
}

/// Decides what a tick does about the connection at time `now`.
pub fn reconnect_step(
    device_present: bool,
    reading: bool,
    network: bool,
    connection: &ConnectionStatus,
    reconnect: &ReconnectState,
    now: u64,
) -> (r: ReconnectStep)
    ensures
        !needs_reconnect(device_present, reading, network, *connection) ==> r == ReconnectStep::Idle,
        needs_reconnect(device_present, reading, network, *connection) ==> r == (match reconnect.next_at {
            Some(at) if now < at => ReconnectStep::Wait,
            _ => ReconnectStep::Start,
        }),
{
    if !device_present || !reading || !network {
        return ReconnectStep::Idle;
    }
    match connection {
        ConnectionStatus::Error(_) | ConnectionStatus::Reconnecting => {},
        _ => {
            return ReconnectStep::Idle;
        },
    }
    match reconnect.next_at {
        Some(at) => {
            if now < at {
                ReconnectStep::Wait
            } else {
                ReconnectStep::Start
            }
        },
        None => ReconnectStep::Start,
    }
}

/// Starting a reconnect: no attempt is scheduled any more, and the
/// connection is being rebuilt.
pub fn start_reconnect(reconnect: &mut ReconnectState) -> (r: ConnectionStatus)
    ensures
        final(reconnect).attempts == old(reconnect).attempts,
        final(reconnect).next_at is None,
        r == ConnectionStatus::Reconnecting,
{
    reconnect.next_at = None;
    ConnectionStatus::Reconnecting
}

/// What a finished reconnect at time `now` leaves: success clears the
/// attempts and the connection starts over as unknown; a failure, or a task
/// that died, counts one more attempt, schedules the next after the backoff
/// and leaves the connection failed with the error.
pub fn finish_reconnect(reconnect: &mut ReconnectState, result: Option<Result<(), &str>>, now: u64) -> (r: ConnectionStatus)
    requires
        now + 30_000 <= u64::MAX,
    ensures
        result matches Some(Ok(_)) ==> *final(reconnect) == ReconnectState::default_spec() && r == ConnectionStatus::Unknown,
        !(result matches Some(Ok(_))) ==> {
            let attempts = if old(reconnect).attempts == u32::MAX { u32::MAX } else { (old(reconnect).attempts + 1) as u32 };
            &&& final(reconnect).attempts == attempts
            &&& final(reconnect).next_at == Some((now + spec_backoff_ms(attempts)) as u64)
            &&& r matches ConnectionStatus::Error(e) && e@ == (match result {
                Some(Err(msg)) => msg@,
                _ => "reconnect task stopped unexpectedly"@,
            })
        },
{
    match result {
        Some(Ok(_)) => {
            *reconnect = ReconnectState { attempts: 0, next_at: None };
            ConnectionStatus::Unknown
        },
        other => {
            let mut error = String::new();
            match other {
                Some(Err(msg)) => push_str(&mut error, msg),
                _ => push_str(&mut error, "reconnect task stopped unexpectedly"),
            }
            reconnect.attempts = reconnect.attempts.saturating_add(1);
            let delay = reconnect_backoff(reconnect.attempts);
            reconnect.next_at = Some(now + delay);
            ConnectionStatus::Error(error)
        },
    }
}

impl ReconnectState {
    /// The state before any attempt.
    pub open spec fn default_spec() -> ReconnectState {
        ReconnectState { attempts: 0, next_at: None }
    }
}

/// Whether quitting asks first: with unsaved changes, unless the settings
/// say to ignore them.
pub fn quit_asks_first(dirty: bool, ignore_dirty: bool) -> (r: bool)
    ensures
        r == (dirty && !ignore_dirty),
{
    dirty && !ignore_dirty
}

/// Whether the automatic refresh is due: not paused nor headless, in the
/// read view, with an interval set that has passed since the last refresh.
pub fn refresh_due(paused: bool, headless: bool, reading: bool, interval_ms: Option<u64>, elapsed_ms: u64) -> (r: bool)
    ensures
        r == (!paused && !headless && reading && (interval_ms matches Some(ms) && elapsed_ms >= ms)),
{
    if paused || headless || !reading {
        return false;
    }
    match interval_ms {
        Some(ms) => elapsed_ms >= ms,
        None => false,
    }
}

/// What a tick does once the finished background work is applied.
#[derive(Debug, Clone, Copy, PartialEq, Eq, Structural)]
pub enum TickAction {
    /// Background work still runs, or nothing is due.
    Nothing,
    /// A reconnect is scheduled for later.
    WaitForReconnect,
    /// A reconnect starts.
    Reconnect,
    /// The sweep moves the cursor to its address and reads there.
    SweepRead,
    /// The sweep runs, but the read view is not open.
    SweepPaused,
    /// The regular refresh reads.
    Refresh,
}

/// The order of a tick: running background work waits; then the
/// connection; then a running sweep; then the regular refresh.
pub fn tick_action(busy: bool, reconnect: ReconnectStep, sweeping: bool, reading: bool, due: bool) -> (r: TickAction)
    ensures
        busy ==> r == TickAction::Nothing,
        !busy && reconnect == ReconnectStep::Wait ==> r == TickAction::WaitForReconnect,
        !busy && reconnect == ReconnectStep::Start ==> r == TickAction::Reconnect,
        !busy && reconnect == ReconnectStep::Idle && sweeping ==> r == (if reading {
            TickAction::SweepRead
        } else {
            TickAction::SweepPaused
        }),
        !busy && reconnect == ReconnectStep::Idle && !sweeping ==> r == (if due {
            TickAction::Refresh
        } else {
            TickAction::Nothing
        }),
{
    if busy {
        return TickAction::Nothing;
    }
    match reconnect {
        ReconnectStep::Wait => TickAction::WaitForReconnect,
        ReconnectStep::Start => TickAction::Reconnect,
        ReconnectStep::Idle => {
            if sweeping {
                if reading {
                    TickAction::SweepRead
                } else {
                    TickAction::SweepPaused
                }
            } else if due {
                TickAction::Refresh
            } else {
                TickAction::Nothing
            }
        },
    }
}

/// The read view the program opens with: at the configured address, type
/// and panel, everything else as a fresh view.
pub fn startup_read_params(startup: &Startup) -> (r: ReadParams)
    ensures
        r.position == startup.address && r.window_start == startup.address,
        r.register_type == startup.register_type,
        r.panel == startup.panel,
        r.col_offset == 0 && r.copy_column is None,
        r.pinned_index == 0 && r.pinned_top == 0,
        r.popup is None && !r.graph && r.graph_series@.len() == 0,
        r.refresh_timer == 0 && r.read_started == 0 && r.status_at == 0,
        r.read_duration is None && !r.loading && r.read_error is None && r.status is None,
{
    let mut r = ReadParams::default();
    r.position = startup.address;
    r.window_start = startup.address;
    r.register_type = startup.register_type;
    r.panel = startup.panel;
    r
}

/// What a read task that died leaves: the read view shows the error and
/// stops loading, and the connection has failed with it.
pub fn lost_read(read: &mut ReadParams) -> (r: ConnectionStatus)
    ensures
        *final(read) == (ReadParams { read_error: final(read).read_error, loading: false, ..*old(read) }),
        final(read).read_error matches Some(e) && e@ == "read task stopped unexpectedly"@,
        r matches ConnectionStatus::Error(e) && e@ == "read task stopped unexpectedly"@,
{
    let mut message = String::new();
    push_str(&mut message, "read task stopped unexpectedly");
    let mut shown = String::new();
    push_str(&mut shown, "read task stopped unexpectedly");
    read.read_error = Some(shown);
    read.loading = false;
    ConnectionStatus::Error(message)
}

/// What a finished write reports: whether it succeeded (a write task that
/// died did not), and the message the write popup shows, as a success or
/// as a failure.
pub fn write_finished(outcome: Option<(bool, &str)>) -> (r: (bool, StatusMessage))
    ensures
        outcome matches Some((ok, text)) ==> r.0 == ok && r.1.text@ == text@ && r.1.kind == (if ok {
            MessageKind::Success
        } else {
            MessageKind::Failure
        }),
        outcome is None ==> !r.0 && r.1.text@ == "write task stopped unexpectedly"@ && r.1.kind == MessageKind::Failure,
{
    let mut text = String::new();
    match outcome {
        Some((ok, t)) => {
            push_str(&mut text, t);
            (ok, StatusMessage { text, kind: if ok { MessageKind::Success } else { MessageKind::Failure } })
        },
        None => {
            push_str(&mut text, "write task stopped unexpectedly");
            (false, StatusMessage { text, kind: MessageKind::Failure })
        },
    }
}

} // verus!
