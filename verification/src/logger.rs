use vstd::prelude::*;
use crate::interpretator::{cell, zero_padded, zeros};
use crate::text::{dec, push_char, push_decimal, push_fill, push_str};

verus! {

/// How many entries the application log keeps.
pub const CAP: usize = 1000;

/// The severity of a log entry.
#[derive(Debug, Clone, Copy, PartialEq, Eq, Structural)]
pub enum LogLevel {
    Info,
    Warn,
    Error,
}

/// The tag a log line shows for a level.
pub open spec fn spec_tag(level: LogLevel) -> Seq<char> {
    match level {
        LogLevel::Info => "INFO"@,
        LogLevel::Warn => "WARN"@,
        LogLevel::Error => "ERROR"@,
    }
}

impl LogLevel {
    /// The tag a log line shows for this level.
    pub fn tag(self) -> (r: &'static str)
        ensures
            r@ == spec_tag(self),
    {
        match self {
            LogLevel::Info => "INFO",
            LogLevel::Warn => "WARN",
            LogLevel::Error => "ERROR",
        }
    }
}

/// A local date and time, to the millisecond.
#[derive(Debug, Clone, Copy, PartialEq, Eq, Structural)]
pub struct LogTime {
    pub year: u16,
    pub month: u8,
    pub day: u8,
    pub hour: u8,
    pub minute: u8,
    pub second: u8,
    pub millis: u16,
}

/// One entry of the application log.
#[derive(Debug, PartialEq)]
pub struct LogEntry {
    pub time: LogTime,
    pub level: LogLevel,
    pub message: String,
}

impl Clone for LogEntry {
    fn clone(&self) -> (r: Self)
        ensures
            r == *self,
    {
        LogEntry { time: self.time, level: self.level, message: self.message.clone() }
    }
}

/// `n` in decimal with leading zeros up to width `w`.
pub open spec fn padded_dec(n: nat, w: int) -> Seq<char> {
    zero_padded(dec(n), w)
}

/// The year as `%Y` writes it: four digits at least, with a `+` past 9999.
pub open spec fn year_text(year: u16) -> Seq<char> {
    if year > 9999 {
        seq!['+'] + dec(year as nat)
    } else {
        padded_dec(year as nat, 4)
    }
}

/// A time as `%Y-%m-%dT%H:%M:%S%.3f` writes it.
pub open spec fn time_text(t: LogTime) -> Seq<char> {
    year_text(t.year) + seq!['-'] + padded_dec(t.month as nat, 2) + seq!['-'] + padded_dec(
        t.day as nat,
        2,
    ) + seq!['T'] + padded_dec(t.hour as nat, 2) + seq![':'] + padded_dec(t.minute as nat, 2)
        + seq![':'] + padded_dec(t.second as nat, 2) + seq!['.'] + padded_dec(t.millis as nat, 3)
}

/// The exported line of an entry: time, level tag padded to five, message.
pub open spec fn entry_line(e: LogEntry) -> Seq<char> {
    time_text(e.time) + seq![' '] + cell(spec_tag(e.level), 5) + e.message@ + seq!['\n']
}

/// The exported lines of `entries`, one after the other.
pub open spec fn export_text(entries: Seq<LogEntry>) -> Seq<char>
    decreases entries.len(),
{
    if entries.len() == 0 {
        seq![]
    } else {
        export_text(entries.drop_last()) + entry_line(entries.last())
    }
}

fn push_padded_dec(out: &mut String, n: u64, w: usize)
    ensures
        final(out)@ == old(out)@ + padded_dec(n as nat, w as int),
{
    let mut digits = String::new();
    push_decimal(&mut digits, n);
    let len = digits.as_str().unicode_len();
    let mut i: usize = len;
    let ghost start = out@;
    while i < w
        invariant
            len <= i,
            len < w ==> i <= w,
            len >= w ==> i == len,
            len == dec(n as nat).len(),
            digits@ == dec(n as nat),
            out@ == start + zeros((i - len) as nat),
        decreases w - i,
    {
        push_char(out, '0');
        i += 1;
        assert(zeros((i - len) as nat) =~= zeros((i - 1 - len) as nat).push('0'));
    }
    push_str(out, digits.as_str());
    assert(out@ =~= start + padded_dec(n as nat, w as int));
}

fn push_time(out: &mut String, t: LogTime)
    ensures
        final(out)@ == old(out)@ + time_text(t),
{
    if t.year > 9999 {
        push_char(out, '+');
        push_decimal(out, t.year as u64);
    } else {
        push_padded_dec(out, t.year as u64, 4);
    }
    push_char(out, '-');
    push_padded_dec(out, t.month as u64, 2);
    push_char(out, '-');
    push_padded_dec(out, t.day as u64, 2);
    push_char(out, 'T');
    push_padded_dec(out, t.hour as u64, 2);
    push_char(out, ':');
    push_padded_dec(out, t.minute as u64, 2);
    push_char(out, ':');
    push_padded_dec(out, t.second as u64, 2);
    push_char(out, '.');
    push_padded_dec(out, t.millis as u64, 3);
    assert(out@ =~= old(out)@ + time_text(t));
}

/// The entries as text, one line each: time, level tag padded to five
/// characters, message.
pub fn export(entries: &[LogEntry]) -> (r: String)
    ensures
        r@ == export_text(entries@),
{
    let mut out = String::new();
    let mut i: usize = 0;
    while i < entries.len()
        invariant
            i <= entries@.len(),
            out@ == export_text(entries@.take(i as int)),
        decreases entries@.len() - i,
    {
        let e = &entries[i];
        let ghost before = out@;
        push_time(&mut out, e.time);
        push_char(&mut out, ' ');
        let tag = e.level.tag();
        push_str(&mut out, tag);
        push_fill(&mut out, tag.unicode_len(), 5);
        push_char(&mut out, ' ');
        push_str(&mut out, e.message.as_str());
        push_char(&mut out, '\n');
        proof {
            assert(entries@.take(i + 1).drop_last() =~= entries@.take(i as int));
            assert(entries@.take(i + 1).last() == entries@[i as int]);
            assert(out@ =~= before + entry_line(entries@[i as int]));
        }
        i += 1;
    }
    assert(entries@.take(entries@.len() as int) =~= entries@);
    out
}

/// The last `cap` items of `s`, all of them when there are fewer.
pub open spec fn keep_last<A>(s: Seq<A>, cap: int) -> Seq<A> {
    if s.len() > cap {
        s.skip(s.len() - cap)
    } else {
        s
    }
}

/// The application log: the newest `CAP` entries, oldest first.
pub struct LogBuffer {
    entries: Vec<LogEntry>,
}

impl LogBuffer {
    /// The entries held, oldest first.
    pub closed spec fn view_entries(&self) -> Seq<LogEntry> {
        self.entries@
    }

    /// At most `CAP` entries.
    #[verifier::type_invariant]
    closed spec fn wf(&self) -> bool {
        self.view_entries().len() <= CAP
    }

    /// An empty log.
    pub fn new() -> (r: Self)
        ensures
            r.view_entries().len() == 0,
    {
        LogBuffer { entries: Vec::new() }
    }

    /// Adds `entry`, dropping the oldest entry when the log is full.
    pub fn push(&mut self, entry: LogEntry)
        ensures
            final(self).view_entries() == keep_last(old(self).view_entries().push(entry), CAP as int),
            final(self).view_entries().len() <= CAP,
    {
        proof {
            use_type_invariant(&*self);
        }
        let mut entries: Vec<LogEntry> = Vec::new();
        std::mem::swap(&mut entries, &mut self.entries);
        let ghost all = entries@.push(entry);
        entries.push(entry);
        if entries.len() > CAP {
            entries.remove(0);
            assert(entries@ =~= all.skip(all.len() - CAP));
        }
        self.entries = entries;
    }

    /// How many entries the log holds.
    pub fn count(&self) -> (r: usize)
        ensures
            r == self.view_entries().len(),
    {
        self.entries.len()
    }

    /// A copy of the entries, oldest first.
    pub fn snapshot(&self) -> (r: Vec<LogEntry>)
        ensures
            r@ == self.view_entries(),
    {
        let mut out: Vec<LogEntry> = Vec::new();
        let mut i: usize = 0;
        while i < self.entries.len()
            invariant
                i <= self.entries@.len(),
                out@ == self.entries@.take(i as int),
            decreases self.entries@.len() - i,
        {
            out.push(self.entries[i].clone());
            i += 1;
            assert(out@ =~= self.entries@.take(i as int));
        }
        assert(self.entries@.take(self.entries@.len() as int) =~= self.entries@);
        out
    }
}

/// However many entries are pushed, the log never holds more than `CAP`,
/// and it holds the newest of them, oldest first.
pub proof fn lemma_log_keeps_newest(held: Seq<LogEntry>, entry: LogEntry)
    requires
        held.len() <= CAP,
    ensures
        keep_last(held.push(entry), CAP as int).len() <= CAP,
        keep_last(held.push(entry), CAP as int).last() == entry,
        held.len() < CAP ==> keep_last(held.push(entry), CAP as int) == held.push(entry),
{
}

} // verus!
