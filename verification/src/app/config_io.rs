use vstd::prelude::*;
use crate::app::label::{entry_at, keyed_sorted, set_entry};
use crate::config::Startup;
use crate::register::RegisterCell;
use crate::state::{MessageKind, ReadParams, StatusMessage};
use crate::text::{dec, push_decimal, push_str, trim, trimmed, str_eq};

verus! {

/// Adds `incoming` to `list`, an entry of `incoming` replacing the one of
/// its register (the last one where a register comes twice); the list
/// stays in register order.
pub fn extend_entries<V>(list: &mut Vec<(RegisterCell, V)>, incoming: Vec<(RegisterCell, V)>)
    requires
        keyed_sorted(old(list)@),
    ensures
        keyed_sorted(final(list)@),
        forall|d: RegisterCell| #[trigger] entry_at(final(list)@, d) == (match entry_at(incoming@, d) {
            Some(v) => Some(v),
            None => entry_at(old(list)@, d),
        }),
{
    let ghost start = list@;
    let ghost all = incoming@;
    let n = incoming.len();
    let mut rest = incoming;
    let mut k: usize = 0;
    while rest.len() > 0
        invariant
            k <= all.len(),
            all.len() == n,
            rest@ == all.skip(k as int),
            keyed_sorted(list@),
            forall|d: RegisterCell| #[trigger] entry_at(list@, d) == (match entry_at(all.take(k as int), d) {
                Some(v) => Some(v),
                None => entry_at(start, d),
            }),
        decreases rest@.len(),
    {
        let (cell, v) = rest.remove(0);
        proof {
            assert(all.take(k + 1).drop_last() == all.take(k as int));
            assert(all.take(k + 1).last() == (cell, v));
        }
        set_entry(list, cell, Some(v));
        k += 1;
        proof {
            assert(rest@ =~= all.skip(k as int));
        }
    }
    assert(all.take(k as int) == all);
}

/// What an import reports.
pub open spec fn import_text(pins: nat, labels: nat, rules: nat) -> Seq<char> {
    "Imported "@ + dec(pins) + " pin(s), "@ + dec(labels) + " label(s), "@ + dec(rules) + " rule(s)"@
}

/// Writes what an import reports.
pub fn import_summary(pins: usize, labels: usize, rules: usize) -> (r: StatusMessage)
    ensures
        r.kind == MessageKind::Success,
        r.text@ == import_text(pins as nat, labels as nat, rules as nat),
{
    let mut text = String::new();
    push_str(&mut text, "Imported ");
    push_decimal(&mut text, pins as u64);
    push_str(&mut text, " pin(s), ");
    push_decimal(&mut text, labels as u64);
    push_str(&mut text, " label(s), ");
    push_decimal(&mut text, rules as u64);
    push_str(&mut text, " rule(s)");
    StatusMessage { text, kind: MessageKind::Success }
}

/// What copying the register data reports: how much was copied, or that
/// the clipboard could not be reached.
pub fn copy_summary(copied: bool, pins: usize, labels: usize, rules: usize) -> (r: StatusMessage)
    ensures
        copied ==> r.kind == MessageKind::Success && r.text@ == "Copied "@ + dec(pins as nat) + " pin(s), "@
            + dec(labels as nat) + " label(s), "@ + dec(rules as nat) + " rule(s) to clipboard"@,
        !copied ==> r.kind == MessageKind::Failure && r.text@ == "Clipboard unavailable"@,
{
    let mut text = String::new();
    if !copied {
        push_str(&mut text, "Clipboard unavailable");
        return StatusMessage { text, kind: MessageKind::Failure };
    }
    push_str(&mut text, "Copied ");
    push_decimal(&mut text, pins as u64);
    push_str(&mut text, " pin(s), ");
    push_decimal(&mut text, labels as u64);
    push_str(&mut text, " label(s), ");
    push_decimal(&mut text, rules as u64);
    push_str(&mut text, " rule(s) to clipboard");
    StatusMessage { text, kind: MessageKind::Success }
}

/// The configuration the cycle key loads: the next configuration set in
/// the settings, else the one the program started with where another is
/// loaded; none otherwise.
pub fn cycle_target(next_config: &str, config_path: &str, origin_path: &str) -> (r: Option<String>)
    ensures
        trim(next_config@).len() > 0 ==> (r matches Some(t) && t@ == trim(next_config@)),
        trim(next_config@).len() == 0 && config_path@ != origin_path@ ==> (r matches Some(t) && t@
            == origin_path@),
        trim(next_config@).len() == 0 && config_path@ == origin_path@ ==> r is None,
{
    let next = trimmed(next_config);
    if next.as_str().unicode_len() > 0 {
        Some(next)
    } else if !str_eq(config_path, origin_path) {
        let mut s = String::new();
        push_str(&mut s, origin_path);
        Some(s)
    } else {
        None
    }
}

/// Where the read view stands, as a startup position.
pub fn startup_of(read: &ReadParams) -> (r: Startup)
    ensures
        r == (Startup { address: read.position, register_type: read.register_type, panel: read.panel }),
{
    Startup { address: read.position, register_type: read.register_type, panel: read.panel }
}

/// What loading a configuration from `path` reports: loaded, the device
/// error, or that the load task died.
pub fn load_outcome(path: &str, result: Option<Result<(), &str>>) -> (r: StatusMessage)
    ensures
        result matches Some(Ok(_)) ==> r.kind == MessageKind::Success && r.text@ == "Loaded "@ + path@,
        result matches Some(Err(e)) ==> r.kind == MessageKind::Failure && r.text@ == "Load failed: device: "@ + e@,
        result is None ==> r.kind == MessageKind::Failure && r.text@ == "Load failed: task stopped unexpectedly"@,
{
    let mut text = String::new();
    match result {
        Some(Ok(_)) => {
            push_str(&mut text, "Loaded ");
            push_str(&mut text, path);
            StatusMessage { text, kind: MessageKind::Success }
        },
        Some(Err(e)) => {
            push_str(&mut text, "Load failed: device: ");
            push_str(&mut text, e);
            StatusMessage { text, kind: MessageKind::Failure }
        },
        None => {
            push_str(&mut text, "Load failed: task stopped unexpectedly");
            StatusMessage { text, kind: MessageKind::Failure }
        },
    }
}

} // verus!
