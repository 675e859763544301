use vstd::prelude::*;
use crate::num_ops::{digit_add, digit_remove, wrap_index, wrapped_index, Decimal};
use crate::state::{is_digit, MessageKind, ScanState, StatusMessage, UnitField, UnitParams, UnitScanHit};

verus! {

/// What a unit id answered when the scan probed it.
#[derive(Debug, PartialEq)]
pub enum UnitProbeOutcome {
    /// It returned the registers asked for.
    Response(Vec<u16>),
    /// It raised a Modbus exception, given by its text.
    Exception(String),
    /// It did not answer.
    Silent,
}

/// `v` with the decimal digit `d` appended, or `v` itself where the result
/// would not fit in a byte.
pub open spec fn digit_pushed_u8(v: u8, d: u8) -> u8 {
    if v * 10 + d <= u8::MAX {
        (v * 10 + d) as u8
    } else {
        v
    }
}

/// The value of the decimal digit `c`.
pub open spec fn digit_value(c: char) -> u8 {
    (c as u32 - '0' as u32) as u8
}

/// The hit a probe outcome adds to the list, if any.
pub open spec fn probe_hit(unit_id: u8, outcome: UnitProbeOutcome) -> Option<UnitScanHit> {
    match outcome {
        UnitProbeOutcome::Response(values) => Some(UnitScanHit { unit_id, result: Ok(values) }),
        UnitProbeOutcome::Exception(text) => Some(UnitScanHit { unit_id, result: Err(text) }),
        UnitProbeOutcome::Silent => None,
    }
}

fn owned_text(text: &str) -> (r: String)
    ensures
        r@ == text@,
{
    let mut s = String::new();
    crate::text::push_str(&mut s, text);
    s
}

impl UnitParams {
    /// Moves the cursor over the fields and the listed hits, wrapping
    /// around.
    pub fn move_selection(&mut self, down: bool)
        ensures
            final(self).selected == wrapped_index(
                old(self).selected as int,
                (old(self).spec_fields().len() as u16) as int,
                down,
            ),
            final(self).hits == old(self).hits && final(self).show_exceptions == old(self).show_exceptions,
            final(self).id == old(self).id && final(self).from == old(self).from && final(self).to
                == old(self).to,
            final(self).scan == old(self).scan,
    {
        let n = self.fields().len() as u16;
        self.selected = wrap_index(self.selected, n, down);
    }

    /// Flips the field's switch: stop at the first hit, show values as
    /// text, list exceptions. Other fields change nothing.
    pub fn toggle(&mut self, field: UnitField)
        ensures
            final(self).stop_at_first == (old(self).stop_at_first != (field == UnitField::Mode)),
            final(self).ascii == (old(self).ascii != (field == UnitField::Repr)),
            final(self).show_exceptions == (old(self).show_exceptions != (field == UnitField::Exceptions)),
            final(self).id == old(self).id && final(self).from == old(self).from && final(self).to
                == old(self).to && final(self).selected == old(self).selected,
            final(self).scan == old(self).scan && final(self).hits == old(self).hits,
    {
        match field {
            UnitField::Mode => self.stop_at_first = !self.stop_at_first,
            UnitField::Repr => self.ascii = !self.ascii,
            UnitField::Exceptions => self.show_exceptions = !self.show_exceptions,
            _ => {},
        }
    }

    /// Types a decimal digit into the unit id or an end of the scan range;
    /// anything else changes nothing, as does a digit that would not fit.
    pub fn type_digit(&mut self, field: UnitField, c: char)
        ensures
            final(self).id == (if is_digit(c) && field == UnitField::Id {
                digit_pushed_u8(old(self).id, digit_value(c))
            } else {
                old(self).id
            }),
            final(self).from == (if is_digit(c) && field == UnitField::From {
                digit_pushed_u8(old(self).from, digit_value(c))
            } else {
                old(self).from
            }),
            final(self).to == (if is_digit(c) && field == UnitField::To {
                digit_pushed_u8(old(self).to, digit_value(c))
            } else {
                old(self).to
            }),
            final(self).selected == old(self).selected && final(self).scan == old(self).scan
                && final(self).hits == old(self).hits,
    {
        if c < '0' || c > '9' {
            return;
        }
        let digit = (c as u32 - '0' as u32) as u8;
        match field {
            UnitField::Id => digit_add(&mut self.id, digit),
            UnitField::From => digit_add(&mut self.from, digit),
            UnitField::To => digit_add(&mut self.to, digit),
            _ => {},
        }
    }

    /// Drops the last digit of the unit id or of an end of the scan range.
    pub fn backspace(&mut self, field: UnitField)
        ensures
            final(self).id == (if field == UnitField::Id {
                old(self).id / 10
            } else {
                old(self).id
            }),
            final(self).from == (if field == UnitField::From {
                old(self).from / 10
            } else {
                old(self).from
            }),
            final(self).to == (if field == UnitField::To {
                old(self).to / 10
            } else {
                old(self).to
            }),
            final(self).selected == old(self).selected && final(self).scan == old(self).scan
                && final(self).hits == old(self).hits,
    {
        match field {
            UnitField::Id => digit_remove(&mut self.id),
            UnitField::From => digit_remove(&mut self.from),
            UnitField::To => digit_remove(&mut self.to),
            _ => {},
        }
    }

    /// The scan button: stops a running scan; else, with a device there and
    /// free, orders the range, clears the hits and starts probing at its
    /// lower end, which it returns; else says why it cannot.
    pub fn scan_action(&mut self, connected: bool, slot_free: bool) -> (first: Option<u8>)
        ensures
            old(self).scan == ScanState::Probing ==> first is None && final(self).scan
                == ScanState::Stopped && final(self).hits == old(self).hits && final(self).status
                == old(self).status,
            old(self).scan != ScanState::Probing && !connected ==> first is None && final(self).scan
                == old(self).scan && final(self).status is Some && final(self).status->0.text@
                == "No device connected"@ && final(self).status->0.kind == MessageKind::Failure,
            old(self).scan != ScanState::Probing && connected && !slot_free ==> first is None
                && final(self).scan == old(self).scan && final(self).status is Some
                && final(self).status->0.text@ == "Device is busy."@ && final(self).status->0.kind
                == MessageKind::Info,
            old(self).scan != ScanState::Probing && connected && slot_free ==> {
                &&& final(self).from == vstd::math::min(old(self).from as int, old(self).to as int)
                &&& final(self).to == vstd::math::max(old(self).from as int, old(self).to as int)
                &&& final(self).scan == ScanState::Probing
                &&& final(self).current == final(self).from
                &&& final(self).hits@.len() == 0
                &&& final(self).status is None
                &&& first == Some(final(self).from)
            },
            !(old(self).scan != ScanState::Probing && connected && slot_free) ==> final(self).from
                == old(self).from && final(self).to == old(self).to && final(self).current
                == old(self).current,
            final(self).id == old(self).id && final(self).stop_at_first == old(self).stop_at_first
                && final(self).register_type == old(self).register_type && final(self).address
                == old(self).address && final(self).amount == old(self).amount,
    {
        if self.active() {
            self.scan = ScanState::Stopped;
            return None;
        }
        if !connected {
            self.status = Some(StatusMessage { text: owned_text("No device connected"), kind: MessageKind::Failure });
            return None;
        }
        if !slot_free {
            self.status = Some(StatusMessage { text: owned_text("Device is busy."), kind: MessageKind::Info });
            return None;
        }
        if self.to < self.from {
            let lo = self.to;
            self.to = self.from;
            self.from = lo;
        }
        self.hits = Vec::new();
        self.scan = ScanState::Probing;
        self.current = self.from;
        self.status = None;
        Some(self.from)
    }

    /// Takes what the probe of `unit_id` found, `None` where the probe task
    /// itself died. A response or an exception joins the hits; the scan
    /// ends after the upper end, or after the first response where it stops
    /// at the first hit; else it returns the next unit id to probe. Outside
    /// a running scan nothing changes.
    pub fn apply_probe(&mut self, result: Option<(u8, UnitProbeOutcome)>) -> (next: Option<u8>)
        ensures
            old(self).scan != ScanState::Probing ==> next is None && *final(self) == *old(self),
            old(self).scan == ScanState::Probing && result is None ==> next is None && final(self).scan
                == ScanState::Failed && final(self).hits == old(self).hits,
            old(self).scan == ScanState::Probing && result is Some ==> ({
                let probe = result->0;
                let unit_id = probe.0;
                let outcome = probe.1;
                let done = (old(self).stop_at_first && outcome is Response) || unit_id >= old(self).to;
                &&& final(self).hits@ == (match probe_hit(unit_id, outcome) {
                    Some(hit) => old(self).hits@.push(hit),
                    None => old(self).hits@,
                })
                &&& done ==> next is None && final(self).scan == ScanState::Done && final(self).current
                    == old(self).current
                &&& !done ==> next == Some((unit_id + 1) as u8) && final(self).scan == ScanState::Probing
                    && final(self).current == unit_id + 1 && unit_id + 1 <= old(self).to
            }),
            final(self).from == old(self).from && final(self).to == old(self).to && final(self).id
                == old(self).id && final(self).status == old(self).status,
    {
        if !self.active() {
            return None;
        }
        let (unit_id, outcome) = match result {
            Some(r) => r,
            None => {
                self.scan = ScanState::Failed;
                return None;
            },
        };
        let responded = matches!(outcome, UnitProbeOutcome::Response(_));
        match outcome {
            UnitProbeOutcome::Response(values) => {
                self.hits.push(UnitScanHit { unit_id, result: Ok(values) });
            },
            UnitProbeOutcome::Exception(text) => {
                self.hits.push(UnitScanHit { unit_id, result: Err(text) });
            },
            UnitProbeOutcome::Silent => {},
        }
        if (self.stop_at_first && responded) || unit_id >= self.to {
            self.scan = ScanState::Done;
            return None;
        }
        self.current = unit_id + 1;
        Some(self.current)
    }

    /// The unit id of the `index`th hit, if there is one.
    pub fn hit_unit(&self, index: usize) -> (r: Option<u8>)
        ensures
            index < self.hits@.len() ==> r == Some(self.hits@[index as int].unit_id),
            index >= self.hits@.len() ==> r is None,
    {
        if index < self.hits.len() {
            Some(self.hits[index].unit_id)
        } else {
            None
        }
    }
}

} // verus!
