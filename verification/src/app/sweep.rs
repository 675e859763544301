use vstd::prelude::*;
use crate::app::SweepState;
use crate::num_ops::{digit_add, digit_remove, wrap_index, wrapped_index, Decimal};
use crate::state::{is_digit, SweepConfigParams, SweepField};

verus! {

/// How many registers a sweep step reads from `current`: a batch (at least
/// one), a single register while it steps past an error, and never past
/// `to` nor past the last address.
pub open spec fn sweep_amount(s: SweepState, batch: u16) -> int {
    let wanted: int = if s.errored {
        1
    } else if batch >= 1 {
        batch as int
    } else {
        1
    };
    let room: int = if s.current <= s.to {
        s.to - s.current + 1
    } else {
        0x1_0000 - s.current
    };
    vstd::math::min(wanted, room)
}

/// The sweep after a step that read `amount` registers from `start`: past
/// an error it moves on by one register only; once the step reaches `to`
/// a looping sweep starts over at `from` and any other one ends.
pub open spec fn swept(s: SweepState, start: u16, amount: u16, errored: bool) -> SweepState {
    let covered: int = if errored {
        1
    } else {
        amount as int
    };
    let end: int = vstd::math::min(start + covered - 1, u16::MAX as int);
    if end >= s.to {
        if s.continuous {
            SweepState { current: s.from, errored: false, ..s }
        } else {
            SweepState { active: false, errored: errored, ..s }
        }
    } else {
        SweepState { current: (end + 1) as u16, errored: errored, ..s }
    }
}

impl SweepState {
    /// The registers the next step of the sweep reads: where it stands and
    /// how many.
    pub fn window(&self, batch: u16) -> (r: (u16, u16))
        ensures
            r.0 == self.current,
            r.1 == sweep_amount(*self, batch),
            r.1 >= 1,
            r.0 + r.1 - 1 <= u16::MAX,
    {
        let wanted: u16 = if self.errored {
            1
        } else if batch >= 1 {
            batch
        } else {
            1
        };
        let room: u32 = if self.current <= self.to {
            self.to as u32 - self.current as u32 + 1
        } else {
            0x1_0000u32 - self.current as u32
        };
        let amount: u16 = if (wanted as u32) < room {
            wanted
        } else {
            room as u16
        };
        (self.current, amount)
    }

    /// Moves the sweep on after a step that read `amount` registers from
    /// `start`, `errored` telling whether that read failed.
    pub fn advance(&mut self, start: u16, amount: u16, errored: bool)
        requires
            amount >= 1,
        ensures
            *final(self) == swept(*old(self), start, amount, errored),
            final(self).active && old(self).from <= start && old(self).from <= old(self).to
                ==> final(self).from <= final(self).current <= final(self).to,
    {
        let covered: u16 = if errored {
            1
        } else {
            amount
        };
        let end = start.saturating_add(covered - 1);
        if end >= self.to {
            if self.continuous {
                self.current = self.from;
                self.errored = false;
            } else {
                self.active = false;
                self.errored = errored;
            }
        } else {
            self.current = end + 1;
            self.errored = errored;
        }
    }

    /// Ends a running sweep.
    pub fn stop(&mut self)
        ensures
            *final(self) == (SweepState { active: false, ..*old(self) }),
    {
        self.active = false;
    }

    /// Takes the range and the mode of the sweep popup, the ends in order:
    /// a running sweep stops, another one starts at the lower end. Tells
    /// whether it started.
    pub fn apply_config(&mut self, from: u16, to: u16, continuous: bool) -> (started: bool)
        ensures
            started == !old(self).active,
            final(self).from == vstd::math::min(from as int, to as int),
            final(self).to == vstd::math::max(from as int, to as int),
            final(self).continuous == continuous,
            final(self).active == started,
            started ==> final(self).current == final(self).from && !final(self).errored,
            !started ==> final(self).current == old(self).current && final(self).errored == old(
                self,
            ).errored,
    {
        let (lo, hi) = if to < from {
            (to, from)
        } else {
            (from, to)
        };
        self.from = lo;
        self.to = hi;
        self.continuous = continuous;
        if self.active {
            self.active = false;
            false
        } else {
            self.current = lo;
            self.errored = false;
            self.active = true;
            true
        }
    }

    /// The sweep popup as it opens: the current range and mode, the cursor
    /// on the action.
    pub fn config_params(&self) -> (r: SweepConfigParams)
        ensures
            r == (SweepConfigParams {
                from: self.from,
                to: self.to,
                continuous: self.continuous,
                selected: 3,
            }),
    {
        SweepConfigParams { from: self.from, to: self.to, continuous: self.continuous, selected: 3 }
    }
}

/// A sweep that starts inside its range stays inside it, step after step,
/// as long as it runs; a looping sweep never ends by itself.
pub proof fn lemma_sweep_stays_in_range(s: SweepState, batch: u16, errored: bool)
    requires
        s.from <= s.current <= s.to,
        s.active,
    ensures
        ({
            let amount = sweep_amount(s, batch);
            let next = swept(s, s.current, amount as u16, errored);
            &&& 1 <= amount
            &&& next.active ==> next.from <= next.current <= next.to
            &&& s.continuous ==> next.active
        }),
{
}

/// A step without error that does not finish the sweep moves its cursor on
/// by the whole window.
pub proof fn lemma_sweep_moves_by_window(s: SweepState, batch: u16)
    requires
        s.from <= s.current <= s.to,
        s.current + sweep_amount(s, batch) - 1 < s.to,
    ensures
        swept(s, s.current, sweep_amount(s, batch) as u16, false).current == s.current + sweep_amount(s, batch),
{
}

impl SweepConfigParams {
    /// Moves the cursor over the four fields, wrapping around.
    pub fn move_selection(&mut self, down: bool)
        ensures
            final(self).selected == wrapped_index(old(self).selected as int, 4, down),
            final(self).from == old(self).from && final(self).to == old(self).to
                && final(self).continuous == old(self).continuous,
    {
        self.selected = wrap_index(self.selected, 4, down);
    }

    /// Flips between a single pass and a looping sweep.
    pub fn toggle_mode(&mut self)
        ensures
            *final(self) == (SweepConfigParams { continuous: !old(self).continuous, ..*old(self) }),
    {
        self.continuous = !self.continuous;
    }

    /// Types a decimal digit into the lower or the upper end; anything else
    /// changes nothing, as does a digit that would not fit.
    pub fn type_digit(&mut self, field: SweepField, c: char)
        ensures
            !is_digit(c) || (field != SweepField::From && field != SweepField::To) ==> *final(self)
                == *old(self),
            is_digit(c) && field == SweepField::From ==> final(self).to == old(self).to
                && final(self).from == digit_pushed(old(self).from, (c as u32 - '0' as u32) as u8),
            is_digit(c) && field == SweepField::To ==> final(self).from == old(self).from
                && final(self).to == digit_pushed(old(self).to, (c as u32 - '0' as u32) as u8),
            final(self).continuous == old(self).continuous && final(self).selected == old(self).selected,
    {
        if c < '0' || c > '9' {
            return;
        }
        let digit = (c as u32 - '0' as u32) as u8;
        match field {
            SweepField::From => digit_add(&mut self.from, digit),
            SweepField::To => digit_add(&mut self.to, digit),
            SweepField::Mode | SweepField::Action => {},
        }
    }

    /// Drops the last digit of the lower or the upper end.
    pub fn backspace(&mut self, field: SweepField)
        ensures
            field == SweepField::From ==> final(self).from == old(self).from / 10 && final(self).to
                == old(self).to,
            field == SweepField::To ==> final(self).to == old(self).to / 10 && final(self).from
                == old(self).from,
            field != SweepField::From && field != SweepField::To ==> *final(self) == *old(self),
            final(self).continuous == old(self).continuous && final(self).selected == old(self).selected,
    {
        match field {
            SweepField::From => digit_remove(&mut self.from),
            SweepField::To => digit_remove(&mut self.to),
            SweepField::Mode | SweepField::Action => {},
        }
    }
}

/// `v` with the decimal digit `d` appended, or `v` itself where the result
/// would not fit.
pub open spec fn digit_pushed(v: u16, d: u8) -> u16 {
    if v * 10 + d <= u16::MAX {
        (v * 10 + d) as u16
    } else {
        v
    }
}

} // verus!
