use vstd::prelude::*;
use crate::app::{fuzzy_rank, is_ranking, label_scores};
use crate::config::{spec_action_label, KeybindAction};
use crate::num_ops::{step_hscroll, wrap_index, wrapped_index};
use crate::state::{HelpParams, LogViewParams};
use crate::text::{pop_char, push_char};

verus! {

// Every action label is short.
proof fn lemma_action_label_short(a: KeybindAction)
    ensures
        spec_action_label(a).len() < 64,
{
    match a {
        KeybindAction::About => {
            reveal_strlit("About");
        },
        KeybindAction::Pin => {
            reveal_strlit("Toggle pin");
        },
        KeybindAction::Dump => {
            reveal_strlit("Dump read data");
        },
        KeybindAction::Help => {
            reveal_strlit("Help");
        },
        KeybindAction::Refresh => {
            reveal_strlit("Refresh");
        },
        KeybindAction::SwitchType => {
            reveal_strlit("Switch register type");
        },
        KeybindAction::Write => {
            reveal_strlit("Write register");
        },
        KeybindAction::GoTo => {
            reveal_strlit("Go to address/label");
        },
        KeybindAction::Label => {
            reveal_strlit("Label register");
        },
        KeybindAction::CustomRule => {
            reveal_strlit("Custom rule");
        },
        KeybindAction::Columns => {
            reveal_strlit("Toggle columns");
        },
        KeybindAction::Pause => {
            reveal_strlit("Toggle pause");
        },
        KeybindAction::WordOrder => {
            reveal_strlit("Cycle word order");
        },
        KeybindAction::UnitId => {
            reveal_strlit("Set unit id");
        },
        KeybindAction::Inspect => {
            reveal_strlit("Inspect register");
        },
        KeybindAction::DeviceId => {
            reveal_strlit("Device identification");
        },
        KeybindAction::RawRequest => {
            reveal_strlit("Raw request");
        },
        KeybindAction::Graph => {
            reveal_strlit("Value graph");
        },
        KeybindAction::Device => {
            reveal_strlit("Switch device");
        },
        KeybindAction::Settings => {
            reveal_strlit("Settings");
        },
        KeybindAction::CopyColumn => {
            reveal_strlit("Copy column");
        },
        KeybindAction::WriteLogs => {
            reveal_strlit("Write logs");
        },
        KeybindAction::AppLogs => {
            reveal_strlit("App logs");
        },
        KeybindAction::Stats => {
            reveal_strlit("Statistics");
        },
        KeybindAction::Sweep => {
            reveal_strlit("Sweep");
        },
        KeybindAction::ClearSession => {
            reveal_strlit("Clear session data");
        },
        KeybindAction::CycleConfig => {
            reveal_strlit("Cycle config");
        },
        KeybindAction::Panel => {
            reveal_strlit("Cycle panel");
        },
        KeybindAction::PageUp => {
            reveal_strlit("Page up");
        },
        KeybindAction::PageDown => {
            reveal_strlit("Page down");
        },
        KeybindAction::BatchDecrease => {
            reveal_strlit("Decrease batch");
        },
        KeybindAction::BatchIncrease => {
            reveal_strlit("Increase batch");
        },
    }
}

/// The keybind actions whose labels match `query`, best first.
pub fn help_matches(query: &str) -> (r: Vec<KeybindAction>)
    ensures
        exists|idx: Seq<int>, labels: Seq<&str>|
            labels.len() == 32 && (forall|i: int| 0 <= i < 32 ==> (#[trigger] labels[i])@ == spec_action_label(
                KeybindAction::ALL@[i],
            )) && is_ranking(label_scores(query@, labels), idx) && r@.len() == idx.len() && (forall|k: int|
                0 <= k < idx.len() ==> #[trigger] r@[k] == KeybindAction::ALL@[idx[k]]),
{
    let all = KeybindAction::ALL;
    let mut labels: Vec<&str> = Vec::new();
    let mut i: usize = 0;
    while i < 32
        invariant
            i <= 32,
            all@ == KeybindAction::ALL@,
            labels@.len() == i,
            forall|k: int| 0 <= k < i ==> (#[trigger] labels@[k])@ == spec_action_label(all@[k]),
            forall|k: int| 0 <= k < i ==> (#[trigger] labels@[k])@.len() < 0x1000_0000,
        decreases 32 - i,
    {
        let l = all[i].label();
        proof {
            lemma_action_label_short(all@[i as int]);
        }
        labels.push(l);
        i += 1;
    }
    fuzzy_rank(query, all.as_slice(), labels.as_slice())
}

impl HelpParams {
    /// Types into the filter, back to the first match.
    pub fn type_char(&mut self, c: char)
        ensures
            final(self).query@ == old(self).query@.push(c),
            final(self).selected == 0,
    {
        push_char(&mut self.query, c);
        self.selected = 0;
    }

    /// Deletes the last character of the filter, back to the first match.
    pub fn backspace(&mut self)
        ensures
            final(self).query@ == (if old(self).query@.len() == 0 {
                old(self).query@
            } else {
                old(self).query@.drop_last()
            }),
            final(self).selected == 0,
    {
        pop_char(&mut self.query);
        self.selected = 0;
    }

    /// Moves over the `count` matches, wrapping around.
    pub fn move_selection(&mut self, count: u16, down: bool)
        ensures
            final(self).selected == (if count == 0 {
                0
            } else {
                wrapped_index(old(self).selected as int, count as int, down)
            }),
            final(self).query == old(self).query,
    {
        if count == 0 {
            self.selected = 0;
        } else {
            self.selected = wrap_index(self.selected, count, down);
        }
    }

    /// The action the selection is on among `matches`; none while the
    /// filter is empty.
    pub fn selected_action(&self, matches: &[KeybindAction]) -> (r: Option<KeybindAction>)
        ensures
            r == (if self.query@.len() > 0 && (self.selected as int) < matches@.len() {
                Some(matches@[self.selected as int])
            } else {
                None
            }),
    {
        if self.query.as_str().unicode_len() > 0 && (self.selected as usize) < matches.len() {
            Some(matches[self.selected as usize])
        } else {
            None
        }
    }
}

impl LogViewParams {
    /// Scrolls the log sideways by a step within `0..=max`; wrapped lines
    /// do not scroll.
    pub fn hscroll(&mut self, max: u16, right: bool)
        ensures
            final(self).h_offset == (if old(self).wrap {
                old(self).h_offset as int
            } else if right {
                vstd::math::min(vstd::math::min(old(self).h_offset as int, max as int) + 8, max as int)
            } else {
                vstd::math::max(vstd::math::min(old(self).h_offset as int, max as int) - 8, 0)
            }),
            final(self).wrap == old(self).wrap && final(self).top == old(self).top,
    {
        if self.wrap {
            return;
        }
        self.h_offset = step_hscroll(self.h_offset, max, right);
    }

    /// Turns line wrapping on or off, back to the left edge.
    pub fn toggle_wrap(&mut self)
        ensures
            final(self).wrap == !old(self).wrap,
            final(self).h_offset == 0,
            final(self).top == old(self).top && final(self).follow == old(self).follow,
    {
        self.wrap = !self.wrap;
        self.h_offset = 0;
    }

    /// Scrolls by `delta` lines over `len` log lines with `rows` shown,
    /// between the first line and the last full page; the view follows new
    /// lines when it reaches the last page.
    pub fn scroll(&mut self, delta: i32, len: u32, rows: u16)
        requires
            len <= i32::MAX,
            old(self).top + delta <= i32::MAX,
        ensures
            ({
                let visible = vstd::math::max(rows as int, 1);
                let max_top = vstd::math::max(len - visible, 0);
                let wanted = vstd::math::min(vstd::math::max(old(self).top + delta, 0), max_top);
                &&& final(self).top == (wanted as i32) as u16
                &&& final(self).follow == (wanted >= max_top)
            }),
            final(self).wrap == old(self).wrap && final(self).h_offset == old(self).h_offset,
    {
        let visible: i64 = if rows >= 1 {
            rows as i64
        } else {
            1
        };
        let max_top: i64 = if len as i64 > visible {
            len as i64 - visible
        } else {
            0
        };
        let wanted = self.top as i64 + delta as i64;
        let new = if wanted < 0 {
            0
        } else if wanted > max_top {
            max_top
        } else {
            wanted
        };
        self.top = (new as i32) as u16;
        self.follow = new >= max_top;
    }
}

} // verus!
