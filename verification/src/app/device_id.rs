use vstd::prelude::*;
use crate::modbus::DeviceIdAccess;
use crate::num_ops::step_hscroll;
use crate::state::{DeviceIdParams, MessageKind, StatusMessage};
use crate::text::{dec, push_decimal, push_str};

verus! {

/// The level after `a` in the cycle Basic, Regular, Extended; Specific,
/// which the cycle leaves out, counts as Basic.
pub open spec fn next_access(a: DeviceIdAccess) -> DeviceIdAccess {
    match a {
        DeviceIdAccess::Basic => DeviceIdAccess::Regular,
        DeviceIdAccess::Regular => DeviceIdAccess::Extended,
        DeviceIdAccess::Extended => DeviceIdAccess::Basic,
        DeviceIdAccess::Specific => DeviceIdAccess::Regular,
    }
}

fn status(text: &str, kind: MessageKind) -> (r: StatusMessage)
    ensures
        r.text@ == text@,
        r.kind == kind,
{
    let mut s = String::new();
    push_str(&mut s, text);
    StatusMessage { text: s, kind }
}

impl Default for DeviceIdParams {
    fn default() -> (r: Self)
        ensures
            r.access == DeviceIdAccess::Basic && r.objects@.len() == 0 && r.status is None
                && !r.loading && r.h_offset == 0,
    {
        DeviceIdParams { access: DeviceIdAccess::Basic, objects: Vec::new(), status: None, loading: false, h_offset: 0 }
    }
}

impl DeviceIdParams {
    /// Moves to the next access level and back to the left edge. Tells
    /// whether to read again: not while a read is still under way, whose
    /// result is then read again for the new level.
    pub fn cycle_access(&mut self, reading: bool) -> (read_again: bool)
        ensures
            final(self).access == next_access(old(self).access),
            final(self).h_offset == 0,
            read_again == !reading,
            final(self).objects == old(self).objects && final(self).status == old(self).status
                && final(self).loading == old(self).loading,
    {
        self.access = match self.access {
            DeviceIdAccess::Basic => DeviceIdAccess::Regular,
            DeviceIdAccess::Regular => DeviceIdAccess::Extended,
            DeviceIdAccess::Extended => DeviceIdAccess::Basic,
            DeviceIdAccess::Specific => DeviceIdAccess::Regular,
        };
        self.h_offset = 0;
        !reading
    }

    /// Scrolls the objects sideways by a step, within `0..=max`.
    pub fn hscroll(&mut self, max: u16, right: bool)
        ensures
            final(self).h_offset == (if right {
                vstd::math::min(vstd::math::min(old(self).h_offset as int, max as int) + 8, max as int)
            } else {
                vstd::math::max(vstd::math::min(old(self).h_offset as int, max as int) - 8, 0)
            }),
            final(self).access == old(self).access && final(self).objects == old(self).objects,
    {
        self.h_offset = step_hscroll(self.h_offset, max, right);
    }

    /// Starts a read of the current level: with the device busy says so;
    /// without a device clears the objects and says so; else marks the popup
    /// as reading and returns the level to read.
    pub fn begin_read(&mut self, slot_free: bool, connected: bool) -> (r: Option<DeviceIdAccess>)
        ensures
            !slot_free ==> r is None && final(self).status is Some && final(self).status->0.kind
                == MessageKind::Info && final(self).status->0.text@ == "Device is busy."@
                && final(self).loading == old(self).loading && final(self).objects == old(self).objects,
            slot_free && !connected ==> r is None && !final(self).loading && final(self).objects@.len()
                == 0 && final(self).status is Some && final(self).status->0.text@
                == "No device connected"@ && final(self).status->0.kind == MessageKind::Failure,
            slot_free && connected ==> r == Some(old(self).access) && final(self).loading
                && final(self).status is Some && final(self).status->0.text@ == "Reading..."@
                && final(self).status->0.kind == MessageKind::Info && final(self).objects
                == old(self).objects,
            final(self).access == old(self).access && final(self).h_offset == old(self).h_offset,
    {
        if !slot_free {
            self.status = Some(status("Device is busy.", MessageKind::Info));
            return None;
        }
        self.loading = true;
        self.status = Some(status("Reading...", MessageKind::Info));
        if !connected {
            self.loading = false;
            self.objects = Vec::new();
            self.status = Some(status("No device connected", MessageKind::Failure));
            return None;
        }
        Some(self.access)
    }

    /// Takes the result of a read of level `access`, `None` where the read
    /// task died. A result for another level than the one now selected is
    /// dropped: it returns `true`, to read the selected level instead. Else
    /// the popup shows the objects read, or why none came.
    pub fn apply_result(
        &mut self,
        result: Option<(DeviceIdAccess, Result<Vec<(u8, String)>, String>)>,
    ) -> (read_again: bool)
        ensures
            read_again <==> (result matches Some(r) && r.0 != old(self).access),
            read_again ==> *final(self) == *old(self),
            !read_again ==> !final(self).loading && final(self).access == old(self).access,
            result is None ==> final(self).objects == old(self).objects && final(self).status is Some
                && final(self).status->0.text@ == "Read failed: task stopped unexpectedly"@
                && final(self).status->0.kind == MessageKind::Failure,
            !read_again ==> (match result {
                Some((_, Ok(objects))) => final(self).objects == objects && final(self).status is Some
                    && (if objects@.len() == 0 {
                    final(self).status->0.text@ == "No identification objects returned"@
                        && final(self).status->0.kind == MessageKind::Warn
                } else {
                    final(self).status->0.text@ == "Read "@ + dec(objects@.len()) + " object(s)"@
                        && final(self).status->0.kind == MessageKind::Success
                }),
                Some((_, Err(e))) => final(self).objects@.len() == 0 && final(self).status is Some
                    && final(self).status->0.text@ == "Read failed: "@ + e@ && final(self).status->0.kind
                    == MessageKind::Failure,
                None => true,
            }),
            final(self).h_offset == old(self).h_offset,
    {
        match result {
            None => {
                self.loading = false;
                self.status = Some(status("Read failed: task stopped unexpectedly", MessageKind::Failure));
                false
            },
            Some((access, outcome)) => {
                if access != self.access {
                    return true;
                }
                self.loading = false;
                match outcome {
                    Ok(objects) => {
                        if objects.len() == 0 {
                            self.status = Some(status("No identification objects returned", MessageKind::Warn));
                        } else {
                            let mut text = String::new();
                            push_str(&mut text, "Read ");
                            push_decimal(&mut text, objects.len() as u64);
                            push_str(&mut text, " object(s)");
                            self.status = Some(StatusMessage { text, kind: MessageKind::Success });
                        }
                        self.objects = objects;
                    },
                    Err(e) => {
                        self.objects = Vec::new();
                        let mut text = String::new();
                        push_str(&mut text, "Read failed: ");
                        push_str(&mut text, e.as_str());
                        self.status = Some(StatusMessage { text, kind: MessageKind::Failure });
                    },
                }
                false
            },
        }
    }
}

} // verus!
