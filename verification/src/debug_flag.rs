//! The in-band debug toggle: a process-wide verbosity flag flipped by a
//! textual command observed inside control frames. Only frames whose header
//! equals the fixed control id are scanned, so unrelated binary payloads that
//! happen to contain the command text never flip the flag.

use vstd::prelude::*;
use crate::wire::{contains_seq, find_seq};

verus! {

/// The header id of control frames, the only frames whose payload text is
/// scanned for debug commands.
pub const CONTROL_HEADER: u16 = 3655;

/// The bytes of the text `!debug on`.
pub open spec fn debug_on_text() -> Seq<u8> {
    seq![33u8, 100u8, 101u8, 98u8, 117u8, 103u8, 32u8, 111u8, 110u8]
}

/// The bytes of the text `!debug off`.
pub open spec fn debug_off_text() -> Seq<u8> {
    seq![33u8, 100u8, 101u8, 98u8, 117u8, 103u8, 32u8, 111u8, 102u8, 102u8]
}

/// The flag after one frame is observed: a control frame containing
/// `!debug on` sets it (the on-command wins when both occur), one containing
/// `!debug off` clears it, and every other frame leaves it unchanged.
pub open spec fn toggle(flag: bool, header: u16, payload: Seq<u8>) -> bool {
    if header == CONTROL_HEADER && contains_seq(payload, debug_on_text()) {
        true
    } else if header == CONTROL_HEADER && contains_seq(payload, debug_off_text()) {
        false
    } else {
        flag
    }
}

/// Builds the `!debug on` needle.
fn debug_on_needle() -> (v: Vec<u8>)
    ensures
        v@ == debug_on_text(),
{
    let mut v: Vec<u8> = Vec::new();
    v.push(33);
    v.push(100);
    v.push(101);
    v.push(98);
    v.push(117);
    v.push(103);
    v.push(32);
    v.push(111);
    v.push(110);
    proof {
        assert(v@ =~= debug_on_text());
    }
    v
}

/// Builds the `!debug off` needle.
fn debug_off_needle() -> (v: Vec<u8>)
    ensures
        v@ == debug_off_text(),
{
    let mut v: Vec<u8> = Vec::new();
    v.push(33);
    v.push(100);
    v.push(101);
    v.push(98);
    v.push(117);
    v.push(103);
    v.push(32);
    v.push(111);
    v.push(102);
    v.push(102);
    proof {
        assert(v@ =~= debug_off_text());
    }
    v
}

/// The verbosity flag, owned once per process and shared with the logging
/// path; the relay path never reads it.
pub struct DebugController {
    enabled: bool,
}

impl DebugController {
    /// The current flag value.
    pub closed spec fn spec_enabled(&self) -> bool {
        self.enabled
    }

    /// Creates the controller with verbose logging off.
    pub fn new() -> (c: DebugController)
        ensures
            !c.spec_enabled(),
    {
        DebugController { enabled: false }
    }

    /// Reads the flag.
    pub fn is_enabled(&self) -> (r: bool)
        ensures
            r == self.spec_enabled(),
    {
        self.enabled
    }

    /// Observes one decoded frame and updates the flag according to the
    /// in-band command rules.
    pub fn observe(&mut self, header: u16, payload: &[u8])
        ensures
            final (self).spec_enabled() == toggle(old(self).spec_enabled(), header, payload@),
    {
        if header == CONTROL_HEADER {
            let on = debug_on_needle();
            if find_seq(payload, on.as_slice()) {
                self.enabled = true;
            } else {
                let off = debug_off_needle();
                if find_seq(payload, off.as_slice()) {
                    self.enabled = false;
                }
            }
        }
    }
}

} // verus!
