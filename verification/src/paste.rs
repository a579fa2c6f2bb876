//! Pasting the picked clip into the app the user came from: the rules that
//! stand apart from the keystroke itself.

use vstd::prelude::*;
use vstd::string::StringExecFns;

verus! {

/// The virtual key code of the physical V key (kVK_ANSI_V), wherever the
/// keyboard layout puts a letter on it. A layout lookup of "v" falls through
/// to key code 0, the A key, on layouts without a Latin v.
pub const KEY_V: u16 = 0x09;

/// Time for the target app to come forward before the keystroke lands.
pub const FOCUS_SETTLE_MS: u64 = 60;

/// How long the paste chord is held, so an app that debounces keys sees it.
pub const CHORD_HOLD_MS: u64 = 15;

/// Why a paste is refused: without the Accessibility grant the system drops
/// the keystroke without an error.
pub const NEEDS_ACCESSIBILITY: &'static str = "Iago has no Accessibility grant, so the keystroke would be dropped";

/// Checks the Accessibility grant before the keystroke: with it the paste may
/// proceed; without it the paste is refused with `NEEDS_ACCESSIBILITY`.
pub fn gate(trusted: bool) -> (r: Result<(), String>)
    ensures
        trusted <==> r is Ok,
        r matches Err(msg) ==> msg@ == NEEDS_ACCESSIBILITY@,
{
    if trusted {
        Ok(())
    } else {
        Err(String::from_str(NEEDS_ACCESSIBILITY))
    }
}

/// What happened last in a paste.
pub enum PasteEvent {
    /// The user picked a card.
    Start,
    /// The clip was written to the clipboard, or the write failed.
    Written(Result<(), String>),
    /// The target app was brought to the front.
    Activated,
    /// The target app had its moment to become key.
    Settled,
    /// The paste keystroke went out, or was refused.
    Sent(Result<(), String>),
}

/// What a paste does next.
#[derive(Debug)]
pub enum PasteAction {
    WriteClipboard,
    Activate(i32),
    /// Wait this many milliseconds.
    Settle(u64),
    SendKeys,
    Finish(Result<(), String>),
}

/// A paste into the app the user came from: the clipboard is written, that
/// app raised, given a beat to become key, and sent the paste keystroke.
pub struct Paste {
    /// The process to bring back to the front, if it is known.
    pub target_pid: Option<i32>,
}

impl Paste {
    /// The next action after `event`. `skip_next` is raised before our own
    /// clipboard write, so it does not come back as a fresh clip, and lowered
    /// again when the write fails.
    pub fn step(&self, event: PasteEvent, skip_next: &mut bool) -> (action: PasteAction)
        ensures
            match event {
                PasteEvent::Start => *final(skip_next) && action == PasteAction::WriteClipboard,
                PasteEvent::Written(Err(e)) => !*final(skip_next) && action == PasteAction::Finish(Err(e)),
                PasteEvent::Written(Ok(())) => *final(skip_next) == *old(skip_next) && action == (
                match self.target_pid {
                    Some(pid) => PasteAction::Activate(pid),
                    None => PasteAction::Settle(FOCUS_SETTLE_MS),
                }),
                PasteEvent::Activated => *final(skip_next) == *old(skip_next) && action
                    == PasteAction::Settle(FOCUS_SETTLE_MS),
                PasteEvent::Settled => *final(skip_next) == *old(skip_next) && action
                    == PasteAction::SendKeys,
                PasteEvent::Sent(r) => *final(skip_next) == *old(skip_next) && action
                    == PasteAction::Finish(r),
            },
    {
        match event {
            PasteEvent::Start => {
                *skip_next = true;
                PasteAction::WriteClipboard
            },
            PasteEvent::Written(Err(e)) => {
                *skip_next = false;
                PasteAction::Finish(Err(e))
            },
            PasteEvent::Written(Ok(())) => match self.target_pid {
                Some(pid) => PasteAction::Activate(pid),
                None => PasteAction::Settle(FOCUS_SETTLE_MS),
            },
            PasteEvent::Activated => PasteAction::Settle(FOCUS_SETTLE_MS),
            PasteEvent::Settled => PasteAction::SendKeys,
            PasteEvent::Sent(r) => PasteAction::Finish(r),
        }
    }
}

} // verus!
