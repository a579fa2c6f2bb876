//! Watching the system clipboard: which changes become clips.
//!
//! Change detection is a counter the OS bumps on every write; only when it
//! moves is the content read at all.

use vstd::prelude::*;
use vstd::string::StringExecFns;
use crate::history::{added, has_twin, History, Payload, SourceApp};
use crate::imaging::{png_encoding, png_from_rgba};

verus! {

broadcast use vstd::string::group_string_axioms;

/// How often the OS counter is polled, in milliseconds.
pub const POLL_MS: u64 = 300;

/// Unicode White_Space, the whitespace `char::is_whitespace` and `str::trim`
/// go by.
pub open spec fn is_white_space(c: char) -> bool {
    let v = c as u32;
    ||| 0x9 <= v <= 0xD
    ||| v == 0x20
    ||| v == 0x85
    ||| v == 0xA0
    ||| v == 0x1680
    ||| 0x2000 <= v <= 0x200A
    ||| v == 0x2028
    ||| v == 0x2029
    ||| v == 0x202F
    ||| v == 0x205F
    ||| v == 0x3000
}

pub fn is_white_space_char(c: char) -> (r: bool)
    ensures
        r == is_white_space(c),
{
    let v = c as u32;
    (0x9 <= v && v <= 0xD) || v == 0x20 || v == 0x85 || v == 0xA0 || v == 0x1680 || (0x2000 <= v
        && v <= 0x200A) || v == 0x2028 || v == 0x2029 || v == 0x202F || v == 0x205F || v == 0x3000
}

/// Text with nothing but whitespace in it, which trims to nothing.
pub open spec fn is_blank(s: Seq<char>) -> bool {
    forall|i: int| 0 <= i < s.len() ==> is_white_space(#[trigger] s[i])
}

pub fn blank(text: &str) -> (r: bool)
    ensures
        r == is_blank(text@),
{
    for c in it: text.chars()
        invariant
            it.seq() == text@,
            forall|j: int| 0 <= j < it.index() ==> is_white_space(#[trigger] text@[j]),
    {
        if !is_white_space_char(c) {
            return false;
        }
    }
    true
}

/// A text read off the clipboard, as a clip: none when it is only
/// whitespace.
pub fn text_clip(text: String) -> (clip: Option<Payload>)
    ensures
        is_blank(text@) ==> clip is None,
        !is_blank(text@) ==> clip == Some(Payload::Text(text)),
{
    if blank(text.as_str()) {
        None
    } else {
        Some(Payload::Text(text))
    }
}

/// An image read off the clipboard as raw RGBA pixels, as a clip: its PNG
/// and size, the size taken as `u32`. None when the pixels do not fill the
/// size or the encoder refuses them. More pixels than the size makes the
/// encoder panic, so such buffers are left out.
pub fn image_clip(width: usize, height: usize, rgba: Vec<u8>) -> (clip: Option<Payload>)
    requires
        rgba@.len() <= 4 * (width as u32) * (height as u32),
    ensures
        rgba@.len() < 4 * (width as u32) * (height as u32) ==> clip is None,
        rgba@.len() == 4 * (width as u32) * (height as u32) ==> match png_encoding(
            width as u32,
            height as u32,
            rgba@,
        ) {
            Some(bytes) => clip matches Some(Payload::Image { png, width: w, height: h }) && png@
                == bytes && w == width as u32 && h == height as u32,
            None => clip is None,
        },
{
    let w = width as u32;
    let h = height as u32;
    match png_from_rgba(w, h, rgba) {
        Some(png) => Some(Payload::Image { png, width: w, height: h }),
        None => None,
    }
}

/// Pasteboard types that mean "clipboard managers: not this one": a
/// password manager marks what it copies as concealed, and transient and
/// auto-generated clips are somebody's intermediate step.
pub const CONCEALED_TYPE: &'static str = "org.nspasteboard.ConcealedType";

pub const TRANSIENT_TYPE: &'static str = "org.nspasteboard.TransientType";

pub const AUTO_GENERATED_TYPE: &'static str = "org.nspasteboard.AutoGeneratedType";

pub open spec fn is_ignored_type(name: Seq<char>) -> bool {
    name == CONCEALED_TYPE@ || name == TRANSIENT_TYPE@ || name == AUTO_GENERATED_TYPE@
}

/// Whether a clip carrying these pasteboard types is one nobody should
/// record.
pub fn marks_concealed(types: &[String]) -> (r: bool)
    ensures
        r == exists|i: int| 0 <= i < types@.len() && is_ignored_type(#[trigger] types@[i]@),
{
    let concealed = String::from_str(CONCEALED_TYPE);
    let transient = String::from_str(TRANSIENT_TYPE);
    let generated = String::from_str(AUTO_GENERATED_TYPE);
    let n = types.len();
    let mut i: usize = 0;
    while i < n
        invariant
            n == types@.len(),
            i <= n,
            concealed@ == CONCEALED_TYPE@,
            transient@ == TRANSIENT_TYPE@,
            generated@ == AUTO_GENERATED_TYPE@,
            forall|j: int| 0 <= j < i ==> !is_ignored_type(#[trigger] types@[j]@),
        decreases n - i,
    {
        if types[i] == concealed || types[i] == transient || types[i] == generated {
            return true;
        }
        i = i + 1;
    }
    false
}

/// What a tick does once the change counter and the skip flag are read.
#[derive(PartialEq, Eq, Structural, Debug, Clone, Copy)]
pub enum TickStep {
    /// The clipboard did not change.
    Unchanged,
    /// The change was our own write (a paste): swallowed, once.
    OwnWrite,
    /// A new clip may be there: ask the pasteboard whether it is marked as
    /// one nobody should record.
    CheckConcealed,
    /// The clip is marked (a password manager's): it is never read or filed.
    Concealed,
    /// Read the clip and the app in front, and file them.
    ReadClip,
}

/// Watches the OS's clipboard change counter.
pub struct Watcher {
    last_change: u64,
}

impl Watcher {
    /// The counter value last seen.
    pub closed spec fn last_change(&self) -> u64 {
        self.last_change
    }

    pub fn new(change_count: u64) -> (w: Watcher)
        ensures
            w.last_change() == change_count,
    {
        Watcher { last_change: change_count }
    }

    /// The first step of a poll: `change_count` is the counter now,
    /// `skip_next` the flag raised before we write the clipboard ourselves.
    /// Our own write must not come back as a fresh clip.
    pub fn tick(&mut self, change_count: u64, skip_next: &mut bool) -> (step: TickStep)
        ensures
            final(self).last_change() == change_count,
            change_count == old(self).last_change() ==> step == TickStep::Unchanged && *final(skip_next)
                == *old(skip_next),
            change_count != old(self).last_change() ==> !*final(skip_next) && step == (if *old(
                skip_next,
            ) {
                TickStep::OwnWrite
            } else {
                TickStep::CheckConcealed
            }),
    {
        if change_count == self.last_change {
            return TickStep::Unchanged;
        }
        self.last_change = change_count;
        if *skip_next {
            *skip_next = false;
            return TickStep::OwnWrite;
        }
        TickStep::CheckConcealed
    }

    /// The second step of a poll, once the pasteboard's marks are known: a
    /// concealed clip ends the tick, anything else is read.
    pub fn concealed_checked(concealed: bool) -> (step: TickStep)
        ensures
            step == (if concealed {
                TickStep::Concealed
            } else {
                TickStep::ReadClip
            }),
    {
        if concealed {
            TickStep::Concealed
        } else {
            TickStep::ReadClip
        }
    }

    /// The last step of a poll: the clip read off the clipboard, with the app
    /// in front, filed at `now`. When nothing could be read nothing is filed.
    /// Returns whether the history changed.
    pub fn file_clip(history: &mut History, clip: Option<(Payload, SourceApp)>, now: u64) -> (grew: bool)
        requires
            old(history).wf(),
            clip matches Some(c) ==> has_twin(old(history).clips(), c.0) || old(history).next_id()
                < u64::MAX,
        ensures
            match clip {
                None => !grew && *final(history) == *old(history),
                Some(c) => added(*old(history), *final(history), c.0, c.1, now, grew),
            },
    {
        match clip {
            None => false,
            Some((payload, app)) => history.add(payload, app, now),
        }
    }
}

} // verus!
