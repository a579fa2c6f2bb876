//! The history's on-disk form. Everything small (text, source app, times)
//! goes in one index of stored clips; an image's bytes live in a file of its
//! own, named after the clip's id. This module holds the conversions between
//! clips and their stored form and the rule for which image files are still
//! referenced; reading and writing the files is the caller's.

use vstd::prelude::*;
use vstd::string::StringExecFns;
use crate::history::{ClipItem, Payload, SourceApp};

verus! {

/// One clip as it sits in the index. Image bytes are not here, only the fact
/// that the payload is an image and how big it was.
pub struct StoredClip {
    pub id: u64,
    pub created_at: u64,
    pub app_name: String,
    pub app_bundle: String,
    pub app_icon: String,
    /// "text" or "image".
    pub kind: String,
    pub text: String,
    pub width: u32,
    pub height: u32,
}

/// `s` is how the index records the clip `c`.
pub open spec fn is_stored_form_of(s: StoredClip, c: ClipItem) -> bool {
    &&& s.id == c.id
    &&& s.created_at == c.created_at
    &&& s.app_name == c.app.name
    &&& s.app_bundle == c.app.bundle
    &&& s.app_icon == c.app.icon
    &&& match c.payload {
        Payload::Text(t) => {
            &&& s.kind@ == "text"@
            &&& s.text == t
            &&& s.width == 0
            &&& s.height == 0
        },
        Payload::Image { width, height, .. } => {
            &&& s.kind@ == "image"@
            &&& s.text@.len() == 0
            &&& s.width == width
            &&& s.height == height
        },
    }
}

/// The clip a stored entry stands for, given the image file's bytes when
/// they could be read: a text clip, an image clip with those bytes, or
/// nothing for an image whose file is gone or an unknown kind.
pub open spec fn spec_restored(s: StoredClip, png: Option<Vec<u8>>) -> Option<ClipItem> {
    let app = SourceApp { name: s.app_name, bundle: s.app_bundle, icon: s.app_icon };
    if s.kind@ == "text"@ {
        Some(ClipItem { id: s.id, payload: Payload::Text(s.text), app, created_at: s.created_at })
    } else if s.kind@ == "image"@ {
        match png {
            Some(bytes) => Some(
                ClipItem {
                    id: s.id,
                    payload: Payload::Image { png: bytes, width: s.width, height: s.height },
                    app,
                    created_at: s.created_at,
                },
            ),
            None => None,
        }
    } else {
        None
    }
}

/// The bytes the image file of a clip holds: its PNG, for an image clip.
pub open spec fn image_file_bytes(c: ClipItem) -> Option<Vec<u8>> {
    match c.payload {
        Payload::Image { png, .. } => Some(png),
        Payload::Text(_) => None,
    }
}

/// Decimal digits of `n`, most significant first, no leading zeros.
pub open spec fn decimal(n: nat) -> Seq<char>
    decreases n,
{
    if n < 10 {
        seq![((48 + n) as u32) as char]
    } else {
        decimal(n / 10).push(((48 + n % 10) as u32) as char)
    }
}

/// The name of the file that holds the image of the clip with id `id`.
pub open spec fn spec_image_file_name(id: u64) -> Seq<char> {
    decimal(id as nat) + ".png"@
}

/// The one-character text of a decimal digit.
fn digit_text(d: u64) -> (t: &'static str)
    requires
        d < 10,
    ensures
        t@ == seq![((48 + d) as u32) as char],
{
    proof {
        reveal_strlit("0");
        reveal_strlit("1");
        reveal_strlit("2");
        reveal_strlit("3");
        reveal_strlit("4");
        reveal_strlit("5");
        reveal_strlit("6");
        reveal_strlit("7");
        reveal_strlit("8");
        reveal_strlit("9");
    }
    if d == 0 {
        "0"
    } else if d == 1 {
        "1"
    } else if d == 2 {
        "2"
    } else if d == 3 {
        "3"
    } else if d == 4 {
        "4"
    } else if d == 5 {
        "5"
    } else if d == 6 {
        "6"
    } else if d == 7 {
        "7"
    } else if d == 8 {
        "8"
    } else {
        "9"
    }
}

/// Appends the decimal digits of `n` to `out`.
fn push_decimal(out: &mut String, n: u64)
    ensures
        final(out)@ == old(out)@ + decimal(n as nat),
    decreases n,
{
    if n >= 10 {
        push_decimal(out, n / 10);
    }
    out.append(digit_text(n % 10));
    proof {
        if n >= 10 {
            assert(decimal(n as nat) == decimal((n / 10) as nat).push(((48 + n % 10) as u32) as char));
        }
    }
    assert(out@ =~= old(out)@ + decimal(n as nat));
}

/// The image file's name for a clip id, `<id>.png`.
pub fn image_file_name(id: u64) -> (name: String)
    ensures
        name@ == spec_image_file_name(id),
{
    let mut name = String::new();
    push_decimal(&mut name, id);
    name.append(".png");
    name
}

impl StoredClip {
    pub fn from_item(item: &ClipItem) -> (s: StoredClip)
        ensures
            is_stored_form_of(s, *item),
    {
        let (kind, text, width, height) = match &item.payload {
            Payload::Text(t) => (String::from_str("text"), t.clone(), 0u32, 0u32),
            Payload::Image { width, height, .. } => (String::from_str("image"), String::new(), *width, *height),
        };
        StoredClip {
            id: item.id,
            created_at: item.created_at,
            app_name: item.app.name.clone(),
            app_bundle: item.app.bundle.clone(),
            app_icon: item.app.icon.clone(),
            kind,
            text,
            width,
            height,
        }
    }

    /// Whether this entry's payload lives in an image file.
    pub fn wants_image(&self) -> (r: bool)
        ensures
            r == (self.kind@ == "image"@),
    {
        self.kind == String::from_str("image")
    }

    /// The clip this entry stands for; `png` is the image file's content when
    /// it could be read. A missing file drops the card, not the history.
    pub fn into_clip(self, png: Option<Vec<u8>>) -> (r: Option<ClipItem>)
        ensures
            r == spec_restored(self, png),
    {
        let app = SourceApp { name: self.app_name, bundle: self.app_bundle, icon: self.app_icon };
        if self.kind == String::from_str("text") {
            Some(ClipItem::new(self.id, Payload::Text(self.text), app, self.created_at))
        } else if self.kind == String::from_str("image") {
            match png {
                Some(bytes) => Some(
                    ClipItem::new(
                        self.id,
                        Payload::Image { png: bytes, width: self.width, height: self.height },
                        app,
                        self.created_at,
                    ),
                ),
                None => None,
            }
        } else {
            None
        }
    }
}

/// The clips an index loads as: each entry read with the bytes of its image
/// file (`None` where none was read), in order, leaving out the entries that
/// stand for no clip.
pub open spec fn loaded_clips(entries: Seq<(StoredClip, Option<Vec<u8>>)>) -> Seq<ClipItem>
    decreases entries.len(),
{
    if entries.len() == 0 {
        Seq::empty()
    } else {
        let rest = loaded_clips(entries.drop_last());
        match spec_restored(entries.last().0, entries.last().1) {
            Some(c) => rest.push(c),
            None => rest,
        }
    }
}

/// Loads the clips of an index whose entries come with their image files'
/// bytes: the clip of each entry that stands for one, in index order.
pub fn load_clips(entries: Vec<(StoredClip, Option<Vec<u8>>)>) -> (r: Vec<ClipItem>)
    ensures
        r@ == loaded_clips(entries@),
{
    let ghost all = entries@;
    let mut rest = entries;
    let mut r: Vec<ClipItem> = Vec::new();
    let n = rest.len();
    let mut i: usize = 0;
    while i < n
        invariant
            n == all.len(),
            i <= n,
            rest@ == all.skip(i as int),
            r@ == loaded_clips(all.take(i as int)),
        decreases n - i,
    {
        let (stored, png) = rest.remove(0);
        proof {
            assert(all.take(i as int + 1).drop_last() =~= all.take(i as int));
            assert(all.skip(i as int).remove(0) =~= all.skip(i as int + 1));
        }
        if let Some(c) = stored.into_clip(png) {
            r.push(c);
        }
        i = i + 1;
    }
    proof {
        assert(all.take(n as int) =~= all);
    }
    r
}

/// The index entries for a history's clips, in order.
pub fn stored_index(items: &[ClipItem]) -> (r: Vec<StoredClip>)
    ensures
        r@.len() == items@.len(),
        forall|i: int| 0 <= i < items@.len() ==> is_stored_form_of(#[trigger] r@[i], items@[i]),
{
    let n = items.len();
    let mut r: Vec<StoredClip> = Vec::new();
    let mut i: usize = 0;
    while i < n
        invariant
            n == items@.len(),
            i <= n,
            r@.len() == i,
            forall|k: int| 0 <= k < i ==> is_stored_form_of(#[trigger] r@[k], items@[k]),
        decreases n - i,
    {
        r.push(StoredClip::from_item(&items[i]));
        i = i + 1;
    }
    r
}

/// Some image clip of `items` keeps the file `name` alive. A text clip with
/// the same id shields nothing.
pub open spec fn is_live_image_file(name: Seq<char>, items: Seq<ClipItem>) -> bool {
    exists|i: int|
        0 <= i < items.len() && (#[trigger] items[i].payload is Image) && name == spec_image_file_name(
            items[i].id,
        )
}

/// Whether the image file `name` is referenced by no clip any more.
pub fn is_orphan_image(name: &String, items: &[ClipItem]) -> (r: bool)
    ensures
        r == !is_live_image_file(name@, items@),
{
    let n = items.len();
    let mut i: usize = 0;
    while i < n
        invariant
            n == items@.len(),
            i <= n,
            forall|k: int|
                0 <= k < i ==> !((#[trigger] items@[k].payload is Image) && name@ == spec_image_file_name(
                    items@[k].id,
                )),
        decreases n - i,
    {
        if let Payload::Image { .. } = &items[i].payload {
            if *name == image_file_name(items[i].id) {
                return false;
            }
        }
        i = i + 1;
    }
    true
}

/// Saving a clip and loading it back, with the bytes its image file was
/// given, yields the same clip.
pub proof fn lemma_stored_round_trip(c: ClipItem, s: StoredClip)
    requires
        is_stored_form_of(s, c),
    ensures
        spec_restored(s, image_file_bytes(c)) == Some(c),
{
    reveal_strlit("text");
    reveal_strlit("image");
    assert("text"@ != "image"@) by {
        assert("text"@[0] != "image"@[0]);
    }
}

} // verus!
