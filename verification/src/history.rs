//! Clipboard history: the items and the ring that holds them.
//!
//! An item carries two representations of its content on purpose. The
//! *payload* (full text, or the PNG bytes of an image) is what goes back on the
//! clipboard when the user picks the card. The *preview* (trimmed text,
//! downscaled PNG data-URL) is what the popup renders.

use vstd::prelude::*;
use vstd::string::StrSliceExecFns;
use vstd::string::StringExecFns;
use crate::fingerprint::{fingerprint, spec_fingerprint};
use crate::imaging::{preview_data_url, spec_preview_url};

verus! {

/// Cards the popup can show at once. Beyond this the oldest clip falls off.
pub const MAX_ITEMS: usize = 50;

/// Longest side of a card preview image, in pixels.
pub const PREVIEW_MAX_SIDE: u32 = 320;

/// Preview text handed to the popup; a card shows about seven lines.
pub const PREVIEW_CHARS: usize = 400;

#[derive(Clone)]
pub enum Payload {
    Text(String),
    /// PNG bytes, kept encoded: a screenshot is far smaller as PNG than raw.
    Image { png: Vec<u8>, width: u32, height: u32 },
}

/// The app the clip was copied from. `bundle` is the stable key; `name` is
/// what the user reads; `icon` is a PNG data-URL, or empty.
#[derive(Clone, Default, PartialEq, Debug)]
pub struct SourceApp {
    pub name: String,
    pub bundle: String,
    pub icon: String,
}

#[derive(Clone)]
pub struct ClipItem {
    pub id: u64,
    pub payload: Payload,
    pub app: SourceApp,
    /// Unix epoch, seconds.
    pub created_at: u64,
}

/// The shape handed to the popup, the same for either kind of clip.
pub struct ClipView {
    pub id: u64,
    /// "text" or "image".
    pub kind: &'static str,
    /// The text of a text clip, trimmed to `PREVIEW_CHARS`; empty for an image.
    pub text: String,
    /// A PNG data-URL of the downscaled image; empty for a text clip.
    pub preview: String,
    pub width: u32,
    pub height: u32,
    /// Character count of the full text, before trimming.
    pub chars: usize,
    pub app_name: String,
    pub app_bundle: String,
    pub app_icon: String,
    pub created_at: u64,
}

/// The first `PREVIEW_CHARS` characters of `s`.
pub open spec fn preview_text(s: Seq<char>) -> Seq<char> {
    if s.len() <= PREVIEW_CHARS {
        s
    } else {
        s.take(PREVIEW_CHARS as int)
    }
}

/// `v` is how the popup shows the clip `c`.
pub open spec fn is_view_of(v: ClipView, c: ClipItem) -> bool {
    &&& v.id == c.id
    &&& v.app_name == c.app.name
    &&& v.app_bundle == c.app.bundle
    &&& v.app_icon == c.app.icon
    &&& v.created_at == c.created_at
    &&& match c.payload {
        Payload::Text(s) => {
            &&& v.kind@ == "text"@
            &&& v.text@ == preview_text(s@)
            &&& v.preview@.len() == 0
            &&& v.width == 0
            &&& v.height == 0
            &&& v.chars == s@.len()
        },
        Payload::Image { png, width, height } => {
            &&& v.kind@ == "image"@
            &&& v.text@.len() == 0
            &&& v.preview@ == spec_preview_url(png@)
            &&& v.width == width
            &&& v.height == height
            &&& v.chars == 0
        },
    }
}

/// The card for a clip: the first `PREVIEW_CHARS` characters and the full
/// count of a text, or the preview and size of an image.
pub fn to_view(item: &ClipItem) -> (v: ClipView)
    ensures
        is_view_of(v, *item),
{
    let (kind, text, preview, width, height, chars) = match &item.payload {
        Payload::Text(s) => {
            let chars = s.as_str().unicode_len();
            let shown = if chars <= PREVIEW_CHARS { chars } else { PREVIEW_CHARS };
            let trimmed = String::from_str(s.as_str().substring_char(0, shown));
            proof {
                if chars <= PREVIEW_CHARS {
                    assert(s@.subrange(0, shown as int) =~= s@);
                }
            }
            ("text", trimmed, String::new(), 0u32, 0u32, chars)
        },
        Payload::Image { png, width, height } => {
            ("image", String::new(), preview_data_url(png.as_slice()), *width, *height, 0usize)
        },
    };
    ClipView {
        id: item.id,
        kind,
        text,
        preview,
        width,
        height,
        chars,
        app_name: item.app.name.clone(),
        app_bundle: item.app.bundle.clone(),
        app_icon: item.app.icon.clone(),
        created_at: item.created_at,
    }
}

/// The kind of content, hashed in front of it so that a text and an image
/// never look alike whatever their bytes.
pub open spec fn content_tag(p: Payload) -> u8 {
    match p {
        Payload::Text(_) => 0u8,
        Payload::Image { .. } => 1u8,
    }
}

/// The bytes that make up the content: the UTF-8 text, or the PNG.
pub open spec fn content_bytes(p: Payload) -> Seq<u8> {
    match p {
        Payload::Text(s) => vstd::utf8::encode_utf8(s@),
        Payload::Image { png, .. } => png@,
    }
}

/// The fingerprint of a payload: its kind's tag, then its bytes.
pub open spec fn spec_content_hash(p: Payload) -> u64 {
    spec_fingerprint(content_tag(p), content_bytes(p))
}

/// Two payloads hold the same content: the same text, or the same PNG bytes
/// (an image's recorded size plays no part).
pub open spec fn spec_same_content(a: Payload, b: Payload) -> bool {
    match (a, b) {
        (Payload::Text(x), Payload::Text(y)) => x@ == y@,
        (Payload::Image { png: x, .. }, Payload::Image { png: y, .. }) => x@ == y@,
        _ => false,
    }
}

/// Payloads with the same content have the same fingerprint.
pub proof fn lemma_same_content_same_hash(a: Payload, b: Payload)
    requires
        spec_same_content(a, b),
    ensures
        spec_content_hash(a) == spec_content_hash(b),
{
}

/// The fingerprint of a payload's content.
pub fn content_hash(payload: &Payload) -> (h: u64)
    ensures
        h == spec_content_hash(*payload),
{
    match payload {
        Payload::Text(s) => fingerprint(0, s.as_str().as_bytes()),
        Payload::Image { png, .. } => fingerprint(1, png.as_slice()),
    }
}

/// Whether two payloads hold the same content.
pub fn same_content(a: &Payload, b: &Payload) -> (r: bool)
    ensures
        r == spec_same_content(*a, *b),
{
    match (a, b) {
        (Payload::Text(x), Payload::Text(y)) => *x == *y,
        (Payload::Image { png: x, .. }, Payload::Image { png: y, .. }) => {
            let r = *x == *y;
            proof {
                if r {
                    assert(x@ =~= y@);
                }
            }
            r
        },
        _ => false,
    }
}

impl ClipItem {
    pub fn new(id: u64, payload: Payload, app: SourceApp, created_at: u64) -> (r: Self)
        ensures
            r == (ClipItem { id, payload, app, created_at }),
    {
        ClipItem { id, payload, app, created_at }
    }
}

/// Two source apps read the same.
pub open spec fn same_app(a: SourceApp, b: SourceApp) -> bool {
    &&& a.name@ == b.name@
    &&& a.bundle@ == b.bundle@
    &&& a.icon@ == b.icon@
}

/// Whether two source apps read the same.
pub fn same_source_app(a: &SourceApp, b: &SourceApp) -> (r: bool)
    ensures
        r == same_app(*a, *b),
{
    a.name == b.name && a.bundle == b.bundle && a.icon == b.icon
}

/// Two payloads are the same: the same text, or the same PNG bytes with the
/// same recorded size.
pub open spec fn same_payload(a: Payload, b: Payload) -> bool {
    match (a, b) {
        (Payload::Text(x), Payload::Text(y)) => x@ == y@,
        (
            Payload::Image { png: x, width: wx, height: hx },
            Payload::Image { png: y, width: wy, height: hy },
        ) => x@ == y@ && wx == wy && hx == hy,
        _ => false,
    }
}

/// Two clips are the same card: id, payload, source app and time.
pub open spec fn same_clip(a: ClipItem, b: ClipItem) -> bool {
    &&& a.id == b.id
    &&& same_payload(a.payload, b.payload)
    &&& same_app(a.app, b.app)
    &&& a.created_at == b.created_at
}

/// Two histories show the same cards in the same order.
pub open spec fn same_clips(s: Seq<ClipItem>, t: Seq<ClipItem>) -> bool {
    &&& s.len() == t.len()
    &&& forall|i: int| 0 <= i < s.len() ==> same_clip(#[trigger] s[i], t[i])
}

/// Some clip of `s` holds the content of `p`.
pub open spec fn has_twin(s: Seq<ClipItem>, p: Payload) -> bool {
    exists|k: int| 0 <= k < s.len() && spec_same_content(#[trigger] s[k].payload, p)
}

/// `pos` is the first position in `s` whose clip holds the content of `p`.
pub open spec fn is_first_twin(s: Seq<ClipItem>, p: Payload, pos: int) -> bool {
    &&& 0 <= pos < s.len()
    &&& spec_same_content(s[pos].payload, p)
    &&& forall|j: int| 0 <= j < pos ==> !spec_same_content(#[trigger] s[j].payload, p)
}

/// No two clips of `s` hold the same content.
pub open spec fn distinct_content(s: Seq<ClipItem>) -> bool {
    forall|i: int, j: int|
        #![trigger s[i], s[j]]
        0 <= i < s.len() && 0 <= j < s.len() && i != j ==> !spec_same_content(
            s[i].payload,
            s[j].payload,
        )
}

/// The first `MAX_ITEMS` clips of `s`: what the ring keeps.
pub open spec fn cap(s: Seq<ClipItem>) -> Seq<ClipItem> {
    if s.len() <= MAX_ITEMS {
        s
    } else {
        s.subrange(0, MAX_ITEMS as int)
    }
}

/// A clip copied again at `t` from `app`: it keeps its id and content, takes
/// the new time, and takes the new app unless that app could not be
/// identified (empty bundle).
pub open spec fn refreshed(c: ClipItem, app: SourceApp, t: u64) -> ClipItem {
    ClipItem {
        id: c.id,
        payload: c.payload,
        app: if app.bundle@.len() == 0 { c.app } else { app },
        created_at: t,
    }
}

/// `hashes` holds the fingerprint of each clip of `items`, position for position.
pub open spec fn hashes_of(items: Seq<ClipItem>, hashes: Seq<u64>) -> bool {
    &&& hashes.len() == items.len()
    &&& forall|i: int| 0 <= i < items.len() ==> hashes[i] == spec_content_hash(#[trigger] items[i].payload)
}

/// The position of the first clip of `items` that holds the content of
/// `payload`, if any. The fingerprint narrows it down; the byte compare
/// settles it, so a collision never hands back someone else's clip.
fn find_twin(items: &Vec<ClipItem>, hashes: &Vec<u64>, hash: u64, payload: &Payload) -> (r: Option<usize>)
    requires
        hashes_of(items@, hashes@),
        hash == spec_content_hash(*payload),
    ensures
        match r {
            Some(pos) => is_first_twin(items@, *payload, pos as int),
            None => !has_twin(items@, *payload),
        },
{
    let n = items.len();
    let mut i: usize = 0;
    while i < n
        invariant
            hashes_of(items@, hashes@),
            n == items@.len(),
            i <= n,
            hash == spec_content_hash(*payload),
            forall|j: int| 0 <= j < i ==> !spec_same_content(#[trigger] items@[j].payload, *payload),
        decreases n - i,
    {
        if hashes[i] == hash && same_content(&items[i].payload, payload) {
            return Some(i);
        }
        proof {
            if spec_same_content(items@[i as int].payload, *payload) {
                lemma_same_content_same_hash(items@[i as int].payload, *payload);
            }
        }
        i = i + 1;
    }
    None
}

/// `s` with every clip dropped whose content an earlier (newer) clip already
/// holds: the copy kept is the most recent one.
pub open spec fn dedup(s: Seq<ClipItem>) -> Seq<ClipItem>
    decreases s.len(),
{
    if s.len() == 0 {
        s
    } else {
        let d = dedup(s.drop_last());
        if has_twin(d, s.last().payload) {
            d
        } else {
            d.push(s.last())
        }
    }
}

/// The highest id among the clips of `s`, or 0 when there are none.
pub open spec fn max_id(s: Seq<ClipItem>) -> u64
    decreases s.len(),
{
    if s.len() == 0 {
        0
    } else {
        let m = max_id(s.drop_last());
        if s.last().id > m {
            s.last().id
        } else {
            m
        }
    }
}

/// Collapsing duplicates keeps no two clips with the same content, keeps only
/// clips of the input, and loses no content of the input.
pub proof fn lemma_dedup(s: Seq<ClipItem>)
    ensures
        dedup(s).len() <= s.len(),
        distinct_content(dedup(s)),
        forall|k: int|
            0 <= k < dedup(s).len() ==> exists|j: int| 0 <= j < s.len() && #[trigger] dedup(s)[k] == s[j],
        forall|j: int| 0 <= j < s.len() ==> has_twin(dedup(s), #[trigger] s[j].payload),
    decreases s.len(),
{
    if s.len() > 0 {
        let p = s.drop_last();
        let d = dedup(p);
        lemma_dedup(p);
        assert forall|k: int| 0 <= k < dedup(s).len() implies exists|j: int|
            0 <= j < s.len() && #[trigger] dedup(s)[k] == s[j] by {
            if k < d.len() {
                let j = choose|j: int| 0 <= j < p.len() && d[k] == p[j];
                assert(dedup(s)[k] == s[j]);
            } else {
                assert(dedup(s)[k] == s[s.len() - 1]);
            }
        }
        assert forall|j: int| 0 <= j < s.len() implies has_twin(dedup(s), #[trigger] s[j].payload) by {
            if j < p.len() {
                assert(s[j] == p[j]);
                let k = choose|k: int| 0 <= k < d.len() && spec_same_content(#[trigger] d[k].payload, p[j].payload);
                assert(dedup(s)[k] == d[k]);
            } else if !has_twin(d, s.last().payload) {
                assert(dedup(s)[d.len() as int] == s.last());
            }
        }
    }
}

/// Every clip of `s` has an id no higher than `max_id(s)`, which is below
/// `u64::MAX` when every id is.
pub proof fn lemma_max_id(s: Seq<ClipItem>)
    ensures
        forall|j: int| 0 <= j < s.len() ==> #[trigger] s[j].id <= max_id(s),
        (forall|j: int| 0 <= j < s.len() ==> #[trigger] s[j].id < u64::MAX) ==> max_id(s) < u64::MAX,
    decreases s.len(),
{
    if s.len() > 0 {
        lemma_max_id(s.drop_last());
        assert forall|j: int| 0 <= j < s.len() implies #[trigger] s[j].id <= max_id(s) by {
            if j < s.len() - 1 {
                assert(s[j] == s.drop_last()[j]);
            }
        }
        if forall|j: int| 0 <= j < s.len() ==> #[trigger] s[j].id < u64::MAX {
            assert forall|j: int| 0 <= j < s.drop_last().len() implies #[trigger] s.drop_last()[j].id
                < u64::MAX by {
                assert(s.drop_last()[j] == s[j]);
            }
            assert(s[s.len() - 1].id < u64::MAX);
        }
    }
}

/// Lifting the clip at `pos` to the front, as `c` with the same id and
/// payload, keeps the contents distinct and the ids below `bound`, and leaves
/// the same cards exactly when `pos` is the front and `c` is the same card.
pub proof fn lemma_lift(s: Seq<ClipItem>, pos: int, c: ClipItem, bound: u64)
    requires
        distinct_content(s),
        0 <= pos < s.len(),
        c.payload == s[pos].payload,
        c.id == s[pos].id,
        forall|i: int| 0 <= i < s.len() ==> #[trigger] s[i].id < bound,
    ensures
        ({
            let r = seq![c].add(s.remove(pos));
            &&& r.len() == s.len()
            &&& distinct_content(r)
            &&& forall|i: int| 0 <= i < r.len() ==> #[trigger] r[i].id < bound
            &&& same_clips(r, s) <==> (pos == 0 && same_clip(c, s[0]))
        }),
{
    let r = seq![c].add(s.remove(pos));
    assert forall|i: int| 0 <= i < r.len() implies #[trigger] r[i].id < bound by {
        if i > 0 {
            let oi = if i - 1 < pos { i - 1 } else { i };
            assert(r[i] == s[oi]);
        }
    }
    assert forall|i: int, j: int|
        #![trigger r[i], r[j]]
        0 <= i < r.len() && 0 <= j < r.len() && i != j implies !spec_same_content(
        r[i].payload,
        r[j].payload,
    ) by {
        let oi = if i == 0 { pos } else if i - 1 < pos { i - 1 } else { i };
        let oj = if j == 0 { pos } else if j - 1 < pos { j - 1 } else { j };
        assert(r[i].payload == s[oi].payload);
        assert(r[j].payload == s[oj].payload);
    }
    if pos == 0 && same_clip(c, s[0]) {
        assert forall|i: int| 0 <= i < r.len() implies same_clip(#[trigger] r[i], s[i]) by {
            if i > 0 {
                assert(r[i] == s[i]);
            }
        }
    }
    if same_clips(r, s) {
        assert(same_clip(r[0], s[0]));
        if pos != 0 {
            assert(spec_same_content(s[0].payload, s[pos].payload));
        }
    }
}

/// Putting a clip with new content and a fresh id at the front of a ring
/// keeps the contents distinct, and never leaves the same cards.
pub proof fn lemma_fresh_at_front(s: Seq<ClipItem>, c: ClipItem)
    requires
        distinct_content(s),
        !has_twin(s, c.payload),
        forall|i: int| 0 <= i < s.len() ==> #[trigger] s[i].id < c.id,
    ensures
        ({
            let r = cap(seq![c].add(s));
            &&& r.len() <= MAX_ITEMS
            &&& r.len() > 0
            &&& r[0] == c
            &&& distinct_content(r)
            &&& forall|i: int| 0 <= i < r.len() ==> #[trigger] r[i].id <= c.id
            &&& !same_clips(r, s)
        }),
{
    let all = seq![c].add(s);
    let r = cap(all);
    assert forall|i: int| 0 <= i < r.len() implies #[trigger] r[i].id <= c.id by {
        assert(r[i] == all[i]);
        if i > 0 {
            assert(all[i] == s[i - 1]);
        }
    }
    assert forall|i: int, j: int|
        #![trigger r[i], r[j]]
        0 <= i < r.len() && 0 <= j < r.len() && i != j implies !spec_same_content(
        r[i].payload,
        r[j].payload,
    ) by {
        assert(r[i] == all[i]);
        assert(r[j] == all[j]);
        if i == 0 {
            assert(all[j] == s[j - 1]);
        } else if j == 0 {
            assert(all[i] == s[i - 1]);
        } else {
            assert(all[i] == s[i - 1]);
            assert(all[j] == s[j - 1]);
        }
    }
    if same_clips(r, s) {
        assert(same_clip(r[0], s[0]));
        assert(s[0].id < c.id);
    }
}

/// The ids of the clips of `s`.
pub open spec fn ids_of(s: Seq<ClipItem>) -> Set<u64> {
    Set::new(|id: u64| exists|j: int| 0 <= j < s.len() && s[j].id == id)
}

/// Some clip of `s` has the id `id`.
pub open spec fn has_id(s: Seq<ClipItem>, id: u64) -> bool {
    exists|k: int| 0 <= k < s.len() && #[trigger] s[k].id == id
}

/// `k` is the first position in `s` whose clip has the id `id`.
pub open spec fn is_first_with_id(s: Seq<ClipItem>, id: u64, k: int) -> bool {
    &&& 0 <= k < s.len()
    &&& s[k].id == id
    &&& forall|j: int| 0 <= j < k ==> #[trigger] s[j].id != id
}

/// Filtering a sequence whose every element passes keeps it whole.
pub proof fn lemma_filter_all(s: Seq<ClipItem>, pred: spec_fn(ClipItem) -> bool)
    requires
        forall|k: int| 0 <= k < s.len() ==> pred(#[trigger] s[k]),
    ensures
        s.filter(pred) == s,
    decreases s.len(),
{
    reveal_with_fuel(Seq::<_>::filter, 1);
    if s.len() > 0 {
        assert forall|k: int| 0 <= k < s.drop_last().len() implies pred(#[trigger] s.drop_last()[k]) by {
            assert(s.drop_last()[k] == s[k]);
        }
        lemma_filter_all(s.drop_last(), pred);
        assert(pred(s[s.len() - 1]));
        assert(s.drop_last().push(s.last()) =~= s);
    }
}

/// A filter that keeps every element lets every element pass.
pub proof fn lemma_filter_keeps_all(s: Seq<ClipItem>, pred: spec_fn(ClipItem) -> bool)
    requires
        s.filter(pred).len() == s.len(),
    ensures
        forall|k: int| 0 <= k < s.len() ==> pred(#[trigger] s[k]),
    decreases s.len(),
{
    reveal_with_fuel(Seq::<_>::filter, 1);
    if s.len() > 0 {
        broadcast use vstd::seq_lib::group_filter_ensures;
        let p = s.drop_last();
        assert(p.filter(pred).len() <= p.len());
        if !pred(s.last()) {
            assert(s.filter(pred) == p.filter(pred));
            assert(false);
        }
        lemma_filter_keeps_all(p, pred);
        assert forall|k: int| 0 <= k < s.len() implies pred(#[trigger] s[k]) by {
            if k < p.len() {
                assert(s[k] == p[k]);
            }
        }
    }
}

/// Which clips a pass over the history keeps.
enum Keep {
    /// Every clip but the one with this id.
    OtherThan(u64),
    /// The clips younger than `max_age` seconds at `now`.
    YoungerThan { now: u64, max_age: u64 },
}

/// Age in seconds of a clip made at `created_at`, seen at `now`. A clip from
/// the future (a clock that moved back) is age 0, never ancient.
pub open spec fn age(now: u64, created_at: u64) -> u64 {
    if now >= created_at {
        (now - created_at) as u64
    } else {
        0
    }
}

impl Keep {
    spec fn keeps(self, c: ClipItem) -> bool {
        match self {
            Keep::OtherThan(id) => c.id != id,
            Keep::YoungerThan { now, max_age } => age(now, c.created_at) < max_age,
        }
    }

    fn keep(&self, c: &ClipItem) -> (r: bool)
        ensures
            r == self.keeps(*c),
    {
        match self {
            Keep::OtherThan(id) => c.id != *id,
            Keep::YoungerThan { now, max_age } => now.saturating_sub(c.created_at) < *max_age,
        }
    }
}

/// What filing `payload`, copied from `app` at `t`, does to the history
/// `before`, leaving `after` and reporting `changed`: content already held
/// lifts its clip to the front, refreshed; new content becomes a clip at the
/// front with the next id, which no clip holds and no id restored or handed
/// out before; and the report is true exactly when the cards changed.
pub open spec fn added(
    before: History,
    after: History,
    payload: Payload,
    app: SourceApp,
    t: u64,
    changed: bool,
) -> bool {
    &&& after.wf()
    &&& forall|pos: int|
        #[trigger] is_first_twin(before.clips(), payload, pos) ==> {
            &&& after.clips() == seq![refreshed(before.clips()[pos], app, t)].add(
                before.clips().remove(pos),
            )
            &&& after.next_id() == before.next_id()
            &&& after.issued() == before.issued()
        }
    &&& !has_twin(before.clips(), payload) ==> {
        &&& after.clips() == cap(
            seq![(ClipItem { id: before.next_id(), payload, app, created_at: t })].add(
                before.clips(),
            ),
        )
        &&& after.next_id() == before.next_id() + 1
        &&& !before.issued().contains(after.clips()[0].id)
        &&& after.issued() == before.issued().insert(after.clips()[0].id)
        &&& forall|k: int|
            0 <= k < before.clips().len() ==> #[trigger] before.clips()[k].id
                < after.clips()[0].id
    }
    &&& changed == !same_clips(after.clips(), before.clips())
}

pub struct History {
    items: Vec<ClipItem>,
    /// The fingerprint of each item's payload, position for position.
    hashes: Vec<u64>,
    next_id: u64,
    /// Every id restored or handed out since the history was made or last
    /// restored.
    issued: Ghost<Set<u64>>,
}

impl History {
    /// The clips, newest first.
    pub closed spec fn clips(&self) -> Seq<ClipItem> {
        self.items@
    }

    /// The id the next new clip gets.
    pub closed spec fn next_id(&self) -> u64 {
        self.next_id
    }

    /// The ids restored or handed out since the history was made or last
    /// restored.
    pub closed spec fn issued(&self) -> Set<u64> {
        self.issued@
    }

    pub closed spec fn hashes_match(&self) -> bool {
        hashes_of(self.items@, self.hashes@)
    }

    /// What every operation keeps: the ring holds at most `MAX_ITEMS` clips,
    /// no two of them with the same content, and every clip's id, and every
    /// id restored or handed out, below the next one to be handed out.
    pub open spec fn wf(&self) -> bool {
        &&& self.hashes_match()
        &&& forall|id: u64| #[trigger] self.issued().contains(id) ==> id < self.next_id()
        &&& self.clips().len() <= MAX_ITEMS
        &&& forall|i: int| 0 <= i < self.clips().len() ==> #[trigger] self.clips()[i].id < self.next_id()
        &&& distinct_content(self.clips())
    }

    pub fn new() -> (h: Self)
        ensures
            h.wf(),
            h.clips() == Seq::<ClipItem>::empty(),
            h.next_id() == 1,
            h.issued() == Set::<u64>::empty(),
    {
        History { items: Vec::new(), hashes: Vec::new(), next_id: 1, issued: Ghost(Set::empty()) }
    }

    /// The id the next new clip will get.
    pub fn upcoming_id(&self) -> (id: u64)
        ensures
            id == self.next_id(),
    {
        self.next_id
    }

    /// Whether some clip already holds the content of `payload`.
    pub fn holds(&self, payload: &Payload) -> (r: bool)
        requires
            self.wf(),
        ensures
            r == has_twin(self.clips(), *payload),
    {
        let hash = content_hash(payload);
        find_twin(&self.items, &self.hashes, hash, payload).is_some()
    }

    /// Files a clip. Content the history already holds is not a second card:
    /// the clip we have moves to the head and takes the new time and source
    /// app. Returns whether the history changed.
    pub fn add(&mut self, payload: Payload, app: SourceApp, created_at: u64) -> (changed: bool)
        requires
            old(self).wf(),
            has_twin(old(self).clips(), payload) || old(self).next_id() < u64::MAX,
        ensures
            added(*old(self), *final(self), payload, app, created_at, changed),
    {
        let hash = content_hash(&payload);
        let twin = find_twin(&self.items, &self.hashes, hash, &payload);
        match twin {
            Some(pos) => {
                let ghost old_clips = self.clips();
                let unchanged = pos == 0 && self.items[0].created_at == created_at && (
                app.bundle.as_str().is_empty() || same_source_app(&app, &self.items[0].app));
                let mut item = self.items.remove(pos);
                let item_hash = self.hashes.remove(pos);
                item.created_at = created_at;
                if !app.bundle.as_str().is_empty() {
                    item.app = app;
                }
                self.items.insert(0, item);
                self.hashes.insert(0, item_hash);
                proof {
                    let moved = refreshed(old_clips[pos as int], app, created_at);
                    assert(self.clips() =~= seq![moved].add(old_clips.remove(pos as int)));
                    lemma_lift(old_clips, pos as int, moved, self.next_id());
                    assert(unchanged == (pos == 0 && same_clip(moved, old_clips[0])));
                    assert forall|id: u64| #[trigger] self.issued().contains(id) implies id
                        < self.next_id() by {
                        assert(old(self).issued().contains(id));
                    }
                }
                !unchanged
            },
            None => {
                let ghost old_clips = self.clips();
                let id = self.next_id;
                self.next_id = self.next_id + 1;
                self.issued = Ghost(self.issued@.insert(id));
                self.items.insert(0, ClipItem::new(id, payload, app, created_at));
                self.hashes.insert(0, hash);
                self.items.truncate(MAX_ITEMS);
                self.hashes.truncate(MAX_ITEMS);
                proof {
                    let fresh = ClipItem { id, payload, app, created_at };
                    assert(self.clips() =~= cap(seq![fresh].add(old_clips)));
                    lemma_fresh_at_front(old_clips, fresh);
                    assert forall|i: int| 0 <= i < self.clips().len() implies #[trigger] self.clips()[i].id
                        < self.next_id() by {}
                    assert forall|x: u64| #[trigger] self.issued().contains(x) implies x < self.next_id() by {
                        if x != id {
                            assert(old(self).issued().contains(x));
                        }
                    }
                }
                true
            },
        }
    }

    /// Puts back what was on disk at launch. Ids continue from the highest
    /// one seen, so a fresh clip never reuses a restored id. Duplicates are
    /// collapsed on the way in, keeping the most recent copy; returns how
    /// many were collapsed.
    pub fn restore(&mut self, items: Vec<ClipItem>) -> (collapsed: usize)
        requires
            forall|i: int| 0 <= i < items@.len() ==> #[trigger] items@[i].id < u64::MAX,
        ensures
            final(self).wf(),
            final(self).next_id() == max_id(items@) + 1,
            final(self).issued() == ids_of(items@),
            final(self).clips() == cap(dedup(items@)),
            collapsed == items@.len() - dedup(items@).len(),
    {
        let ghost input = items@;
        proof {
            lemma_max_id(input);
            lemma_dedup(input);
        }
        let n = items.len();
        let mut max: u64 = 0;
        let mut i: usize = 0;
        while i < n
            invariant
                n == input.len(),
                items@ == input,
                i <= n,
                max == max_id(input.take(i as int)),
            decreases n - i,
        {
            assert(input.take(i + 1).drop_last() =~= input.take(i as int));
            if items[i].id > max {
                max = items[i].id;
            }
            i = i + 1;
        }
        assert(input.take(n as int) =~= input);
        self.next_id = max + 1;
        self.issued = Ghost(ids_of(input));
        assert forall|id: u64| #[trigger] ids_of(input).contains(id) implies id < max + 1 by {
            let j = choose|j: int| 0 <= j < input.len() && input[j].id == id;
            assert(input[j].id <= max_id(input));
        }

        let mut rest = items;
        let mut kept: Vec<ClipItem> = Vec::new();
        let mut kept_hashes: Vec<u64> = Vec::new();
        let mut i: usize = 0;
        while rest.len() > 0
            invariant
                n == input.len(),
                i <= n,
                rest@ == input.skip(i as int),
                kept@ == dedup(input.take(i as int)),
                hashes_of(kept@, kept_hashes@),
            decreases rest.len(),
        {
            assert(input.take(i + 1).drop_last() =~= input.take(i as int));
            assert(input.skip(i as int)[0] == input[i as int]);
            assert(input.skip(i as int).remove(0) =~= input.skip(i + 1));
            let item = rest.remove(0);
            let hash = content_hash(&item.payload);
            let twin = find_twin(&kept, &kept_hashes, hash, &item.payload);
            if twin.is_none() {
                kept.push(item);
                kept_hashes.push(hash);
            }
            i = i + 1;
        }
        assert(input.take(n as int) =~= input);
        let collapsed = n - kept.len();
        kept.truncate(MAX_ITEMS);
        kept_hashes.truncate(MAX_ITEMS);
        self.items = kept;
        self.hashes = kept_hashes;
        proof {
            let d = dedup(input);
            assert(self.clips() =~= cap(d));
            assert forall|k: int| 0 <= k < self.clips().len() implies #[trigger] self.clips()[k].id
                < self.next_id() by {
                assert(self.clips()[k] == d[k]);
                let j = choose|j: int| 0 <= j < input.len() && d[k] == input[j];
                assert(input[j].id <= max_id(input));
            }
            assert forall|a: int, b: int|
                #![trigger self.clips()[a], self.clips()[b]]
                0 <= a < self.clips().len() && 0 <= b < self.clips().len() && a != b
                    implies !spec_same_content(self.clips()[a].payload, self.clips()[b].payload) by {
                assert(self.clips()[a] == d[a]);
                assert(self.clips()[b] == d[b]);
            }
        }
        collapsed
    }

    /// Keeps the clips `rule` accepts, in order; returns how many went.
    fn retain_clips(&mut self, rule: Keep) -> (gone: usize)
        requires
            old(self).wf(),
        ensures
            final(self).wf(),
            final(self).clips() == old(self).clips().filter(|c: ClipItem| rule.keeps(c)),
            final(self).next_id() == old(self).next_id(),
            final(self).issued() == old(self).issued(),
            gone == old(self).clips().len() - final(self).clips().len(),
    {
        let ghost pred = |c: ClipItem| rule.keeps(c);
        let ghost start = self.items@;
        let ghost mut j: int = 0;
        let before = self.items.len();
        let mut i: usize = 0;
        while i < self.items.len()
            invariant
                self.wf(),
                self.next_id() == old(self).next_id(),
                self.issued() == old(self).issued(),
                start == old(self).clips(),
                0 <= j <= start.len(),
                before == start.len(),
                i == start.take(j).filter(pred).len(),
                self.items@ == start.take(j).filter(pred) + start.skip(j),
                pred == (|c: ClipItem| rule.keeps(c)),
            decreases self.items@.len() - i,
        {
            proof {
                reveal_with_fuel(Seq::<_>::filter, 1);
                assert(start.take(j + 1).drop_last() =~= start.take(j));
                assert(start.skip(j)[0] == start[j]);
                assert(self.items@[i as int] == start[j]);
            }
            if rule.keep(&self.items[i]) {
                proof {
                    assert(start.take(j + 1).filter(pred) == start.take(j).filter(pred).push(start[j]));
                    assert(self.items@ =~= start.take(j + 1).filter(pred) + start.skip(j + 1));
                    j = j + 1;
                }
                i = i + 1;
            } else {
                let ghost prev = self.items@;
                self.items.remove(i);
                self.hashes.remove(i);
                proof {
                    assert(start.take(j + 1).filter(pred) == start.take(j).filter(pred));
                    assert(self.items@ =~= start.take(j + 1).filter(pred) + start.skip(j + 1));
                    j = j + 1;
                    assert forall|a: int, b: int|
                        #![trigger self.clips()[a], self.clips()[b]]
                        0 <= a < self.clips().len() && 0 <= b < self.clips().len() && a != b
                            implies !spec_same_content(self.clips()[a].payload, self.clips()[b].payload) by {
                        let oa = if a < i { a } else { a + 1 };
                        let ob = if b < i { b } else { b + 1 };
                        assert(self.clips()[a] == prev[oa]);
                        assert(self.clips()[b] == prev[ob]);
                    }
                    assert forall|k: int| 0 <= k < self.clips().len() implies #[trigger] self.clips()[k].id
                        < self.next_id() by {
                        let ok = if k < i { k } else { k + 1 };
                        assert(self.clips()[k] == prev[ok]);
                    }
                }
            }
        }
        proof {
            assert(start.skip(j).len() == 0);
            assert(start.take(j) =~= start);
            assert(self.items@ =~= start.filter(pred));
        }
        before - self.items.len()
    }

    /// Drops one clip for good. Returns false when the id is already gone: a
    /// stale press must not take a neighbour with it.
    pub fn remove(&mut self, id: u64) -> (removed: bool)
        requires
            old(self).wf(),
        ensures
            final(self).wf(),
            final(self).clips() == old(self).clips().filter(|c: ClipItem| c.id != id),
            final(self).next_id() == old(self).next_id(),
            final(self).issued() == old(self).issued(),
            removed == has_id(old(self).clips(), id),
            !has_id(final(self).clips(), id),
            !has_id(old(self).clips(), id) ==> final(self).clips() == old(self).clips(),
    {
        let ghost pred = |c: ClipItem| Keep::OtherThan(id).keeps(c);
        let gone = self.retain_clips(Keep::OtherThan(id));
        assert(pred =~= |c: ClipItem| c.id != id);
        proof {
            let s = old(self).clips();
            broadcast use vstd::seq_lib::group_filter_ensures;
            if has_id(s, id) {
                let k = choose|k: int| 0 <= k < s.len() && #[trigger] s[k].id == id;
                if s.filter(pred).len() == s.len() {
                    lemma_filter_keeps_all(s, pred);
                    assert(pred(s[k]));
                }
            } else {
                assert forall|k: int| 0 <= k < s.len() implies pred(#[trigger] s[k]) by {}
                lemma_filter_all(s, pred);
            }
            let f = s.filter(pred);
            assert forall|k: int| 0 <= k < f.len() implies #[trigger] f[k].id != id by {
                assert(pred(f[k]));
            }
        }
        gone != 0
    }

    /// Drops clips older than the retention the user chose; `None` means no
    /// expiry. Returns how many went.
    pub fn prune_expired(&mut self, now: u64, max_age_secs: Option<u64>) -> (gone: usize)
        requires
            old(self).wf(),
        ensures
            final(self).wf(),
            final(self).next_id() == old(self).next_id(),
            final(self).issued() == old(self).issued(),
            match max_age_secs {
                None => final(self).clips() == old(self).clips() && gone == 0,
                Some(max_age) => {
                    &&& final(self).clips() == old(self).clips().filter(
                        |c: ClipItem| age(now, c.created_at) < max_age,
                    )
                    &&& gone == old(self).clips().len() - final(self).clips().len()
                    &&& forall|i: int|
                        0 <= i < final(self).clips().len() ==> age(
                            now,
                            #[trigger] final(self).clips()[i].created_at,
                        ) < max_age
                },
            },
    {
        match max_age_secs {
            None => 0,
            Some(max_age) => {
                let gone = self.retain_clips(Keep::YoungerThan { now, max_age });
                let ghost pred = |c: ClipItem| age(now, c.created_at) < max_age;
                assert((|c: ClipItem| Keep::YoungerThan { now, max_age }.keeps(c)) =~= pred);
                proof {
                    broadcast use vstd::seq_lib::group_filter_ensures;
                    let f = old(self).clips().filter(pred);
                    assert forall|i: int| 0 <= i < f.len() implies age(now, #[trigger] f[i].created_at)
                        < max_age by {
                        assert(pred(f[i]));
                    }
                }
                gone
            },
        }
    }

    /// The clips, newest first.
    pub fn items(&self) -> (r: &[ClipItem])
        ensures
            r@ == self.clips(),
    {
        self.items.as_slice()
    }

    /// The first clip with the id `id`, if the history holds one.
    pub fn get(&self, id: u64) -> (r: Option<&ClipItem>)
        ensures
            r is None <==> !has_id(self.clips(), id),
            forall|k: int|
                #[trigger] is_first_with_id(self.clips(), id, k) ==> r == Some(&self.clips()[k]),
    {
        let n = self.items.len();
        let mut i: usize = 0;
        while i < n
            invariant
                n == self.clips().len(),
                i <= n,
                forall|j: int| 0 <= j < i ==> #[trigger] self.clips()[j].id != id,
            decreases n - i,
        {
            if self.items[i].id == id {
                return Some(&self.items[i]);
            }
            i = i + 1;
        }
        None
    }

    /// The cards, newest first.
    pub fn view(&self) -> (r: Vec<ClipView>)
        ensures
            r@.len() == self.clips().len(),
            forall|i: int| 0 <= i < r@.len() ==> is_view_of(#[trigger] r@[i], self.clips()[i]),
    {
        let n = self.items.len();
        let mut r: Vec<ClipView> = Vec::new();
        let mut i: usize = 0;
        while i < n
            invariant
                n == self.clips().len(),
                i <= n,
                r@.len() == i,
                forall|k: int| 0 <= k < i ==> is_view_of(#[trigger] r@[k], self.clips()[k]),
            decreases n - i,
        {
            r.push(to_view(&self.items[i]));
            i = i + 1;
        }
        r
    }
}

} // verus!
