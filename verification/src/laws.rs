//! Properties of the history that span several of its operations.

use vstd::prelude::*;
use crate::clipboard::{is_blank, is_white_space};
use crate::history::{
    age, cap, dedup, distinct_content, has_twin, is_view_of, lemma_dedup, spec_same_content, ClipItem,
    ClipView, History, Payload, PREVIEW_CHARS,
};
use crate::store::{
    image_file_bytes, is_live_image_file, is_stored_form_of, lemma_stored_round_trip, loaded_clips,
    spec_image_file_name, StoredClip,
};

verus! {

/// The copy `restore` keeps of a content is its first, that is most recent,
/// one: a clip no newer clip duplicates survives the collapse.
pub proof fn law_dedup_keeps_the_newest_copy(s: Seq<ClipItem>, j: int)
    requires
        0 <= j < s.len(),
        forall|k: int| 0 <= k < j ==> !spec_same_content(#[trigger] s[k].payload, s[j].payload),
    ensures
        dedup(s).contains(s[j]),
    decreases s.len(),
{
    let p = s.drop_last();
    if j < s.len() - 1 {
        assert forall|k: int| 0 <= k < j implies !spec_same_content(#[trigger] p[k].payload, p[j].payload) by {
            assert(p[k] == s[k]);
        }
        law_dedup_keeps_the_newest_copy(p, j);
        let d = dedup(p);
        let k = choose|k: int| 0 <= k < d.len() && d[k] == p[j];
        assert(dedup(s)[k] == s[j]);
    } else {
        lemma_dedup(p);
        let d = dedup(p);
        if has_twin(d, s.last().payload) {
            let k = choose|k: int| 0 <= k < d.len() && spec_same_content(#[trigger] d[k].payload, s.last().payload);
            let i = choose|i: int| 0 <= i < p.len() && #[trigger] d[k] == p[i];
            assert(p[i] == s[i]);
            assert(false);
        }
        assert(dedup(s)[d.len() as int] == s[j]);
    }
}

/// Expiry never takes a clip stamped at or after `now` (a clock that moved
/// back), whatever the retention.
pub proof fn law_clip_from_the_future_is_kept(s: Seq<ClipItem>, now: u64, max_age: u64, k: int)
    requires
        0 <= k < s.len(),
        s[k].created_at >= now,
        max_age > 0,
    ensures
        s.filter(|c: ClipItem| age(now, c.created_at) < max_age).contains(s[k]),
{
    broadcast use vstd::seq_lib::group_filter_ensures;
    let pred = |c: ClipItem| age(now, c.created_at) < max_age;
    assert(pred(s[k]));
}

/// Collapsing duplicates changes nothing in clips that hold distinct
/// content.
pub proof fn lemma_dedup_of_distinct(s: Seq<ClipItem>)
    requires
        distinct_content(s),
    ensures
        dedup(s) == s,
    decreases s.len(),
{
    if s.len() > 0 {
        let p = s.drop_last();
        assert forall|i: int, j: int|
            #![trigger p[i], p[j]]
            0 <= i < p.len() && 0 <= j < p.len() && i != j implies !spec_same_content(
            p[i].payload,
            p[j].payload,
        ) by {
            assert(p[i] == s[i] && p[j] == s[j]);
        }
        lemma_dedup_of_distinct(p);
        if has_twin(p, s.last().payload) {
            let k = choose|k: int| 0 <= k < p.len() && spec_same_content(#[trigger] p[k].payload, s.last().payload);
            assert(p[k] == s[k]);
            assert(s[s.len() - 1] == s.last());
            assert(false);
        }
        assert(p.push(s.last()) =~= s);
    }
}

/// A history written out and restored comes back as it was: restoring the
/// clips of a history keeps every one of them, in order.
pub proof fn law_restore_keeps_a_saved_history(h: History)
    requires
        h.wf(),
    ensures
        cap(dedup(h.clips())) == h.clips(),
{
    lemma_dedup_of_distinct(h.clips());
}

/// Entries that are the stored forms of clips, read with those clips' image
/// bytes, load as exactly those clips.
proof fn lemma_loads_stored_forms(clips: Seq<ClipItem>, entries: Seq<(StoredClip, Option<Vec<u8>>)>)
    requires
        entries.len() == clips.len(),
        forall|i: int| 0 <= i < clips.len() ==> is_stored_form_of(#[trigger] entries[i].0, clips[i]),
        forall|i: int| 0 <= i < clips.len() ==> #[trigger] entries[i].1 == image_file_bytes(clips[i]),
    ensures
        loaded_clips(entries) == clips,
    decreases clips.len(),
{
    if clips.len() > 0 {
        let n = clips.len() - 1;
        let (pc, pe) = (clips.drop_last(), entries.drop_last());
        assert forall|i: int| 0 <= i < pc.len() implies is_stored_form_of(#[trigger] pe[i].0, pc[i])
            && pe[i].1 == image_file_bytes(pc[i]) by {
            assert(pe[i] == entries[i] && pc[i] == clips[i]);
        }
        lemma_loads_stored_forms(pc, pe);
        assert(is_stored_form_of(entries[n].0, clips[n]) && entries[n].1 == image_file_bytes(clips[n]));
        lemma_stored_round_trip(clips[n], entries[n].0);
        assert(pc.push(clips[n]) =~= clips);
    }
}

/// A history saved and loaded back is the history it was: the index entries
/// that `stored_index` writes for its clips, each read with the bytes its
/// image file was given, load as those same clips, each with an id that
/// `restore` accepts, and restoring them keeps every one, in order.
pub proof fn law_saved_history_loads_back(h: History, entries: Seq<(StoredClip, Option<Vec<u8>>)>)
    requires
        h.wf(),
        entries.len() == h.clips().len(),
        forall|i: int| 0 <= i < entries.len() ==> is_stored_form_of(#[trigger] entries[i].0, h.clips()[i]),
        forall|i: int| 0 <= i < entries.len() ==> #[trigger] entries[i].1 == image_file_bytes(h.clips()[i]),
    ensures
        loaded_clips(entries) == h.clips(),
        forall|i: int| 0 <= i < h.clips().len() ==> #[trigger] h.clips()[i].id < u64::MAX,
        cap(dedup(loaded_clips(entries))) == h.clips(),
{
    lemma_loads_stored_forms(h.clips(), entries);
    law_restore_keeps_a_saved_history(h);
}

/// Restoring keeps the input's order: the clips that survive the collapse
/// sit at strictly increasing positions of the input, and each is the first
/// (most recent) clip of the input holding its content. The returned
/// sequence gives those positions.
pub proof fn law_dedup_keeps_input_order(s: Seq<ClipItem>) -> (pos: Seq<int>)
    ensures
        pos.len() == dedup(s).len(),
        forall|k: int| 0 <= k < pos.len() ==> 0 <= #[trigger] pos[k] < s.len() && dedup(s)[k] == s[pos[k]],
        forall|a: int, b: int| 0 <= a < b < pos.len() ==> #[trigger] pos[a] < #[trigger] pos[b],
        forall|k: int, m: int|
            0 <= k < pos.len() && 0 <= m < pos[k] ==> !spec_same_content(
                #[trigger] s[m].payload,
                #[trigger] s[pos[k]].payload,
            ),
    decreases s.len(),
{
    if s.len() == 0 {
        Seq::empty()
    } else {
        let p = s.drop_last();
        let q = law_dedup_keeps_input_order(p);
        lemma_dedup(p);
        let d = dedup(p);
        assert forall|j: int| 0 <= j < p.len() implies s[j] == #[trigger] p[j] by {}
        if has_twin(d, s.last().payload) {
            assert forall|k: int, m: int| 0 <= k < q.len() && 0 <= m < q[k] implies !spec_same_content(
                #[trigger] s[m].payload,
                #[trigger] s[q[k]].payload,
            ) by {
                assert(s[m] == p[m] && s[q[k]] == p[q[k]]);
            }
            q
        } else {
            let last = p.len() as int;
            let r = q.push(last);
            assert forall|m: int| 0 <= m < last implies !spec_same_content(
                #[trigger] s[m].payload,
                s[last].payload,
            ) by {
                if spec_same_content(s[m].payload, s[last].payload) {
                    assert(s[m] == p[m]);
                    assert(has_twin(d, p[m].payload));
                    let k = choose|k: int| 0 <= k < d.len() && spec_same_content(#[trigger] d[k].payload, p[m].payload);
                    assert(spec_same_content(d[k].payload, s.last().payload));
                    assert(false);
                }
            }
            assert forall|k: int, m: int| 0 <= k < r.len() && 0 <= m < r[k] implies !spec_same_content(
                #[trigger] s[m].payload,
                #[trigger] s[r[k]].payload,
            ) by {
                if k < q.len() {
                    assert(r[k] == q[k]);
                    assert(s[m] == p[m] && s[q[k]] == p[q[k]]);
                } else {
                    assert(r[k] == last);
                }
            }
            assert forall|k: int| 0 <= k < r.len() implies 0 <= #[trigger] r[k] < s.len() && dedup(s)[k]
                == s[r[k]] by {
                if k < q.len() {
                    assert(r[k] == q[k]);
                    assert(s[q[k]] == p[q[k]]);
                }
            }
            assert forall|a: int, b: int| 0 <= a < b < r.len() implies #[trigger] r[a] < #[trigger] r[b] by {
                if b < q.len() {
                    assert(r[a] == q[a] && r[b] == q[b]);
                } else {
                    assert(r[a] == q[a]);
                }
            }
            r
        }
    }
}

/// A text clip's card shows the start of the text: its first
/// `PREVIEW_CHARS` characters, or all of a shorter text, and counts every
/// character of it.
pub proof fn law_card_shows_the_start_of_the_text(v: ClipView, c: ClipItem)
    requires
        is_view_of(v, c),
    ensures
        match c.payload {
            Payload::Text(t) => {
                &&& v.chars == t@.len()
                &&& v.text@.len() == if t@.len() <= PREVIEW_CHARS { t@.len() } else { PREVIEW_CHARS as nat }
                &&& forall|i: int| 0 <= i < v.text@.len() ==> #[trigger] v.text@[i] == t@[i]
            },
            Payload::Image { .. } => v.text@.len() == 0,
        },
{
}

/// An image clip keeps its file alive wherever it sits in the history,
/// whatever clips come before it.
pub proof fn law_every_image_clip_keeps_its_file(items: Seq<ClipItem>, i: int)
    requires
        0 <= i < items.len(),
        items[i].payload is Image,
    ensures
        is_live_image_file(spec_image_file_name(items[i].id), items),
{
}

/// A file is alive only through an image clip named after it.
pub proof fn law_live_files_belong_to_image_clips(name: Seq<char>, items: Seq<ClipItem>)
    requires
        is_live_image_file(name, items),
    ensures
        exists|i: int|
            0 <= i < items.len() && (#[trigger] items[i].payload is Image) && name == spec_image_file_name(
                items[i].id,
            ),
{
}

/// A clip's age is the time elapsed since it was made, and zero for a clip
/// made after `now` (a clock that moved back).
pub proof fn law_age_is_elapsed_time(now: u64, created_at: u64)
    ensures
        now >= created_at ==> age(now, created_at) == now - created_at,
        now < created_at ==> age(now, created_at) == 0,
{
}

/// Expiry with a retention of `max_age` seconds keeps a clip made at or
/// before `now` exactly when less than `max_age` seconds have passed since,
/// and keeps every clip made after `now` (for any retention but zero).
pub proof fn law_expiry_keeps_the_young(now: u64, created_at: u64, max_age: u64)
    ensures
        created_at <= now ==> ((age(now, created_at) < max_age) <==> (now - created_at < max_age)),
        created_at > now ==> ((age(now, created_at) < max_age) <==> (0 < max_age)),
{
}

/// A text holding any character that is not white space is not blank, so
/// it becomes a clip, however short it is.
pub proof fn law_visible_text_is_not_blank(s: Seq<char>, i: int)
    requires
        0 <= i < s.len(),
        !is_white_space(s[i]),
    ensures
        !is_blank(s),
{
}

/// Text made of white space only, the empty text among it, is blank.
pub proof fn law_white_space_text_is_blank(s: Seq<char>)
    requires
        forall|i: int| 0 <= i < s.len() ==> is_white_space(#[trigger] s[i]),
    ensures
        is_blank(s),
{
}

/// Printable ASCII characters, and every character past U+3000 (letters of
/// most scripts, symbols, emoji), are not white space; space, tab, line feed
/// and carriage return are.
pub proof fn law_white_space_characters(c: char)
    ensures
        (0x21 <= c as u32 <= 0x7e) ==> !is_white_space(c),
        (c as u32 > 0x3000) ==> !is_white_space(c),
        (c == ' ' || c == '\t' || c == '\n' || c == '\r') ==> is_white_space(c),
{
}

} // verus!
