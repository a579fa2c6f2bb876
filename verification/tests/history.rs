use copypaster::history::{ClipItem, History, Payload, SourceApp, MAX_ITEMS, PREVIEW_CHARS};

fn app() -> SourceApp {
    SourceApp { name: "Ghostty".into(), bundle: "com.mitchellh.ghostty".into(), icon: String::new() }
}

const DAY: u64 = 86_400;

#[test]
fn a_clip_older_than_the_retention_is_dropped() {
    let mut h = History::new();
    let now = 100 * DAY;
    h.add(Payload::Text("last month".into()), app(), now - 30 * DAY);
    h.add(Payload::Text("yesterday".into()), app(), now - DAY);

    let gone = h.prune_expired(now, Some(7 * DAY));
    assert_eq!(gone, 1);
    let left: Vec<String> = h.view().into_iter().map(|c| c.text).collect();
    assert_eq!(left, ["yesterday"], "the week-old cutoff kept the wrong clip");
}

#[test]
fn no_expiry_keeps_everything() {
    let mut h = History::new();
    let now = 100 * DAY;
    h.add(Payload::Text("ancient".into()), app(), 0);
    assert_eq!(h.prune_expired(now, None), 0);
    assert_eq!(h.view().len(), 1);
}

#[test]
fn a_clip_from_the_future_is_not_treated_as_ancient() {
    // A clock that moved back (timezone, NTP) must not wipe the history.
    let mut h = History::new();
    h.add(Payload::Text("fresh".into()), app(), 100 * DAY);
    assert_eq!(h.prune_expired(99 * DAY, Some(DAY)), 0);
}

#[test]
fn a_deleted_clip_leaves_the_history() {
    let mut h = History::new();
    h.add(Payload::Text("keep".into()), app(), 1);
    h.add(Payload::Text("drop".into()), app(), 2);
    let doomed = h.view()[0].id;

    assert!(h.remove(doomed));
    let left = h.view();
    assert_eq!(left.len(), 1);
    assert_eq!(left[0].text, "keep");
}

#[test]
fn deleting_a_clip_that_is_already_gone_takes_no_neighbour() {
    let mut h = History::new();
    h.add(Payload::Text("keep".into()), app(), 1);
    let id = h.view()[0].id;
    h.remove(id);

    // A stale card in the popup can press on an id the history no longer has.
    assert!(!h.remove(id));
    assert!(h.view().is_empty());
}

#[test]
fn newest_clip_comes_first() {
    let mut h = History::new();
    h.add(Payload::Text("first".into()), app(), 1);
    h.add(Payload::Text("second".into()), app(), 2);
    let v = h.view();
    assert_eq!(v[0].text, "second");
    assert_eq!(v[1].text, "first");
}

#[test]
fn copying_the_same_thing_twice_adds_one_clip() {
    let mut h = History::new();
    assert!(h.add(Payload::Text("dup".into()), app(), 1));
    h.add(Payload::Text("dup".into()), app(), 2);
    let v = h.view();
    assert_eq!(v.len(), 1);
    assert_eq!(v[0].created_at, 2, "the card still says it was copied a while ago");
}

#[test]
fn re_copying_the_same_clip_at_the_same_moment_changes_nothing() {
    // The watcher can see one copy twice. Without this the app rewrites the
    // index and redraws the popup for a history that did not move.
    let mut h = History::new();
    h.add(Payload::Text("dup".into()), app(), 1);
    assert!(!h.add(Payload::Text("dup".into()), app(), 1));
}

#[test]
fn copying_something_from_further_down_lifts_it_back_to_the_front() {
    let mut h = History::new();
    h.add(Payload::Text("a".into()), app(), 1);
    h.add(Payload::Text("b".into()), app(), 2);
    let old_id = h.view()[1].id;

    assert!(h.add(Payload::Text("a".into()), app(), 3));
    let v = h.view();
    assert_eq!(v.len(), 2, "the copy came back as a second card");
    assert_eq!(v[0].text, "a");
    assert_eq!(v[0].created_at, 3);
    assert_eq!(v[0].id, old_id, "the clip was rebuilt instead of moved — its image file would be orphaned");
}

#[test]
fn the_same_image_copied_again_is_the_same_card() {
    let mut h = History::new();
    let png = vec![0x89, 0x50, 1, 2, 3];
    h.add(Payload::Image { png: png.clone(), width: 2, height: 2 }, app(), 1);
    h.add(Payload::Text("between".into()), app(), 2);
    h.add(Payload::Image { png, width: 2, height: 2 }, app(), 3);

    let v = h.view();
    assert_eq!(v.len(), 2);
    assert_eq!(v[0].kind, "image");
}

#[test]
fn a_returning_clip_says_where_it_was_copied_from_this_time() {
    let mut h = History::new();
    h.add(Payload::Text("path".into()), app(), 1);
    let browser = SourceApp { name: "Safari".into(), bundle: "com.apple.Safari".into(), icon: String::new() };
    h.add(Payload::Text("path".into()), browser, 2);
    assert_eq!(h.view()[0].app_name, "Safari");
}

#[test]
fn an_unknown_app_does_not_erase_the_one_we_knew() {
    let mut h = History::new();
    h.add(Payload::Text("path".into()), app(), 1);
    h.add(Payload::Text("path".into()), SourceApp::default(), 2);
    assert_eq!(h.view()[0].app_name, "Ghostty");
}

#[test]
fn duplicates_written_by_an_older_version_are_collapsed_on_load() {
    let mut h = History::new();
    h.restore(vec![
        ClipItem::new(3, Payload::Text("dup".into()), app(), 30),
        ClipItem::new(2, Payload::Text("other".into()), app(), 20),
        ClipItem::new(1, Payload::Text("dup".into()), app(), 10),
    ]);
    let v = h.view();
    assert_eq!(v.len(), 2, "the old file's duplicate survived the load");
    assert_eq!(v[0].id, 3, "the copy we kept is not the most recent one");
    assert_eq!(v[1].text, "other");
}

#[test]
fn history_is_capped() {
    let mut h = History::new();
    for i in 0..(MAX_ITEMS + 10) {
        h.add(Payload::Text(format!("clip {}", i)), app(), i as u64);
    }
    assert_eq!(h.view().len(), MAX_ITEMS);
}

#[test]
fn text_preview_is_trimmed_but_char_count_is_full() {
    let mut h = History::new();
    let long = "a".repeat(PREVIEW_CHARS + 50);
    h.add(Payload::Text(long), app(), 1);
    let v = h.view();
    assert_eq!(v[0].text.chars().count(), PREVIEW_CHARS);
    assert_eq!(v[0].chars, PREVIEW_CHARS + 50);
}

#[test]
fn picking_by_id_finds_the_clip() {
    let mut h = History::new();
    h.add(Payload::Text("one".into()), app(), 1);
    h.add(Payload::Text("two".into()), app(), 2);
    let id = h.view()[1].id;
    match &h.get(id).unwrap().payload {
        Payload::Text(s) => assert_eq!(s, "one"),
        _ => panic!("expected text"),
    }
}

#[test]
fn a_recopy_at_a_new_moment_reports_a_change() {
    let mut h = History::new();
    h.add(Payload::Text("dup".into()), app(), 1);
    assert!(h.add(Payload::Text("dup".into()), app(), 2));
    assert_eq!(h.view()[0].created_at, 2);
}

#[test]
fn a_recopy_at_the_same_moment_from_another_app_reports_the_new_app() {
    let mut h = History::new();
    h.add(Payload::Text("dup".into()), app(), 1);
    let browser = SourceApp { name: "Safari".into(), bundle: "com.apple.Safari".into(), icon: String::new() };
    assert!(h.add(Payload::Text("dup".into()), browser, 1), "the card's app changed");
    assert_eq!(h.view()[0].app_name, "Safari");
}

#[test]
fn a_recopy_at_the_same_moment_from_an_unknown_app_reports_no_change() {
    let mut h = History::new();
    h.add(Payload::Text("dup".into()), app(), 1);
    assert!(!h.add(Payload::Text("dup".into()), SourceApp::default(), 1));
    assert_eq!(h.view()[0].app_name, "Ghostty");
}

#[test]
fn a_full_ring_drops_its_oldest_clip() {
    let mut h = History::new();
    for i in 0..MAX_ITEMS {
        h.add(Payload::Text(format!("clip {}", i)), app(), i as u64);
    }
    assert!(h.add(Payload::Text("newest".into()), app(), 100));
    let v = h.view();
    assert_eq!(v.len(), MAX_ITEMS);
    assert_eq!(v[0].text, "newest");
    assert_eq!(v[0].id, MAX_ITEMS as u64 + 1);
    assert_eq!(v[MAX_ITEMS - 1].text, "clip 1");
}

#[test]
fn restoring_a_history_keeps_it() {
    let mut h = History::new();
    h.add(Payload::Text("a".into()), app(), 1);
    h.add(Payload::Image { png: vec![1, 2], width: 1, height: 1 }, app(), 2);
    h.add(Payload::Text("b".into()), app(), 3);
    let before: Vec<(u64, u64)> = h.view().iter().map(|c| (c.id, c.created_at)).collect();
    let mut again = History::new();
    assert_eq!(again.restore(h.items().to_vec()), 0);
    let after: Vec<(u64, u64)> = again.view().iter().map(|c| (c.id, c.created_at)).collect();
    assert_eq!(before, after);
    assert_eq!(again.upcoming_id(), 4);
}

#[test]
fn restore_continues_after_the_highest_id_even_when_it_collapses() {
    let mut h = History::new();
    let collapsed = h.restore(vec![
        ClipItem::new(5, Payload::Text("x".into()), app(), 3),
        ClipItem::new(9, Payload::Text("x".into()), app(), 2),
    ]);
    assert_eq!(collapsed, 1);
    assert_eq!(h.upcoming_id(), 10);
    assert_eq!(h.view()[0].id, 5);
}

#[test]
fn expiry_keeps_only_young_clips() {
    let mut h = History::new();
    h.add(Payload::Text("old".into()), app(), 10);
    h.add(Payload::Text("edge".into()), app(), 40);
    h.add(Payload::Text("new".into()), app(), 45);
    assert_eq!(h.prune_expired(50, Some(10)), 2);
    let left: Vec<String> = h.view().into_iter().map(|c| c.text).collect();
    assert_eq!(left, ["new"]);
}

#[test]
fn holds_tells_whether_the_content_is_there() {
    let mut h = History::new();
    h.add(Payload::Text("a".into()), app(), 1);
    assert!(h.holds(&Payload::Text("a".into())));
    assert!(!h.holds(&Payload::Text("b".into())));
    assert!(!h.holds(&Payload::Image { png: b"a".to_vec(), width: 1, height: 1 }));
    assert_eq!(h.upcoming_id(), 2);
}

#[test]
fn a_text_clip_card_is_its_text() {
    let mut h = History::new();
    h.add(Payload::Text("héllo".into()), app(), 7);
    let v = h.view();
    assert_eq!(v[0].kind, "text");
    assert_eq!(v[0].text, "héllo");
    assert_eq!(v[0].chars, 5);
    assert_eq!(v[0].preview, "");
    assert_eq!((v[0].width, v[0].height), (0, 0));
    assert_eq!(v[0].app_bundle, "com.mitchellh.ghostty");
    assert_eq!(h.get(99).map(|c| c.id), None);
}
