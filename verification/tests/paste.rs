use copypaster::paste::{gate, Paste, PasteAction, PasteEvent, FOCUS_SETTLE_MS, KEY_V, NEEDS_ACCESSIBILITY};

/// Resolving "v" through the active layout returns keycode 0 on a Cyrillic
/// layout, and keycode 0 is the A key. The V key is taken by position.
#[test]
fn the_paste_key_is_the_physical_v_not_a_layout_lookup() {
    assert_eq!(KEY_V, 0x09, "kVK_ANSI_V");
    assert_ne!(KEY_V, 0x00, "keycode 0 is the A key — that is the shipped bug");
}

#[test]
fn without_the_accessibility_grant_the_paste_is_refused_not_reported_as_sent() {
    assert!(gate(false).is_err(), "no grant must not read as a delivered paste");
    assert!(gate(true).is_ok());
}

#[test]
fn the_refusal_says_why() {
    assert_eq!(gate(false), Err(NEEDS_ACCESSIBILITY.to_string()));
}

#[test]
fn a_paste_raises_the_flag_then_writes() {
    let mut skip = false;
    let p = Paste { target_pid: Some(42) };
    assert!(matches!(p.step(PasteEvent::Start, &mut skip), PasteAction::WriteClipboard));
    assert!(skip);
    assert!(matches!(p.step(PasteEvent::Written(Ok(())), &mut skip), PasteAction::Activate(42)));
    assert!(skip, "the flag stays up for the watcher to swallow our write");
    assert!(matches!(p.step(PasteEvent::Activated, &mut skip), PasteAction::Settle(ms) if ms == FOCUS_SETTLE_MS));
    assert!(matches!(p.step(PasteEvent::Settled, &mut skip), PasteAction::SendKeys));
    assert!(matches!(p.step(PasteEvent::Sent(Ok(())), &mut skip), PasteAction::Finish(Ok(()))));
}

#[test]
fn a_failed_write_lowers_the_flag_and_stops() {
    let mut skip = true;
    let p = Paste { target_pid: None };
    match p.step(PasteEvent::Written(Err("no clipboard".to_string())), &mut skip) {
        PasteAction::Finish(Err(e)) => assert_eq!(e, "no clipboard"),
        _ => panic!("expected the paste to stop with the error"),
    }
    assert!(!skip);
}

#[test]
fn without_a_target_the_paste_only_waits() {
    let mut skip = true;
    let p = Paste { target_pid: None };
    assert!(matches!(p.step(PasteEvent::Written(Ok(())), &mut skip), PasteAction::Settle(_)));
    assert!(skip);
}
