use copypaster::clipboard::{
    image_clip, marks_concealed, text_clip, TickStep, Watcher, AUTO_GENERATED_TYPE, CONCEALED_TYPE,
};
use copypaster::history::{History, Payload, SourceApp};

#[test]
fn whitespace_alone_is_not_a_clip() {
    assert!(text_clip(" \t\n\r".to_string()).is_none());
    assert!(text_clip(String::new()).is_none());
    assert!(text_clip("\u{3000}\u{a0}".to_string()).is_none());
}

#[test]
fn text_with_something_in_it_is_a_clip() {
    match text_clip("  hi  ".to_string()) {
        Some(Payload::Text(t)) => assert_eq!(t, "  hi  "),
        _ => panic!("expected the text, untrimmed"),
    }
}

#[test]
fn a_password_managers_marker_is_recognised() {
    let ordinary = vec!["public.utf8-plain-text".to_string()];
    assert!(!marks_concealed(&ordinary));
    let concealed = vec!["public.utf8-plain-text".to_string(), CONCEALED_TYPE.to_string()];
    assert!(marks_concealed(&concealed));
    assert!(marks_concealed(&[AUTO_GENERATED_TYPE.to_string()]));
}

#[test]
fn our_own_write_is_swallowed_once() {
    let mut w = Watcher::new(10);
    let mut skip = false;
    assert!(w.tick(10, &mut skip) == TickStep::Unchanged);
    skip = true;
    assert!(w.tick(10, &mut skip) == TickStep::Unchanged);
    assert!(skip, "an unchanged counter must leave the flag for the write to come");
    assert!(w.tick(11, &mut skip) == TickStep::OwnWrite);
    assert!(!skip);
    assert!(w.tick(12, &mut skip) == TickStep::CheckConcealed);
    assert!(w.tick(12, &mut skip) == TickStep::Unchanged);
}

#[test]
fn pixels_that_do_not_fill_the_size_are_no_clip() {
    assert!(image_clip(2, 2, vec![0; 15]).is_none());
}

#[test]
fn pixels_become_a_png_clip() {
    match image_clip(2, 1, vec![255, 0, 0, 255, 0, 255, 0, 255]) {
        Some(Payload::Image { png, width, height }) => {
            assert_eq!((width, height), (2, 1));
            assert_eq!(&png[..4], &[0x89, b'P', b'N', b'G']);
        }
        _ => panic!("expected an image clip"),
    }
}

#[test]
fn a_concealed_clip_is_never_read() {
    assert!(Watcher::concealed_checked(true) == TickStep::Concealed);
    assert!(Watcher::concealed_checked(false) == TickStep::ReadClip);
}

#[test]
fn a_clip_read_is_filed_and_nothing_read_is_nothing_filed() {
    let mut h = History::new();
    assert!(!Watcher::file_clip(&mut h, None, 5));
    assert!(h.view().is_empty());
    assert!(Watcher::file_clip(&mut h, Some((Payload::Text("hi".into()), SourceApp::default())), 5));
    let v = h.view();
    assert_eq!(v.len(), 1);
    assert_eq!(v[0].text, "hi");
    assert_eq!(v[0].created_at, 5);
    assert!(!Watcher::file_clip(&mut h, Some((Payload::Text("hi".into()), SourceApp::default())), 5));
}
