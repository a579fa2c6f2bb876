use base64::Engine;
use copypaster::fingerprint::fingerprint;
use copypaster::history::{ClipItem, History, Payload, SourceApp};
use copypaster::imaging::{
    png_data_url, png_from_rgba, preview_data_url, rgba_from_png, thumbnail_fits_exec, PNG_DATA_URL_PREFIX,
};

fn pixels() -> Vec<u8> {
    vec![
        255, 0, 0, 255, 0, 255, 0, 255, //
        0, 0, 255, 255, 255, 255, 255, 255,
    ]
}

#[test]
fn a_png_decodes_back_to_its_pixels() {
    let png = png_from_rgba(2, 2, pixels()).unwrap();
    assert_eq!(rgba_from_png(&png), Ok((2, 2, pixels())));
}

#[test]
fn garbage_does_not_decode() {
    assert!(rgba_from_png(&[1, 2, 3]).is_err());
    assert_eq!(preview_data_url(&[1, 2, 3]), "");
}

#[test]
fn a_preview_is_a_png_data_url_of_the_image() {
    let png = png_from_rgba(2, 2, pixels()).unwrap();
    let url = preview_data_url(&png);
    assert!(url.starts_with(PNG_DATA_URL_PREFIX));
    let body = &url[PNG_DATA_URL_PREFIX.len()..];
    let bytes = base64::engine::general_purpose::STANDARD.decode(body).unwrap();
    // The thumbnail fits the image to the preview box, scaling a tiny one up.
    let (w, h, rgba) = rgba_from_png(&bytes).unwrap();
    assert_eq!((w, h), (320, 320));
    assert_eq!(&rgba[..4], &[255, 0, 0, 255]);
}

#[test]
fn a_large_image_is_previewed_small() {
    let png = png_from_rgba(640, 160, vec![7; 640 * 160 * 4]).unwrap();
    let url = preview_data_url(&png);
    let bytes = base64::engine::general_purpose::STANDARD.decode(&url[PNG_DATA_URL_PREFIX.len()..]).unwrap();
    let (w, h, _) = rgba_from_png(&bytes).unwrap();
    assert_eq!((w, h), (320, 80));
}

#[test]
fn an_image_card_carries_its_preview_and_size() {
    let png = png_from_rgba(2, 2, pixels()).unwrap();
    let mut h = History::new();
    h.add(Payload::Image { png, width: 2, height: 2 }, SourceApp::default(), 1);
    let v = h.view();
    assert_eq!(v[0].kind, "image");
    assert_eq!(v[0].text, "");
    assert_eq!(v[0].chars, 0);
    assert!(v[0].preview.starts_with(PNG_DATA_URL_PREFIX));
}

#[test]
fn the_fingerprint_is_fnv1a() {
    // FNV-1a of the empty input is the offset basis; of "a" a known value.
    assert_eq!(fingerprint(b'a', &[]), 0xaf63dc4c8601ec8c);
    assert_eq!(fingerprint(0, &[]), 0xaf63bd4c8601b7df);
}

#[test]
fn a_text_and_an_image_with_the_same_bytes_are_two_cards() {
    let mut h = History::new();
    h.add(Payload::Text("abc".into()), SourceApp::default(), 1);
    h.add(Payload::Image { png: b"abc".to_vec(), width: 1, height: 1 }, SourceApp::default(), 2);
    assert_eq!(h.view().len(), 2);
    let _ = ClipItem::new(1, Payload::Text("x".into()), SourceApp::default(), 0);
}

#[test]
fn an_empty_image_is_refused_by_the_encoder() {
    assert_eq!(png_from_rgba(0, 0, Vec::new()), None);
    assert_eq!(png_from_rgba(0, 3, Vec::new()), None);
}

#[test]
fn too_few_pixels_are_no_png() {
    assert_eq!(png_from_rgba(2, 2, vec![0; 15]), None);
}

#[test]
fn a_data_url_is_the_prefix_and_the_base64_of_the_bytes() {
    assert_eq!(png_data_url(&[0x89, b'P', b'N', b'G']), "data:image/png;base64,iVBORw==");
    assert_eq!(png_data_url(&[]), "data:image/png;base64,");
}

#[test]
fn ordinary_images_fit_the_preview_thumbnail() {
    assert!(thumbnail_fits_exec(2, 2, 320));
    assert!(thumbnail_fits_exec(4000, 3000, 320));
    assert!(thumbnail_fits_exec(1 << 27, 1, 320));
    assert!(thumbnail_fits_exec(11585, 11585, 320));
}

#[test]
fn blocks_too_large_to_average_do_not_fit() {
    // Shrinking 4105 x 4105 pixels to one averages them all in one block.
    assert!(!thumbnail_fits_exec(4105, 4105, 1));
    assert!(thumbnail_fits_exec(4000, 4000, 1));
    // A very long strip: each block spans about 20 million pixels.
    assert!(!thumbnail_fits_exec(u32::MAX, 1, 320));
}
