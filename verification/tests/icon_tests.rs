use base64::Engine;
use holdem_core::icon::{bgra_to_rgba, crop_transparent_bounds, thumbnail_base64};

/// A w*h RGBA buffer, fully transparent.
fn blank(w: usize, h: usize) -> Vec<u8> {
    vec![0u8; w * h * 4]
}

fn set_pixel(buf: &mut Vec<u8>, w: usize, x: usize, y: usize, rgba: [u8; 4]) {
    let i = (y * w + x) * 4;
    buf[i..i + 4].copy_from_slice(&rgba);
}

#[test]
fn crop_single_visible_pixel() {
    let mut buf = blank(2, 2);
    set_pixel(&mut buf, 2, 1, 0, [9, 8, 7, 200]);
    let (out, w, h) = crop_transparent_bounds(&buf, 2, 2);
    assert_eq!((w, h), (1, 1));
    assert_eq!(out, vec![9, 8, 7, 200]);
}

#[test]
fn crop_fully_transparent_returns_whole() {
    let buf = blank(3, 2);
    let (out, w, h) = crop_transparent_bounds(&buf, 3, 2);
    assert_eq!((w, h), (3, 2));
    assert_eq!(out, buf);
}

#[test]
fn crop_alpha_at_cutoff_counts_as_transparent() {
    // Alpha 10 is still transparent; 11 is visible.
    let mut buf = blank(2, 1);
    set_pixel(&mut buf, 2, 0, 0, [1, 1, 1, 10]);
    let (_, w, h) = crop_transparent_bounds(&buf, 2, 1);
    assert_eq!((w, h), (2, 1));
    set_pixel(&mut buf, 2, 0, 0, [1, 1, 1, 11]);
    let (out, w, h) = crop_transparent_bounds(&buf, 2, 1);
    assert_eq!((w, h), (1, 1));
    assert_eq!(out, vec![1, 1, 1, 11]);
}

#[test]
fn crop_bounding_rectangle_spans_all_visible() {
    let mut buf = blank(4, 3);
    set_pixel(&mut buf, 4, 1, 1, [1, 2, 3, 255]);
    set_pixel(&mut buf, 4, 3, 2, [4, 5, 6, 255]);
    let (out, w, h) = crop_transparent_bounds(&buf, 4, 3);
    assert_eq!((w, h), (3, 2));
    // Row 1, columns 1..=3, then row 2, columns 1..=3.
    assert_eq!(&out[0..4], &[1, 2, 3, 255]);
    assert_eq!(&out[20..24], &[4, 5, 6, 255]);
    assert_eq!(out.len(), 3 * 2 * 4);
}

#[test]
fn channel_swap_turns_bgra_into_rgba() {
    let mut buf = vec![1, 2, 3, 4, 5, 6, 7, 8];
    bgra_to_rgba(&mut buf);
    assert_eq!(buf, vec![3, 2, 1, 4, 7, 6, 5, 8]);
}

#[test]
fn thumbnail_round_trip() {
    // One visible pixel in a 2x2 BGRA capture.  The result must decode,
    // through real base64 and PNG decoders, back to the cropped RGBA pixel
    // with its channels reordered - which also shows that the encoders were
    // really applied rather than the bytes handed through.
    let mut buf = blank(2, 2);
    set_pixel(&mut buf, 2, 0, 1, [10, 20, 30, 255]); // B=10, G=20, R=30
    let encoded = thumbnail_base64(buf, 2, 2).expect("thumbnail should encode");
    let png = base64::engine::general_purpose::STANDARD
        .decode(encoded.as_bytes())
        .expect("valid base64");
    let image = image::load_from_memory(&png).expect("valid png");
    let rgba = image.to_rgba8();
    assert_eq!(rgba.width(), 1);
    assert_eq!(rgba.height(), 1);
    assert_eq!(rgba.get_pixel(0, 0).0, [30, 20, 10, 255]);
}

#[test]
fn base64_known_value() {
    let bytes: Vec<u8> = b"hello".to_vec();
    let s = holdem_core::icon::base64_of_bytes(&bytes).expect("fits");
    assert_eq!(s, "aGVsbG8=");
    let empty = holdem_core::icon::base64_of_bytes(&Vec::new()).expect("fits");
    assert_eq!(empty, "");
}

#[test]
fn thumbnail_of_empty_capture_fails_cleanly() {
    // A zero-size capture survives cropping but the PNG encoder refuses
    // images without pixels.
    assert_eq!(thumbnail_base64(Vec::new(), 0, 0), None);
}
