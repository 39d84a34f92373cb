use assist::notification::tbt::{IconStore, decode_tbt, get_icon};

#[test]
fn decode_truncated_header() {
    assert!(decode_tbt(&[]).is_none());
    assert!(decode_tbt(&[0, 0, 0]).is_none());
}

#[test]
fn decode_zero_dim() {
    assert!(decode_tbt(&[0, 0, 0, 5]).is_none());
    assert!(decode_tbt(&[0, 0, 10, 0]).is_none());
}

#[test]
fn decode_single_red_pixel_at_origin() {
    let buf = vec![0u8, 0, 1, 1, 1, 0, 1, 0x00, 0x7C];
    let (rgba, w, h) = decode_tbt(&buf).expect("應成功");
    assert_eq!((w, h), (1, 1));
    assert_eq!(rgba.len(), 4);
    assert_eq!(&rgba[0..4], &[255, 0, 0, 255]);
}

#[test]
fn decode_with_offset_ignored() {
    let buf = vec![5u8, 3, 1, 1, 1, 0, 1, 0x00, 0x7C];
    let (rgba, w, h) = decode_tbt(&buf).expect("應成功");
    assert_eq!((w, h), (1, 1));
    assert_eq!(&rgba[0..4], &[255, 0, 0, 255]);
}

#[test]
fn decode_zero_pixel_is_transparent() {
    let buf = vec![0u8, 0, 1, 1, 1, 0, 1, 0x00, 0x00];
    let (rgba, w, h) = decode_tbt(&buf).expect("應成功");
    assert_eq!((w, h), (1, 1));
    assert_eq!(&rgba[0..4], &[0, 0, 0, 0]);
}

#[test]
fn decode_skip_is_bytes_divided_by_two() {
    let buf = vec![
        0u8, 0, 4, 1, 1,
        4, 2,
        0xFF, 0x7F,
        0x00, 0x7C,
    ];
    let (rgba, _, _) = decode_tbt(&buf).expect("應成功");
    assert_eq!(&rgba[8..12], &[255, 255, 255, 255]);
    assert_eq!(&rgba[12..16], &[255, 0, 0, 255]);
    assert_eq!(&rgba[0..4], &[0, 0, 0, 0]);
    assert_eq!(&rgba[4..8], &[0, 0, 0, 0]);
}

#[test]
fn decode_span_extending_past_header_width() {
    let buf = vec![
        0u8, 0, 2, 1, 1,
        0, 4,
        0xFF, 0x7F,
        0x00, 0x7C,
        0xE0, 0x03,
        0x1F, 0x00,
    ];
    let (rgba, _, _) = decode_tbt(&buf).expect("應成功");
    assert_eq!(&rgba[0..4], &[255, 255, 255, 255]);
    assert_eq!(&rgba[4..8], &[255, 0, 0, 255]);
    assert_eq!(&rgba[8..12], &[0, 255, 0, 255]);
    assert_eq!(&rgba[12..16], &[0, 0, 255, 255]);
}

#[test]
fn cache_get_empty_returns_none() {
    assert!(get_icon(&IconStore::new(), 0xFFFE).is_none());
}

#[test]
fn decode_truncated_body_returns_partial() {
    let buf = vec![0u8, 0, 1, 2, 1, 0, 1, 0x00, 0x7C];
    let (rgba, w, h) = decode_tbt(&buf).expect("EOF mid-image 應 fallback,非 None");
    assert_eq!((w, h), (1, 2));
    assert_eq!(&rgba[0..4], &[255, 0, 0, 255]);
    assert_eq!(&rgba[4..8], &[0, 0, 0, 0]);
}
