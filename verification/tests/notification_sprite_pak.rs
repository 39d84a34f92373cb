use assist::notification::sprite_pak::{ENTRY_SIZE, FILENAME_LEN, decode_png_stream};

#[test]
fn entry_layout_sanity() {
    assert_eq!(ENTRY_SIZE, 4 + 4 + FILENAME_LEN);
}

#[test]
fn decode_8x8_png() {
    let mut buf = Vec::new();
    {
        let mut enc = png::Encoder::new(&mut buf, 8, 8);
        enc.set_color(png::ColorType::Rgba);
        enc.set_depth(png::BitDepth::Eight);
        let mut w = enc.write_header().unwrap();
        let pixels: Vec<u8> = (0..8 * 8 * 4).map(|i| (i & 0xFF) as u8).collect();
        w.write_image_data(&pixels).unwrap();
    }
    let p = decode_png_stream(buf.as_slice(), true).unwrap();
    assert_eq!(p.width, 8);
    assert_eq!(p.height, 8);
    assert_eq!(p.rgba.len(), 8 * 8 * 4);
}
