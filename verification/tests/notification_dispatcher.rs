use assist::notification::dispatcher::{MAX_NAME_LEN, parse_packet_box};
use assist::notification::types::{FloatKind, Notification};

#[test]
fn empty_payload_is_none() {
    assert_eq!(parse_packet_box(&[]), None);
}

#[test]
fn unknown_sub_id_is_none() {
    assert_eq!(parse_packet_box(&[100, 0x01, 0x02]), None);
}

#[test]
fn item_board_basic() {
    let bytes = [190u8, 0x34, 0x12, b'A', b'B', b'C', 0x00];
    let n = parse_packet_box(&bytes).expect("應解析成功");
    assert_eq!(
        n,
        Notification::ToastBottomLeft {
            gfxid: 0x1234,
            text: b"ABC".to_vec(),
        }
    );
}

#[test]
fn item_board_too_short_is_none() {
    assert_eq!(parse_packet_box(&[190u8, 0x01]), None);
}

#[test]
fn item_board_no_terminator_is_none() {
    let bytes = [190u8, 0x00, 0x00, b'A', b'B'];
    assert_eq!(parse_packet_box(&bytes), None);
}

#[test]
fn item_board_name_clamped_to_max() {
    let mut bytes = vec![190u8, 0x00, 0x00];
    bytes.extend(std::iter::repeat(b'X').take(100));
    bytes.push(0x00);
    let n = parse_packet_box(&bytes).expect("應解析成功");
    if let Notification::ToastBottomLeft { text, .. } = n {
        assert_eq!(text.len(), MAX_NAME_LEN);
        assert_eq!(text, vec![b'X'; MAX_NAME_LEN]);
    } else {
        panic!("預期 ToastBottomLeft");
    }
}

#[test]
fn show_drop_exp() {
    let bytes = [192u8, 0x00, 0x74, 0x18, 0x00, 0x00];
    assert_eq!(
        parse_packet_box(&bytes),
        Some(Notification::FloatingScreen {
            kind: FloatKind::Exp,
            amount: 6260,
        })
    );
}

#[test]
fn show_drop_gold() {
    let bytes = [192u8, 0x01, 0x4F, 0x00, 0x00, 0x00];
    assert_eq!(
        parse_packet_box(&bytes),
        Some(Notification::FloatingScreen {
            kind: FloatKind::Gold,
            amount: 79,
        })
    );
}

#[test]
fn show_drop_invalid_type_is_none() {
    let bytes = [192u8, 99, 0x00, 0x00, 0x00, 0x00];
    assert_eq!(parse_packet_box(&bytes), None);
}

#[test]
fn show_drop_too_short_is_none() {
    assert_eq!(parse_packet_box(&[192u8, 0x00, 0x01, 0x02]), None);
}
