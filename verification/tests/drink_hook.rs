use assist::drink_hook::{
    FMT_CCCD_ADDR, SELF_CHAR_ID_ADDR, SkillTargetMode, TARGET_ID_ADDR,
    build_chat_packet_shellcode, build_delete_packet_shellcode, build_shellcode,
    build_skill_shellcode, build_transform_packet_shellcode, build_whetstone_packet_shellcode,
};
use assist::address::SEND_PACKET_DATA;

#[test]
fn shellcode_layout() {
    let sc = build_shellcode(0x004B3EE0, 0x12345678);
    assert_eq!(sc.len(), 18, "shellcode 必須剛好 18 bytes");
    assert_eq!(sc[0], 0x60);
    assert_eq!(sc[1], 0x68);
    assert_eq!(&sc[2..6], &0x12345678u32.to_le_bytes());
    assert_eq!(sc[6], 0xB8);
    assert_eq!(&sc[7..11], &0x004B3EE0u32.to_le_bytes());
    assert_eq!(&sc[11..13], &[0xFF, 0xD0]);
    assert_eq!(&sc[13..16], &[0x83, 0xC4, 0x04]);
    assert_eq!(sc[16], 0x61);
    assert_eq!(sc[17], 0xC3);
}

#[test]
fn skill_shellcode_self_cast_layout() {
    let sc = build_skill_shellcode(42, SkillTargetMode::SelfCast);
    assert_eq!(sc.len(), 45);
    assert_eq!(sc[7], 0xA1);
    assert_eq!(&sc[8..12], &SELF_CHAR_ID_ADDR.to_le_bytes());
    assert_eq!(sc[12], 0xA3);
    assert_eq!(&sc[13..17], &TARGET_ID_ADDR.to_le_bytes());
}

#[test]
fn skill_shellcode_no_spec_layout() {
    let sc = build_skill_shellcode(42, SkillTargetMode::NoSpec);
    assert_eq!(sc.len(), 35);
    assert_eq!(&sc[7..9], &[0x6A, 0x01]);
}

#[test]
fn skill_shellcode_explicit_layout() {
    let sc = build_skill_shellcode(42, SkillTargetMode::Explicit(0xCAFEBABE));
    assert_eq!(sc.len(), 45);
    assert_eq!(&sc[7..9], &[0xC7, 0x05]);
    assert_eq!(&sc[9..13], &TARGET_ID_ADDR.to_le_bytes());
    assert_eq!(&sc[13..17], &0xCAFEBABE_u32.to_le_bytes());
}

#[test]
fn skill_shellcode_common_tail() {
    for mode in [
        SkillTargetMode::SelfCast,
        SkillTargetMode::NoSpec,
        SkillTargetMode::Explicit(0x123),
    ] {
        let sc = build_skill_shellcode(42, mode);
        let n = sc.len();
        assert_eq!(sc[n - 1], 0xC3, "ret");
        assert_eq!(sc[n - 2], 0x61, "popad");
        assert_eq!(
            &sc[n - 6..n - 2],
            &TARGET_ID_ADDR.to_le_bytes(),
            "[TARGET] addr"
        );
        assert_eq!(sc[n - 7], 0xA3, "mov [TARGET], eax");
        assert_eq!(sc[n - 8], 0x58, "pop eax");
    }
}

#[test]
fn whetstone_packet_shellcode_layout() {
    let whetstone_param = 0xDEADBEEF_u32;
    let weapon_param = 0xCAFEBABE_u32;
    let sc = build_whetstone_packet_shellcode(whetstone_param, weapon_param);
    assert_eq!(sc.len(), 42, "whetstone shellcode 必須 42 bytes");

    assert_eq!(sc[0], 0x60);
    assert_eq!(sc[1], 0x68);
    assert_eq!(&sc[2..6], &weapon_param.to_le_bytes());
    assert_eq!(sc[6], 0x68);
    assert_eq!(&sc[7..11], &whetstone_param.to_le_bytes());
    assert_eq!(sc[11], 0x68);
    assert_eq!(&sc[12..16], &0x000000A4u32.to_le_bytes());
    assert_eq!(&sc[16..21], &[0xE8, 0x00, 0x00, 0x00, 0x00]);
    assert_eq!(sc[21], 0x5E);
    assert_eq!(&sc[22..24], &[0x83, 0xC6]);
    assert_eq!(sc[24], 17);
    assert_eq!(sc[25], 0x56);
    assert_eq!(sc[26], 0xB8);
    assert_eq!(&sc[27..31], &SEND_PACKET_DATA.to_le_bytes());
    assert_eq!(&sc[31..33], &[0xFF, 0xD0]);
    assert_eq!(&sc[33..36], &[0x83, 0xC4, 0x10]);
    assert_eq!(sc[36], 0x61);
    assert_eq!(sc[37], 0xC3);
    assert_eq!(&sc[38..42], b"cdd\0");
}

#[test]
fn transform_packet_shellcode_layout() {
    let scroll_param = 0x1DCD6A79_u32;
    let option = "death 80";
    let sc = build_transform_packet_shellcode(scroll_param, option);

    assert_eq!(sc.len(), 43 + 4 + option.len() + 1);

    assert_eq!(sc[0], 0x60);
    assert_eq!(&sc[1..6], &[0xE8, 0x00, 0x00, 0x00, 0x00]);
    assert_eq!(sc[6], 0x5E);
    assert_eq!(&sc[7..9], &[0x8D, 0x86]);
    let option_disp = i32::from_le_bytes([sc[9], sc[10], sc[11], sc[12]]);
    assert_eq!(option_disp, 47 - 6);
    assert_eq!(sc[13], 0x50);
    assert_eq!(sc[14], 0x68);
    assert_eq!(&sc[15..19], &scroll_param.to_le_bytes());
    assert_eq!(sc[19], 0x68);
    assert_eq!(&sc[20..24], &0x000000A4u32.to_le_bytes());
    assert_eq!(&sc[24..26], &[0x8D, 0x86]);
    let fmt_disp = i32::from_le_bytes([sc[26], sc[27], sc[28], sc[29]]);
    assert_eq!(fmt_disp, 43 - 6);
    assert_eq!(sc[30], 0x50);
    assert_eq!(sc[31], 0xB8);
    assert_eq!(&sc[32..36], &SEND_PACKET_DATA.to_le_bytes());
    assert_eq!(&sc[36..38], &[0xFF, 0xD0]);
    assert_eq!(&sc[38..41], &[0x83, 0xC4, 0x10]);
    assert_eq!(sc[41], 0x61);
    assert_eq!(sc[42], 0xC3);
    assert_eq!(&sc[43..47], b"cds\0");
    assert_eq!(&sc[47..47 + option.len()], option.as_bytes());
    assert_eq!(sc[47 + option.len()], 0);
}

#[test]
fn delete_packet_shellcode_layout() {
    let sc = build_delete_packet_shellcode(0xDEADBEEF, 365);
    assert_eq!(sc.len(), 42, "shellcode size mismatch");
    assert_eq!(&sc[sc.len() - 4..], b"cdd\0");
    assert_eq!(sc[1], 0x68);
    assert_eq!(&sc[2..6], &365u32.to_le_bytes());
    assert_eq!(sc[6], 0x68);
    assert_eq!(&sc[7..11], &0xDEADBEEFu32.to_le_bytes());
}

#[test]
fn delete_packet_shellcode_zero_count() {
    let sc = build_delete_packet_shellcode(0x12345678, 0);
    assert_eq!(sc.len(), 42);
    assert_eq!(&sc[2..6], &0u32.to_le_bytes());
    assert_eq!(&sc[7..11], &0x12345678u32.to_le_bytes());
}

#[test]
fn skill_shellcode_force_self_packet_layout() {
    let sc = build_skill_shellcode(42, SkillTargetMode::ForceSelfPacket);
    assert_eq!(sc.len(), 36, "ForceSelfPacket shellcode 必須 36 bytes");

    assert_eq!(sc[0], 0x60);
    assert_eq!(&sc[1..3], &[0xFF, 0x35]);
    assert_eq!(&sc[3..7], &SELF_CHAR_ID_ADDR.to_le_bytes());
    assert_eq!(sc[7], 0x68);
    assert_eq!(&sc[8..12], &2u32.to_le_bytes());
    assert_eq!(sc[12], 0x68);
    assert_eq!(&sc[13..17], &5u32.to_le_bytes());
    assert_eq!(&sc[17..19], &[0x6A, 0x06]);
    assert_eq!(sc[19], 0x68);
    assert_eq!(&sc[20..24], &FMT_CCCD_ADDR.to_le_bytes());
    assert_eq!(sc[24], 0xB8);
    assert_eq!(&sc[25..29], &SEND_PACKET_DATA.to_le_bytes());
    assert_eq!(&sc[29..31], &[0xFF, 0xD0]);
    assert_eq!(&sc[31..34], &[0x83, 0xC4, 0x14]);
    assert_eq!(sc[34], 0x61);
    assert_eq!(sc[35], 0xC3);
}

#[test]
fn skill_shellcode_force_target_packet_layout() {
    let target_id = 0xCAFEBABE_u32;
    let sc = build_skill_shellcode(42, SkillTargetMode::ForceTargetPacket(target_id));
    assert_eq!(sc.len(), 35, "ForceTargetPacket shellcode 必須 35 bytes");

    assert_eq!(sc[0], 0x60);
    assert_eq!(sc[1], 0x68);
    assert_eq!(&sc[2..6], &target_id.to_le_bytes());
    assert_eq!(sc[6], 0x68);
    assert_eq!(&sc[7..11], &2u32.to_le_bytes());
    assert_eq!(sc[11], 0x68);
    assert_eq!(&sc[12..16], &5u32.to_le_bytes());
    assert_eq!(&sc[16..18], &[0x6A, 0x06]);
    assert_eq!(sc[18], 0x68);
    assert_eq!(&sc[19..23], &FMT_CCCD_ADDR.to_le_bytes());
    assert_eq!(sc[23], 0xB8);
    assert_eq!(&sc[24..28], &SEND_PACKET_DATA.to_le_bytes());
    assert_eq!(&sc[28..30], &[0xFF, 0xD0]);
    assert_eq!(&sc[30..33], &[0x83, 0xC4, 0x14]);
    assert_eq!(sc[33], 0x61);
    assert_eq!(sc[34], 0xC3);
}

#[test]
fn chat_packet_shellcode_layout() {
    let sc = build_chat_packet_shellcode(0x02, "test msg");
    let fmt_pos = sc
        .windows(4)
        .rposition(|w| w == b"ccs\0")
        .expect("fmt 'ccs\\0' 缺");
    let msg_start = fmt_pos + 4;
    let msg_end = msg_start + "test msg".len();
    assert_eq!(&sc[msg_start..msg_end], b"test msg");
    assert_eq!(sc[msg_end], 0, "訊息 null terminator 缺");
    assert_eq!(sc[0], 0x60);
    assert_eq!(sc[fmt_pos - 1], 0xC3);
}

#[test]
fn chat_packet_shellcode_big5_encodes_chinese() {
    let sc = build_chat_packet_shellcode(0x02, "測試");
    let big5 = [0xB4u8, 0xFA, 0xB8, 0xD5];
    assert!(
        sc.windows(big5.len()).any(|w| w == big5),
        "shellcode 內找不到 '測試' Big5 bytes,檢查 encoding_rs 用法"
    );
}
