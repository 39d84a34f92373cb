use assist::attack_damage_feet_hook::{
    CODECAVE_SIZE, RETURN_AFTER_AC80_RESET, RETURN_AFTER_POSITION, build_shellcode,
};
use assist::hook::build_hook_patch;

#[test]
fn build_jmp_patch_short_jump_within_module() {
    let patch = build_hook_patch::<6>(0x0042_B9FB, 0x0042_BA01);
    assert_eq!(patch, [0xE9, 0x01, 0x00, 0x00, 0x00, 0x90]);
}

#[test]
fn shellcode_segments_are_within_codecave_budget() {
    let layout = build_shellcode(0x0050_0000);
    assert!(layout.bytes.len() <= CODECAVE_SIZE);
    assert!(layout.bytes.len() < 256);
}

#[test]
fn shellcode_segments_have_expected_offsets() {
    let layout = build_shellcode(0x0050_0000);
    assert_eq!(layout.remote_offset, 0);
    assert_eq!(layout.local_offset, 61);
    assert_eq!(layout.post_ac80_offset, 122);
    assert_eq!(layout.ac80_reset_offset, 153);
}

#[test]
fn remote_segment_returns_to_position_continuation() {
    let cave = 0x0050_0000_u32;
    let layout = build_shellcode(cave);
    let jmp_offset = layout.remote_offset + 0x38;
    assert_eq!(layout.bytes[jmp_offset], 0xE9);
    let rel_bytes: [u8; 4] = layout.bytes[jmp_offset + 1..jmp_offset + 5]
        .try_into()
        .unwrap();
    let rel = i32::from_le_bytes(rel_bytes);
    let here = cave + jmp_offset as u32;
    let computed = (here as i64 + 5 + rel as i64) as u32;
    assert_eq!(computed, RETURN_AFTER_POSITION);
}

#[test]
fn ac80_reset_segment_returns_to_post_reset_continuation() {
    let cave = 0x0050_0000_u32;
    let layout = build_shellcode(cave);
    let seg_start = layout.ac80_reset_offset;
    let jmp_offset = layout.bytes.len() - 5;
    assert_eq!(layout.bytes[jmp_offset], 0xE9);
    let rel_bytes: [u8; 4] = layout.bytes[jmp_offset + 1..jmp_offset + 5]
        .try_into()
        .unwrap();
    let rel = i32::from_le_bytes(rel_bytes);
    let here = cave + jmp_offset as u32;
    let computed = (here as i64 + 5 + rel as i64) as u32;
    assert_eq!(computed, RETURN_AFTER_AC80_RESET);
    let _ = seg_start;
}

#[test]
fn post_ac80_segment_skip_jne_disp_targets_movzx() {
    let cave = 0x0050_0000_u32;
    let layout = build_shellcode(cave);
    let seg = layout.post_ac80_offset;
    let jne_disp_offset = seg + 3 + 9 + 1;
    assert_eq!(layout.bytes[seg + 3 + 9], 0x75);
    assert_eq!(layout.bytes[jne_disp_offset], 0x07);
}
