use assist::notification::image_draw_hook::{
    CAVE_SIZE, MAX_DRAW_CMDS, OFF_SHELLCODE, ORIGINAL_PROLOGUE, RESUME_ADDR, build_shellcode,
};

#[test]
fn shellcode_emits_under_cave_size() {
    let sc = build_shellcode(0x10000000);
    let cave_room = CAVE_SIZE - OFF_SHELLCODE as usize;
    assert!(
        sc.len() <= cave_room,
        "shellcode {} > 可用空間 {}",
        sc.len(),
        cave_room
    );
}

#[test]
fn image_draw_hook_shellcode_starts_with_pushad_pushfd() {
    let sc = build_shellcode(0x10000000);
    assert_eq!(sc[0], 0x60);
    assert_eq!(sc[1], 0x9C);
}

#[test]
fn shellcode_ends_with_trampoline_jmp() {
    let sc = build_shellcode(0x10000000);
    let n = sc.len();
    assert_eq!(sc[n - 5], 0xE9);
    let disp = i32::from_le_bytes([sc[n - 4], sc[n - 3], sc[n - 2], sc[n - 1]]);
    let cave = 0x10000000u32;
    let from_ip = cave + OFF_SHELLCODE + n as u32;
    let target = (from_ip as i64 + disp as i64) as u32;
    assert_eq!(target, RESUME_ADDR);
}

#[test]
fn trampoline_bytes_match_original_prologue() {
    let sc = build_shellcode(0x10000000);
    let n = sc.len();
    let tramp_start = n - 12;
    let expected: [u8; 7] = ORIGINAL_PROLOGUE;
    assert_eq!(&sc[tramp_start..tramp_start + 7], &expected);
}

#[test]
fn max_draw_cmds_reasonable() {
    assert!(MAX_DRAW_CMDS >= 25);
}
