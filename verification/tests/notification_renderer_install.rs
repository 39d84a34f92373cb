use assist::notification::renderer_install::{
    LIST_CAVE_SIZE, MAX_DRAW_CMDS, ORIGINAL_DRAW_FN, build_wrapper,
};

#[test]
fn wrapper_bytes_call_then_jmp() {
    let w = build_wrapper(0x10000000, 0x20000000);
    assert_eq!(w.len(), 10);
    assert_eq!(w[0], 0xE8);
    let call_disp = i32::from_le_bytes([w[1], w[2], w[3], w[4]]);
    assert_eq!(call_disp, 0x20000000_i32 - 0x10000005);
    assert_eq!(w[5], 0xE9);
    let jmp_disp = i32::from_le_bytes([w[6], w[7], w[8], w[9]]);
    assert_eq!(jmp_disp, ORIGINAL_DRAW_FN as i32 - 0x1000000A);
}

#[test]
fn wrapper_call_lands_on_notif_draw() {
    let w = build_wrapper(0x10000000, 0x20000000);
    let call_disp = i32::from_le_bytes([w[1], w[2], w[3], w[4]]);
    let target = 0x10000005_i64 + call_disp as i64;
    assert_eq!(target as u32, 0x20000000);
}

#[test]
fn wrapper_jmp_lands_on_original_draw_fn() {
    let w = build_wrapper(0x10000000, 0x20000000);
    let jmp_disp = i32::from_le_bytes([w[6], w[7], w[8], w[9]]);
    let target = 0x1000000A_i64 + jmp_disp as i64;
    assert_eq!(target as u32, ORIGINAL_DRAW_FN);
}

#[test]
fn max_draw_cmds_fits_list_cave() {
    assert!(4 + MAX_DRAW_CMDS * 12 <= LIST_CAVE_SIZE);
}
