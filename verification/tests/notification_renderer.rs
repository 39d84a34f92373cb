use assist::notification::renderer::{
    DrawCmd, FLOAT_EXP_GFXID, FLOAT_GOLD_GFXID, GET_SURF_RESOURCE, PNG_SURF_MANAGER,
    TOAST_BG_GFXID, TOAST_ICON_OFFSET_X, TOAST_ICON_OFFSET_Y, build_draw_loop_shellcode,
    deserialize, expand_snapshot, serialize,
};
use assist::notification::types::{FloatKind, LiveFloat, LiveToast};

fn dummy_toast(now: u64, gfxid: u16) -> LiveToast {
    LiveToast {
        spawned_at: now,
        gfxid,
        text: vec![],
    }
}

fn dummy_float(now: u64, kind: FloatKind, cascade: u8) -> LiveFloat {
    LiveFloat {
        spawned_at: now,
        kind,
        amount: 100,
        cascade_offset: cascade,
    }
}

#[test]
fn expand_empty_returns_empty() {
    let now = 10_000_000_000u64;
    let cmds = expand_snapshot(&[], &[], 800, 600, now);
    assert!(cmds.is_empty());
}

#[test]
fn expand_single_toast_emits_bg_plus_icon() {
    let now = 10_000_000_000u64;
    let toasts = vec![dummy_toast(now, 1234)];
    let cmds = expand_snapshot(&toasts, &[], 800, 600, now);
    assert_eq!(cmds.len(), 2);
    assert_eq!(cmds[0].gfxid, TOAST_BG_GFXID);
    assert_eq!(cmds[1].gfxid, 1234);
    assert_eq!(cmds[1].x - cmds[0].x, TOAST_ICON_OFFSET_X);
    assert_eq!(cmds[1].y - cmds[0].y, TOAST_ICON_OFFSET_Y);
}

#[test]
fn expand_toast_with_zero_gfxid_skips_icon() {
    let now = 10_000_000_000u64;
    let toasts = vec![dummy_toast(now, 0)];
    let cmds = expand_snapshot(&toasts, &[], 800, 600, now);
    assert_eq!(cmds.len(), 1);
    assert_eq!(cmds[0].gfxid, TOAST_BG_GFXID);
}

#[test]
fn expand_float_exp_uses_exp_gfxid() {
    let now = 10_000_000_000u64;
    let floats = vec![dummy_float(now, FloatKind::Exp, 0)];
    let cmds = expand_snapshot(&[], &floats, 800, 600, now);
    assert_eq!(cmds.len(), 1);
    assert_eq!(cmds[0].gfxid, FLOAT_EXP_GFXID);
}

#[test]
fn expand_float_gold_uses_gold_gfxid() {
    let now = 10_000_000_000u64;
    let floats = vec![dummy_float(now, FloatKind::Gold, 0)];
    let cmds = expand_snapshot(&[], &floats, 800, 600, now);
    assert_eq!(cmds[0].gfxid, FLOAT_GOLD_GFXID);
}

#[test]
fn expand_multiple_toasts_stack_with_slot_offset() {
    let now = 10_000_000_000u64;
    let toasts = vec![dummy_toast(now, 1), dummy_toast(now, 2)];
    let cmds = expand_snapshot(&toasts, &[], 800, 600, now);
    assert_eq!(cmds.len(), 4);
    assert!(cmds[2].y < cmds[0].y);
}

#[test]
fn expand_float_drifts_up_over_time() {
    let now = 10_000_000_000u64;
    let floats = vec![dummy_float(now, FloatKind::Exp, 0)];
    let cmds_t0 = expand_snapshot(&[], &floats, 800, 600, now);
    let cmds_later = expand_snapshot(
        &[],
        &floats,
        800,
        600,
        now + 750_000_000,
    );
    assert!(cmds_later[0].y < cmds_t0[0].y);
}

#[test]
fn expand_mixed_toasts_and_floats() {
    let now = 10_000_000_000u64;
    let toasts = vec![dummy_toast(now, 1234)];
    let floats = vec![
        dummy_float(now, FloatKind::Exp, 0),
        dummy_float(now, FloatKind::Gold, 0),
    ];
    let cmds = expand_snapshot(&toasts, &floats, 800, 600, now);
    assert_eq!(cmds.len(), 4);
}

#[test]
fn serialize_empty() {
    let buf = serialize(&[]);
    assert_eq!(buf, vec![0, 0, 0, 0]);
}

#[test]
fn serialize_one_entry_byte_equal() {
    let cmds = vec![DrawCmd::new(1888, 10, 550)];
    let buf = serialize(&cmds);
    assert_eq!(&buf[..4], &[1, 0, 0, 0]);
    assert_eq!(&buf[4..6], &[0x60, 0x07]);
    assert_eq!(&buf[6..8], &[0, 0]);
    assert_eq!(&buf[8..12], &[10, 0, 0, 0]);
    assert_eq!(&buf[12..16], &[0x26, 0x02, 0, 0]);
}

#[test]
fn serialize_three_entries_size() {
    let cmds = vec![
        DrawCmd::new(1, 0, 0),
        DrawCmd::new(2, 0, 0),
        DrawCmd::new(3, 0, 0),
    ];
    let buf = serialize(&cmds);
    assert_eq!(buf.len(), 4 + 3 * 12);
}

#[test]
fn round_trip_serialize_deserialize() {
    let cmds = vec![
        DrawCmd::new(1888, 10, 550),
        DrawCmd::new(1234, 14, 552),
        DrawCmd::new(1971, 460, 280),
    ];
    let buf = serialize(&cmds);
    let restored = deserialize(&buf).expect("decode");
    assert_eq!(restored, cmds);
}

#[test]
fn deserialize_truncated_returns_none() {
    assert_eq!(deserialize(&[]), None);
    assert_eq!(deserialize(&[1, 0, 0, 0]), None);
}

#[test]
fn renderer_shellcode_starts_with_pushad_pushfd() {
    let sc = build_draw_loop_shellcode(0x10000000);
    assert_eq!(sc[0], 0x60);
    assert_eq!(sc[1], 0x9C);
}

#[test]
fn shellcode_loads_list_addr_into_esi() {
    let sc = build_draw_loop_shellcode(0xDEADBEEF);
    assert_eq!(sc[2], 0xBE);
    assert_eq!(&sc[3..7], &0xDEADBEEF_u32.to_le_bytes());
}

#[test]
fn shellcode_ends_with_popfd_popad_ret() {
    let sc = build_draw_loop_shellcode(0x10000000);
    let n = sc.len();
    assert_eq!(sc[n - 3], 0x9D);
    assert_eq!(sc[n - 2], 0x61);
    assert_eq!(sc[n - 1], 0xC3);
}

#[test]
fn shellcode_fits_reasonable_size() {
    let sc = build_draw_loop_shellcode(0x10000000);
    assert!(sc.len() < 128, "shellcode {} bytes 過大", sc.len());
    assert!(sc.len() > 30, "shellcode {} bytes 過小,可能漏 emit", sc.len());
}

#[test]
fn shellcode_loop_jmp_back_to_loop_start() {
    let sc = build_draw_loop_shellcode(0x10000000);
    let loop_start = 12;
    let end_block = sc.len() - 3;
    let jmp_at = end_block - 5;
    assert_eq!(sc[jmp_at], 0xE9, "expected E9 at offset {}", jmp_at);
    let rel = i32::from_le_bytes([
        sc[jmp_at + 1],
        sc[jmp_at + 2],
        sc[jmp_at + 3],
        sc[jmp_at + 4],
    ]);
    let target = (jmp_at + 5) as isize + rel as isize;
    assert_eq!(target as usize, loop_start);
}

#[test]
fn shellcode_jz_end_targets_popfd() {
    let sc = build_draw_loop_shellcode(0x10000000);
    let jz_at = 14;
    assert_eq!(&sc[jz_at..jz_at + 2], &[0x0F, 0x84]);
    let rel = i32::from_le_bytes([
        sc[jz_at + 2],
        sc[jz_at + 3],
        sc[jz_at + 4],
        sc[jz_at + 5],
    ]);
    let target = (jz_at + 6) as isize + rel as isize;
    assert_eq!(sc[target as usize], 0x9D);
}

#[test]
fn shellcode_jz_skip_bypasses_blit() {
    let sc = build_draw_loop_shellcode(0x10000000);
    let mut jz_at = None;
    for i in 0..sc.len() - 3 {
        if sc[i] == 0x85 && sc[i + 1] == 0xC0 && sc[i + 2] == 0x74 {
            jz_at = Some(i + 2);
            break;
        }
    }
    let jz_at = jz_at.expect("jz .skip not found");
    let rel = sc[jz_at + 1] as i8 as isize;
    let target = (jz_at + 2) as isize + rel;
    assert_eq!(&sc[target as usize..target as usize + 3], &[0x83, 0xC6, 0x0C]);
}

#[test]
fn shellcode_thiscall_uses_correct_addresses() {
    let sc = build_draw_loop_shellcode(0x10000000);
    let mut found = false;
    for i in 0..sc.len() - 12 {
        if sc[i] == 0xB9 {
            let mgr = u32::from_le_bytes([sc[i + 1], sc[i + 2], sc[i + 3], sc[i + 4]]);
            if mgr == PNG_SURF_MANAGER {
                assert_eq!(sc[i + 5], 0xB8);
                let target = u32::from_le_bytes([
                    sc[i + 6],
                    sc[i + 7],
                    sc[i + 8],
                    sc[i + 9],
                ]);
                assert_eq!(target, GET_SURF_RESOURCE);
                assert_eq!(&sc[i + 10..i + 12], &[0xFF, 0xD0]);
                found = true;
                break;
            }
        }
    }
    assert!(found, "thiscall pattern not emitted");
}
