use assist::attack_damage_hook::{
    ACCUMULATOR_TIMEOUT_MS, AOE_HOOK_ADDR, AOE_HOOK_FALLTHROUGH_ADDR, AOE_HOOK_LEN,
    AOE_ORIGINAL_BYTES, ATTACK_HOOK_ADDR, ATTACK_HOOK_FALLTHROUGH_ADDR, ATTACK_HOOK_LEN,
    ATTACK_ORIGINAL_BYTES, ATTACK_SKIP_ADDR, CODECAVE_SIZE, DAMAGE_TEXT_COLOR,
    LOCAL_PLAYER_ALT_ID_OFFSET, LOCAL_PLAYER_ID_OFFSET, LastHitState,
    MAGIC_AOE_EXT_DAMAGE_HOOK_ADDR, MAGIC_AOE_EXT_DAMAGE_ORIGINAL_BYTES, MAGIC_AOE_HOOK_ADDR,
    MAGIC_AOE_HOOK_FALLTHROUGH_ADDR, MAGIC_AOE_HOOK_LEN, MAGIC_AOE_ORIGINAL_BYTES,
    SELF_CHAR_ID_ADDR, active_hook_sites, build_shellcode, update_total_state,
};
use assist::hook::{HookBytes, build_hook_patch, classify_hook_bytes};

#[test]
fn single_slot_first_hit_reports_current_damage_only() {
    let mut state = LastHitState::default();
    assert_eq!(update_total_state(&mut state, 0x12345, 7, 1_000), 7);
    assert_eq!(state.target_id, 0x12345);
    assert_eq!(state.total, 7);
    assert_eq!(state.tick, 1_000);
}

#[test]
fn single_slot_accumulates_for_same_target_within_timeout() {
    let mut state = LastHitState::default();
    update_total_state(&mut state, 0x100, 7, 1_000);
    assert_eq!(update_total_state(&mut state, 0x100, 10, 2_500), 17);
    assert_eq!(
        update_total_state(&mut state, 0x100, 5, 9_400),
        22,
        "still within {ACCUMULATOR_TIMEOUT_MS}ms of last hit"
    );
    assert_eq!(state.tick, 9_400);
}

#[test]
fn single_slot_resets_when_target_changes() {
    let mut state = LastHitState::default();
    update_total_state(&mut state, 0x100, 50, 1_000);
    assert_eq!(
        update_total_state(&mut state, 0x200, 7, 1_500),
        7,
        "switching target must drop previous monster's accumulator"
    );
    assert_eq!(state.target_id, 0x200);
    assert_eq!(state.total, 7);
}

#[test]
fn single_slot_resets_when_idle_exceeds_timeout() {
    let mut state = LastHitState::default();
    update_total_state(&mut state, 0x100, 200, 1_000);
    assert_eq!(
        update_total_state(&mut state, 0x100, 7, 1_000 + ACCUMULATOR_TIMEOUT_MS + 1),
        7,
        "same target id after timeout = monster respawn (server reused id), reset"
    );
    assert_eq!(state.total, 7);
}

#[test]
fn single_slot_handles_get_tick_count_wraparound() {
    let mut state = LastHitState {
        target_id: 0x100,
        total: 50,
        tick: 0xFFFF_FFF0,
    };
    assert_eq!(
        update_total_state(&mut state, 0x100, 7, 100),
        57,
        "GetTickCount wrap (delta = ~16ms) must keep accumulating"
    );
}

#[test]
fn classifies_hook_bytes() {
    assert_eq!(
        classify_hook_bytes(&ATTACK_ORIGINAL_BYTES, &ATTACK_ORIGINAL_BYTES, None),
        HookBytes::Original
    );
    let patch = build_hook_patch::<ATTACK_HOOK_LEN>(ATTACK_HOOK_ADDR, 0x1000_0000);
    assert_eq!(
        classify_hook_bytes(&patch, &ATTACK_ORIGINAL_BYTES, Some(&patch)),
        HookBytes::Patched
    );
    assert_eq!(
        classify_hook_bytes(&[0x90; ATTACK_HOOK_LEN], &ATTACK_ORIGINAL_BYTES, None),
        HookBytes::Unexpected
    );
}

#[test]
fn hook_patches_jump_to_requested_targets() {
    let target = 0x1234_5000u32;
    let patch = build_hook_patch::<ATTACK_HOOK_LEN>(ATTACK_HOOK_ADDR, target);
    assert_eq!(patch[0], 0xE9);
    let rel = i32::from_le_bytes(patch[1..5].try_into().unwrap());
    assert_eq!((ATTACK_HOOK_ADDR as i64 + 5 + rel as i64) as u32, target);

    let aoe_patch = build_hook_patch::<AOE_HOOK_LEN>(AOE_HOOK_ADDR, target);
    assert_eq!(aoe_patch[0], 0xE9);
    assert_eq!(aoe_patch[5], 0x90);
    assert_eq!(aoe_patch[6], 0x90);

    let magic_aoe_patch = build_hook_patch::<MAGIC_AOE_HOOK_LEN>(MAGIC_AOE_HOOK_ADDR, target);
    assert_eq!(magic_aoe_patch[0], 0xE9);
    assert_eq!(magic_aoe_patch[5], 0x90);
    assert_eq!(magic_aoe_patch[6], 0x90);
}

#[test]
fn shellcode_fits_codecave_and_has_expected_entries() {
    let sc = build_shellcode(0x2000_0000, 0x7700_1234);
    assert!(sc.bytes.len() <= CODECAVE_SIZE);
    assert_eq!(sc.attack_entry_offset, 0);
    assert!(sc.aoe_entry_offset > sc.attack_entry_offset);
    assert!(sc.magic_aoe_entry_offset > sc.aoe_entry_offset);
}

#[test]
fn shellcode_branches_back_to_original_paths() {
    let cave = 0x2000_0000u32;
    let sc = build_shellcode(cave, 0x7700_1234);

    let attack_cmp = sc.bytes[sc.attack_entry_offset..]
        .windows(6)
        .position(|w| w == [0x83, 0x7D, 0xE0, 0x00, 0x0F, 0x8E])
        .map(|p| sc.attack_entry_offset + p)
        .expect("missing replayed attack damage branch");
    let attack_skip_rel_offset = attack_cmp + 6;
    assert_eq!(
        (cave as i64
            + attack_skip_rel_offset as i64
            + 4
            + i32::from_le_bytes(
                sc.bytes[attack_skip_rel_offset..attack_skip_rel_offset + 4]
                    .try_into()
                    .unwrap()
            ) as i64) as u32,
        ATTACK_SKIP_ADDR
    );
    let attack_fallthrough_rel_offset = attack_skip_rel_offset + 4 + 1;
    assert_eq!(
        (cave as i64
            + attack_fallthrough_rel_offset as i64
            + 4
            + i32::from_le_bytes(
                sc.bytes[attack_fallthrough_rel_offset..attack_fallthrough_rel_offset + 4]
                    .try_into()
                    .unwrap()
            ) as i64) as u32,
        ATTACK_HOOK_FALLTHROUGH_ADDR
    );

    let area_cmp = sc.bytes[sc.aoe_entry_offset..]
        .windows(AOE_ORIGINAL_BYTES.len())
        .position(|w| w == AOE_ORIGINAL_BYTES)
        .map(|p| sc.aoe_entry_offset + p)
        .expect("missing replayed aoe cmp");
    let jmp_rel_offset = area_cmp + AOE_ORIGINAL_BYTES.len() + 1;
    let jmp_rel =
        i32::from_le_bytes(sc.bytes[jmp_rel_offset..jmp_rel_offset + 4].try_into().unwrap());
    assert_eq!(
        (cave as i64 + jmp_rel_offset as i64 + 4 + jmp_rel as i64) as u32,
        AOE_HOOK_FALLTHROUGH_ADDR
    );

    let magic_cmp = sc.bytes[sc.magic_aoe_entry_offset..]
        .windows(MAGIC_AOE_ORIGINAL_BYTES.len())
        .position(|w| w == MAGIC_AOE_ORIGINAL_BYTES)
        .map(|p| sc.magic_aoe_entry_offset + p)
        .expect("missing replayed magic aoe cmp");
    let magic_jmp_rel_offset = magic_cmp + MAGIC_AOE_ORIGINAL_BYTES.len() + 1;
    let magic_jmp_rel = i32::from_le_bytes(
        sc.bytes[magic_jmp_rel_offset..magic_jmp_rel_offset + 4]
            .try_into()
            .unwrap(),
    );
    assert_eq!(
        (cave as i64 + magic_jmp_rel_offset as i64 + 4 + magic_jmp_rel as i64) as u32,
        MAGIC_AOE_HOOK_FALLTHROUGH_ADDR
    );
}

#[test]
fn shellcode_reads_attack_aoe_and_magic_aoe_damage_sources() {
    let sc = build_shellcode(0x2000_0000, 0x7700_1234);
    assert!(sc.bytes.windows(3).any(|w| w == [0x8B, 0x55, 0xEC]));
    assert!(sc.bytes.windows(3).any(|w| w == [0x8B, 0x4D, 0xF0]));
    assert!(sc.bytes.windows(4).any(|w| w == [0x0F, 0xB7, 0x55, 0xCC]));
    assert!(!sc.bytes.windows(3).any(|w| w == [0x8B, 0x55, 0xE0]));

    assert!(sc.bytes.windows(3).any(|w| w == [0x8B, 0x55, 0xF0]));
    assert!(sc.bytes.windows(3).any(|w| w == [0x8B, 0x75, 0xE4]));
    assert!(sc.bytes.windows(4).any(|w| w == [0x0F, 0xB7, 0x45, 0xE0]));
    assert!(sc.bytes.windows(4).any(|w| w == [0x0F, 0xB7, 0x04, 0x58]));

    assert!(sc.bytes.windows(3).any(|w| w == [0x8B, 0x55, 0xE4]));
    assert!(sc.bytes.windows(3).any(|w| w == [0x8B, 0x75, 0xBC]));
    assert!(sc.bytes.windows(4).any(|w| w == [0x0F, 0xB7, 0x45, 0xB4]));
}

#[test]
fn magic_aoe_calls_overhead_text_fn() {
    let sc = build_shellcode(0x2000_0000, 0x7700_1234);
    let magic_replay = sc.bytes[sc.magic_aoe_entry_offset..]
        .windows(MAGIC_AOE_ORIGINAL_BYTES.len())
        .position(|w| w == MAGIC_AOE_ORIGINAL_BYTES)
        .map(|p| sc.magic_aoe_entry_offset + p)
        .expect("missing replayed magic aoe cmp");
    let magic_branch = &sc.bytes[sc.magic_aoe_entry_offset..magic_replay];

    assert!(magic_branch
        .windows(5)
        .any(|w| w == [0xB8, 0xB0, 0xB7, 0x42, 0x00]));
}

#[test]
fn shellcode_accepts_known_local_player_id_mirrors() {
    let sc = build_shellcode(0x2000_0000, 0x7700_1234);
    assert!(sc.bytes.windows(4).any(|w| w == SELF_CHAR_ID_ADDR.to_le_bytes()));
    assert!(sc
        .bytes
        .windows(3)
        .any(|w| w == [0x8B, 0x48, LOCAL_PLAYER_ID_OFFSET]));
    assert!(sc
        .bytes
        .windows(3)
        .any(|w| w == [0x8B, 0x48, LOCAL_PLAYER_ALT_ID_OFFSET]));
}

#[test]
fn shellcode_uses_expected_overhead_text_style() {
    let sc = build_shellcode(0x2000_0000, 0x7700_1234);
    assert!(sc.bytes.windows(5).any(|w| w == [0xB8, 0xB0, 0xB7, 0x42, 0x00]));
    assert!(sc
        .bytes
        .windows(6)
        .any(|w| w == [0x6A, 0x00, 0x6A, 0x00, 0x6A, 0x01]));
    assert!(sc
        .bytes
        .windows(5)
        .any(|w| w[0] == 0x68 && w[1..5] == DAMAGE_TEXT_COLOR.to_le_bytes()));
}

#[test]
fn shellcode_formats_current_and_cumulative_damage() {
    let sc = build_shellcode(0x2000_0000, 0x7700_1234);
    assert!(sc
        .bytes
        .windows(6)
        .any(|w| w == [0xC7, 0x07, 0x5C, 0x5C, 0x66, 0x52]));
    assert!(sc
        .bytes
        .windows(7)
        .any(|w| w == [0xC7, 0x47, 0x04, 0x66, 0x3E, 0x28, 0x20]));
    assert!(sc
        .bytes
        .windows(7)
        .any(|w| w == [0xC7, 0x47, 0x08, 0x5C, 0x5C, 0x66, 0x52]));
    assert!(sc
        .bytes
        .windows(6)
        .any(|w| w == [0x66, 0xC7, 0x47, 0x0C, 0x66, 0x30]));
    assert!(sc.bytes.windows(3).any(|w| w == [0x83, 0xC7, 0x0E]));
    assert!(sc
        .bytes
        .windows(7)
        .any(|w| w == [0xC7, 0x47, 0x04, 0x66, 0x3E, 0x20, 0x29]));
    assert!(sc.bytes.windows(4).any(|w| w == [0xC6, 0x47, 0x08, 0x20]));
    assert!(sc.bytes.windows(4).any(|w| w == b"2222"));
}

#[test]
fn shellcode_preserves_ecx_and_edx_across_get_tick_count_call() {
    let sc = build_shellcode(0x2000_0000, 0x7700_1234);
    let call_idx = sc
        .bytes
        .windows(2)
        .position(|w| w == [0xFF, 0x15])
        .expect("missing call [gettickcount_ptr]");
    let pre = &sc.bytes[..call_idx];
    let pre_tail = &pre[pre.len().saturating_sub(2)..];
    assert!(
        pre_tail == [0x51, 0x52] || pre_tail == [0x52, 0x51],
        "expected push ecx/edx pair immediately before call [gettickcount_ptr], got {:02X?}",
        pre_tail
    );
    let post_start = call_idx + 6;
    let post = &sc.bytes[post_start..(post_start + 2).min(sc.bytes.len())];
    assert!(
        post == [0x5A, 0x59] || post == [0x59, 0x5A],
        "expected pop edx/ecx pair immediately after call [gettickcount_ptr], got {:02X?}",
        post
    );
}

#[test]
fn shellcode_uses_single_slot_with_get_tick_count_gating() {
    let sc = build_shellcode(0x2000_0000, 0x7700_1234);

    assert!(
        sc.bytes.windows(2).any(|w| w == [0xFF, 0x15]),
        "missing call [gettickcount_ptr]"
    );

    assert!(
        sc.bytes.windows(4).any(|w| w == 0x7700_1234u32.to_le_bytes()),
        "missing baked GetTickCount address"
    );

    let timeout_bytes = ACCUMULATOR_TIMEOUT_MS.to_le_bytes();
    assert!(
        sc.bytes.windows(6)
            .any(|w| w[0..2] == [0x81, 0xFB] && w[2..6] == timeout_bytes),
        "missing cmp ebx, ACCUMULATOR_TIMEOUT_MS"
    );

    assert!(
        sc.bytes.windows(2).any(|w| w == [0x01, 0x15]),
        "missing add [last_total], edx"
    );

    assert!(
        sc.bytes.windows(2).any(|w| w == [0x89, 0x0D]),
        "missing mov [last_target], ecx"
    );
    assert!(
        sc.bytes.windows(2).any(|w| w == [0x89, 0x15]),
        "missing mov [last_total], edx"
    );

    assert!(
        !sc.bytes.windows(3).any(|w| w == [0x8D, 0x34, 0xC6]),
        "slot table loop present"
    );
}

#[test]
fn shellcode_does_not_patch_low_level_name_draw_path() {
    let sc = build_shellcode(0x2000_0000, 0x7700_1234);
    assert!(!sc.bytes.windows(5).any(|w| w == [0xB8, 0x50, 0xF1, 0x46, 0x00]));
}

#[test]
fn active_hook_sites_cover_single_and_extended_range_damage_paths() {
    assert_eq!(
        active_hook_sites(),
        &[ATTACK_HOOK_ADDR, MAGIC_AOE_EXT_DAMAGE_HOOK_ADDR]
    );
}

#[test]
fn magic_aoe_ext_entry_consumes_damage_dword_before_replaying_original_parse_epilogue() {
    let sc = build_shellcode(0x2000_0000, 0x7700_1234);
    let ext_entry = &sc.bytes[sc.magic_aoe_ext_damage_entry_offset..];

    assert!(ext_entry.windows(2).any(|w| w == [0x8B, 0x10]));
    assert!(ext_entry.windows(3).any(|w| w == [0x83, 0xC0, 0x04]));
    assert!(ext_entry
        .windows(MAGIC_AOE_EXT_DAMAGE_ORIGINAL_BYTES.len())
        .any(|w| w == MAGIC_AOE_EXT_DAMAGE_ORIGINAL_BYTES));
}
