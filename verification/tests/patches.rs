use assist::attack_damage_feet_hook;
use assist::attack_damage_hook::{self, LastHitState};
use assist::chat::{
    build_chat_dispatch_shellcode, dispatch_room, push_chat_line, push_chat_via_dispatch,
    push_lhx_started, BLUE, CHAT_BUFFER_BASE, CHAT_INDEX_ADDR, CHAT_ENTRY_SIZE,
};
use assist::chat_width::{
    chat_width_patch_took, install_chat_width_patch, ChatWidthAction, CHAT_WRAP_IMM_ADDR,
};
use assist::code::{
    distance, emit_call32, emit_jcc32, emit_jmp32, emit_jump8, push_u32, read_u16_le, read_u32_le,
    u32_bytes, zero_at,
};
use assist::drink_hook::{
    build_chat_packet_shellcode, build_transform_packet_shellcode, CallError, DrinkHandle,
    PrologueCheck, SkillTargetMode,
};
use assist::hook::{
    build_hook_patch, classify_hook_bytes, holds_original, restore_action, settle_install,
    HookBytes, Patch, Restore, RestoreAction,
};
use assist::low_cpu_hook;
use assist::menu_inject::{self, MenuInjectControl, NotAvailable};
use assist::monster_color_code::{
    self, write_render_marker_table, Caves, Site, SiteFault, SiteReads, HOVER_NAME_COLOR_ADDR,
    HOVER_NAME_COLOR_FORCED_WHITE_BYTES, HOVER_NAME_COLOR_ORIGINAL_BYTES, NAME_RENDER_HOOK_ADDR,
    NAME_RENDER_ORIGINAL_BYTES, OVERHEAD_TEXT_COLOR_ORIGINAL_BYTES,
    OVERHEAD_TEXT_COLOR_RESET_ORIGINAL_BYTES, RENDER_MARKER_TABLE_BYTES,
    TEXT_DRAW_COMPACT_ORIGINAL_BYTES, TEXT_DRAW_FN, TEXT_DRAW_FN_ORIGINAL_BYTES,
};
use assist::show_clock_patch::{self, GateStep, ORIGINAL_BYTES, PATCHED_BYTES};

fn landing(at: u32, bytes: &[u8]) -> u32 {
    let rel = i32::from_le_bytes([bytes[1], bytes[2], bytes[3], bytes[4]]);
    (at as i64 + 5 + rel as i64) as u32
}

#[test]
fn patches_jump_and_fill_the_site() {
    let patch = build_hook_patch::<8>(0x0040_0000, 0x1000_0000);
    assert_eq!(patch.len(), 8);
    assert_eq!(landing(0x0040_0000, &patch), 0x1000_0000);
    assert_eq!(&patch[5..], &[0x90, 0x90, 0x90]);
    let back = build_hook_patch::<5>(0x7000_0000, 0x0040_0000);
    assert_eq!(landing(0x7000_0000, &back), 0x0040_0000);
}

#[test]
fn only_the_own_patch_is_taken_back() {
    let site = Restore { addr: 1, original: vec![1, 2, 3], patch: vec![4, 5, 6] };
    assert_eq!(restore_action(&[1, 2, 3], &site), RestoreAction::AlreadyOriginal);
    assert_eq!(restore_action(&[4, 5, 6], &site), RestoreAction::WriteOriginal);
    assert_eq!(restore_action(&[7, 8, 9], &site), RestoreAction::Refuse);
    assert!(holds_original(&[1], &Patch { addr: 1, bytes: vec![1] }));
    assert!(!holds_original(&[2], &Patch { addr: 1, bytes: vec![1] }));
    assert_eq!(classify_hook_bytes(&[1], &[1], Some(&[1])), HookBytes::Original);
}

#[test]
fn branches_land_where_they_are_sent() {
    let mut sc = vec![0x90; 3];
    emit_jmp32(&mut sc, 100);
    assert_eq!(landing(3, &sc[3..8]), 100);
    emit_call32(&mut sc, 2);
    assert_eq!(sc[8], 0xE8);
    assert_eq!(landing(8, &sc[8..13]), 2);
    emit_jcc32(&mut sc, 0x84, 40);
    assert_eq!(&sc[13..15], &[0x0F, 0x84]);
    assert_eq!(i32::from_le_bytes(sc[15..19].try_into().unwrap()) + 19, 40);
    emit_jump8(&mut sc, 0x75, 10);
    assert_eq!(sc[19], 0x75);
    assert_eq!(sc[20] as i8 as i32 + 21, 10);
    assert_eq!(distance(10, 4), 0xFFFF_FFFA);
}

#[test]
fn numbers_survive_their_bytes() {
    let mut sc = Vec::new();
    push_u32(&mut sc, 0xDEAD_BEEF);
    assert_eq!(sc, u32_bytes(0xDEAD_BEEF));
    assert_eq!(sc, vec![0xEF, 0xBE, 0xAD, 0xDE]);
    assert_eq!(read_u32_le(&sc, 0), 0xDEAD_BEEF);
    assert_eq!(read_u16_le(&sc, 1), 0xADBE);
    assert_eq!(zero_at(&[1, 2, 0, 3]), 2);
    assert_eq!(zero_at(&[1, 2]), 2);
}

#[test]
fn hits_add_up_and_are_forgotten() {
    let mut one = LastHitState::default();
    let mut two = LastHitState::default();
    attack_damage_hook::update_total_state(&mut one, 5, 30, 100);
    attack_damage_hook::update_total_state(&mut one, 5, 12, 100 + 8_000);
    attack_damage_hook::update_total_state(&mut two, 5, 42, 100 + 8_000);
    assert_eq!(one, two);
    assert_eq!(attack_damage_hook::update_total_state(&mut one, 6, 1, 100 + 8_000), 1);
    assert_eq!(attack_damage_hook::update_total_state(&mut two, 5, 1, 100 + 16_001), 1);
}

#[test]
fn attack_hooks_go_in_and_out() {
    let sites = attack_damage_hook::hook_sites();
    assert_eq!(sites.len(), 2);
    let mut state = None;
    assert!(!attack_damage_hook::is_installed(&state));
    assert!(attack_damage_hook::uninstall(&mut state).is_empty());
    let plan = attack_damage_hook::install(&state, 0x2000_0000, 0x7700_1234).unwrap();
    assert_eq!(plan.writes.len(), 3);
    assert_eq!(plan.writes[0].addr, 0x2000_0000);
    assert_eq!(plan.writes[1].addr, sites[0].addr);
    assert_eq!(landing(sites[0].addr, &plan.writes[1].bytes), 0x2000_0000);
    assert_eq!(landing(sites[1].addr, &plan.writes[2].bytes), 0x2000_0000 + 1379);
    settle_install(&mut state, None);
    assert!(!attack_damage_hook::is_installed(&state));
    settle_install(&mut state, Some(plan.state));
    assert!(attack_damage_hook::is_installed(&state));
    assert!(attack_damage_hook::install(&state, 0x3000_0000, 0).is_none());
    let out = attack_damage_hook::uninstall(&mut state);
    assert_eq!(restore_action(&plan.writes[2].bytes, &out[0]), RestoreAction::WriteOriginal);
    assert_eq!(out[0].original, sites[1].bytes);
    assert_eq!(out[1].original, sites[0].bytes);
    assert!(!attack_damage_hook::is_installed(&state));
}

#[test]
fn feet_hooks_go_in_and_out() {
    let sites = attack_damage_feet_hook::hook_sites();
    let mut state = None;
    let plan = attack_damage_feet_hook::install(&state, 0x2000_0000).unwrap();
    assert_eq!(plan.writes.len(), 5);
    let entries = [61, 0, 122, 153];
    for i in 0..4 {
        let write = &plan.writes[i + 1];
        assert_eq!(write.addr, sites[i].addr);
        assert_eq!(write.bytes.len(), sites[i].bytes.len());
        assert_eq!(landing(write.addr, &write.bytes), 0x2000_0000 + entries[i]);
    }
    settle_install(&mut state, Some(plan.state));
    assert!(attack_damage_feet_hook::is_installed(&state));
    assert!(attack_damage_feet_hook::install(&state, 0x3000_0000).is_none());
    settle_install(&mut state, None);
    assert!(attack_damage_feet_hook::is_installed(&state));
    let out = attack_damage_feet_hook::uninstall(&mut state);
    assert_eq!(out.len(), 4);
    assert_eq!(out[0].addr, sites[3].addr);
    assert!(!attack_damage_feet_hook::is_installed(&state));
    assert!(attack_damage_feet_hook::uninstall(&mut state).is_empty());
}

#[test]
fn the_message_pump_is_hooked_and_freed() {
    let prologue = [0x8B, 0xFF, 0x55, 0x8B, 0xEC];
    assert!(low_cpu_hook::prologue_is_usable(&prologue));
    assert!(!low_cpu_hook::prologue_is_usable(&[0xE9, 0, 0, 0, 0]));
    let mut state = None;
    assert!(low_cpu_hook::uninstall(&mut state).is_none());
    let plan =
        low_cpu_hook::install(&state, 0x1000_0000, 0x7510_0000, 1, 2, 3, 4, &prologue).unwrap();
    let plan = plan.unwrap();
    for first in [0xE9, 0xEB] {
        let hooked = [first, 1, 2, 3, 4];
        assert!(low_cpu_hook::install(&state, 0, 0, 1, 2, 3, 4, &hooked).is_err());
    }
    assert_eq!(plan.writes.len(), 2);
    assert_eq!(landing(0x7510_0000, &plan.writes[1].bytes), 0x1000_0000);
    settle_install(&mut state, Some(plan.state));
    assert!(low_cpu_hook::is_installed(&state));
    assert!(low_cpu_hook::install(&state, 0, 0, 1, 2, 3, 4, &prologue).unwrap().is_none());
    let hooked = [0xE9, 0, 0, 0, 0];
    assert!(low_cpu_hook::install(&state, 0, 0, 1, 2, 3, 4, &hooked).unwrap().is_none());
    let out = low_cpu_hook::uninstall(&mut state).unwrap();
    assert_eq!((out.addr, out.bytes), (0x7510_0000, prologue.to_vec()));
    assert!(!low_cpu_hook::is_installed(&state));
}

#[test]
fn the_clock_gate_opens_and_closes() {
    match show_clock_patch::install(false, &ORIGINAL_BYTES) {
        GateStep::Write(p) => assert_eq!(p.bytes, PATCHED_BYTES),
        _ => panic!("no write"),
    }
    assert!(matches!(show_clock_patch::install(false, &PATCHED_BYTES), GateStep::Done));
    assert!(matches!(show_clock_patch::install(true, &[1]), GateStep::Done));
    assert!(matches!(show_clock_patch::install(false, &[1]), GateStep::Refuse));
    match show_clock_patch::uninstall(true, &PATCHED_BYTES) {
        GateStep::Write(p) => assert_eq!(p.bytes, ORIGINAL_BYTES),
        _ => panic!("no write"),
    }
    assert!(matches!(show_clock_patch::uninstall(true, &ORIGINAL_BYTES), GateStep::Done));
    assert!(matches!(show_clock_patch::uninstall(false, &[1]), GateStep::Done));
    assert!(matches!(show_clock_patch::uninstall(true, &[1]), GateStep::Refuse));
    assert!(show_clock_patch::is_installed(&true));
}

#[test]
fn the_clock_s_flag_follows_the_steps() {
    let mut state = false;
    let step = show_clock_patch::install(state, &[1]);
    show_clock_patch::settle_install(&mut state, &step, false);
    assert!(!state);
    let step = show_clock_patch::install(state, &ORIGINAL_BYTES);
    show_clock_patch::settle_install(&mut state, &step, false);
    assert!(!state);
    show_clock_patch::settle_install(&mut state, &step, true);
    assert!(state);
    let step = show_clock_patch::install(state, &[1]);
    show_clock_patch::settle_install(&mut state, &step, true);
    assert!(state);
    let step = show_clock_patch::uninstall(state, &[1]);
    show_clock_patch::settle_uninstall(&mut state, &step, false);
    assert!(state);
    let step = show_clock_patch::uninstall(state, &PATCHED_BYTES);
    show_clock_patch::settle_uninstall(&mut state, &step, false);
    assert!(state);
    show_clock_patch::settle_uninstall(&mut state, &step, true);
    assert!(!state);
    let step = show_clock_patch::install(state, &PATCHED_BYTES);
    show_clock_patch::settle_install(&mut state, &step, true);
    assert!(state);
    let step = show_clock_patch::uninstall(state, &ORIGINAL_BYTES);
    show_clock_patch::settle_uninstall(&mut state, &step, true);
    assert!(!state);
}

#[test]
fn chat_lines_are_widened_once() {
    match install_chat_width_patch(0x37) {
        ChatWidthAction::Write(p) => {
            assert_eq!(p.addr, CHAT_WRAP_IMM_ADDR);
            assert_eq!(p.bytes, vec![0x44, 0, 0, 0]);
        }
        _ => panic!("no write"),
    }
    assert!(matches!(install_chat_width_patch(0x44), ChatWidthAction::AlreadyPatched));
    assert!(matches!(install_chat_width_patch(0x45), ChatWidthAction::Unexpected));
    assert!(chat_width_patch_took(0x44));
    assert!(!chat_width_patch_took(0x37));
}

#[test]
fn the_menu_has_no_entries() {
    assert!(matches!(menu_inject::install(), Err(NotAvailable)));
    let control = MenuInjectControl {
        codecave: 1,
        ring_head_offset: 2,
        ring_tail_offset: 3,
        ring_buffer_offset: 4,
    };
    assert_eq!(menu_inject::poll_ring(&control), 0);
}

#[test]
fn chat_lines_go_around_the_ring() {
    let writes = push_chat_line(149, b"hello", BLUE).unwrap();
    assert_eq!(writes[0].addr, CHAT_BUFFER_BASE + 149 * CHAT_ENTRY_SIZE);
    assert_eq!(writes[0].bytes.len(), 0x126);
    assert_eq!(&writes[0].bytes[..6], b"hello\0");
    assert_eq!(&writes[0].bytes[0x60..0x64], &[0xDA, 0x72, 0xFF, 0xFF]);
    assert_eq!(writes[1].addr, CHAT_INDEX_ADDR);
    assert_eq!(writes[1].bytes, vec![0, 0, 0, 0]);
    assert!(push_chat_line(150, b"hello", BLUE).is_none());
    let long = [b'x'; 200];
    let writes = push_chat_line(0, &long, BLUE).unwrap();
    assert_eq!(writes[0].bytes[94], b'x');
    assert_eq!(writes[0].bytes[95], 0);
    assert_eq!(writes[1].bytes, vec![1, 0, 0, 0]);
}

#[test]
fn chat_lines_are_dispatched_behind_their_text() {
    assert_eq!(dispatch_room(b"hi"), 67);
    let plan = push_chat_via_dispatch(0x1000, b"hi", 7, BLUE);
    assert_eq!(plan.entry, 0x1003);
    assert_eq!(plan.writes[0].bytes, b"hi\0");
    assert_eq!(plan.writes[1].addr, 0x1003);
    assert_eq!(plan.writes[1].bytes, build_chat_dispatch_shellcode(0x1000, 7, BLUE));
    let started = push_lhx_started(0x1000);
    assert_eq!(started.writes.len(), 2);
    assert_eq!(*started.writes[0].bytes.last().unwrap(), 0);
}

#[test]
fn drinking_cools_down() {
    let mut dh = DrinkHandle::new(0x004B_3EE0);
    let prologue = [0x55u8, 0x8B, 0xEC];
    let t = 1_000_000_000;
    let call = dh.execute_drink(0x1234, t, Some(&prologue)).unwrap();
    assert_eq!(call.prologue, PrologueCheck::First);
    assert_eq!(&call.code[2..6], &0x1234u32.to_le_bytes());
    assert!(matches!(
        dh.execute_drink(0x1234, t + 100_000_000, Some(&prologue)),
        Err(CallError::CoolingDown(400))
    ));
    let call = dh.execute_drink(0x1234, t + 500_000_000, Some(&prologue)).unwrap();
    assert_eq!(call.prologue, PrologueCheck::Same);
    assert_eq!(dh.use_item_addr(), 0x004B_3EE0);
}

#[test]
fn items_are_used_without_cooling_down() {
    let mut dh = DrinkHandle::new(0x004B_3EE0);
    assert!(matches!(dh.execute_use_item(1, 0, None), Err(CallError::Unreadable)));
    assert_eq!(dh.execute_use_item(1, 0, Some(&[1])).unwrap().prologue, PrologueCheck::First);
    assert!(matches!(dh.execute_use_item(1, 0, Some(&[2])), Err(CallError::Changed)));
    assert!(matches!(dh.execute_drink(1, 0, Some(&[2])), Err(CallError::Changed)));
    assert_eq!(dh.execute_use_item(1, 0, Some(&[1])).unwrap().prologue, PrologueCheck::Same);
}

#[test]
fn long_texts_do_not_fit() {
    let dh = DrinkHandle::new(0);
    let fits = "x".repeat(80);
    let long = "x".repeat(81);
    assert_eq!(dh.execute_chat(2, &fits).unwrap(), build_chat_packet_shellcode(2, &fits));
    assert!(matches!(dh.execute_chat(2, &long), Err(CallError::TooLong(129))));
    assert!(matches!(dh.execute_encoded_chat(2, long.as_bytes()), Err(CallError::TooLong(129))));
    assert_eq!(
        dh.execute_transform_scroll(5, &fits).unwrap(),
        build_transform_packet_shellcode(5, &fits)
    );
    assert!(matches!(dh.execute_transform_scroll(5, &long), Err(CallError::TooLong(129))));
    assert_eq!(dh.execute_skill(42, SkillTargetMode::NoSpec).len(), 35);
    assert_eq!(dh.execute_delete(1, 2).len(), 42);
    assert_eq!(dh.execute_use_on_wielded(1, 2).len(), 42);
}

#[test]
fn messages_are_said_in_big5() {
    let dh = DrinkHandle::new(0);
    let sc = dh.execute_chat(2, "測").unwrap();
    assert_eq!(sc.len(), 50);
    assert!(sc.ends_with(&[0xB4, 0xFA, 0]));
}

#[test]
fn texts_stand_where_their_operands_say() {
    let sc = build_transform_packet_shellcode(1, "orc");
    let disp = i32::from_le_bytes(sc[9..13].try_into().unwrap());
    let at = (6 + disp) as usize;
    assert_eq!(&sc[at..], b"orc\0");
}

fn reads() -> SiteReads {
    SiteReads {
        name_render: Some(NAME_RENDER_ORIGINAL_BYTES.to_vec()),
        hover: Some(HOVER_NAME_COLOR_ORIGINAL_BYTES.to_vec()),
        overhead: Some(OVERHEAD_TEXT_COLOR_ORIGINAL_BYTES.to_vec()),
        overhead_reset: Some(OVERHEAD_TEXT_COLOR_RESET_ORIGINAL_BYTES.to_vec()),
        text_draw: Some(TEXT_DRAW_FN_ORIGINAL_BYTES.to_vec()),
        text_draw_compact: Some(TEXT_DRAW_COMPACT_ORIGINAL_BYTES.to_vec()),
    }
}

const CAVES: Caves = Caves {
    marker_table: 0x1000_0000,
    name_render: Some(0x1001_0000),
    text_draw: Some(0x1002_0000),
    text_draw_compact: Some(0x1003_0000),
};

#[test]
fn name_hooks_go_in_and_out() {
    let mut hooks = None;
    assert!(monster_color_code::uninstall(&mut hooks).is_empty());
    let plan = monster_color_code::install(&hooks, &reads(), &CAVES).unwrap();
    assert_eq!(plan.writes.len(), 7);
    assert_eq!(plan.writes[0].addr, 0x1000_0000);
    assert_eq!(plan.writes[0].bytes, vec![0u8; RENDER_MARKER_TABLE_BYTES]);
    assert_eq!(plan.writes[2].addr, NAME_RENDER_HOOK_ADDR);
    assert_eq!(landing(NAME_RENDER_HOOK_ADDR, &plan.writes[2].bytes), 0x1001_0000);
    assert_eq!(landing(TEXT_DRAW_FN, &plan.writes[5].bytes), 0x1002_0000);
    settle_install(&mut hooks, plan.state.ok());
    assert!(monster_color_code::is_installed(&hooks));
    assert!(monster_color_code::install(&hooks, &reads(), &CAVES).is_none());
    let out = monster_color_code::uninstall(&mut hooks);
    let site = out.iter().find(|r| r.addr == NAME_RENDER_HOOK_ADDR).unwrap();
    assert_eq!(restore_action(&plan.writes[2].bytes, site), RestoreAction::WriteOriginal);
    assert_eq!(site.original, NAME_RENDER_ORIGINAL_BYTES);
    assert!(!monster_color_code::is_installed(&hooks));
}

#[test]
fn forced_white_is_put_right() {
    let mut r = reads();
    r.hover = Some(HOVER_NAME_COLOR_FORCED_WHITE_BYTES.to_vec());
    let plan = monster_color_code::install(&None, &r, &CAVES).unwrap();
    assert_eq!(plan.writes.len(), 8);
    assert_eq!(plan.writes[3].addr, HOVER_NAME_COLOR_ADDR);
    assert_eq!(plan.writes[3].bytes, HOVER_NAME_COLOR_ORIGINAL_BYTES);
    assert!(plan.state.is_ok());
}

/// The fault, and how many writes go before it.
fn fault(r: &SiteReads, caves: &Caves) -> (SiteFault, usize) {
    let plan = monster_color_code::install(&None, r, caves).unwrap();
    (plan.state.unwrap_err(), plan.writes.len())
}

#[test]
fn every_strange_site_is_named() {
    let strange = || Some(vec![0xCCu8; 3]);
    let unexpected = |r: SiteReads, site: Site, writes: usize| {
        assert_eq!(fault(&r, &CAVES), (SiteFault::Unexpected(site), writes));
    };
    unexpected(SiteReads { name_render: strange(), ..reads() }, Site::NameRender, 1);
    unexpected(SiteReads { hover: strange(), ..reads() }, Site::Hover, 3);
    unexpected(SiteReads { overhead: strange(), ..reads() }, Site::Overhead, 3);
    unexpected(SiteReads { overhead_reset: strange(), ..reads() }, Site::OverheadReset, 3);
    unexpected(SiteReads { text_draw: strange(), ..reads() }, Site::TextDraw, 3);
    unexpected(SiteReads { text_draw_compact: strange(), ..reads() }, Site::TextDrawCompact, 3);
    let legacy = Some(vec![0xE9u8, 1, 2, 3, 4]);
    unexpected(
        SiteReads { overhead: legacy, text_draw: strange(), ..reads() },
        Site::TextDraw,
        4,
    );
}

#[test]
fn faults_come_in_the_order_of_the_writes() {
    let unread = SiteReads { name_render: None, hover: None, ..reads() };
    let none = Caves { name_render: None, text_draw: None, text_draw_compact: None, ..CAVES };
    assert_eq!(fault(&unread, &none), (SiteFault::Unreadable(Site::NameRender), 1));
    let unread = SiteReads { hover: None, ..reads() };
    assert_eq!(fault(&unread, &none), (SiteFault::NoCave(Site::NameRender), 1));
    let one = Caves { text_draw: None, text_draw_compact: None, ..CAVES };
    assert_eq!(fault(&unread, &one), (SiteFault::Unreadable(Site::Hover), 3));
    let unread = SiteReads { text_draw_compact: None, ..reads() };
    assert_eq!(fault(&unread, &one), (SiteFault::Unreadable(Site::TextDrawCompact), 3));
    assert_eq!(fault(&reads(), &one), (SiteFault::NoCave(Site::TextDraw), 3));
    let two = Caves { text_draw_compact: None, ..CAVES };
    assert_eq!(fault(&reads(), &two), (SiteFault::NoCave(Site::TextDrawCompact), 4));
}

#[test]
fn marked_objects_stand_in_the_table() {
    let raw = write_render_marker_table(&[0x1111_1111, 0x2222_2222]);
    assert_eq!(raw.len(), RENDER_MARKER_TABLE_BYTES);
    assert_eq!(&raw[..4], &[2, 0, 0, 0]);
    assert_eq!(&raw[4..8], &[0x11; 4]);
    assert_eq!(&raw[8..12], &[0x22; 4]);
    assert!(raw[12..].iter().all(|b| *b == 0));
    let many: Vec<u32> = (1..=200).collect();
    let raw = write_render_marker_table(&many);
    assert_eq!(&raw[..4], &[128, 0, 0, 0]);
    assert_eq!(&raw[512..516], &[128, 0, 0, 0]);
}
