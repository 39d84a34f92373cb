use assist::monster_color_patch::{
    name_addr_ok, read_entity_alias_names, read_local_player_identity, read_player_level,
    refresh_entity, remember_original_color, restore_touched_colors, scan_is_reported,
    sprite_type_for, start_scan, take_original_color, ColorWrite, LocalPlayerIdentity,
    MonsterNameColor, PlayerLevelSource, ENTITY_COLOR_OFFSET, ENTITY_LEVEL_CANDIDATE_OFFSET,
    ENTITY_MAP_OFFSET, ENTITY_NAME_PTR_OFFSET, ENTITY_READ_LEN, ENTITY_SERVER_ID_OFFSET,
    ENTITY_SPRITE_OFFSET, OBFUSCATED_INDEX_XOR, PLAYER_VFPTR,
};
use assist::monster_color_patch::{decode_obfuscated_index, patch_color_for_level};
use assist::notification::layout::{fade_alpha, float_layout};
use assist::notification::overlay::{
    blit_grayscale_mask, blit_png, can_render, clear, fill_rect, force_alpha, render, snapshot_of,
    write_snapshot, FloatView, Icon, IconSizes, RenderOp, Snapshot, ToastView,
};
use assist::notification::packet_hook::{
    self, counter_value, drain, drain_plan, slot_addr, slot_packet, PacketHookHandle,
    ORIGINAL_BYTES,
};
use assist::notification::queue::NotificationQueue;
use assist::notification::renderer::{can_place, deserialize, serialize, DrawCmd};
use assist::notification::renderer_install::{
    build_wrapper, exit_patch, find_exits, img_hover_cave, RendererHandle, ORIGINAL_DRAW_FN,
};
use assist::notification::sprite_pak::{
    decode_png_stream, find_file, index_archive, is_sprite_index, load_png, load_png_paired,
    load_png_raw, pair_pngs, picture_of_frame, raw_len, DecodedPng,
};
use assist::notification::tbt::{decode_tbt, get_icon, IconLoad, IconStore};
use assist::notification::types::{with_commas, FloatKind, LiveFloat, LiveToast, Notification};
use assist::notification::{
    image_draw_hook, on_packet_recv, on_polling_tick, packet_note, probe_total_hits, receive_all,
    recent_opcodes, renderer_cave_addr, renderer_install, set_enabled, Arrival, PacketNote, Probe,
    ProbeReport, Toggles,
};
use assist::notification::dispatcher::parse_packet_box;
use std::collections::HashMap;

const SECOND: u64 = 1_000_000_000;

fn on() -> Toggles {
    let mut t = Toggles::default();
    set_enabled(&mut t, true, true);
    t
}

#[test]
fn packets_become_notifications() {
    let mut q = NotificationQueue::new();
    on_packet_recv(&mut q, &on(), &[190, 0x60, 0x07, b'A', 0], 0);
    on_packet_recv(&mut q, &on(), &[192, 1, 79, 0, 0, 0], 0);
    assert_eq!((q.toast_count(), q.float_count()), (1, 1));
    on_packet_recv(&mut q, &on(), &[7], 0);
    assert_eq!((q.toast_count(), q.float_count()), (1, 1));
}

#[test]
fn what_is_switched_off_stays_as_it_is() {
    let mut toggles = on();
    set_enabled(&mut toggles, false, true);
    let mut q = NotificationQueue::new();
    let arrivals = vec![
        Arrival { payload: vec![190, 0x60, 0x07, b'A', 0], at: 1 },
        Arrival { payload: vec![192, 0, 5, 0, 0, 0], at: 2 },
    ];
    receive_all(&mut q, &toggles, &arrivals);
    assert_eq!((q.toast_count(), q.float_count()), (0, 1));
    set_enabled(&mut toggles, true, false);
    receive_all(&mut q, &toggles, &arrivals);
    assert_eq!((q.toast_count(), q.floats[0].amount), (1, 5));
}

#[test]
fn frames_show_what_lives() {
    let mut q = NotificationQueue::new();
    q.push(Notification::ToastBottomLeft { gfxid: 5, text: b"A".to_vec() }, 0);
    q.push(Notification::FloatingScreen { kind: FloatKind::Gold, amount: 9 }, 4 * SECOND);
    let frame = on_polling_tick(&mut q, 4 * SECOND, 800, 600);
    assert_eq!((frame.toasts.len(), frame.floats.len(), frame.cmds.len()), (1, 1, 3));
    let frame = on_polling_tick(&mut q, 5 * SECOND, 800, 600);
    assert_eq!((frame.toasts.len(), frame.floats.len(), frame.cmds.len()), (0, 1, 1));
    q.tick(5 * SECOND);
    assert_eq!((q.toast_count(), q.float_count()), (0, 1));
}

#[test]
fn there_is_one_number_per_kind() {
    let mut q = NotificationQueue::new();
    for i in 0..50 {
        let kind = if i % 2 == 0 { FloatKind::Exp } else { FloatKind::Gold };
        q.push(Notification::FloatingScreen { kind, amount: u32::MAX }, i);
    }
    assert_eq!(q.float_count(), 2);
    assert_eq!(q.floats[0].amount, u32::MAX);
}

#[test]
fn hits_are_probed_now_and_again() {
    let mut state = None;
    assert_eq!(probe_total_hits(&mut state, 0, 10, 1), ProbeReport::Baseline);
    assert_eq!(probe_total_hits(&mut state, 4 * SECOND, 12, 1), ProbeReport::Nothing);
    assert_eq!(
        probe_total_hits(&mut state, 5 * SECOND, 15, 3),
        ProbeReport::Grown { total: 5, packetbox: 2 }
    );
    assert_eq!(state, Some(Probe { at: 5 * SECOND, total: 15, packetbox: 3 }));
    let ring: Vec<u8> = (0..16).collect();
    assert_eq!(recent_opcodes(&ring, 18, 3), vec![15, 0, 1]);
    assert_eq!(recent_opcodes(&ring, 40, 40).len(), 16);
}

#[test]
fn packets_are_noted() {
    assert_eq!(packet_note(&[]), PacketNote::Silent);
    assert_eq!(packet_note(&[190, 1]), PacketNote::Silent);
    assert_eq!(
        packet_note(&[190, 0x34, 0x12, b'A', b'B', 0]),
        PacketNote::Item { gfxid: 0x1234, name_bytes: 2 }
    );
    assert_eq!(packet_note(&[192, 1, 2, 0, 0, 0]), PacketNote::Drop { kind: 1, amount: 2 });
    assert_eq!(packet_note(&[192, 1]), PacketNote::Silent);
    assert_eq!(packet_note(&[5, 6]), PacketNote::Unknown { sub_id: 5, len: 2 });
}

#[test]
fn the_ring_is_drained_to_its_end() {
    let mut handle =
        PacketHookHandle { cave_addr: 0x1000, original_bytes: ORIGINAL_BYTES, local_head: 4 };
    assert_eq!(slot_addr(0x1000, 17), 0x1000 + 0x200 + 80);
    let plan = drain_plan(&handle, 24);
    assert_eq!((plan.first, plan.count, plan.lost), (8, 16, 4));
    let mut slot = vec![0u8; 80];
    slot[0] = 192;
    slot[1] = 1;
    slot[4..9].copy_from_slice(&[0, 6, 0, 0, 0]);
    let packets = drain(&mut handle, 24, &vec![slot; 16]);
    assert_eq!(packets.len(), 16);
    assert_eq!(packets[0], vec![192, 0, 6, 0, 0, 0]);
    assert_eq!(handle.local_head, 24);
    assert_eq!(drain_plan(&handle, 24).count, 0);
    assert_eq!(counter_value(Some(&[1, 2, 0, 0])), 0x201);
    assert_eq!(counter_value(None), 0);
}

#[test]
fn slots_keep_what_the_packet_says() {
    let packet = [190u8, 0x60, 0x07, b'A', b'B', 0];
    let mut slot = vec![0u8; 80];
    slot[0] = 190;
    slot[1] = 1;
    slot[4..9].copy_from_slice(&packet[1..6]);
    assert_eq!(parse_packet_box(&slot_packet(&slot)), parse_packet_box(&packet));
}

#[test]
fn the_packet_hook_goes_in_and_out() {
    let plan = packet_hook::install(0x1000_0000);
    assert_eq!(plan.writes.len(), 3);
    assert!(packet_hook::site_is_original(&ORIGINAL_BYTES));
    assert!(!packet_hook::site_is_original(&plan.writes[2].bytes));
    let back = packet_hook::uninstall(&plan.handle);
    assert_eq!(back.addr, plan.writes[2].addr);
    assert_eq!(back.bytes, ORIGINAL_BYTES);
}

#[test]
fn lists_read_as_they_were_written() {
    let cmds = vec![DrawCmd::new(7, -1, 2), DrawCmd::new(8, i32::MIN, i32::MAX)];
    let mut buf = serialize(&cmds);
    buf.extend_from_slice(&[1, 2, 3]);
    assert_eq!(deserialize(&buf), Some(cmds));
}

#[test]
fn the_drawing_hooks_are_written() {
    let (writes, handle) = image_draw_hook::install(0x1000_0000);
    assert_eq!((writes.len(), handle.cave), (3, 0x1000_0000));
    assert!(image_draw_hook::prologue_is_original(&image_draw_hook::ORIGINAL_PROLOGUE));
    assert!(!image_draw_hook::prologue_is_original(&writes[2].bytes));
    let list = serialize(&[DrawCmd::new(7, 1, 2)]);
    let writes = image_draw_hook::update_list(0x1000_0000, &list);
    assert_eq!(writes.len(), 3);
    assert_eq!(writes[0].bytes, vec![0, 0, 0, 0]);
    assert_eq!(writes[1].bytes, &list[4..]);
    assert_eq!(writes[2].bytes, vec![1, 0, 0, 0]);
    assert!(image_draw_hook::update_list(0x1000_0000, &[1]).is_empty());
    assert_eq!(image_draw_hook::read_diag(Some(1), Some(2), Some(3)), Some((1, 2, 3)));
    assert_eq!(image_draw_hook::read_diag(None, Some(2), Some(3)), None);
}

#[test]
fn exits_of_the_other_cave_are_led_away() {
    let cave = 0x2000_0000u32;
    let mut bytes = vec![0x90u8; 20];
    bytes[5] = 0xE9;
    bytes[6..10].copy_from_slice(&ORIGINAL_DRAW_FN.wrapping_sub(cave + 10).to_le_bytes());
    bytes[12] = 0xE9;
    assert_eq!(find_exits(cave, &bytes), vec![5]);
    let patch = exit_patch(cave, 5, 0x3000_0000);
    assert_eq!(patch.addr, cave + 6);
    assert_eq!(patch.bytes, (0x3000_0000u32 - (cave + 10)).to_le_bytes());
    let mut hook = vec![0xE8u8];
    hook.extend_from_slice(&cave.wrapping_sub(0x0049_1179).to_le_bytes());
    assert_eq!(img_hover_cave(&hook), Some(cave));
    assert_eq!(img_hover_cave(&[0x90; 5]), None);
    let writes = renderer_install::install(0x1000, 0x2000, 0x3000);
    assert_eq!(writes.len(), 4);
    assert_eq!(writes[3].bytes, build_wrapper(0x3000, 0x2000));
    let list = serialize(&[DrawCmd::new(7, 1, 2)]);
    assert_eq!(renderer_install::update_list(0x1000, &list)[2].bytes, vec![1, 0, 0, 0]);
    let handle = RendererHandle {
        list_cave: 1,
        notif_draw_cave: 2,
        wrapper_cave: 3,
        img_hover_cave: 4,
        patched_exits: vec![],
    };
    assert_eq!(renderer_cave_addr(&Some(handle)), Some(2));
    assert_eq!(renderer_cave_addr(&None), None);
}

#[test]
fn notifications_fade_and_rise() {
    assert_eq!(fade_alpha(0, 1_000_000, 2_000_000), 255);
    assert_eq!(fade_alpha(1_500_000, 1_000_000, 2_000_000), 128);
    assert_eq!(fade_alpha(2_000_000, 1_000_000, 2_000_000), 0);
    let f = LiveFloat { spawned_at: 0, kind: FloatKind::Exp, amount: 1, cascade_offset: 0 };
    let mut y = i32::MAX;
    for t in [0, 100_000_000, 700_000_000, 1_500_000_000] {
        let l = float_layout(&f, 800, 600, t);
        assert!(l.y <= y);
        y = l.y;
    }
}

#[test]
fn commas_only_group_digits() {
    for n in [7u32, 1_000, 999_999, 12_345_678] {
        assert_eq!(with_commas(n).replace(',', ""), n.to_string());
    }
}

fn encoded(width: u32, height: u32, color: png::ColorType, data: &[u8]) -> Vec<u8> {
    let mut buf = Vec::new();
    let mut enc = png::Encoder::new(&mut buf, width, height);
    enc.set_color(color);
    enc.set_depth(png::BitDepth::Eight);
    let mut w = enc.write_header().unwrap();
    w.write_image_data(data).unwrap();
    drop(w);
    buf
}

#[test]
fn every_kind_of_samples_becomes_rgba() {
    let rgba = encoded(1, 1, png::ColorType::Rgba, &[1, 2, 3, 4]);
    assert_eq!(decode_png_stream(&rgba, false).unwrap().rgba, vec![1, 2, 3, 4]);
    let rgb = encoded(2, 1, png::ColorType::Rgb, &[1, 2, 3, 4, 5, 6]);
    let p = decode_png_stream(&rgb, false).unwrap();
    assert_eq!((p.width, p.height), (2, 1));
    assert_eq!(p.rgba, vec![1, 2, 3, 255, 4, 5, 6, 255]);
    let gray = encoded(1, 1, png::ColorType::Grayscale, &[9]);
    assert_eq!(decode_png_stream(&gray, false).unwrap().rgba, vec![9, 9, 9, 255]);
    let gray = encoded(1, 1, png::ColorType::GrayscaleAlpha, &[9, 8]);
    assert_eq!(decode_png_stream(&gray, false).unwrap().rgba, vec![9, 9, 9, 8]);
    assert!(decode_png_stream(b"no picture", false).is_none());
    assert!(picture_of_frame(1, 1, 3, vec![0], false).is_none());
}

#[test]
fn small_samples_are_taken_as_bytes() {
    let mut file = Vec::new();
    let mut enc = png::Encoder::new(&mut file, 4, 2);
    enc.set_color(png::ColorType::Grayscale);
    enc.set_depth(png::BitDepth::Four);
    let mut w = enc.write_header().unwrap();
    w.write_image_data(&[0x12, 0x34, 0x56, 0x78]).unwrap();
    drop(w);
    let p = load_png(Some(&file)).unwrap();
    assert_eq!((p.width, p.height), (4, 2));
    assert_eq!(&p.rgba[0..8], &[0x12, 0x12, 0x12, 255, 0x34, 0x34, 0x34, 255]);
    assert_eq!(p.rgba.len(), 16);
    assert!(!p.is_complete());
    assert!(load_png_paired(Some(&file), Some(&file)).is_none());
    assert!(picture_of_frame(4, 2, 0, vec![0, 0, 0, 0], true).is_none());
    assert!(picture_of_frame(4, 2, 0, vec![0, 0, 0, 0], false).is_some());
    assert!(DecodedPng { width: 1, height: 1, rgba: vec![0; 4] }.is_complete());
}

#[test]
fn black_corners_make_black_transparent() {
    let mut data = vec![0u8; 27];
    data[12..15].copy_from_slice(&[5, 6, 7]);
    let file = encoded(3, 3, png::ColorType::Rgb, &data);
    let keyed = load_png(Some(&file)).unwrap();
    assert_eq!(&keyed.rgba[0..4], &[0, 0, 0, 0]);
    assert_eq!(&keyed.rgba[16..20], &[5, 6, 7, 255]);
    let raw = load_png_raw(Some(&file)).unwrap();
    assert_eq!(&raw.rgba[0..4], &[0, 0, 0, 255]);
    assert!(load_png(None).is_none());
}

#[test]
fn pairs_give_color_and_alpha() {
    let black = encoded(3, 1, png::ColorType::Rgb, &[10, 20, 30, 0, 0, 0, 50, 0, 0]);
    let white = encoded(3, 1, png::ColorType::Rgb, &[10, 20, 30, 255, 255, 255, 177, 127, 127]);
    let p = load_png_paired(Some(&black), Some(&white)).unwrap();
    assert_eq!(&p.rgba[0..4], &[10, 20, 30, 255]);
    assert_eq!(&p.rgba[4..8], &[0, 0, 0, 0]);
    assert_eq!(p.rgba[11], 128);
    assert_eq!(p.rgba[8], 100);
    assert!(load_png_paired(Some(&black), None).is_none());
    let small = DecodedPng { width: 1, height: 1, rgba: vec![0; 4] };
    let large = DecodedPng { width: 2, height: 1, rgba: vec![0; 8] };
    assert!(pair_pngs(&small, &large).is_none());
}

fn index(entries: &[(&[u8], u32, u32)]) -> Vec<u8> {
    let mut data = (entries.len() as u32).to_le_bytes().to_vec();
    for (name, offset, size) in entries {
        data.extend_from_slice(&offset.to_le_bytes());
        let mut field = name.to_vec();
        field.resize(20, 0);
        data.extend_from_slice(&field);
        data.extend_from_slice(&size.to_le_bytes());
    }
    data
}

#[test]
fn archives_are_indexed_by_name() {
    let mut files = Vec::new();
    index_archive(&mut files, 0, &index(&[(b"1.png", 10, 20), (b"\xFF\xFE", 1, 2)]));
    index_archive(&mut files, 1, &index(&[(b"1.png", 30, 40), (b"2.tbt", 50, 60)]));
    let one = find_file(&files, "1.png").unwrap();
    assert_eq!((one.pak, one.offset, one.size), (0, 10, 20));
    let two = find_file(&files, "2.tbt").unwrap();
    assert_eq!((two.pak, two.offset, two.size), (1, 50, 60));
    assert_eq!(files.len(), 2);
    assert!(find_file(&files, "3.png").is_none());
    assert!(is_sprite_index("Sprite07.IDX"));
    assert!(!is_sprite_index("sprite07.idx"));
    assert_eq!(raw_len(70_000), 65_536);
    assert_eq!(raw_len(70), 70);
}

#[test]
fn an_index_holds_as_many_files_as_it_says() {
    let mut data = index(&[(b"1.png", 10, 20), (b"2.tbt", 50, 60)]);
    data[0] = 1;
    let mut files = Vec::new();
    index_archive(&mut files, 0, &data);
    assert_eq!(files.len(), 1);
    assert!(find_file(&files, "2.tbt").is_none());
    data[0] = 200;
    data[3] = 0xFF;
    data.push(7);
    let mut files = Vec::new();
    index_archive(&mut files, 0, &data);
    assert_eq!(files.len(), 2);
    let mut files = Vec::new();
    index_archive(&mut files, 0, &[1, 0, 0]);
    assert!(files.is_empty());
}

#[test]
fn only_what_is_shown_has_to_have_a_place() {
    let float = LiveFloat { spawned_at: 0, kind: FloatKind::Exp, amount: 1, cascade_offset: 0 };
    assert!(can_place(&[], &[], i32::MAX, i32::MIN, 0));
    assert!(can_place(&[], &[float], 800, 600, 100));
    assert!(can_place(&[], &[float], i32::MIN, i32::MAX, 0));
    assert!(!can_place(&[], &[float], 800, 600, 40_265_318_400_000_000));
    assert!(can_place(&[LiveToast { spawned_at: 0, gfxid: 1, text: vec![] }], &[], 0, 0, 0));
    assert!(!can_place(&[LiveToast { spawned_at: 0, gfxid: 1, text: vec![] }], &[], 0, i32::MIN, 0));
}

#[test]
fn icons_are_kept() {
    let mut store = IconStore::new();
    assert!(store.needs(5));
    let file = vec![0u8, 0, 1, 1, 1, 0, 1, 0x00, 0x7C];
    assert_eq!(store.ensure_icon(5, Some(&file)), IconLoad::Cached);
    assert!(!store.needs(5));
    assert_eq!(get_icon(&store, 5).unwrap().rgba, vec![255, 0, 0, 255]);
    let blue = vec![0u8, 0, 1, 1, 1, 0, 1, 0x1F, 0x00];
    assert_eq!(store.ensure_icon(5, Some(&blue)), IconLoad::Unneeded);
    assert_eq!(store.ensure_icon(5, None), IconLoad::Unneeded);
    assert_eq!(get_icon(&store, 5).unwrap().rgba, vec![255, 0, 0, 255]);
    assert_eq!(store.ensure_icon(0, None), IconLoad::Unneeded);
    assert_eq!(store.ensure_icon(0, Some(&file)), IconLoad::Unneeded);
    assert!(get_icon(&store, 0).is_none());
    assert!(store.failed.is_empty());
    assert_eq!(store.ensure_icon(6, None), IconLoad::Failed);
    assert_eq!(store.ensure_icon(6, Some(&[0])), IconLoad::FailedAgain);
    let wide = vec![0u8, 0, 1, 1, 1, 200, 1, 0x00, 0x7C];
    assert_eq!(decode_tbt(&wide).unwrap().1, 101);
}

#[test]
fn painting_stays_within_its_rectangle() {
    let mut pixels = vec![7u32; 16];
    fill_rect(&mut pixels, 4, 4, 1, 1, 2, 2, 9);
    for row in 0..4 {
        for col in 0..4 {
            let inside = (1..3).contains(&row) && (1..3).contains(&col);
            assert_eq!(pixels[row * 4 + col], if inside { 9 } else { 7 });
        }
    }
    fill_rect(&mut pixels, 4, 4, -1, 3, 100, 100, 5);
    assert_eq!(&pixels[12..16], &[5, 5, 5, 5]);
    clear(&mut pixels);
    assert!(pixels.iter().all(|p| *p == 0));
}

#[test]
fn pictures_are_painted_with_their_alpha() {
    let png = DecodedPng { width: 1, height: 1, rgba: vec![255, 0, 128, 255] };
    let mut pixels = vec![0u32; 4];
    blit_png(&mut pixels, 2, 2, &png, 1, 0, 255);
    assert_eq!(pixels, vec![0, 0xFFFF_0080, 0, 0]);
    let clear_png = DecodedPng { width: 1, height: 1, rgba: vec![255, 0, 128, 0] };
    blit_png(&mut pixels, 2, 2, &clear_png, 1, 0, 255);
    assert_eq!(pixels[1], 0xFFFF_0080);
    let mut pixels = vec![0u32; 1];
    let white = DecodedPng { width: 1, height: 1, rgba: vec![255, 255, 255, 255] };
    blit_grayscale_mask(&mut pixels, 1, 1, &white, 0, 0, 0x0000_FF00, 255);
    assert_eq!(pixels[0], 0);
    let gray = DecodedPng { width: 1, height: 1, rgba: vec![122, 122, 122, 255] };
    blit_grayscale_mask(&mut pixels, 1, 1, &gray, 0, 0, 0x0000_FF00, 255);
    assert_eq!(pixels[0], 0xFF00_FF00);
    let pale = DecodedPng { width: 1, height: 1, rgba: vec![227, 0, 0, 0] };
    blit_grayscale_mask(&mut pixels, 1, 1, &pale, 0, 0, 0x0000_FF00, 255);
    assert_eq!(pixels[0], 0x3800_3800);
    let mut pixels = vec![0x0012_3456u32, 0];
    force_alpha(&mut pixels, 2, 1, 0, 0, 2, 1, 128);
    assert_eq!(pixels[0] >> 24, 128);
}

const NO_ICONS: IconSizes = IconSizes { bar: false, frame: false, exp: None, gold: None };

#[test]
fn toasts_are_painted_from_the_bottom_up() {
    let snap = Snapshot {
        toasts: vec![
            ToastView { gfxid: 5, text: "A".to_string(), age_ms: 0 },
            ToastView { gfxid: 6, text: "B".to_string(), age_ms: 4_750 },
            ToastView { gfxid: 7, text: "C".to_string(), age_ms: 5_000 },
        ],
        floats: vec![],
        captured_at: None,
    };
    let ops = render(1000, 1000, &snap, &NO_ICONS, &vec![Some((17, 37)), None, None]);
    assert_eq!(ops.len(), 4 + 3);
    assert!(matches!(
        ops[0],
        RenderOp::Fill { x: 12, y: 671, w: 329, h: 37, color: 0xFF20_2020 }
    ));
    assert!(matches!(ops[1], RenderOp::Blit { icon: Icon::Item(5), x: 22, y: 671, alpha: 255 }));
    match &ops[2] {
        RenderOp::Text { text, x, y, color } => {
            assert_eq!((text.as_str(), *x, *y, *color), ("A", 55, 681, 0xFFFF_FFFF));
        }
        _ => panic!("no text"),
    }
    assert!(matches!(ops[3], RenderOp::Alpha { x: 55, y: 681, w: 286, h: 22, alpha: 255 }));
    assert!(matches!(ops[4], RenderOp::Fill { x: 12, y: 632, color: 0x7F20_2020, .. }));
}

#[test]
fn frames_are_painted_as_far_as_their_places_reach() {
    let float = FloatView { kind: FloatKind::Exp, amount: 1, age_ms: 0, cascade_offset: 0 };
    let over = FloatView { age_ms: 1_500, ..float };
    let numbers = |f: FloatView| Snapshot { toasts: vec![], floats: vec![f], captured_at: None };
    let wide = |w: u32, h: u32| IconSizes { exp: Some((w, h)), ..NO_ICONS };
    let top = i32::MAX as u32;
    assert!(can_render(100, 100, &numbers(float), &wide(top - 65, 18), &vec![]));
    assert!(!can_render(100, 100, &numbers(float), &wide(top - 64, 18), &vec![]));
    assert!(can_render(100, 100, &numbers(over), &wide(top, 18), &vec![]));
    assert!(!can_render(100, 100, &numbers(float), &wide(1, 0x8000_0000), &vec![]));
    assert!(can_render(34_636_833, 30_246_248, &numbers(float), &NO_ICONS, &vec![]));
    assert!(!can_render(34_636_834, 1, &numbers(float), &NO_ICONS, &vec![]));
    assert!(!can_render(1, 30_246_249, &numbers(float), &NO_ICONS, &vec![]));
    let ops = render(100, 100, &numbers(float), &wide(top - 65, 18), &vec![]);
    assert!(matches!(ops[1], RenderOp::Text { x: i32::MAX, .. }));
    let toast = ToastView { gfxid: 5, text: String::new(), age_ms: 0 };
    let snap = Snapshot { toasts: vec![toast], floats: vec![], captured_at: None };
    assert!(!can_render(100, 100, &snap, &NO_ICONS, &vec![Some((0x8000_0000, 1))]));
    let ops = render(100, 100, &snap, &NO_ICONS, &vec![Some((u32::MAX, 37))]);
    assert!(matches!(ops[1], RenderOp::Blit { icon: Icon::Item(5), x: 20, y: 32, alpha: 255 }));
}

#[test]
fn numbers_are_painted_with_a_shadow() {
    let float = FloatView { kind: FloatKind::Exp, amount: 6260, age_ms: 750, cascade_offset: 1 };
    let dead = FloatView { age_ms: 1_500, ..float };
    let snap = Snapshot { toasts: vec![], floats: vec![float, dead], captured_at: None };
    let ops = render(1000, 1000, &snap, &NO_ICONS, &vec![]);
    assert_eq!(ops.len(), 3);
    match (&ops[0], &ops[1]) {
        (
            RenderOp::Text { text: shadow, x: sx, y: sy, color: black },
            RenderOp::Text { text, x, y, color },
        ) => {
            assert_eq!((text.as_str(), shadow.as_str()), ("+6,260", "+6,260"));
            assert_eq!((*sx, *sy, *black), (x + 1, y + 1, 0xFF00_0000));
            assert_eq!((*x, *y, *color), (624, 410 - 9 - 30 + 22 + 2, 0xFF60_D72E));
        }
        _ => panic!("no text"),
    }
}

#[test]
fn snapshots_count_in_milliseconds() {
    let toasts = vec![LiveToast { spawned_at: SECOND, gfxid: 5, text: vec![] }];
    let floats =
        vec![LiveFloat { spawned_at: 0, kind: FloatKind::Gold, amount: 3, cascade_offset: 2 }];
    let snap = snapshot_of(&toasts, vec!["A".to_string()], &floats, 2 * SECOND);
    assert_eq!((snap.toasts[0].age_ms, snap.toasts[0].text.as_str()), (1_000, "A"));
    assert_eq!((snap.floats[0].age_ms, snap.floats[0].cascade_offset), (2_000, 2));
    assert_eq!(snap.captured_at, Some(2 * SECOND));
    let mut slot = Snapshot::default();
    write_snapshot(&mut slot, snap);
    assert_eq!(slot.toasts.len(), 1);
}

fn monster(level: u8, color: u16) -> Vec<u8> {
    let mut raw = vec![0u8; ENTITY_READ_LEN];
    let mut put = |at: u32, bytes: &[u8]| {
        raw[at as usize..at as usize + bytes.len()].copy_from_slice(bytes);
    };
    put(0, &PLAYER_VFPTR.to_le_bytes());
    put(ENTITY_SERVER_ID_OFFSET, &200_000_123u32.to_le_bytes());
    put(ENTITY_SPRITE_OFFSET, &94u16.to_le_bytes());
    put(ENTITY_COLOR_OFFSET, &color.to_le_bytes());
    put(ENTITY_LEVEL_CANDIDATE_OFFSET, &[level]);
    put(ENTITY_NAME_PTR_OFFSET, &0x1234_5678u32.to_le_bytes());
    put(ENTITY_MAP_OFFSET, &4u32.to_le_bytes());
    raw
}

#[test]
fn monsters_are_colored_and_get_their_color_back() {
    let mut touched = HashMap::new();
    let mut levels = HashMap::new();
    let types = HashMap::from([(94u16, 10u8)]);
    let me = LocalPlayerIdentity::default();
    let green = MonsterNameColor::Green.rgb565();
    let mut look = |raw: &[u8], touched: &mut HashMap<u32, u16>| {
        let mut stats = start_scan(50);
        refresh_entity(
            &mut stats, touched, &mut levels, &types, &me, 0x100_0000, Some(raw), &[], "", false,
        )
    };
    let plain = monster(55, 0xFFDF);
    assert_eq!(
        look(&plain, &mut touched),
        Some(ColorWrite { entity_addr: 0x100_0000, color: green })
    );
    assert_eq!(touched.get(&0x100_0000), Some(&0xFFDF));
    assert_eq!(look(&monster(55, green), &mut touched), None);
    let weak = monster(1, green);
    assert_eq!(
        look(&weak, &mut touched),
        Some(ColorWrite { entity_addr: 0x100_0000, color: 0xFFDF })
    );
    assert!(touched.is_empty());
}

#[test]
fn the_player_is_left_alone() {
    let mut touched = HashMap::new();
    let mut levels = HashMap::new();
    let types = HashMap::from([(94u16, 10u8)]);
    let me = read_local_player_identity(
        Some(0x100_0000),
        Some(1),
        Some(2),
        "Me".to_string(),
        vec!["Me".to_string()],
    );
    for _ in 0..3 {
        let mut stats = start_scan(1);
        let r = refresh_entity(
            &mut stats,
            &mut touched,
            &mut levels,
            &types,
            &me,
            0x100_0000,
            Some(&monster(99, 0xFFDF)),
            &[],
            "",
            true,
        );
        assert_eq!(r, None);
    }
}

#[test]
fn touched_colors_are_restored() {
    let mut touched = HashMap::new();
    remember_original_color(&mut touched, 5, 0x1111);
    remember_original_color(&mut touched, 5, 0x2222);
    remember_original_color(&mut touched, 6, 0x3333);
    assert_eq!(take_original_color(&mut touched, 6), Some(0x3333));
    let writes = restore_touched_colors(&mut touched);
    assert_eq!(writes, vec![ColorWrite { entity_addr: 5, color: 0x1111 }]);
    assert!(touched.is_empty());
}

#[test]
fn levels_come_from_the_figure_or_the_experience() {
    assert_eq!(read_player_level(Some(42), None), (42, PlayerLevelSource::Direct));
    assert_eq!(read_player_level(None, Some(10_000)), (10, PlayerLevelSource::TotalExp));
    assert_eq!(decode_obfuscated_index(OBFUSCATED_INDEX_XOR ^ 0xFFF), Some(0xFFF));
    for m in [1u32, 50, 51, 60, 70, 80, 120] {
        assert_ne!(patch_color_for_level(m, 50), Some(0xFFDF));
    }
    assert!(name_addr_ok(0x0010_0000));
    assert!(!name_addr_ok(0x7FFF_0000));
    let names = [" A ".to_string(), "".to_string(), "a".to_string(), "B".to_string()];
    assert_eq!(read_entity_alias_names(&names), vec!["A", "B"]);
    assert_eq!(sprite_type_for(&HashMap::from([(1u16, 2u8)]), 1), Some(2));
}

#[test]
fn scans_are_reported_now_and_again() {
    let mut tick = 0;
    let told: Vec<u32> = (1..=40).filter(|_| scan_is_reported(&mut tick)).collect();
    assert_eq!(told, vec![1, 2, 3, 20, 40]);
    assert_eq!(tick, 40);
}
