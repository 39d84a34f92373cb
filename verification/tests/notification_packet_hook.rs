use assist::notification::packet_hook::{
    CODECAVE_SIZE, NOP_HANDLER_ADDR, OFF_OPCODE_RING, OFF_PACKETBOX_HITS, OFF_RING, OFF_TAIL,
    OFF_TOTAL_HITS, OPCODE_EBP_OFFSET, OPCODE_RING_LEN, ORIGINAL_BYTES, RING_SLOTS,
    SLOT_PAYLOAD_MAX, SLOT_SIZE, SUB_ID_ITEMBOARD, SUB_ID_SHOWDROP, build_shellcode,
    slot_packet,
};

const TEST_CAVE: u32 = 0x10000000;

fn test_sc() -> Vec<u8> {
    build_shellcode(TEST_CAVE)
}

#[test]
fn shellcode_starts_with_lock_inc_total_hits() {
    let sc = test_sc();
    assert_eq!(&sc[0..3], &[0xF0, 0xFF, 0x05]);
    let addr = u32::from_le_bytes([sc[3], sc[4], sc[5], sc[6]]);
    assert_eq!(addr, TEST_CAVE + OFF_TOTAL_HITS);
}

#[test]
fn shellcode_has_opcode_ring_write() {
    let sc = test_sc();
    assert_eq!(sc[7], 0xA1);
    let total_addr = u32::from_le_bytes([sc[8], sc[9], sc[10], sc[11]]);
    assert_eq!(total_addr, TEST_CAVE + OFF_TOTAL_HITS);
    assert_eq!(&sc[12..15], &[0x83, 0xE8, 0x01]);
    assert_eq!(&sc[15..18], &[0x83, 0xE0, 0x0F]);
    assert_eq!(&sc[18..21], &[0x8A, 0x4D, 0xF3]);
    assert_eq!(&sc[21..23], &[0x88, 0x88]);
    let ring_addr = u32::from_le_bytes([sc[23], sc[24], sc[25], sc[26]]);
    assert_eq!(ring_addr, TEST_CAVE + OFF_OPCODE_RING);
}

#[test]
fn shellcode_has_cmp_outer_opcode_190_and_192() {
    let sc = test_sc();
    let mut imms = Vec::new();
    for i in 0..sc.len() - 16 {
        if sc[i] == 0x81 && sc[i + 1] == 0xBD {
            let disp =
                i32::from_le_bytes([sc[i + 2], sc[i + 3], sc[i + 4], sc[i + 5]]);
            if disp != OPCODE_EBP_OFFSET {
                continue;
            }
            let imm =
                u32::from_le_bytes([sc[i + 6], sc[i + 7], sc[i + 8], sc[i + 9]]);
            if sc[i + 10] == 0x0F && sc[i + 11] == 0x84 {
                imms.push(imm);
            }
        }
    }
    assert!(
        imms.contains(&(SUB_ID_ITEMBOARD as u32)),
        "missing cmp ..., 190 + je"
    );
    assert!(
        imms.contains(&(SUB_ID_SHOWDROP as u32)),
        "missing cmp ..., 192 + je"
    );
}

#[test]
fn shellcode_has_lock_inc_packetbox_hits() {
    let sc = test_sc();
    let target = TEST_CAVE + OFF_PACKETBOX_HITS;
    let mut found = false;
    for i in 0..sc.len() - 7 {
        if sc[i] == 0xF0 && sc[i + 1] == 0xFF && sc[i + 2] == 0x05 {
            let a = u32::from_le_bytes([sc[i + 3], sc[i + 4], sc[i + 5], sc[i + 6]]);
            if a == target {
                found = true;
                break;
            }
        }
    }
    assert!(found, "missing lock inc [packetbox_hits]");
}

#[test]
fn shellcode_reads_opcode_byte_from_ebp_minus_d() {
    let sc = test_sc();
    let mut found = false;
    for i in 0..sc.len() - 2 {
        if sc[i] == 0x8A && sc[i + 1] == 0x45 && sc[i + 2] == 0xF3 {
            found = true;
            break;
        }
    }
    assert!(found, "missing mov al, [ebp-0x0d]");
}

#[test]
fn shellcode_uses_correct_tail_addr() {
    let sc = test_sc();
    let tail_addr = TEST_CAVE + OFF_TAIL;
    let mut found = false;
    for i in 0..sc.len() - 5 {
        if (sc[i] == 0x8B && sc[i + 1] == 0x0D)
            || (sc[i] == 0xFF && sc[i + 1] == 0x05)
        {
            let a = u32::from_le_bytes([sc[i + 2], sc[i + 3], sc[i + 4], sc[i + 5]]);
            if a == tail_addr {
                found = true;
                break;
            }
        }
    }
    assert!(found, "shellcode missing tail_addr access");
}

#[test]
fn shellcode_uses_correct_ring_addr() {
    let sc = test_sc();
    let ring_addr = TEST_CAVE + OFF_RING;
    let mut found = false;
    for i in 0..sc.len() - 6 {
        if sc[i] == 0x81 && sc[i + 1] == 0xC1 {
            let a = u32::from_le_bytes([sc[i + 2], sc[i + 3], sc[i + 4], sc[i + 5]]);
            if a == ring_addr {
                found = true;
                break;
            }
        }
    }
    assert!(found, "shellcode missing add ecx, ring_addr");
}

#[test]
fn shellcode_uses_rep_movsb_with_76_count() {
    let sc = test_sc();
    let mut found = false;
    for i in 0..sc.len() - 7 {
        if sc[i] == 0xB9 {
            let cnt = u32::from_le_bytes([sc[i + 1], sc[i + 2], sc[i + 3], sc[i + 4]]);
            if cnt == SLOT_PAYLOAD_MAX
                && sc[i + 5] == 0xF3
                && sc[i + 6] == 0xA4
            {
                found = true;
                break;
            }
        }
    }
    assert!(found, "rep movsb 76 not found");
}

#[test]
fn shellcode_ends_with_jmp_to_nop_handler() {
    let sc = test_sc();
    let n = sc.len();
    assert_eq!(sc[n - 5], 0xE9);
    let next_ip = TEST_CAVE + (n - 5) as u32 + 5;
    let disp = i32::from_le_bytes([sc[n - 4], sc[n - 3], sc[n - 2], sc[n - 1]]);
    assert_eq!(next_ip.wrapping_add_signed(disp), NOP_HANDLER_ADDR);
}

#[test]
fn shellcode_fits_in_256_byte_region() {
    let sc = test_sc();
    assert!(sc.len() < 256, "shellcode {} bytes 超過保留區", sc.len());
    assert!(sc.len() > 60, "shellcode 過小,可能漏 emit");
}

#[test]
fn cave_layout_offsets_sane() {
    assert!(OFF_TOTAL_HITS + 4 <= OFF_PACKETBOX_HITS);
    assert!(OFF_PACKETBOX_HITS + 4 <= OFF_OPCODE_RING);
    assert!(OFF_OPCODE_RING + OPCODE_RING_LEN <= OFF_RING);
    assert!(OFF_RING + RING_SLOTS * SLOT_SIZE <= CODECAVE_SIZE as u32);
}

#[test]
fn original_bytes_match_ja_0x541596() {
    assert_eq!(ORIGINAL_BYTES, [0x0F, 0x87, 0x02, 0x82, 0x00, 0x00]);
}

#[test]
fn drain_logic_itemboard_truncates_at_nul() {
    let mut slot = vec![0u8; SLOT_SIZE as usize];
    slot[0] = SUB_ID_ITEMBOARD;
    slot[1] = 1;
    slot[4] = 0x60;
    slot[5] = 0x07;
    slot[6] = b'A';
    slot[7] = b'B';
    slot[8] = 0;
    slot[9] = 0xFF;

    let synth = slot_packet(&slot);

    assert_eq!(
        synth,
        vec![SUB_ID_ITEMBOARD, 0x60, 0x07, b'A', b'B', 0]
    );
}

#[test]
fn drain_logic_showdrop_takes_5_bytes() {
    let mut slot = vec![0u8; SLOT_SIZE as usize];
    slot[0] = SUB_ID_SHOWDROP;
    slot[1] = 1;
    slot[4] = 0;
    slot[5] = 0x74;
    slot[6] = 0x18;
    slot[7] = 0;
    slot[8] = 0;

    let synth = slot_packet(&slot);

    assert_eq!(synth, vec![SUB_ID_SHOWDROP, 0, 0x74, 0x18, 0, 0]);
}
