use assist::low_cpu_hook::{
    CODECAVE_SIZE, DATA_GAME_HWND, DATA_GET_ASYNC_KEY_STATE, DATA_GET_FG, DATA_SLEEP,
    TRAMPOLINE_OFFSET, build_shellcode,
};

const PROLOGUE: [u8; 5] = [0x8B, 0xFF, 0x55, 0x8B, 0xEC];

#[test]
fn shellcode_size_correct() {
    let sc = build_shellcode(
        0x1000_0000,
        0x7510_0000,
        0x7520_0000,
        0x7530_0000,
        0x7540_0000,
        0xABCD_EF01,
        &PROLOGUE,
    );
    assert_eq!(sc.len() as u32, CODECAVE_SIZE);
}

#[test]
fn five_pushes_at_start() {
    let sc = build_shellcode(
        0x1000_0000,
        0x7510_0000,
        0x7520_0000,
        0x7530_0000,
        0x7540_0000,
        0xABCD_EF01,
        &PROLOGUE,
    );
    for i in 0..5 {
        assert_eq!(&sc[i * 4..i * 4 + 4], &[0xFF, 0x74, 0x24, 0x14]);
    }
}

#[test]
fn call_trampoline_rel32_correct() {
    let cave = 0x1000_0000u32;
    let sc = build_shellcode(
        cave,
        0x7510_0000,
        0x7520_0000,
        0x7530_0000,
        0x7540_0000,
        0xABCD_EF01,
        &PROLOGUE,
    );
    assert_eq!(sc[0x14], 0xE8);
    let rel = i32::from_le_bytes(sc[0x15..0x19].try_into().unwrap());
    let next_ip = cave + 0x19;
    let target = (next_ip as i64 + rel as i64) as u32;
    assert_eq!(target, cave + TRAMPOLINE_OFFSET);
}

#[test]
fn jnz_skips_to_ret() {
    let sc = build_shellcode(
        0x1000_0000,
        0x7510_0000,
        0x7520_0000,
        0x7530_0000,
        0x7540_0000,
        0xABCD_EF01,
        &PROLOGUE,
    );
    assert_eq!(sc[0x1B], 0x75);
    let target = (0x1D_i16 + sc[0x1C] as i8 as i16) as usize;
    assert_eq!(&sc[target..target + 3], &[0xC2, 0x14, 0x00]);
}

#[test]
fn je_skips_to_xor_eax() {
    let sc = build_shellcode(
        0x1000_0000,
        0x7510_0000,
        0x7520_0000,
        0x7530_0000,
        0x7540_0000,
        0xABCD_EF01,
        &PROLOGUE,
    );
    assert_eq!(sc[0x29], 0x74);
    let target = (0x2B_i16 + sc[0x2A] as i8 as i16) as usize;
    assert_eq!(&sc[target..target + 2], &[0x33, 0xC0]);
}

#[test]
fn trampoline_stolen_then_jmp() {
    let cave = 0x1000_0000u32;
    let peek = 0x7510_0000u32;
    let sc = build_shellcode(
        cave,
        peek,
        0x7520_0000,
        0x7530_0000,
        0x7540_0000,
        0xABCD_EF01,
        &PROLOGUE,
    );
    let off = TRAMPOLINE_OFFSET as usize;
    assert_eq!(&sc[off..off + 5], &PROLOGUE);
    assert_eq!(sc[off + 5], 0xE9);
    let rel = i32::from_le_bytes(sc[off + 6..off + 10].try_into().unwrap());
    let next_ip = cave + off as u32 + 10;
    let target = (next_ip as i64 + rel as i64) as u32;
    assert_eq!(target, peek + 5);
}

#[test]
fn data_section_correct() {
    let sc = build_shellcode(
        0x1000_0000,
        0x7510_0000,
        0x75AB_CDEF,
        0x75DD_EEFF,
        0x75EE_FF00,
        0xABCD_EF01,
        &PROLOGUE,
    );
    assert_eq!(
        u32::from_le_bytes(
            sc[DATA_GET_FG as usize..DATA_GET_FG as usize + 4]
                .try_into()
                .unwrap()
        ),
        0x75AB_CDEF
    );
    assert_eq!(
        u32::from_le_bytes(
            sc[DATA_SLEEP as usize..DATA_SLEEP as usize + 4]
                .try_into()
                .unwrap()
        ),
        0x75DD_EEFF
    );
    assert_eq!(
        u32::from_le_bytes(
            sc[DATA_GAME_HWND as usize..DATA_GAME_HWND as usize + 4]
                .try_into()
                .unwrap()
        ),
        0xABCD_EF01
    );
    assert_eq!(
        u32::from_le_bytes(
            sc[DATA_GET_ASYNC_KEY_STATE as usize..DATA_GET_ASYNC_KEY_STATE as usize + 4]
                .try_into()
                .unwrap()
        ),
        0x75EE_FF00
    );
}

#[test]
fn shellcode_scans_all_virtual_keys_before_sleeping() {
    let sc = build_shellcode(
        0x1000_0000,
        0x7510_0000,
        0x7520_0000,
        0x7530_0000,
        0x7540_0000,
        0xABCD_EF01,
        &PROLOGUE,
    );

    assert!(
        sc.windows(4).any(|w| w == [0x53, 0x31, 0xDB, 0x43]),
        "expected shellcode to preserve EBX and start a virtual-key scan loop"
    );
    assert!(
        sc.windows(6)
            .any(|w| w == [0x81, 0xFB, 0xFF, 0x00, 0x00, 0x00]),
        "expected shellcode to scan through virtual key 0xFE before sleeping"
    );
}
