use assist::show_clock_patch::{GateBytes, ORIGINAL_BYTES, PATCHED_BYTES, classify_gate_bytes};

#[test]
fn classifies_original_gate_bytes() {
    assert_eq!(classify_gate_bytes(&ORIGINAL_BYTES), GateBytes::Original);
}

#[test]
fn classifies_patched_gate_bytes() {
    assert_eq!(classify_gate_bytes(&PATCHED_BYTES), GateBytes::Patched);
}

#[test]
fn classifies_unknown_gate_bytes() {
    assert_eq!(
        classify_gate_bytes(&[0x0F, 0x85, 0xA1, 0x00, 0x00, 0x00]),
        GateBytes::Unexpected
    );
    assert_eq!(classify_gate_bytes(&[0x90, 0x90]), GateBytes::Unexpected);
}
