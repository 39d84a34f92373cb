use std::collections::HashMap;

use assist::class_remap::read_class;
use assist::drink_hook::{
    build_force_self_packet_shellcode, build_force_target_packet_shellcode,
    build_one_arg_call_shellcode,
};
use assist::exp_tracker::ExpTracker;
use assist::input_sim::press_fkey;
use assist::monster_color_patch::has_original_color;
use assist::poison_hook::{
    is_damage_poisoned, is_kasuto_poisoned, is_paralyze_poisoned, player_field_addr,
};

#[test]
fn poison_has_its_bit() {
    assert!(is_damage_poisoned(Some(0x20)));
    assert!(is_damage_poisoned(Some(0xFFFF_FFFF)));
    assert!(!is_damage_poisoned(Some(0xFFFF_FFDF)));
    assert!(!is_damage_poisoned(Some(0)));
    assert!(!is_damage_poisoned(None));
    assert!(!is_paralyze_poisoned());
    assert!(!is_kasuto_poisoned());
}

#[test]
fn fields_need_a_player() {
    assert_eq!(player_field_addr(Some(0x0100_0000), 0x20), Some(0x0100_0020));
    assert_eq!(player_field_addr(Some(0), 0x20), None);
    assert_eq!(player_field_addr(None, 0x20), None);
    assert_eq!(read_class(Some(3)), 3);
    assert_eq!(read_class(None), 0);
}

#[test]
fn keys_carry_their_scan_codes() {
    let f1 = press_fkey(1, false).unwrap();
    assert_eq!((f1.vk, f1.lparam_down, f1.lparam_up, f1.hold_ms), (0x70, 0x003B_0001, 0xC03B_0001, 0));
    let f10 = press_fkey(10, true).unwrap();
    assert_eq!((f10.vk, f10.lparam_down, f10.hold_ms), (0x79, 0x0044_0001, 80));
    assert_eq!(press_fkey(11, false).unwrap().lparam_down, 0x0057_0001);
    assert_eq!(press_fkey(12, false).unwrap().lparam_up, 0xC058_0001);
    assert!(press_fkey(0, false).is_none());
    assert!(press_fkey(13, true).is_none());
}

#[test]
fn a_call_pushes_its_argument() {
    assert_eq!(
        build_one_arg_call_shellcode(0x0040_1020, 0x1234_5678),
        vec![
            0x60, 0x68, 0x78, 0x56, 0x34, 0x12, 0xB8, 0x20, 0x10, 0x40, 0x00, 0xFF, 0xD0, 0x83,
            0xC4, 0x04, 0x61, 0xC3,
        ]
    );
}

#[test]
fn skill_packets_split_the_number() {
    let own = build_force_self_packet_shellcode(0x2B);
    assert_eq!(&own[..7], &[0x60, 0xFF, 0x35, 0xB4, 0xF4, 0xAB, 0x00]);
    assert_eq!(&own[7..19], &[0x68, 3, 0, 0, 0, 0x68, 5, 0, 0, 0, 0x6A, 0x06]);
    let other = build_force_target_packet_shellcode(0x2B, 0x0102_0304);
    assert_eq!(&other[..6], &[0x60, 0x68, 0x04, 0x03, 0x02, 0x01]);
    assert_eq!(other[6..], own[7..]);
}

#[test]
fn switching_off_forgets_the_totals() {
    let mut tracker = ExpTracker::default();
    tracker.enable(1000);
    assert!(tracker.enabled);
    tracker.disable();
    assert_eq!(tracker, ExpTracker::default());
    assert!(tracker.tick(2000).is_none());
}

#[test]
fn known_objects_have_a_color_of_their_own() {
    let touched = HashMap::from([(0x0100_0000u32, 0x1234u16)]);
    assert!(has_original_color(&touched, 0x0100_0000));
    assert!(!has_original_color(&touched, 0x0200_0000));
}
