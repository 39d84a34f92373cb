use assist::class_remap::remap;

#[test]
fn law_class_walk_haste_remaps() {
    assert_eq!(remap(3, 37), 42);
    assert_eq!(remap(2, 37), 24);
    assert_eq!(remap(0, 37), 37);
}

#[test]
fn agnostic_state_ids_pass_through() {
    assert_eq!(remap(3, 44), 44);
    assert_eq!(remap(2, 10), 10);
}

#[test]
fn elf_remaps() {
    assert_eq!(remap(4, 14), 31);
    assert_eq!(remap(4, 15), 30);
    assert_eq!(remap(4, 16), 32);
    assert_eq!(remap(4, 17), 29);
    assert_eq!(remap(4, 140), 121);
}
