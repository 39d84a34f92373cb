use assist::input_sim::fkey_vk;

#[test]
fn fkey_vk_range() {
    assert_eq!(fkey_vk(1), Some(0x70));
    assert_eq!(fkey_vk(12), Some(0x7B));
    assert_eq!(fkey_vk(0), None);
    assert_eq!(fkey_vk(13), None);
}
