use assist::profile::sanitize_filename;

#[test]
fn sanitize_keeps_normal_chars() {
    assert_eq!(sanitize_filename("Sqw887979"), "Sqw887979");
    assert_eq!(sanitize_filename("玩家A"), "玩家A");
}

#[test]
fn sanitize_replaces_path_chars() {
    assert_eq!(sanitize_filename("a/b\\c"), "a_b_c");
    assert_eq!(sanitize_filename("a:b?c*"), "a_b_c_");
    assert_eq!(sanitize_filename("a<b>c|d\""), "a_b_c_d_");
}
