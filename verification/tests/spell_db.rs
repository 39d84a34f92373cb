use assist::spell_db::strip_paren_suffix;

#[test]
fn strip_paren_suffix_basic() {
    assert_eq!(strip_paren_suffix("加速術 (40/0)"), "加速術");
    assert_eq!(strip_paren_suffix("魔法相剋術 (40/0/2)"), "魔法相剋術");
    assert_eq!(strip_paren_suffix("造痕術 (5/80/1)"), "造痕術");
    assert_eq!(strip_paren_suffix("初級瘟疫術 (4/0)"), "初級瘟疫術");
}

#[test]
fn strip_paren_suffix_no_space_before_paren() {
    assert_eq!(strip_paren_suffix("三重矢(15/0)"), "三重矢");
    assert_eq!(strip_paren_suffix("集中射(10/0/1)"), "集中射");
    assert_eq!(strip_paren_suffix("理解屬性(10/0)"), "理解屬性");
}

#[test]
fn strip_paren_suffix_no_suffix() {
    assert_eq!(strip_paren_suffix("加速術"), "加速術");
    assert_eq!(strip_paren_suffix(""), "");
}

#[test]
fn strip_paren_suffix_non_numeric() {
    assert_eq!(strip_paren_suffix("怪怪 (測試)"), "怪怪 (測試)");
}
