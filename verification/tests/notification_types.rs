use assist::notification::types::with_commas;

#[test]
fn with_commas_zero() {
    assert_eq!(with_commas(0), "0");
}

#[test]
fn with_commas_two_digit() {
    assert_eq!(with_commas(99), "99");
}

#[test]
fn with_commas_three_digit() {
    assert_eq!(with_commas(100), "100");
    assert_eq!(with_commas(999), "999");
}

#[test]
fn with_commas_four_digit() {
    assert_eq!(with_commas(1000), "1,000");
    assert_eq!(with_commas(1234), "1,234");
}

#[test]
fn with_commas_screenshot_value() {
    assert_eq!(with_commas(6260), "6,260");
}

#[test]
fn with_commas_seven_digit() {
    assert_eq!(with_commas(1_000_000), "1,000,000");
}

#[test]
fn with_commas_max() {
    assert_eq!(with_commas(u32::MAX), "4,294,967,295");
}
