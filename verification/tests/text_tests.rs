use mv_consistency::text::{decimal_string, push_decimal};

#[test]
fn decimal_of_small_numbers() {
    assert_eq!(decimal_string(0), "0");
    assert_eq!(decimal_string(7), "7");
    assert_eq!(decimal_string(9), "9");
    assert_eq!(decimal_string(10), "10");
    assert_eq!(decimal_string(99), "99");
    assert_eq!(decimal_string(100), "100");
    assert_eq!(decimal_string(1234567890), "1234567890");
}

#[test]
fn decimal_agrees_with_the_standard_rendering() {
    for n in 0..2000usize {
        assert_eq!(decimal_string(n), format!("{}", n));
    }
    assert_eq!(decimal_string(usize::MAX), format!("{}", usize::MAX));
}

#[test]
fn push_decimal_appends() {
    let mut text = String::from("n = ");
    push_decimal(&mut text, 405);
    assert_eq!(text, "n = 405");
    push_decimal(&mut text, 0);
    assert_eq!(text, "n = 4050");
}
