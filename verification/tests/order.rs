use libra::order::str_less;

#[test]
fn strings_order_by_code_point_with_prefixes_first() {
    assert!(str_less("abc", "abd"));
    assert!(str_less("ab", "abc"));
    assert!(!str_less("abc", "abc"));
    assert!(!str_less("b", "abc"));
    assert!(str_less("", "a"));
    assert!(str_less("Z", "a"));
}
