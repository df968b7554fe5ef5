use rat_quickdb::text::{i64_to_string, join_strings, push_hex_padded, push_u128, str_eq, u64_to_string};

#[test]
fn decimal_rendering() {
    assert_eq!(u64_to_string(0), "0");
    assert_eq!(u64_to_string(u64::MAX), "18446744073709551615");
    assert_eq!(i64_to_string(i64::MIN), "-9223372036854775808");
    assert_eq!(i64_to_string(-7), "-7");
    let mut s = "n=".to_string();
    push_u128(&mut s, u128::MAX);
    assert_eq!(s, format!("n={}", u128::MAX));
}

#[test]
fn hex_rendering_is_padded_and_truncated() {
    let mut s = String::new();
    push_hex_padded(&mut s, 0xab, 4);
    assert_eq!(s, "00ab");
    let mut t = String::new();
    push_hex_padded(&mut t, 0x12345, 4);
    assert_eq!(t, "2345");
}

#[test]
fn joining_and_comparing() {
    let parts = vec!["a".to_string(), "b".to_string(), "c".to_string()];
    assert_eq!(join_strings(&parts, ", "), "a, b, c");
    assert_eq!(join_strings(&vec![], ", "), "");
    assert!(str_eq("汉字", "汉字"));
    assert!(!str_eq("ab", "abc"));
}
