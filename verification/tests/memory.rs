use alacritty::memory::resident_pages;

#[test]
fn statm_second_field_is_resident() {
    assert_eq!(resident_pages("4000 1234 300 10 0 500 0\n"), Some(1234));
}

#[test]
fn statm_extra_whitespace() {
    assert_eq!(resident_pages("  \t4000\n\n  77  "), Some(77));
    assert_eq!(resident_pages("1 +5"), Some(5));
}

#[test]
fn statm_missing_or_malformed_field() {
    assert_eq!(resident_pages(""), None);
    assert_eq!(resident_pages("   "), None);
    assert_eq!(resident_pages("4000"), None);
    assert_eq!(resident_pages("4000   \n"), None);
    assert_eq!(resident_pages("4000 12a4"), None);
    assert_eq!(resident_pages("4000 -12"), None);
    assert_eq!(resident_pages("4000 +"), None);
}

#[test]
fn statm_value_must_fit() {
    assert_eq!(resident_pages("0 18446744073709551615"), Some(u64::MAX));
    assert_eq!(resident_pages("0 18446744073709551616"), None);
    assert_eq!(resident_pages("0 99999999999999999999999 x"), None);
}
