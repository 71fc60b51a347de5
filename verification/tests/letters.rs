use word_filter::letters::{is_same_letter, to_lower, to_upper};

#[test]
fn to_lower_agrees_with_the_standard_library() {
    for code in 0u32..0x3000 {
        if let Some(c) = char::from_u32(code) {
            assert_eq!(to_lower(c), c.to_ascii_lowercase());
        }
    }
    assert_eq!(to_lower('A'), 'a');
    assert_eq!(to_lower('Z'), 'z');
    assert_eq!(to_lower('q'), 'q');
    assert_eq!(to_lower('@'), '@');
    assert_eq!(to_lower('['), '[');
    assert_eq!(to_lower('É'), 'É');
}

#[test]
fn to_upper_agrees_with_the_standard_library() {
    for code in 0u32..0x3000 {
        if let Some(c) = char::from_u32(code) {
            assert_eq!(to_upper(c), c.to_ascii_uppercase());
        }
    }
    assert_eq!(to_upper('a'), 'A');
    assert_eq!(to_upper('z'), 'Z');
    assert_eq!(to_upper('Q'), 'Q');
    assert_eq!(to_upper('`'), '`');
    assert_eq!(to_upper('{'), '{');
    assert_eq!(to_upper('é'), 'é');
}

#[test]
fn same_letter_ignores_case_only() {
    assert!(is_same_letter('a', 'A'));
    assert!(is_same_letter('A', 'a'));
    assert!(is_same_letter('m', 'm'));
    assert!(!is_same_letter('a', 'b'));
    assert!(!is_same_letter('é', 'É'));
    assert!(!is_same_letter('@', '`'));
    assert!(is_same_letter('1', '1'));
}
