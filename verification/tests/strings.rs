use highlights::strings::{decimal_string, is_whitespace, trim};

#[test]
fn whitespace_agrees_with_std() {
    for v in 0u32..=0x10ffff {
        if let Some(c) = char::from_u32(v) {
            assert_eq!(is_whitespace(c), c.is_whitespace(), "U+{:04X}", v);
        }
    }
}

#[test]
fn trim_agrees_with_std() {
    for s in ["", "   ", " a ", "\u{3000}keyword\u{2028}", "x", "\t hello world \n"] {
        assert_eq!(trim(s), s.trim());
    }
}

#[test]
fn decimal_numbers() {
    assert_eq!(decimal_string(0), "0");
    assert_eq!(decimal_string(1234567890), "1234567890");
    assert_eq!(decimal_string(u64::MAX), "18446744073709551615");
}
