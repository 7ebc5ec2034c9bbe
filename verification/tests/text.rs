use mwand::text::{decimal_string, is_blank, is_white_space};

#[test]
fn decimal_rendering() {
    assert_eq!(decimal_string(0), "0");
    assert_eq!(decimal_string(7), "7");
    assert_eq!(decimal_string(10), "10");
    assert_eq!(decimal_string(50), "50");
    assert_eq!(decimal_string(1000), "1000");
    assert_eq!(decimal_string(u32::MAX), u32::MAX.to_string());
}

#[test]
fn blank_output() {
    assert!(is_blank(""));
    assert!(is_blank(" \n\t\r "));
    assert!(is_blank("\u{a0}\u{3000}"));
    assert!(!is_blank("[]"));
    assert!(!is_blank("  x "));
    assert!(!is_blank("\u{fffd}"));
}

#[test]
fn white_space_agrees_with_std() {
    for v in 0u32..0x3100 {
        if let Some(c) = char::from_u32(v) {
            assert_eq!(is_white_space(c), c.is_whitespace(), "{:#x}", v);
        }
    }
}
