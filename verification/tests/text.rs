use mobius::text::{decimal_string, eq_ignore_ascii_case, to_ascii_lowercase, trim};

#[test]
fn trims_whitespace_at_both_ends() {
    assert_eq!(trim("  a b \t\n"), "a b");
    assert_eq!(trim("\u{2003}x\u{00a0}"), "x");
    assert_eq!(trim("   "), "");
    assert_eq!(trim(""), "");
    assert_eq!(trim("abc"), "abc");
}

#[test]
fn decimal_numerals() {
    assert_eq!(decimal_string(0), "0");
    assert_eq!(decimal_string(7), "7");
    assert_eq!(decimal_string(10), "10");
    assert_eq!(decimal_string(1234567890), "1234567890");
    assert_eq!(decimal_string(u64::MAX), u64::MAX.to_string());
}

#[test]
fn ascii_case() {
    assert_eq!(to_ascii_lowercase("MiXeD.PDF"), "mixed.pdf");
    assert_eq!(to_ascii_lowercase("ÄÖ"), "ÄÖ");
    assert!(eq_ignore_ascii_case("PDF", "pdf"));
    assert!(!eq_ignore_ascii_case("pdf", "pdfx"));
}
