use web_crawler::text::{decimal_string, trim};

#[test]
fn decimal_strings() {
    assert_eq!(decimal_string(0), "0");
    assert_eq!(decimal_string(7), "7");
    assert_eq!(decimal_string(10), "10");
    assert_eq!(decimal_string(1234567890), "1234567890");
    assert_eq!(decimal_string(u64::MAX), u64::MAX.to_string());
}

#[test]
fn decimal_strings_read_back() {
    for n in [0u64, 9, 10, 99, 100, 4096, 1_000_000_007, u64::MAX - 1] {
        let s = decimal_string(n);
        assert_eq!(s.parse::<u64>().unwrap(), n);
        assert!(n == 0 || !s.starts_with('0'));
    }
}

#[test]
fn trim_matches_str_trim() {
    for s in [
        "",
        "   ",
        "abc",
        "  abc  ",
        "\n\t a b \r\n",
        "\u{a0}\u{2003}wide\u{3000}",
        "x\u{85}",
        "\u{200b}zero-width stays\u{200b}",
        "é ü",
    ] {
        assert_eq!(trim(s), s.trim());
    }
}

#[test]
fn trim_is_idempotent() {
    let once = trim("  \u{2028} title \u{2029} ");
    assert_eq!(once, "title");
    assert_eq!(trim(&once), once);
}
