use exobio_rat::text::{decimal_string, group, pad_left, parse_u64, truncate};

#[test]
fn group_inserts_thousands_separators() {
    assert_eq!(group(0), "0");
    assert_eq!(group(7), "7");
    assert_eq!(group(999), "999");
    assert_eq!(group(1000), "1,000");
    assert_eq!(group(12345), "12,345");
    assert_eq!(group(1234567), "1,234,567");
    assert_eq!(group(u64::MAX), "18,446,744,073,709,551,615");
}

#[test]
fn group_keeps_the_digits() {
    for v in [0u64, 5, 42, 999, 1000, 65536, 7252500, 19010800, u64::MAX] {
        assert_eq!(group(v).replace(',', ""), v.to_string());
    }
}

#[test]
fn decimal_string_matches_to_string() {
    for v in [0u64, 9, 10, 99, 100, 161732389185, u64::MAX] {
        assert_eq!(decimal_string(v), v.to_string());
    }
}

#[test]
fn decimal_text_reads_back() {
    for v in [0u64, 1, 10, 4096, 161732389185, u64::MAX] {
        assert_eq!(parse_u64(&decimal_string(v)), Some(v));
    }
}

#[test]
fn parse_u64_accepts_what_from_str_accepts() {
    let cases = [
        "0", "42", "+7", "007", "18446744073709551615", "18446744073709551616", "", "+", "-1",
        "-0", " 1", "1 ", "12a", "++1", "99999999999999999999", "1_000",
    ];
    for case in cases {
        assert_eq!(parse_u64(case), case.parse::<u64>().ok(), "case {case:?}");
    }
}

#[test]
fn parse_u64_values() {
    assert_eq!(parse_u64("161732389185"), Some(161732389185));
    assert_eq!(parse_u64("+12"), Some(12));
    assert_eq!(parse_u64("abc"), None);
    assert_eq!(parse_u64("18446744073709551616"), None);
}

#[test]
fn truncate_cuts_with_an_ellipsis() {
    assert_eq!(truncate("Sol", 20), "Sol");
    assert_eq!(truncate("abc", 3), "abc");
    assert_eq!(truncate("abcdef", 4), "abc…");
    assert_eq!(truncate("abcd", 1), "…");
    assert_eq!(truncate("abcd", 0), "…");
    assert_eq!(truncate("", 0), "");
    assert_eq!(truncate("Tosia EN-H b37-0 B 1 a", 20), "Tosia EN-H b37-0 B …");
    assert_eq!(truncate("ééééé", 3), "éé…");
}

#[test]
fn pad_left_right_aligns() {
    assert_eq!(pad_left("1,000".to_string(), 12), "       1,000");
    assert_eq!(pad_left("123456789012345".to_string(), 12), "123456789012345");
    assert_eq!(pad_left(String::new(), 2), "  ");
    assert_eq!(format!("{:>12}", group(7252500)), pad_left(group(7252500), 12));
}
