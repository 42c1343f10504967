use autogit::text::{dec_string, find_sub, parse_u64, to_chars, trim_chars};

fn chars(s: &str) -> Vec<char> {
    s.chars().collect()
}

#[test]
fn decimal_formatting() {
    assert_eq!(dec_string(0), "0");
    assert_eq!(dec_string(7), "7");
    assert_eq!(dec_string(1700000000), "1700000000");
    assert_eq!(dec_string(u64::MAX), "18446744073709551615");
}

#[test]
fn decimal_parsing() {
    assert_eq!(parse_u64(&chars("0")), Some(0));
    assert_eq!(parse_u64(&chars("1700000000")), Some(1700000000));
    assert_eq!(parse_u64(&chars("18446744073709551615")), Some(u64::MAX));
    // One past the maximum overflows.
    assert_eq!(parse_u64(&chars("18446744073709551616")), None);
    assert_eq!(parse_u64(&chars("")), None);
    assert_eq!(parse_u64(&chars("12a")), None);
    assert_eq!(parse_u64(&chars("-1")), None);
}

#[test]
fn substring_search_finds_first() {
    assert_eq!(find_sub(&chars("abcabc"), &chars("bc")), Some(1));
    assert_eq!(find_sub(&chars("abc"), &chars("zx")), None);
    assert_eq!(find_sub(&chars("abc"), &chars("")), Some(0));
}

#[test]
fn trimming_matches_std() {
    let cases = ["  a b  ", "\t\nx\r", "", "   ", "no-trim"];
    for c in cases {
        let trimmed: String = trim_chars(&to_chars(c)).into_iter().collect();
        assert_eq!(trimmed, c.trim());
    }
}
