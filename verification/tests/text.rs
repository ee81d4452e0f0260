use php_guard::text::{
    digit_value, is_space, parse_radix16, parse_token, push_hex_token, push_hex_token_upper,
    render_token, to_chars, trim_range,
};

fn chars(s: &str) -> Vec<char> {
    s.chars().collect()
}

#[test]
fn chars_of_a_string() {
    assert_eq!(to_chars(""), Vec::<char>::new());
    assert_eq!(to_chars("a✓b"), vec!['a', '✓', 'b']);
}

#[test]
fn tokens_are_two_digits_wide() {
    assert_eq!(render_token(0x00), "0x00");
    assert_eq!(render_token(0x0f), "0x0f");
    assert_eq!(render_token(0xa0), "0xa0");
    assert_eq!(render_token(0xff), "0xff");
}

#[test]
fn tokens_are_appended() {
    let mut out = String::from("k=");
    push_hex_token(&mut out, 0xbe);
    push_hex_token_upper(&mut out, 0xbe);
    assert_eq!(out, "k=0xbe0xBE");
}

#[test]
fn every_token_is_what_format_writes() {
    for b in 0..=255u8 {
        assert_eq!(render_token(b), format!("0x{:02x}", b));
        let mut upper = String::new();
        push_hex_token_upper(&mut upper, b);
        assert_eq!(upper, format!("0x{:02X}", b));
    }
}

#[test]
fn digit_values() {
    assert_eq!(digit_value('0'), Some(0));
    assert_eq!(digit_value('9'), Some(9));
    assert_eq!(digit_value('a'), Some(10));
    assert_eq!(digit_value('f'), Some(15));
    assert_eq!(digit_value('A'), Some(10));
    assert_eq!(digit_value('F'), Some(15));
    for c in ['g', 'G', '/', ':', '@', '`', ' ', 'x', '٣', '\u{ff10}'] {
        assert_eq!(digit_value(c), None, "{:?}", c);
    }
}

#[test]
fn radix16_agrees_with_std() {
    let cases = [
        "", "0", "7", "ff", "FF", "fF", "100", "0ff", "000000000000000000ff", "+", "+1", "+ff",
        "++1", "-1", "-0", "1 ", " 1", "0x1", "g", "1g", "ffff", "fffffffffffffffffffffffffffff",
        "１", "a_b",
    ];
    for case in cases {
        let s = chars(case);
        assert_eq!(
            parse_radix16(&s, 0, s.len()),
            u8::from_str_radix(case, 16).ok(),
            "{:?}",
            case
        );
    }
}

#[test]
fn radix16_reads_a_range() {
    let s = chars("xx1fyy");
    assert_eq!(parse_radix16(&s, 2, 4), Some(0x1f));
    assert_eq!(parse_radix16(&s, 2, 3), Some(0x01));
    assert_eq!(parse_radix16(&s, 2, 2), None);
    assert_eq!(parse_radix16(&s, 1, 4), None);
}

#[test]
fn white_space_agrees_with_std() {
    for n in 0..0x11_0000u32 {
        if let Some(c) = char::from_u32(n) {
            assert_eq!(is_space(c), c.is_whitespace(), "U+{:04X}", n);
        }
    }
}

#[test]
fn trimming_agrees_with_std() {
    for case in ["", " ", "a", " a", "a ", "  a b  ", "\t\n x\r\n", "\u{a0}x\u{3000}", " \u{200b} "] {
        let s = chars(case);
        let (a, b) = trim_range(&s, 0, s.len());
        let got: String = s[a..b].iter().collect();
        assert_eq!(got, case.trim(), "{:?}", case);
    }
}

#[test]
fn trimming_a_range() {
    let s = chars("ab  cd  ef");
    assert_eq!(trim_range(&s, 2, 8), (4, 6));
    assert_eq!(trim_range(&s, 2, 4), (4, 4));
    assert_eq!(trim_range(&s, 3, 3), (3, 3));
}

#[test]
fn record_tokens() {
    assert_eq!(parse_token("0x1f"), Some(0x1f));
    assert_eq!(parse_token("0X1F"), Some(0x1f));
    assert_eq!(parse_token("1f"), Some(0x1f));
    assert_eq!(parse_token("0x0x1f"), None);
    assert_eq!(parse_token("0x0X1f"), None);
    assert_eq!(parse_token("0X0x1f"), None);
    assert_eq!(parse_token("0x+1f"), Some(0x1f));
    assert_eq!(parse_token("0x"), None);
    assert_eq!(parse_token("0"), Some(0));
    assert_eq!(parse_token("0x0"), Some(0));
    assert_eq!(parse_token(""), None);
}

#[test]
fn record_tokens_agree_with_std_after_one_prefix() {
    for case in ["0x00", "0xff", "0X10", "x1", "0x 1", "0x0X0x1", "00x1", "0x+1", "+0x1", "1f"] {
        let stripped = case
            .strip_prefix("0x")
            .or_else(|| case.strip_prefix("0X"))
            .unwrap_or(case);
        assert_eq!(
            parse_token(case),
            u8::from_str_radix(stripped, 16).ok(),
            "{:?}",
            case
        );
    }
}
