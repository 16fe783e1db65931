use drowned_god::text::{
    chars_of, contains, decimal_string, final_word, lines, parse_number, split, starts_with,
    string_of, trim, trim_end_of, white,
};

fn strings(v: Vec<Vec<char>>) -> Vec<String> {
    v.iter().map(|c| string_of(c)).collect()
}

#[test]
fn white_space_agrees_with_std() {
    for n in 0..=0x10ffff {
        if let Some(c) = char::from_u32(n) {
            assert_eq!(white(c), c.is_whitespace(), "{n:x}");
        }
    }
}

#[test]
fn pieces_agree_with_std() {
    for s in ["", "a", "\n", "\r\n", "a\r", "a\r\r\nb\n\nc\r", " x\ty ", "\n\n", ",a,,b,", "///"] {
        let c = chars_of(s);
        assert_eq!(string_of(&c), s);
        assert_eq!(strings(lines(&c)), s.lines().collect::<Vec<_>>());
        assert_eq!(strings(split(&c, ',')), s.split(',').collect::<Vec<_>>());
        assert_eq!(string_of(&trim(&c)), s.trim());
        assert_eq!(string_of(&trim_end_of(&c, '/')), s.trim_end_matches('/'));
        let word = s.trim().split_whitespace().last().unwrap_or("");
        assert_eq!(string_of(&final_word(&trim(&c))), word);
        for p in ["", "a", "x\t", "b,"] {
            assert_eq!(contains(&c, p), s.contains(p));
            assert_eq!(starts_with(&c, p), s.starts_with(p));
        }
    }
}

#[test]
fn numbers_agree_with_std() {
    for s in [
        "", "+", "-", "0", "007", "+5", "-5", "-0", "1 ", "1_0", "٣", "18446744073709551615",
        "18446744073709551616", "+18446744073709551615", "99999999999999999999999", "++1",
        "000000000000000000000000000012", "18446744073709551620",
    ] {
        assert_eq!(parse_number(&chars_of(s)), s.parse::<u64>().ok(), "{s}");
    }
    for n in [0, 7, 10, 99, 1024, u64::MAX] {
        assert_eq!(decimal_string(n), n.to_string());
    }
}
