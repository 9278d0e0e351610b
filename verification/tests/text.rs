use perch::text::{is_whitespace, parse_u16, string_of, text_at_least};

#[test]
fn whitespace_agrees_with_std() {
    for u in 0u32..0x3100 {
        if let Some(c) = char::from_u32(u) {
            assert_eq!(is_whitespace(c), c.is_whitespace(), "U+{:04X}", u);
        }
    }
    assert!(!is_whitespace('\u{feff}'));
}

#[test]
fn parse_u16_agrees_with_std() {
    let cases = [
        "", "+", "-", "0", "00", "+0", "-0", "1", "65535", "65536", "99999", "123456789012", "+65535",
        "++1", "1+", " 1", "1 ", "12a", "٣", "4096", "0004097",
    ];
    for s in cases {
        assert_eq!(parse_u16(s), s.parse::<u16>().ok(), "{:?}", s);
    }
}

#[test]
fn ordering_agrees_with_std() {
    let words = ["", "0", "0.1.0", "0.2.0", "0.10.0", "0.2", "0.2.0-beta", "1.0.0", "a", "é", "z"];
    for a in words {
        for b in words {
            assert_eq!(text_at_least(a, b), a >= b, "{:?} >= {:?}", a, b);
        }
    }
}

#[test]
fn string_of_takes_the_range() {
    let v: Vec<char> = "event: x".chars().collect();
    assert_eq!(string_of(&v, 0, 5), "event");
    assert_eq!(string_of(&v, 7, 8), "x");
    assert_eq!(string_of(&v, 3, 3), "");
}
