use gifust::text::{
    chars_of, concatenate, i32_to_decimal, is_whitespace, lex_less_exec, parse_i32,
    parse_u32, trim, u32_to_decimal,
};

#[test]
fn whitespace_matches_std_for_every_char() {
    for u in 0u32..=0x10FFFF {
        if let Some(c) = char::from_u32(u) {
            assert_eq!(is_whitespace(c), c.is_whitespace(), "code point {u:#x}");
        }
    }
}

#[test]
fn trim_matches_std() {
    let samples = [
        "", " ", "  a  ", "\t\n x y \r", "abc", "\u{3000}é\u{2003}", " \u{85}z\u{a0}",
        "a b", "\u{200b}a", " 00:00:03 ",
    ];
    for s in samples {
        assert_eq!(trim(s), s.trim(), "{s:?}");
    }
}

#[test]
fn trim_twice_is_trim_once() {
    for s in ["  a b  ", "\n\n", "x", " \t y"] {
        assert_eq!(trim(&trim(s)), trim(s));
    }
}

#[test]
fn decimal_rendering_matches_to_string() {
    for n in [0u32, 1, 9, 10, 15, 99, 100, 1080, 65535, 4294967295] {
        assert_eq!(u32_to_decimal(n), n.to_string());
    }
    for i in [0i32, 1, -1, 7, -10, 2147483647, -2147483648, 3, -42] {
        assert_eq!(i32_to_decimal(i), i.to_string());
    }
}

#[test]
fn parse_u32_matches_std() {
    let samples = [
        "", "0", "15", "+15", "-1", "+", "-", "00012", "4294967295", "4294967296",
        "99999999999999999999", "1 2", " 1", "1a", "++1", "٣", "256",
    ];
    for s in samples {
        assert_eq!(parse_u32(s), s.parse::<u32>().ok(), "{s:?}");
    }
}

#[test]
fn parse_i32_matches_std() {
    let samples = [
        "", "0", "-0", "+7", "-1", "-2", "+", "-", "--1", "2147483647", "2147483648",
        "-2147483648", "-2147483649", "12x", " -1", "-00005",
    ];
    for s in samples {
        assert_eq!(parse_i32(s), s.parse::<i32>().ok(), "{s:?}");
    }
}

#[test]
fn parse_of_decimal_roundtrips() {
    for n in [0u32, 5, 256, 1080, u32::MAX] {
        assert_eq!(parse_u32(&u32_to_decimal(n)), Some(n));
    }
    for i in [-1i32, 0, 17, i32::MIN, i32::MAX] {
        assert_eq!(parse_i32(&i32_to_decimal(i)), Some(i));
    }
}

#[test]
fn lexicographic_order_matches_string_order() {
    let words = ["", "a", "B", "b", "ab", "abc", "é", "z", "Zoo", "\u{1F600}", "a\u{0}"];
    for a in words {
        for b in words {
            let ca = chars_of(a);
            let cb = chars_of(b);
            assert_eq!(lex_less_exec(&ca, &cb), a < b, "{a:?} < {b:?}");
        }
    }
}

#[test]
fn concat_joins() {
    assert_eq!(concatenate("Vidéo : ", "a.mp4"), "Vidéo : a.mp4");
    assert_eq!(concatenate("", ""), "");
}
