use hostguard::text::{
    chars_of, cut_once, cut_prefix, decimal_of, flag_of, hex_of, is_blank, is_white_space, same,
    split_lines, split_words, string_of, trim, Gap,
};

const SAMPLES: [&str; 16] = [
    "",
    " ",
    "a",
    "a b",
    "  a  bc\t d\r\n",
    "\n",
    "\n\n",
    "a\n",
    "a\r\nb\rc\r",
    "a\r\r\n",
    "no end",
    "x - y - z",
    " - ",
    "é\u{a0}€\u{3000}z\u{2028}q",
    "\u{85}mid\u{1680}",
    "\r\n\r\n x",
];

fn strings(v: &[Vec<char>]) -> Vec<String> {
    v.iter().map(|w| w.iter().collect()).collect()
}

#[test]
fn white_space_is_that_of_unicode() {
    for c in '\0'..=char::MAX {
        assert_eq!(is_white_space(c), c.is_whitespace(), "{c:?}");
    }
}

#[test]
fn text_is_divided_as_the_standard_library_divides_it() {
    for s in SAMPLES {
        let chars = chars_of(s);
        let words: Vec<&str> = s.split_whitespace().collect();
        let lines: Vec<&str> = s.lines().collect();
        assert_eq!(strings(&split_words(&chars, Gap::WhiteSpace)), words, "words of {s:?}");
        let fields: Vec<&str> = s.split([' ', '\t']).filter(|f| !f.is_empty()).collect();
        assert_eq!(strings(&split_words(&chars, Gap::SpaceOrTab)), fields, "fields of {s:?}");
        assert_eq!(strings(&split_lines(&chars)), lines, "lines of {s:?}");
        assert_eq!(trim(s), s.trim(), "trim of {s:?}");
        assert_eq!(is_blank(&chars), s.trim().is_empty(), "blank of {s:?}");
        assert_eq!(string_of(&chars), s);
        let divided = cut_once(&chars, &chars_of(" - "))
            .map(|(a, b)| (string_of(&a), string_of(&b)));
        let expected = s.split_once(" - ").map(|(a, b)| (a.to_string(), b.to_string()));
        assert_eq!(divided, expected, "division of {s:?}");
        for prefix in ["", "a", "a\r", "x -", "longer than any"] {
            let rest = cut_prefix(&chars, &chars_of(prefix)).map(|r| string_of(&r));
            assert_eq!(rest.as_deref(), s.strip_prefix(prefix));
        }
    }
}

#[test]
fn numbers_are_written_in_decimal() {
    for n in [0, 7, 10, 99, 100, 1024, 4_294_967_296, u64::MAX] {
        assert_eq!(decimal_of(n), format!("{n}"));
    }
    assert_eq!(flag_of(true), "1");
    assert_eq!(flag_of(false), "0");
}

#[test]
fn numbers_are_written_in_hexadecimal() {
    for n in [0, 10, 255, 0xcbf2_9ce4_8422_2325, u64::MAX] {
        assert_eq!(hex_of(n, 16), format!("{n:016x}"));
    }
    assert_eq!(hex_of(0x1234, 2), "34");
    assert_eq!(hex_of(5, 0), "");
}

#[test]
fn numbers_are_read_as_the_standard_library_reads_them() {
    for s in [
        "", "0", "00", "+", "+0", "-0", "-1", "1", "+17", "007", "1 ", " 1", "1_000", "0x1", "٣",
        "18446744073709551615", "18446744073709551616", "99999999999999999999999",
        "000000000000000000000000000001",
    ] {
        let read = hostguard::text::parse_number(&chars_of(s));
        assert_eq!(read, s.parse::<u64>().ok(), "{s:?}");
    }
}

#[test]
fn texts_are_the_same_only_in_every_character() {
    assert!(same("", ""));
    assert!(same("--once", "--once"));
    assert!(!same("--once", "--onc"));
    assert!(!same("--once", "--Once"));
}
