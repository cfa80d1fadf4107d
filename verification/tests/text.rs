use tg_dl_bot::util::text::{decimal_string, first_line_of, split_chars, str_chars, string_of, trimmed};

#[test]
fn decimal_notation() {
    assert_eq!(decimal_string(0), "0");
    assert_eq!(decimal_string(7), "7");
    assert_eq!(decimal_string(10), "10");
    assert_eq!(decimal_string(1234567890), "1234567890");
    assert_eq!(decimal_string(u64::MAX), u64::MAX.to_string());
}

#[test]
fn trimming_matches_str_trim() {
    let samples = [
        "", "   ", " a ", "\t\n{\"x\": 1}\r\n", "\u{3000}x\u{85}", "\u{200B}x", "a b", "\u{A0}\u{2028}q\u{202F}",
    ];
    for s in samples {
        let t = trimmed(&str_chars(s));
        assert_eq!(string_of(&t), s.trim(), "sample {s:?}");
    }
}

#[test]
fn splitting_matches_str_split() {
    let samples = ["", "\n", "a\nb", "a\n\nb\n", "no newline", "\r\n\r\n"];
    for s in samples {
        let pieces: Vec<String> = split_chars(&str_chars(s), '\n').iter().map(|p| string_of(p)).collect();
        let expected: Vec<String> = s.split('\n').map(|p| p.to_string()).collect();
        assert_eq!(pieces, expected, "sample {s:?}");
    }
}

#[test]
fn first_line_matches_lines_next() {
    let samples = ["", "one", "one\ntwo", "one\r\ntwo", "\nsecond", "trailing\r", "x\r\r\ny"];
    for s in samples {
        let expected = s.lines().next().unwrap_or(s);
        assert_eq!(first_line_of(s), expected, "sample {s:?}");
    }
}
