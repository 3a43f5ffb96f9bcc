use scrimora_link::text::{chars_less, split_chars, trim_chars, to_ascii_uppercase_chars};

fn chars(s: &str) -> Vec<char> {
    s.chars().collect()
}

#[test]
fn trims_as_str_trim_does() {
    for s in ["", "  ", " a b ", "\u{3000}x\u{85}", "\tx\n", "\u{200b}y"] {
        let expected: Vec<char> = s.trim().chars().collect();
        assert_eq!(trim_chars(&chars(s)), expected, "{s:?}");
    }
}

#[test]
fn splits_as_str_split_does() {
    for s in ["", ":", "a:b", "a::b:", "abc"] {
        let expected: Vec<Vec<char>> = s.split(':').map(|p| p.chars().collect()).collect();
        assert_eq!(split_chars(&chars(s), ':'), expected, "{s:?}");
    }
}

#[test]
fn compares_as_strings_do() {
    let words = ["", "a", "ab", "b", "é", "Z", "2024-03-09T16:00:00+00:00", "2024-03-09T16:00:00.123+00:00"];
    for a in words {
        for b in words {
            assert_eq!(chars_less(&chars(a), &chars(b)), a < b, "{a:?} {b:?}");
        }
    }
}

#[test]
fn uppercases_ascii_only() {
    assert_eq!(to_ascii_uppercase_chars(&chars("custom_Game é")), chars("CUSTOM_GAME é"));
}
