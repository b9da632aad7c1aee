use photo_editor::lens_xml::trim;
use photo_editor::text::{char_is_whitespace, chars_of, split_whitespace, string_from_chars};

#[test]
fn whitespace_matches_std_for_every_char() {
    for u in 0u32..=0x10FFFF {
        if let Some(c) = char::from_u32(u) {
            assert_eq!(char_is_whitespace(c), c.is_whitespace(), "U+{:04X}", u);
        }
    }
}

#[test]
fn split_matches_std() {
    for s in ["", "  a  b ", "\u{3000}x\u{85}y\tz", "one", "a\u{a0}b"] {
        let cs = chars_of(s);
        let got: Vec<String> = split_whitespace(&cs).iter().map(string_from_chars).collect();
        let want: Vec<String> = s.split_whitespace().map(|t| t.to_string()).collect();
        assert_eq!(got, want, "{:?}", s);
    }
}

#[test]
fn trim_matches_std() {
    for s in ["", "   ", " a ", "\u{2003}b c\n", "x"] {
        assert_eq!(trim(s), s.trim(), "{:?}", s);
    }
}

#[test]
fn chars_round_trip() {
    let s = "Ünïcödé ✓ text";
    assert_eq!(string_from_chars(&chars_of(s)), s);
}
