use dmeter::parse::{
    chars_of, contains_chars, is_whitespace, lines_of, split_chars, trim_chars, trim_quote_chars,
    words_of,
};

fn text(v: &[char]) -> String {
    v.iter().collect()
}

fn texts(v: &[Vec<char>]) -> Vec<String> {
    v.iter().map(|x| text(x)).collect()
}

const SAMPLES: [&str; 16] = [
    "",
    "\n",
    "a",
    "a\n",
    "a\r\n",
    "a\r",
    "a\n\nb",
    "\r\n\r\n",
    " x , y ,, z\t",
    "\"\"q\"uo\"\"",
    "  \u{3000}lead and trail\u{A0}\u{2028} ",
    "tab\tsep\u{85}next\u{1680}end",
    "one\ntwo\r\nthree\rfour\n",
    ",,",
    "\"",
    "héllo, wörld\n",
];

#[test]
fn whitespace_matches_char_is_whitespace() {
    for code in 0u32..0x3100 {
        if let Some(c) = char::from_u32(code) {
            assert_eq!(is_whitespace(c), c.is_whitespace(), "U+{:04X}", code);
        }
    }
    for c in ['\u{FEFF}', '\u{10FFFF}', '\u{E000}', '\u{200B}'] {
        assert_eq!(is_whitespace(c), c.is_whitespace());
    }
}

#[test]
fn text_helpers_match_str_methods() {
    for s in SAMPLES {
        let cs = chars_of(s);
        assert_eq!(text(&cs), s);
        assert_eq!(texts(&lines_of(&cs)), s.lines().map(String::from).collect::<Vec<_>>(), "{:?}", s);
        assert_eq!(texts(&split_chars(&cs, ',')), s.split(',').map(String::from).collect::<Vec<_>>(), "{:?}", s);
        assert_eq!(
            texts(&words_of(&cs)),
            s.split_whitespace().map(String::from).collect::<Vec<_>>(),
            "{:?}",
            s
        );
        assert_eq!(text(&trim_chars(&cs)), s.trim(), "{:?}", s);
        assert_eq!(text(&trim_quote_chars(&cs)), s.trim_matches('"'), "{:?}", s);
        for pat in ["", "a", "\n", "x ,", "wörld", "zz"] {
            assert_eq!(contains_chars(&cs, &chars_of(pat)), s.contains(pat), "{:?} in {:?}", pat, s);
        }
    }
}
