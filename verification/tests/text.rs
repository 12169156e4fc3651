use prompt_board::text::{chars_of, is_whitespace, same_text, trim};

const SAMPLES: &[&str] = &[
    "",
    " ",
    "abc",
    "  abc  ",
    "\t\n a b \r\n",
    "\u{3000}全角空格\u{3000}",
    "\u{a0}\u{85}x\u{2028}\u{2029}",
    "\u{200b}zero width\u{200b}",
    "\u{1680}\u{2000}\u{200a}\u{202f}\u{205f}",
    "mixed 中文 text",
];

#[test]
fn trim_agrees_with_std() {
    for s in SAMPLES {
        assert_eq!(trim(s), s.trim(), "trimming {:?}", s);
    }
}

#[test]
fn whitespace_agrees_with_std() {
    for c in ['\u{0}', '\t', '\n', '\u{b}', '\u{c}', '\r', ' ', 'a', '\u{85}', '\u{a0}', '\u{1680}',
        '\u{180e}', '\u{2000}', '\u{200a}', '\u{200b}', '\u{2028}', '\u{2029}', '\u{202f}',
        '\u{205f}', '\u{3000}', '\u{feff}', '中']
    {
        assert_eq!(is_whitespace(c), c.is_whitespace(), "classifying {:?}", c);
    }
}

#[test]
fn chars_of_lists_characters() {
    assert_eq!(chars_of("a中b"), vec!['a', '中', 'b']);
}

#[test]
fn same_text_compares_contents() {
    assert!(same_text("abc", "abc"));
    assert!(!same_text("abc", "abd"));
}
