use live_transcriber::text::{decimal_text, split, starts_with, trim, trim_end};
use live_transcriber::words::{extend_window, split_words, KEPT_WORDS, MAX_WORDS};

fn numbered(from: usize, to: usize) -> String {
    let mut text = String::new();
    for i in from..to {
        text.push_str(&format!("w{} ", i));
    }
    text
}

#[test]
fn white_space_is_what_unicode_says() {
    for code in 0..=0x10ffffu32 {
        if let Some(c) = char::from_u32(code) {
            let listed = matches!(code,
                0x09..=0x0d | 0x20 | 0x85 | 0xa0 | 0x1680 | 0x2000..=0x200a
                | 0x2028 | 0x2029 | 0x202f | 0x205f | 0x3000);
            assert_eq!(c.is_whitespace(), listed, "U+{:04X}", code);
        }
    }
}

#[test]
fn trimming_takes_white_space_only() {
    assert_eq!(trim("  \u{3000}Shift\t\n"), "Shift");
    assert_eq!(trim(" \u{a0} "), "");
    assert_eq!(trim("a b"), "a b");
    assert_eq!(trim_end(" hello \n "), " hello");
    assert_eq!(trim_end(""), "");
    assert_eq!(trim_end("\u{2028}"), "");
}

#[test]
fn trimming_and_splitting_agree_with_std() {
    let samples = [
        "", "+", "a+b", "+a++b+", " a + b ", "\u{85}x\u{1680}y\u{205f}", "no plus", "\t+\n", "é+ü",
    ];
    for s in samples {
        assert_eq!(trim(s), s.trim());
        assert_eq!(trim_end(s), s.trim_end());
        let expected: Vec<String> = s.split('+').map(|p| p.to_string()).collect();
        assert_eq!(split(s, '+'), expected);
        let words: Vec<String> = s.split_whitespace().map(|p| p.to_string()).collect();
        assert_eq!(split_words(s), words);
    }
}

#[test]
fn prefixes_are_found() {
    assert!(starts_with("hw:0,0", "hw:"));
    assert!(starts_with("hw:", "hw:"));
    assert!(!starts_with("hw", "hw:"));
    assert!(!starts_with("plughw:1", "hw:"));
    assert!(starts_with("anything", ""));
}

#[test]
fn numerals_are_decimal() {
    for n in [0, 7, 10, 401, -1, -10, i64::MAX, i64::MIN, i64::MIN + 1] {
        assert_eq!(decimal_text(n), format!("{}", n));
    }
}

#[test]
fn window_keeps_everything_up_to_the_limit() {
    let mut text = String::new();
    extend_window(&mut text, &numbered(0, MAX_WORDS));
    assert_eq!(text, numbered(0, 120));
    extend_window(&mut text, "");
    assert_eq!(text, numbered(0, 120));
}

#[test]
fn window_cuts_to_the_last_words() {
    let mut text = numbered(0, MAX_WORDS);
    extend_window(&mut text, "last");
    assert_eq!(split_words(&text).len(), KEPT_WORDS);
    assert_eq!(text, format!("{}last ", numbered(41, 120)));
}

#[test]
fn a_cut_text_is_not_cut_again() {
    let mut text = numbered(0, 500);
    extend_window(&mut text, "x");
    let cut = text.clone();
    assert_eq!(split_words(&cut).len(), 80);
    extend_window(&mut text, " ");
    assert_eq!(text, format!("{} ", cut));
}

#[test]
fn window_rejoins_words_with_one_space() {
    let mut text = String::new();
    for i in 0..121 {
        text.push_str(&format!("w{}\t\n ", i));
    }
    let mut grown = String::new();
    extend_window(&mut grown, &text);
    assert_eq!(grown, numbered(41, 121));
}

#[test]
fn words_lose_only_white_space() {
    let text = " one\ttwo\u{3000}three  ";
    let together: String = split_words(text).concat();
    let kept: String = text.chars().filter(|c| !c.is_whitespace()).collect();
    assert_eq!(together, kept);
    assert_eq!(split_words(text), vec!["one", "two", "three"]);
}

fn ascii_start(text: &str) -> String {
    text.chars().take_while(|c| c.is_ascii()).collect()
}

#[test]
fn letter_case_treats_every_character_alike() {
    for c in '\0'..=char::MAX {
        let (small, capital) = (format!("a{}b", c), format!("A{}B", c));
        // Only ASCII letters were changed, so neither case tells the two apart.
        assert_eq!(small.to_lowercase(), capital.to_lowercase(), "{:?}", c);
        assert_eq!(small.to_uppercase(), capital.to_uppercase(), "{:?}", c);
        // An ASCII beginning is turned letter by letter.
        assert!(capital.to_lowercase().starts_with('a'), "{:?}", c);
        // What is ASCII in the lower case of a beginning stays.
        let alone = c.to_string().to_lowercase();
        for rest in ["", "B", "\u{3a3}", "\u{301}"] {
            let longer = format!("{}{}", c, rest).to_lowercase();
            assert!(longer.starts_with(&ascii_start(&alone)), "{:?}", c);
        }
    }
}
