use unicos::text::{
    ascii_uppercase, bytes_in, char_index, char_width, chars_of, contains, count_before, is_blank,
    is_white, join, offsets, same, split_words, starts_with, strip_prefix, trim, trim_back_char,
    trim_char, trim_end, trim_front_char, trim_start, trim_suffixes, word_count,
};

#[test]
fn white_space_is_that_of_unicode() {
    let mut n: u32 = 0;
    for code in 0..0x11_0000u32 {
        if let Some(c) = char::from_u32(code) {
            assert_eq!(is_white(c), c.is_whitespace(), "{code:x}");
            n += u32::from(is_white(c));
        }
    }
    assert_eq!(n, 25);
}

#[test]
fn trimming_takes_white_space_off_both_ends() {
    let samples = ["", " ", "a", " a ", "\u{3000}a b\u{85}\n", "a\t", "\ta"];
    for s in samples {
        assert_eq!(trim(s), s.trim());
        assert_eq!(trim_start(s), s.trim_start());
        assert_eq!(trim_end(s), s.trim_end());
        assert_eq!(is_blank(s), s.trim().is_empty());
    }
}

#[test]
fn prefixes_are_told_and_stripped() {
    assert!(starts_with("héllo", "hé"));
    assert!(!starts_with("h", "hé"));
    assert!(starts_with("", ""));
    assert_eq!(strip_prefix("@alice hi", "@"), Some("alice hi"));
    assert_eq!(strip_prefix("alice", "@"), None);
}

#[test]
fn a_text_is_found_in_another() {
    for (s, p) in [("", ""), ("abc", "c"), ("abc", "bd"), ("aab", "ab"), ("a", "ab"), ("é", "")] {
        assert_eq!(contains(s, p), s.contains(p));
    }
}

#[test]
fn words_stand_between_white_space() {
    for s in ["", "  ", "a", " a  b\u{2003}c ", "/kill  Bob\n"] {
        let expected: Vec<&str> = s.split_whitespace().collect();
        assert_eq!(split_words(s), expected);
    }
    assert_eq!(word_count("ab c"), 2);
    assert_eq!(word_count(" c"), 0);
    assert_eq!(word_count("abc"), 3);
}

#[test]
fn parts_are_joined_with_a_separator() {
    let none: Vec<String> = vec![];
    assert_eq!(join(&none, ", "), "");
    assert_eq!(join(&vec!["a".to_string()], ", "), "a");
    assert_eq!(join(&vec!["a".to_string(), "".to_string(), "b".to_string()], ", "), "a, , b");
}

#[test]
fn characters_are_taken_off_the_ends() {
    assert_eq!(trim_front_char("//a/", '/'), "a/");
    assert_eq!(trim_back_char("https://x//", '/'), "https://x");
    assert_eq!(trim_char("\"Pong\"", '"'), "Pong");
    assert_eq!(trim_char("\"\"", '"'), "");
    assert_eq!(trim_suffixes("x``````", "```"), "x");
    assert_eq!(trim_suffixes("x`````", "```"), "x``");
    assert_eq!(trim_suffixes("x", ""), "x");
}

#[test]
fn letters_are_raised_in_ascii_only() {
    assert_eq!(ascii_uppercase("yes, ßé"), "YES, ßé");
}

#[test]
fn byte_positions_follow_utf8() {
    let s = "aé€😀";
    assert_eq!(bytes_in(s), 10);
    assert_eq!(offsets(s), [0, 1, 3, 6, 10]);
    let widths: Vec<usize> = s.chars().map(char_width).collect();
    assert_eq!(widths, [1, 2, 3, 4]);
    for pos in 0..12 {
        let expected = if s.is_char_boundary(pos) { Some(s[..pos].chars().count()) } else { None };
        assert_eq!(char_index(s, pos), expected);
    }
}

#[test]
fn the_first_of_a_character_is_found() {
    assert_eq!(count_before("a:b:c", ':'), 1);
    assert_eq!(count_before("abc", ':'), 3);
    assert!(same("abc", "abc") && !same("abc", "abd") && !same("abc", "ab"));
    assert_eq!(chars_of("hé"), ['h', 'é']);
}
