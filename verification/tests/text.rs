use appshots::numbers::{append_signed, decimal_text, parse_unsigned};
use appshots::text::{
    borrowed, chars_of, collapse_whitespace, contains_text, find_char, has_prefix, join,
    matches_at, replace_char, same_text, split_lines, split_words, text_of, trim, truncate_chars,
    utf8_len,
};

#[test]
fn white_space_is_the_unicode_property() {
    for ch in '\0'..=char::MAX {
        let white = matches!(
            ch,
            '\u{9}'..='\u{d}'
                | ' '
                | '\u{85}'
                | '\u{a0}'
                | '\u{1680}'
                | '\u{2000}'..='\u{200a}'
                | '\u{2028}'
                | '\u{2029}'
                | '\u{202f}'
                | '\u{205f}'
                | '\u{3000}'
        );
        assert_eq!(trim(ch.encode_utf8(&mut [0; 4])).is_empty(), white);
    }
}

#[test]
fn trims_and_splits() {
    assert_eq!(trim(" \t a b\u{3000}"), "a b");
    assert_eq!(trim("  "), "");
    assert_eq!(split_words(&chars_of(" a  bc\n")), vec!["a", "bc"]);
    assert_eq!(collapse_whitespace("  a \t b\n\nc  "), "a b c");
    assert_eq!(collapse_whitespace(&collapse_whitespace(" a  b ")), "a b");
    assert_eq!(collapse_whitespace(" \n"), "");
}

#[test]
fn splits_lines_like_the_standard_library() {
    for text in ["", "a", "a\n", "a\nb", "\n", "\n\n", "a\r\nb\r", "a\r\r\n", "\r\n", "\ra\nb\n\n"] {
        let expected: Vec<&str> = text.lines().collect();
        assert_eq!(split_lines(&chars_of(text)), expected);
    }
}

#[test]
fn finds_text() {
    let chars = chars_of("abcabd");
    assert!(contains_text(&chars, "abd"));
    assert!(contains_text(&chars, ""));
    assert!(!contains_text(&chars, "abe"));
    assert!(!contains_text(&chars, "abcabda"));
    assert!(has_prefix(&chars, "abc") && !has_prefix(&chars, "abd"));
    assert!(matches_at(&chars, 3, &['a', 'b']));
    assert_eq!((find_char(&chars, 'c'), find_char(&chars, 'x')), (2, 6));
    assert!(same_text("é", "é") && !same_text("a", "b") && !same_text("a", "ab"));
    assert_eq!(text_of(&chars, 2, 4), "ca");
    assert_eq!(utf8_len("aé€"), 6);
}

#[test]
fn joins_cuts_and_replaces() {
    let parts = vec!["a".to_string(), "".to_string(), "b".to_string()];
    assert_eq!(join(&parts, ", "), "a, , b");
    assert_eq!(join(&vec![], ", "), "");
    assert_eq!(truncate_chars("äöü", 3), "äöü");
    assert_eq!(truncate_chars("äöü", 2), "äö...");
    assert_eq!(truncate_chars("x", 0), "...");
    assert_eq!(truncate_chars("", 0), "");
    assert_eq!(replace_char("a-b-", '-', '_'), "a_b_");
    assert_eq!(borrowed(&Some("x".to_string())), Some("x"));
    assert_eq!(borrowed(&None), None);
}

#[test]
fn writes_and_reads_numbers() {
    for number in [0, 9, 10, 4294967295u128, u128::MAX] {
        assert_eq!(decimal_text(number), number.to_string());
    }
    for number in [0, -1, i32::MIN, i32::MAX] {
        let mut text = String::new();
        append_signed(&mut text, number);
        assert_eq!(text, number.to_string());
    }
    for text in [
        "", "+", "-", "0", "007", "+7", "-7", "++7", "7x", " 7", "4294967295", "4294967296",
        "00000000004294967295", "99999999999999999999999", "٧",
    ] {
        assert_eq!(parse_unsigned(&chars_of(text), u32::MAX), text.parse::<u32>().ok());
    }
    for number in [0, 7, 10, 4294967295u32] {
        let text = decimal_text(number.into());
        assert_eq!(parse_unsigned(&chars_of(&text), u32::MAX), Some(number));
    }
    assert_eq!(parse_unsigned(&chars_of("65536"), 65535), None);
    assert_eq!(parse_unsigned(&chars_of("65535"), 65535), Some(65535));
}
