use wt::text::{
    blocks, cat, decimal, is_white_space, lines, same_text, strip_prefix, trim, words,
};

#[test]
fn white_space_is_that_of_unicode() {
    for code in 0..=0x10ffff_u32 {
        if let Some(c) = char::from_u32(code) {
            assert_eq!(is_white_space(c), c.is_whitespace(), "{:x}", code);
        }
    }
}

#[test]
fn trimming_takes_white_space_from_both_ends() {
    assert_eq!(trim(" \t two words \r\n"), "two words");
    assert_eq!(trim("\u{a0}\u{3000}x\u{2028}"), "x");
    assert_eq!(trim(" \n "), "");
    assert_eq!(trim(""), "");
}

#[test]
fn trimming_keeps_what_has_no_white_space_around_it() {
    assert_eq!(trim("a b\nc"), "a b\nc");
    assert_eq!(trim("x"), "x");
}

#[test]
fn trimming_the_end_of_two_texts_trims_the_second() {
    assert_eq!(trim(&cat("a ", "b \n")), cat("a ", &trim("b \n")));
    assert_eq!(trim(&trim("a \n")), trim("a \n"));
    assert!("a b \n".starts_with(&trim("a b \n")));
}

#[test]
fn trimming_agrees_with_std() {
    for s in ["", " ", "a", " a", "a ", "\ta\u{85}b\u{85}", "\u{200b}a\u{200b}", "\r\n\r\n"] {
        assert_eq!(trim(s), s.trim());
    }
}

#[test]
fn prefix_is_taken_off() {
    assert_eq!(strip_prefix("worktree /a b", "worktree "), Some("/a b".to_string()));
    assert_eq!(strip_prefix("abc", "abc"), Some(String::new()));
    assert_eq!(strip_prefix("abc", ""), Some("abc".to_string()));
    assert_eq!(strip_prefix("ab", "abc"), None);
    assert_eq!(strip_prefix("xbc", "ab"), None);
    assert_eq!(strip_prefix("éa", "é"), Some("a".to_string()));
}

#[test]
fn texts_are_joined_and_compared() {
    assert_eq!(cat("ab", "çd"), "abçd");
    assert_eq!(cat("", ""), "");
    assert!(same_text("abç", "abç"));
    assert!(!same_text("ab", "abc"));
    assert!(!same_text("ab", "aB"));
}

#[test]
fn lines_end_at_line_feeds() {
    assert_eq!(lines("a\nb\r\n\nc"), ["a", "b", "", "c"]);
    assert_eq!(lines("a\n"), ["a"]);
    assert_eq!(lines("\n"), [""]);
    assert_eq!(lines("a\r"), ["a\r"]);
    assert!(lines("").is_empty());
}

#[test]
fn lines_agree_with_std() {
    for s in ["", "\n", "\r\n", "a", "a\nb", "a\r\nb\r\n", "\n\n", "a\r\r\nb", "a\rb\n\r", "x\n\ny"] {
        let expected: Vec<String> = s.lines().map(|line| line.to_string()).collect();
        assert_eq!(lines(s), expected, "{:?}", s);
    }
}

#[test]
fn first_line_comes_before_the_others() {
    let rest = "b\nc";
    let mut expected = vec!["a".to_string()];
    expected.extend(lines(rest));
    assert_eq!(lines(&cat("a\n", rest)), expected);
    assert_eq!(lines(&cat("a\r\n", rest)), expected);
}

#[test]
fn last_line_needs_no_line_feed() {
    assert_eq!(lines("only"), ["only"]);
}

#[test]
fn blocks_end_at_blank_lines() {
    assert_eq!(blocks("a\nb\n\nc\n\n"), ["a\nb", "c", ""]);
    assert_eq!(blocks("\n\n\n"), ["", "\n"]);
    assert_eq!(blocks("a\n"), ["a\n"]);
    assert_eq!(blocks(""), [""]);
}

#[test]
fn blocks_agree_with_std() {
    for s in ["", "\n", "\n\n", "\n\n\n", "\n\n\n\n", "a\n\nb", "\n\na\n\n\nb\n\n", "a\r\n\r\nb"] {
        let expected: Vec<String> = s.split("\n\n").map(|block| block.to_string()).collect();
        assert_eq!(blocks(s), expected, "{:?}", s);
    }
}

#[test]
fn first_block_comes_before_the_others() {
    let rest = "b\n\nc";
    let mut expected = vec!["a\nx".to_string()];
    expected.extend(blocks(rest));
    assert_eq!(blocks(&cat("a\nx\n\n", rest)), expected);
}

#[test]
fn words_stand_between_white_space() {
    assert_eq!(words(" foo\tbar  baz "), ["foo", "bar", "baz"]);
    assert_eq!(words("\u{3000}é"), ["é"]);
}

#[test]
fn words_agree_with_std() {
    for s in ["", " ", "a", " a b ", "a\u{85}b\u{200b}c", "\ta\n\nb\r"] {
        let expected: Vec<String> = s.split_whitespace().map(|word| word.to_string()).collect();
        assert_eq!(words(s), expected, "{:?}", s);
    }
}

#[test]
fn white_space_between_texts_keeps_their_words_apart() {
    let mut expected = words("foo ba");
    expected.extend(words("r x"));
    assert_eq!(words("foo ba\tr x"), expected);
    assert_ne!(words("foo bar x"), expected);
}

#[test]
fn white_space_alone_makes_no_words() {
    assert!(words(" \t\n").is_empty());
    assert!(words("").is_empty());
}

#[test]
fn numbers_are_written_in_decimal_digits() {
    assert_eq!(decimal(0), "0");
    assert_eq!(decimal(7), "7");
    assert_eq!(decimal(10), "10");
    assert_eq!(decimal(1234567890), "1234567890");
    assert_eq!(decimal(usize::MAX), usize::MAX.to_string());
}
