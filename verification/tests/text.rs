use rsmobiledevice::text::{
    split_lines, str_contains, str_eq, strip_quotes, to_chars, to_decimal, trim_nul,
};

#[test]
fn chars_come_in_order() {
    assert_eq!(to_chars("héllo"), vec!['h', 'é', 'l', 'l', 'o']);
    assert_eq!(to_chars(""), Vec::<char>::new());
}

#[test]
fn equal_strings_are_equal() {
    assert!(str_eq("kernel", "kernel"));
    assert!(str_eq("", ""));
    assert!(!str_eq("kernel", "kernel "));
    assert!(!str_eq("kernel", "Kernel"));
    assert!(!str_eq("abc", "abd"));
}

#[test]
fn contains_finds_a_run_anywhere() {
    assert!(str_contains("a foo b", "foo"));
    assert!(str_contains("foo", "foo"));
    assert!(str_contains("xfoo", "foo"));
    assert!(str_contains("foox", "foo"));
    assert!(!str_contains("fo o", "foo"));
    assert!(!str_contains("fo", "foo"));
    assert!(!str_contains("", "foo"));
}

#[test]
fn contains_finds_the_empty_pattern_everywhere() {
    assert!(str_contains("abc", ""));
    assert!(str_contains("", ""));
}

#[test]
fn contains_agrees_with_std_on_many_pairs() {
    let texts = ["", "a", "ab", "aab", "abab", "kernel(AppleBCMWLANCore)", "ünïcödé"];
    let patterns = ["", "a", "b", "ab", "ba", "aab", "kernel", "ï", "Core)"];
    for text in texts {
        for pattern in patterns {
            assert_eq!(str_contains(text, pattern), text.contains(pattern));
        }
    }
}

#[test]
fn lines_end_at_line_feeds() {
    assert_eq!(split_lines("a\nb\n"), vec!["a", "b"]);
    assert_eq!(split_lines("a\nb"), vec!["a", "b"]);
    assert_eq!(split_lines("a\n\nb"), vec!["a", "", "b"]);
    assert_eq!(split_lines("\n"), vec![""]);
    assert_eq!(split_lines("\n\n"), vec!["", ""]);
    assert_eq!(split_lines("abc"), vec!["abc"]);
}

#[test]
fn empty_text_has_no_lines() {
    assert_eq!(split_lines(""), Vec::<&str>::new());
}

#[test]
fn lines_agree_with_std_on_many_texts() {
    let texts = ["", "\n", "a", "a\n", "\na", "a\n\n", "\n\na\nbb\n\nccc", "é\nü\n"];
    for text in texts {
        let expected: Vec<&str> = text.split_terminator('\n').collect();
        assert_eq!(split_lines(text), expected);
    }
}

#[test]
fn nul_padding_is_trimmed_at_both_ends() {
    assert_eq!(trim_nul("\0\0abc\0"), "abc");
    assert_eq!(trim_nul("abc"), "abc");
    assert_eq!(trim_nul("a\0b"), "a\0b");
    assert_eq!(trim_nul("\0"), "");
    assert_eq!(trim_nul("\0\0\0"), "");
    assert_eq!(trim_nul(""), "");
    assert_eq!(trim_nul("\0é\0"), "é");
}

#[test]
fn double_quotes_are_left_out() {
    assert_eq!(strip_quotes("\"iPhone14,2\""), "iPhone14,2");
    assert_eq!(strip_quotes("a\"b\"c"), "abc");
    assert_eq!(strip_quotes("\"\""), "");
    assert_eq!(strip_quotes("plain"), "plain");
    assert_eq!(strip_quotes(""), "");
    assert_eq!(strip_quotes("'single'"), "'single'");
}

#[test]
fn numbers_are_written_in_decimal() {
    assert_eq!(to_decimal(0), "0");
    assert_eq!(to_decimal(7), "7");
    assert_eq!(to_decimal(10), "10");
    assert_eq!(to_decimal(1024), "1024");
    assert_eq!(to_decimal(90817), "90817");
    assert_eq!(to_decimal(usize::MAX), format!("{}", usize::MAX));
}
