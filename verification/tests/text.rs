use mentisdbd::text::{
    chars_of, cut_text, decimal_text, joined_text, prefix_text, push_centred, push_padded,
    push_repeated, same_text, split_text, text_bytes, trimmed_text, white_space,
};

#[test]
fn decimal_digits() {
    for n in [0u64, 7, 9, 10, 42, 100, 1_234_567_890, u64::MAX] {
        assert_eq!(decimal_text(n), n.to_string());
    }
}

#[test]
fn white_space_is_that_of_unicode() {
    let mut n: u32 = 0;
    while n <= 0x10ffff {
        if let Some(c) = char::from_u32(n) {
            assert_eq!(white_space(c), c.is_whitespace(), "{:x}", n);
        }
        n += 1;
    }
}

#[test]
fn trimming_takes_white_space_off_both_ends() {
    for s in ["", " ", "a", " a b ", "\t\u{3000}\u{e9}\u{a0}\n", "\u{200b}x\u{200b}"] {
        assert_eq!(trimmed_text(s), s.trim());
    }
}

#[test]
fn splitting_keeps_empty_pieces() {
    for s in ["", ",", "a", "a,b", ",a,,b,", "\u{e9},\u{2014}"] {
        let expected: Vec<&str> = s.split(',').collect();
        assert_eq!(split_text(s, ','), expected);
    }
}

#[test]
fn joining_puts_the_separator_between() {
    let parts = vec!["a".to_string(), "b".to_string(), String::new()];
    assert_eq!(joined_text(&parts, ", "), "a, b, ");
    assert_eq!(joined_text(&parts[..1].to_vec(), ", "), "a");
    assert_eq!(joined_text(&Vec::new(), ", "), "");
}

#[test]
fn equal_texts_are_the_same() {
    assert!(same_text("", ""));
    assert!(same_text("\u{e9}a", "\u{e9}a"));
    assert!(!same_text("a", "b"));
    assert!(!same_text("a", "ab"));
    assert!(!same_text("ab", "a"));
}

#[test]
fn padding_counts_characters() {
    let mut out = "x".to_string();
    push_padded(&mut out, "\u{e9}", 3);
    assert_eq!(out, "x\u{e9}  ");
    push_padded(&mut out, "long", 2);
    assert_eq!(out, "x\u{e9}  long");
    push_repeated(&mut out, "ab", 2);
    assert_eq!(out, "x\u{e9}  longabab");
}

#[test]
fn centring_puts_the_odd_space_behind() {
    for (s, width) in [("a", 4usize), ("a", 3), ("\u{e9}b", 5), ("", 3), ("abc", 2), ("abc", 3)] {
        let mut out = "|".to_string();
        push_centred(&mut out, s, width);
        assert_eq!(out, format!("|{s:^width$}"));
    }
}

#[test]
fn cutting_keeps_whole_characters() {
    let text = "a\u{2014}b";
    for (n, expected) in [(0, ""), (1, "a"), (2, "a"), (3, "a"), (4, "a\u{2014}"), (5, text), (9, text)]
    {
        assert_eq!(cut_text(text, n), expected);
    }
}

#[test]
fn lengths_and_prefixes_count_bytes() {
    assert_eq!(text_bytes("\u{2014}a"), 4);
    assert_eq!(prefix_text("\u{2014}a", 3), "\u{2014}");
    assert_eq!(prefix_text("abc", 0), "");
    assert_eq!(chars_of("\u{2014}a"), vec!['\u{2014}', 'a']);
}
