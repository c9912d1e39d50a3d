use diagram_preview::text::{
    clone_strings, contains_text, eq_ignore_ascii_case, first_word, is_white_space, same_text,
    same_texts, starts_with, strip_suffix, to_ascii_lowercase, to_decimal, trim, trim_end,
};

const SAMPLES: [&str; 12] = [
    "",
    " ",
    "a",
    "  a b\t",
    "\u{a0}\u{3000}caf\u{e9} \u{1f980}\u{2028}",
    "D2 layout=elk",
    "\n\r\n",
    "ABC xyz [`{",
    "\u{130}\u{c4}Z",
    "line\r",
    "line\r\r",
    "\u{85}x\u{85}",
];

#[test]
fn white_space_is_that_of_the_standard_library() {
    for c in '\0'..=char::MAX {
        assert_eq!(is_white_space(c), c.is_whitespace(), "at {c:?}");
    }
}

#[test]
fn text_operations_are_those_of_the_standard_library() {
    for s in SAMPLES {
        assert_eq!(trim(s), s.trim());
        assert_eq!(trim_end(s), s.trim_end());
        assert_eq!(first_word(s), s.split_whitespace().next());
        assert_eq!(to_ascii_lowercase(s), s.to_ascii_lowercase());
        assert_eq!(strip_suffix(s, '\r'), s.strip_suffix('\r').unwrap_or(s));
        for t in SAMPLES {
            assert_eq!(same_text(s, t), s == t);
            assert_eq!(starts_with(s, t), s.starts_with(t));
            assert_eq!(eq_ignore_ascii_case(s, t), s.eq_ignore_ascii_case(t));
        }
    }
}

#[test]
fn numbers_are_written_in_decimal() {
    for n in [0, 7, 9, 10, 42, 99, 100, 1000, 4294967296, u64::MAX - 1, u64::MAX] {
        assert_eq!(to_decimal(n), n.to_string());
    }
    assert_eq!(to_decimal(200), "200");
}

#[test]
fn lists_of_texts() {
    let list = vec!["a".to_string(), "".to_string(), "b".to_string()];
    assert_eq!(clone_strings(&list), list);
    assert!(same_texts(&list, &clone_strings(&list)));
    assert!(!same_texts(&list, &vec!["a".to_string(), "".to_string()]));
    assert!(!same_texts(&list, &vec!["a".to_string(), "".to_string(), "c".to_string()]));
    assert!(contains_text(&list, "b"));
    assert!(contains_text(&list, ""));
    assert!(!contains_text(&list, "c"));
}
