use vrcs_core::live_text::{append_display_text, has_content, sentence_end, MAX_DISPLAY_CHARS};

#[test]
fn sentence_boundaries_preserve_decimals_abbreviations_and_closing_marks() {
    for (text, expected) in [
        ("Dr. Smith paid 3.14. Next", "Dr. Smith paid 3.14. "),
        ("Ready?! Go", "Ready?! "),
        ("你好！』继续", "你好！』"),
        ("Hello\r\nNext", "Hello\r\n"),
    ] {
        assert_eq!(&text[..sentence_end(text, false).unwrap()], expected);
    }
    assert_eq!(sentence_end("Value 3.", false), None);
}

#[test]
fn trailing_sentences_count_only_when_allowed() {
    assert_eq!(sentence_end("Hello.", false), None);
    assert_eq!(sentence_end("Hello.", true), Some(6));
    assert_eq!(sentence_end("e.g. more", false), None);
    assert_eq!(sentence_end("A. B", false), None);
    assert_eq!(sentence_end("no end", true), None);
}

#[test]
fn display_keeps_punctuation_decimals_and_bounds_long_streams() {
    let mut text = String::new();
    for delta in ["Value 3.", "14!", "”", " "] {
        append_display_text(&mut text, delta);
    }
    assert_eq!(text, "Value 3.14!” ");
    append_display_text(&mut text, "Next sentence.");
    assert_eq!(text, "Value 3.14!” Next sentence.");

    text.clear();
    for _ in 0..10_000 {
        append_display_text(&mut text, "汉字🙂");
        assert!(text.chars().count() <= MAX_DISPLAY_CHARS);
        assert!(text.ends_with("汉字🙂"));
    }
    text = "a".repeat(MAX_DISPLAY_CHARS);
    append_display_text(&mut text, " recent words");
    assert_eq!(text, "recent words");
}

#[test]
fn content_ignores_marks_quotes_and_space() {
    assert!(!has_content(" 。」 “ "));
    assert!(has_content("「a」"));
    assert!(!has_content(""));
}
