use tui::text::{
    chars_of, is_whitespace, normalized_lines, split_lines, split_text_for_fake_stream,
    str_equals, str_is_blank, strip_prefix, trimmed,
};

#[test]
fn chunks_of_four_characters() {
    assert_eq!(
        split_text_for_fake_stream("hello world", 4),
        vec!["hell".to_string(), "o wo".to_string(), "rld".to_string()]
    );
}

#[test]
fn chunks_exact_multiple_has_no_short_tail() {
    assert_eq!(
        split_text_for_fake_stream("abcd", 2),
        vec!["ab".to_string(), "cd".to_string()]
    );
}

#[test]
fn chunk_size_zero_gives_single_characters() {
    assert_eq!(
        split_text_for_fake_stream("abc", 0),
        vec!["a".to_string(), "b".to_string(), "c".to_string()]
    );
}

#[test]
fn chunks_of_empty_text() {
    assert!(split_text_for_fake_stream("", 4).is_empty());
}

#[test]
fn chunks_count_characters_not_bytes() {
    assert_eq!(
        split_text_for_fake_stream("héllo", 2),
        vec!["hé".to_string(), "ll".to_string(), "o".to_string()]
    );
}

#[test]
fn chunks_reassemble_to_the_text() {
    let text = "Streaming replies arrive in pieces: ünïcode too.";
    for size in 0..8 {
        let chunks = split_text_for_fake_stream(text, size);
        assert_eq!(chunks.concat(), text);
        let limit = if size == 0 { 1 } else { size };
        for (i, chunk) in chunks.iter().enumerate() {
            let n = chunk.chars().count();
            assert!(n >= 1 && n <= limit);
            if i + 1 < chunks.len() {
                assert_eq!(n, limit);
            }
        }
    }
}

#[test]
fn blank_runs_collapse_to_one_empty_line() {
    assert_eq!(normalized_lines("a\n\n\n b\n\n"), vec!["a", "", " b"]);
}

#[test]
fn leading_blank_line_is_kept_once() {
    assert_eq!(normalized_lines("\n\na"), vec!["", "a"]);
}

#[test]
fn whitespace_only_text_has_no_lines() {
    assert!(normalized_lines("   \n\t\n").is_empty());
    assert!(normalized_lines("").is_empty());
}

#[test]
fn carriage_returns_before_newlines_go() {
    assert_eq!(normalized_lines("x\r\ny"), vec!["x", "y"]);
}

#[test]
fn whitespace_lines_count_as_blank() {
    assert_eq!(normalized_lines("a\n \t\nb"), vec!["a", "", "b"]);
}

#[test]
fn normalized_lines_have_no_adjacent_blanks() {
    let text = "one\n\n \n\ntwo\n\u{3000}\nthree\n\n\n";
    let lines = normalized_lines(text);
    assert_eq!(lines, vec!["one", "", "two", "", "three"]);
    for pair in lines.windows(2) {
        assert!(!(pair[0].trim().is_empty() && pair[1].trim().is_empty()));
    }
    assert!(!lines.last().unwrap().trim().is_empty());
}

#[test]
fn split_lines_agrees_with_std() {
    let samples = [
        "", "\n", "a", "a\n", "a\r\nb", "a\r", "a\r\n", "\r\n", "a\n\nb\n", "x\ry\nz", "\n\n\n",
        "héllo\r\nwörld\r",
    ];
    for sample in samples {
        let expected: Vec<&str> = sample.lines().collect();
        assert_eq!(split_lines(sample), expected, "lines of {:?}", sample);
    }
}

#[test]
fn split_lines_keeps_a_lone_final_carriage_return() {
    assert_eq!(split_lines("a\r\nb\n\nc\r"), vec!["a", "b", "", "c\r"]);
}

#[test]
fn trimmed_agrees_with_std() {
    let samples = ["  hi \n", "\u{3000}x\u{a0}", "", "   ", "a b", "\t\u{2028}y\u{85}", "z"];
    for sample in samples {
        assert_eq!(trimmed(sample), sample.trim(), "trim of {:?}", sample);
    }
}

#[test]
fn whitespace_agrees_with_std() {
    for code in 0u32..0x3100 {
        if let Some(c) = char::from_u32(code) {
            assert_eq!(is_whitespace(c), c.is_whitespace(), "char {:?}", c);
        }
    }
    assert!(!is_whitespace('\u{feff}'));
    assert!(!is_whitespace('\u{200b}'));
}

#[test]
fn blank_and_equality_helpers() {
    assert!(str_is_blank(" \t\n"));
    assert!(str_is_blank(""));
    assert!(!str_is_blank(" x "));
    assert!(str_equals("abc", "abc"));
    assert!(!str_equals("abc", "abd"));
    assert!(!str_equals("abc", "ab"));
}

#[test]
fn strip_prefix_behaves_like_std() {
    assert_eq!(strip_prefix("/new title", "/new "), Some("title"));
    assert_eq!(strip_prefix("/new", "/new "), None);
    assert_eq!(strip_prefix("abc", ""), Some("abc"));
    assert_eq!(strip_prefix("héllo", "hé"), Some("llo"));
    assert_eq!(chars_of("hé"), vec!['h', 'é']);
}
