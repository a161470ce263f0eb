use dns_config::text;

fn chars(s: &str) -> Vec<char> {
    s.chars().collect()
}

fn strings(parts: &[&[char]]) -> Vec<String> {
    parts.iter().map(|p| p.iter().collect()).collect()
}

const SAMPLES: [&str; 16] = [
    "",
    "\n",
    "\r\n",
    "\r",
    "a",
    "a\n",
    "a\r\n",
    "a\r",
    "a\n\nb",
    "a\r\r\nb\r\n",
    "  a \t b\u{a0}c\u{3000}",
    "\u{85}\u{2028}x y\u{2029}",
    "# comment\r\nnameserver 8.8.8.8\n search a b  c \n",
    "\u{1f600} \u{e9}\n\u{200b}z",
    "...",
    "a.b..",
];

#[test]
fn white_space_is_that_of_unicode() {
    for u in 0..=0x10ffffu32 {
        if let Some(c) = char::from_u32(u) {
            assert_eq!(text::is_white_space(c), c.is_whitespace(), "{:x}", u);
        }
    }
}

#[test]
fn lines_are_those_of_str() {
    for s in SAMPLES {
        let c = chars(s);
        let expected: Vec<String> = s.lines().map(String::from).collect();
        assert_eq!(strings(&text::lines_of(&c)), expected, "{:?}", s);
    }
}

#[test]
fn byte_lines_are_those_of_a_reader() {
    for s in SAMPLES {
        let expected: Vec<&[u8]> = s.lines().map(|l| l.as_bytes()).collect();
        assert_eq!(text::byte_lines_of(s.as_bytes()), expected, "{:?}", s);
    }
    assert_eq!(text::byte_lines_of(b"\xff\r\n\xfe"), vec![&b"\xff"[..], &b"\xfe"[..]]);
}

#[test]
fn words_are_those_of_str() {
    for s in SAMPLES {
        let c = chars(s);
        let expected: Vec<String> = s.split_whitespace().map(String::from).collect();
        assert_eq!(strings(&text::words_of(&c)), expected, "{:?}", s);
    }
}

#[test]
fn trimming_is_that_of_str() {
    for s in SAMPLES {
        let c = chars(s);
        let trimmed: String = text::trimmed(&c).iter().collect();
        assert_eq!(trimmed, s.trim(), "{:?}", s);
        let start: String = text::trimmed_start(&c).iter().collect();
        assert_eq!(start, s.trim_start(), "{:?}", s);
        assert_eq!(text::without_dots(s), s.trim_end_matches('.'), "{:?}", s);
    }
}

#[test]
fn prefixes_and_parts_are_those_of_str() {
    for s in SAMPLES {
        for p in ["", "a", "\n", "nameserver", "b\r", "# c", "zz", "."] {
            let (x, y) = (chars(s), chars(p));
            assert_eq!(text::has_prefix(&x, &y), s.starts_with(p), "{:?} {:?}", s, p);
            assert_eq!(text::has_part(&x, &y), s.contains(p), "{:?} {:?}", s, p);
            assert_eq!(text::same_text(s, p), s == p, "{:?} {:?}", s, p);
        }
    }
}

#[test]
fn strings_are_made_of_characters() {
    for s in SAMPLES {
        assert_eq!(text::string_of(&text::chars_of(s)), s);
    }
}

#[test]
fn joined_words_split_again() {
    let parts: Vec<String> = vec!["a".to_string(), "b.c".to_string(), "d".to_string()];
    let line = text::joined(&parts, " ");
    assert_eq!(line, "a b.c d");
    assert_eq!(strings(&text::words_of(&chars(&line))), parts);
    assert_eq!(text::joined(&Vec::new(), " "), "");
    assert_eq!(text::joined(&vec!["x".to_string()], ", "), "x");
}

#[test]
fn lists_compare_texts() {
    let names: Vec<String> = vec!["a.".to_string(), "b".to_string()];
    assert!(text::lists(&names, "b"));
    assert!(!text::lists(&names, "a"));
    assert_eq!(text::all_without_dots(&names), vec!["a".to_string(), "b".to_string()]);
}
