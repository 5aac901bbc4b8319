use ssh3::path::{file_name, join_path};
use ssh3::text::{
    contains, decimal, join_texts, lines, rsplit_once, split_once, split_whitespace, trim,
    trim_end_matches, trim_line_ends, white_space,
};

fn owned(parts: &[&str]) -> Vec<String> {
    parts.iter().map(|part| part.to_string()).collect()
}

fn chars(text: &str) -> Vec<char> {
    text.chars().collect()
}

#[test]
fn white_space_is_what_unicode_says() {
    for c in '\0'..=char::MAX {
        assert_eq!(white_space(c), c.is_whitespace(), "{c:?}");
    }
}

#[test]
fn texts_are_cut_as_by_the_standard_library() {
    for text in ["", "a", "a.b", "a.b.c", ".", "..", "a.", ".a", "ä.ö.ü"] {
        let first = text.split_once('.').map(|(a, b)| (a.to_string(), b.to_string()));
        let last = text.rsplit_once('.').map(|(a, b)| (a.to_string(), b.to_string()));
        assert_eq!(split_once(text, '.'), first);
        assert_eq!(rsplit_once(text, '.'), last);
    }
    for text in ["", " ", "a", "  a  ", "a b", "\ta\u{a0}b \u{2003}c\n", "a  b   c "] {
        assert_eq!(trim(text), text.trim());
        let words: Vec<String> = text.split_whitespace().map(|word| word.to_string()).collect();
        assert_eq!(split_whitespace(text), words);
    }
    for text in ["", "\n", "a", "a\n", "a\r\nb\n", "a\n\nb", "a\rb\r", "\r\n\r\n", "a\r\r\n"] {
        let all: Vec<String> = text.lines().map(|line| line.to_string()).collect();
        assert_eq!(lines(text), all);
        assert_eq!(trim_line_ends(text), text.trim_end_matches(['\r', '\n']));
    }
    for text in ["", "/", "a/", "a//", "/a"] {
        assert_eq!(trim_end_matches(text, '/'), text.trim_end_matches('/'));
    }
}

#[test]
fn numbers_are_written_in_digits() {
    for value in [0, 7, 10, 99, 100, 1_000_000, u64::MAX] {
        assert_eq!(decimal(value), value.to_string());
    }
}

#[test]
fn parts_are_found() {
    assert!(contains(&chars("connection lost"), "lost"));
    assert!(contains(&chars("lost"), "lost"));
    assert!(contains(&chars("x"), ""));
    assert!(contains(&chars(""), ""));
    assert!(!contains(&chars("los"), "lost"));
    assert!(!contains(&chars("l o s t"), "lost"));
}

#[test]
fn texts_are_joined() {
    assert_eq!(join_texts(&[], " "), "");
    assert_eq!(join_texts(&owned(&["a"]), " "), "a");
    assert_eq!(join_texts(&owned(&["a", "b", "c"]), ", "), "a, b, c");
}

#[test]
fn paths_are_joined_and_named_as_by_the_standard_library() {
    for base in ["", "/", "/home/alice", "/home/alice/", "home"] {
        let joined = std::path::Path::new(base).join(".ssh3");
        assert_eq!(join_path(base.as_bytes(), ".ssh3"), joined.to_str().unwrap().as_bytes());
    }
    for path in [
        "", "/", "sh", "/bin/sh", "/bin/sh/", "/bin/sh//", "/bin/sh/.", "/bin/sh/./", "/bin/..",
        "..", ".", "./.", "./sh", "/.", "a/b/.c", "/bin/.../", "bin/./sh",
    ] {
        let name = std::path::Path::new(path).file_name();
        let name = name.map(|name| name.to_str().unwrap().as_bytes().to_vec());
        assert_eq!(file_name(path.as_bytes()), name, "{path}");
    }
}
