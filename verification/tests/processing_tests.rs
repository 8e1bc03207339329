use unicode_normalization::UnicodeNormalization;
use memoria::processing::{
    clean_text, detect_content_type, classify_content, extract_file_paths, extract_urls,
    path_of_interest, select_file_paths, split_words, tokenize, truncate_for_embedding,
};

#[test]
fn clean_text_normalizes_line_endings_and_trims() {
    assert_eq!(clean_text("\r\n  hello\rworld \r\n"), "hello\nworld");
    assert_eq!(clean_text("a\r\r\nb"), "a\n\nb");
    assert_eq!(clean_text("   "), "");
    assert_eq!(clean_text(""), "");
    assert_eq!(clean_text("\u{3000}wide\u{a0}"), "wide");
}

#[test]
fn clean_text_is_idempotent_on_examples() {
    for s in ["\r\n x \r y\r\n", "plain", " \t\r\n", "a\r\n\r\nb  "] {
        let once = clean_text(s);
        assert_eq!(clean_text(&once), once);
        assert!(!once.contains('\r'));
    }
}

#[test]
fn split_words_on_unicode_white_space() {
    assert_eq!(split_words("  one two\tthree\u{2003}four  "), vec!["one", "two", "three", "four"]);
    assert!(split_words(" \n ").is_empty());
}

#[test]
fn tokenize_lowercases_and_drops_single_bytes() {
    assert_eq!(tokenize("Hello World a BIG"), vec!["hello", "world", "big"]);
    assert_eq!(tokenize("x é y"), vec!["é"]);
    assert!(tokenize("").is_empty());
}

#[test]
fn tokenize_matches_std_on_examples() {
    for s in ["The QUICK brown fox", "a b c dd", "ÀB Ça va", "mixed\tws\u{85}end"] {
        let expected: Vec<String> = s
            .split_whitespace()
            .map(|w| w.to_lowercase())
            .filter(|w| w.len() > 1)
            .collect();
        assert_eq!(tokenize(s), expected);
    }
}

#[test]
fn truncate_keeps_text_that_fits() {
    assert_eq!(truncate_for_embedding("short text", 100), "short text");
    assert_eq!(truncate_for_embedding("exactly", 7), "exactly");
}

#[test]
fn truncate_cuts_back_to_last_space() {
    assert_eq!(truncate_for_embedding("hello world foo", 8), "hello");
    assert_eq!(truncate_for_embedding("abcdefghij", 4), "abcd");
    assert_eq!(truncate_for_embedding("a é", 3), "a");
}

#[test]
fn truncate_counts_bytes_then_chars() {
    // six bytes do not fit in four, but the three chars do: kept whole
    assert_eq!(truncate_for_embedding("ééé", 4), "ééé");
    assert_eq!(truncate_for_embedding("", 0), "");
    assert_eq!(truncate_for_embedding("ab", 0), "");
}

#[test]
fn detect_content_type_by_url() {
    assert_eq!(detect_content_type("", Some("https://github.com/x"), None), "code");
    assert_eq!(detect_content_type("", Some("https://gitlab.com/x"), None), "code");
    assert_eq!(detect_content_type("", Some("https://stackoverflow.com/q/1"), None), "qa");
    assert_eq!(detect_content_type("", Some("https://youtube.com/watch"), None), "video");
    assert_eq!(detect_content_type("", Some("https://vimeo.com/1"), None), "video");
    assert_eq!(detect_content_type("", Some("https://docs.rs/x"), None), "documentation");
    assert_eq!(detect_content_type("", Some("https://en.wikipedia.org/wiki/X"), None), "documentation");
}

#[test]
fn detect_content_type_by_path() {
    assert_eq!(detect_content_type("", Some("https://example.com"), Some("/src/MAIN.RS")), "code");
    assert_eq!(detect_content_type("", None, Some("a/b.java")), "code");
    assert_eq!(detect_content_type("", None, Some("paper.PDF")), "document");
    assert_eq!(detect_content_type("", None, Some("notes.md")), "text");
    assert_eq!(detect_content_type("", None, Some("notes.TXT")), "text");
    assert_eq!(detect_content_type("", None, Some("image.png")), "general");
}

#[test]
fn detect_content_type_by_text() {
    assert_eq!(detect_content_type("pub fn main() { let x = 1; }", None, None), "code");
    assert_eq!(detect_content_type("import os\ndef f(): pass", None, None), "code");
    assert_eq!(detect_content_type("just one function here", None, None), "general");
    assert_eq!(detect_content_type("", None, None), "general");
}

#[test]
fn classify_content_takes_lowered_path() {
    assert_eq!(classify_content("", None, Some("x.rs")), "code");
    // the path is taken as given: an uppercase extension does not match
    assert_eq!(classify_content("", None, Some("x.RS")), "general");
}

#[test]
fn extract_urls_finds_each_url() {
    let urls = extract_urls("see https://example.com/a?b=1 and http://x.org/<tag> end");
    assert_eq!(urls, vec!["https://example.com/a?b=1", "http://x.org/"]);
    assert!(extract_urls("no links here").is_empty());
}

#[test]
fn extract_file_paths_keeps_paths_of_interest() {
    let paths = extract_file_paths("open /Users/me/notes and /tmp/a.bin and /opt/x/main.rs");
    assert_eq!(paths, vec!["/Users/me/notes", "/opt/x/main.rs"]);
    assert!(extract_file_paths("nothing").is_empty());
}

#[test]
fn path_of_interest_examples() {
    assert!(path_of_interest("/home/me/x"));
    assert!(path_of_interest("/var/log"));
    assert!(path_of_interest("/a/b.py"));
    assert!(path_of_interest("/a/b.go"));
    assert!(!path_of_interest("/etc/hosts"));
    assert_eq!(
        select_file_paths(vec!["/HOME/x".to_string(), "/etc/y".to_string(), "/a/B.MD".to_string()]),
        vec!["/HOME/x", "/a/B.MD"]
    );
}

#[test]
fn white_space_agrees_with_std() {
    for u in 0u32..=0x10FFFF {
        if let Some(c) = char::from_u32(u) {
            assert_eq!(memoria::text::white_space(c), c.is_whitespace(), "char {:x}", u);
        }
    }
}

fn tidy(text: &str) -> String {
    let mut out = String::new();
    let mut after_space = false;
    for c in text.chars() {
        if c.is_control() && c != '\n' && c != '\t' {
            continue;
        }
        if c == ' ' && after_space {
            continue;
        }
        after_space = c == ' ';
        out.push(c);
    }
    out.trim().to_string()
}

#[test]
fn clean_text_agrees_with_std_on_examples() {
    let samples = [
        "\r\r\n\n x\u{2028}y \r",
        "line one\r\nline two\rline three\n",
        "\u{85}\u{a0}both ends\u{205f}",
        "no change",
        "\r",
        "tab\tand  double  spaces\u{7}",
        "cafe\u{301} \u{0} \u{0}  end",
        "e\u{7}\u{301}x",
    ];
    for s in samples {
        let newlines = s.replace("\r\n", "\n").replace('\r', "\n");
        let composed: String = tidy(&newlines).nfc().collect();
        let expected = tidy(&composed);
        assert_eq!(clean_text(s), expected);
    }
}

#[test]
fn clean_text_strips_controls_collapses_spaces_and_composes() {
    assert_eq!(clean_text("\u{1}"), "");
    assert_eq!(clean_text("a\u{0}b\u{7f}c\u{9f}d"), "abcd");
    assert_eq!(clean_text("a   b\t\tc\n\nd"), "a b\t\tc\n\nd");
    assert_eq!(clean_text("x \u{1b} y"), "x y");
    assert_eq!(clean_text("e\u{301}t\u{e9}"), "\u{e9}t\u{e9}");
    assert_eq!(clean_text("e\u{1}\u{301}"), "\u{e9}");
    let composed = clean_text("cafe\u{1}\u{301} A\u{30a}");
    assert_eq!(composed, "caf\u{e9} \u{c5}");
    assert!(unicode_normalization::is_nfc(&composed));
    assert_eq!(clean_text("  two  spaces  "), "two spaces");
}

#[test]
fn truncate_agrees_with_std_on_examples() {
    fn reference(text: &str, max_chars: usize) -> String {
        if text.len() <= max_chars {
            return text.to_string();
        }
        let mut truncated = text.chars().take(max_chars).collect::<String>();
        if let Some(pos) = truncated.rfind(' ') {
            truncated.truncate(pos);
        }
        truncated
    }
    for (s, n) in [("hello brave new world", 12), ("ünïcödé wörds hère", 9), ("nospaceshere", 5), ("a b", 1), (" lead", 3)] {
        assert_eq!(truncate_for_embedding(s, n), reference(s, n));
    }
}
