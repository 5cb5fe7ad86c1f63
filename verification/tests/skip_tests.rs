use link_checker::SkipPattern;

#[test]
fn test_skip_pattern_integration() {
    let skip_patterns = vec![
        (r"external\.com", vec![
            ("https://example.com/page", false),
            ("https://external.com/page", true),
            ("https://subdomain.external.com/page", true),
        ]),
        (r"\.(pdf|zip|exe)$", vec![
            ("https://example.com/document.pdf", true),
            ("https://example.com/archive.zip", true),
            ("https://example.com/program.exe", true),
            ("https://example.com/page.html", false),
            ("https://example.com/image.png", false),
        ]),
        (r"^https://external\.com|/downloads/", vec![
            ("https://external.com/page", true),
            ("https://example.com/downloads/file.zip", true),
            ("https://example.com/page.html", false),
        ]),
    ];

    for (pattern_str, test_cases) in skip_patterns {
        let regex = SkipPattern::new(pattern_str).unwrap();

        for (url, should_match) in test_cases {
            assert_eq!(
                regex.is_match(url),
                should_match,
                "Pattern '{}' on URL '{}' - expected: {}, got: {}",
                pattern_str,
                url,
                should_match,
                regex.is_match(url)
            );
        }
    }
}

#[test]
fn an_invalid_pattern_is_refused() {
    assert!(SkipPattern::new(r"foo(bar").is_none());
    assert!(SkipPattern::new(r"[a-").is_none());
    assert!(SkipPattern::new(r"*").is_none());
    assert!(SkipPattern::new(r"\w{1000}").is_none());
}

#[test]
fn a_valid_pattern_keeps_its_text() {
    let pattern = SkipPattern::new(r"^https://cdn\.").unwrap();
    assert_eq!(pattern.as_str(), r"^https://cdn\.");
    assert!(pattern.is_match("https://cdn.example.com/x"));
    assert!(!pattern.is_match("http://cdn.example.com/x"));
    let copy = pattern.clone();
    assert_eq!(copy.as_str(), pattern.as_str());
    assert!(copy.is_match("https://cdn.example.com/x"));
}

#[test]
fn the_empty_pattern_matches_everything() {
    let pattern = SkipPattern::new("").unwrap();
    assert!(pattern.is_match(""));
    assert!(pattern.is_match("https://example.com/"));
}

#[test]
fn a_pattern_is_matched_against_its_text_not_against_itself() {
    // the pattern does not match its own text, and matches a text that differs from it
    let pattern = SkipPattern::new(r"^a+$").unwrap();
    assert!(!pattern.is_match(r"^a+$"));
    assert!(pattern.is_match("aaa"));
}
