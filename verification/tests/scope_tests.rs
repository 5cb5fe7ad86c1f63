use link_checker::{is_absolute_url, is_likely_html_content, CrawlState, Url};

// ===== URL Matching Logic Tests =====

#[test]
fn test_crawl_state_path_prefix_matching() {
    let start_url = Url::parse("https://example.com/products/widgets/").unwrap();
    let crawl_state = CrawlState::new(&start_url, false); // domain_match = false

    // URLs that should match (same path prefix)
    let url1 = Url::parse("https://example.com/products/widgets/item1").unwrap();
    let url2 = Url::parse("https://example.com/products/widgets/specs.html").unwrap();
    let url3 = Url::parse("https://example.com/products/widgets/").unwrap();

    assert!(crawl_state.should_visit_url(&url1));
    assert!(crawl_state.should_visit_url(&url2));
    assert!(crawl_state.should_visit_url(&url3));
    assert!(crawl_state.should_extract_links(&url1));
    assert!(crawl_state.should_extract_links(&url2));
    assert!(crawl_state.should_extract_links(&url3));

    // URLs that should not match (different path prefix)
    let url4 = Url::parse("https://example.com/products/gadgets/item2").unwrap();
    let url5 = Url::parse("https://example.com/about/").unwrap();
    let url6 = Url::parse("https://example.com/").unwrap();

    assert!(!crawl_state.should_visit_url(&url4));
    assert!(!crawl_state.should_visit_url(&url5));
    assert!(!crawl_state.should_visit_url(&url6));
    assert!(!crawl_state.should_extract_links(&url4));
    assert!(!crawl_state.should_extract_links(&url5));
    assert!(!crawl_state.should_extract_links(&url6));
}

#[test]
fn test_crawl_state_domain_matching() {
    let start_url = Url::parse("https://example.com/products/widgets/").unwrap();
    let crawl_state = CrawlState::new(&start_url, true); // domain_match = true

    // URLs in same domain should match regardless of path
    let url1 = Url::parse("https://example.com/products/widgets/item1").unwrap();
    let url2 = Url::parse("https://example.com/products/gadgets/item2").unwrap();
    let url3 = Url::parse("https://example.com/about/").unwrap();
    let url4 = Url::parse("https://example.com/").unwrap();

    assert!(crawl_state.should_visit_url(&url1));
    assert!(crawl_state.should_visit_url(&url2));
    assert!(crawl_state.should_visit_url(&url3));
    assert!(crawl_state.should_visit_url(&url4));
    assert!(crawl_state.should_extract_links(&url1));
    assert!(crawl_state.should_extract_links(&url2));
    assert!(crawl_state.should_extract_links(&url3));
    assert!(crawl_state.should_extract_links(&url4));

    // URLs in different domain should not match
    let url5 = Url::parse("https://other.com/products/widgets/").unwrap();

    assert!(!crawl_state.should_visit_url(&url5));
    assert!(!crawl_state.should_extract_links(&url5));
}

#[test]
fn test_crawl_state_different_domains_rejected() {
    let start_url = Url::parse("https://example.com/products/").unwrap();
    let crawl_state_path = CrawlState::new(&start_url, false);
    let crawl_state_domain = CrawlState::new(&start_url, true);

    let different_domain_url = Url::parse("https://other.com/products/").unwrap();

    // Both path and domain matching should reject different domains
    assert!(!crawl_state_path.should_visit_url(&different_domain_url));
    assert!(!crawl_state_domain.should_visit_url(&different_domain_url));
}

#[test]
fn test_normalize_url_removes_fragments() {
    let url1 = Url::parse("https://example.com/page.html#section1").unwrap();
    let url2 = Url::parse("https://example.com/page.html#section2").unwrap();
    let url3 = Url::parse("https://example.com/page.html").unwrap();

    assert_eq!(CrawlState::normalize_url(&url1), "https://example.com/page.html");
    assert_eq!(CrawlState::normalize_url(&url2), "https://example.com/page.html");
    assert_eq!(CrawlState::normalize_url(&url3), "https://example.com/page.html");
}

#[test]
fn test_mark_visited() {
    let start_url = Url::parse("https://example.com/").unwrap();
    let mut crawl_state = CrawlState::new(&start_url, false);

    let url = Url::parse("https://example.com/page.html").unwrap();

    // First visit should return true
    assert!(crawl_state.mark_visited(&url));

    // Second visit should return false
    assert!(!crawl_state.mark_visited(&url));

    // URLs with different fragments should be considered the same
    let url_with_fragment = Url::parse("https://example.com/page.html#section").unwrap();
    assert!(!crawl_state.mark_visited(&url_with_fragment));
}

#[test]
fn test_crawl_state_with_root_path() {
    // Test behavior when starting from root path
    let start_url = Url::parse("https://example.com/").unwrap();
    let crawl_state = CrawlState::new(&start_url, false);

    // All URLs under the domain should match in path prefix mode starting from root
    let test_urls = vec![
        "https://example.com/",
        "https://example.com/page.html",
        "https://example.com/dir/",
        "https://example.com/dir/subpage.html",
        "https://example.com/products/",
        "https://example.com/about/contact.html",
    ];

    for url_str in test_urls {
        let url = Url::parse(url_str).unwrap();
        assert!(
            crawl_state.should_visit_url(&url),
            "URL {} should be visited when starting from root",
            url_str
        );
    }

    // Different domains should not match
    let external_url = Url::parse("https://other.com/").unwrap();
    assert!(!crawl_state.should_visit_url(&external_url));
}

#[test]
fn test_normalize_url_edge_cases() {
    let test_cases = vec![
        ("https://example.com/page", "https://example.com/page"),
        ("https://example.com/page#", "https://example.com/page"),
        ("https://example.com/page#section", "https://example.com/page"),
        ("https://example.com/page?query=value#section", "https://example.com/page?query=value"),
        ("https://example.com/page/../other", "https://example.com/other"),
    ];

    for (input, expected) in test_cases {
        let url = Url::parse(input).unwrap();
        assert_eq!(
            CrawlState::normalize_url(&url),
            expected,
            "Normalization failed for {}",
            input
        );
    }
}

#[test]
fn test_url_parsing_edge_cases() {
    // Test URLs that might cause parsing issues
    let edge_case_urls = vec![
        "https://example.com/path%20with%20spaces/",
        "https://example.com/path?query=value&other=param",
        "https://example.com/path#fragment",
        "https://example.com/path/../other/",
        "https://example.com:8080/path/",
        "https://subdomain.example.com/path/",
    ];

    for url_str in edge_case_urls {
        let url = Url::parse(url_str).unwrap();
        let start_url = Url::parse("https://example.com/path/").unwrap();
        let crawl_state = CrawlState::new(&start_url, false);

        // Should not panic and should return boolean
        let _ = crawl_state.should_visit_url(&url);
        let _ = is_likely_html_content(&url);
        let _ = is_absolute_url(url.as_str());
    }
}

#[test]
fn test_crawl_state_integration_path_prefix() {
    let start_url = Url::parse("https://example.com/products/widgets/").unwrap();
    let mut crawl_state = CrawlState::new(&start_url, false);

    let urls_to_test = vec![
        ("https://example.com/products/widgets/item1", true),
        ("https://example.com/products/widgets/specs.html", true),
        ("https://example.com/products/gadgets/item2", false),
        ("https://example.com/about/", false),
    ];

    for (url_str, should_visit) in urls_to_test {
        let url = Url::parse(url_str).unwrap();

        if crawl_state.should_visit_url(&url) == should_visit {
            // Test mark_visited behavior
            if should_visit {
                assert!(crawl_state.mark_visited(&url), "First visit should return true for {}", url_str);
                assert!(!crawl_state.mark_visited(&url), "Second visit should return false for {}", url_str);
            }
        } else {
            panic!("URL {} should_visit expected: {}, got: {}", url_str, should_visit, crawl_state.should_visit_url(&url));
        }
    }
}

#[test]
fn test_crawl_state_integration_domain_match() {
    let start_url = Url::parse("https://example.com/products/widgets/").unwrap();
    let mut crawl_state = CrawlState::new(&start_url, true);

    let urls_to_test = vec![
        ("https://example.com/products/widgets/item1", true),
        ("https://example.com/products/gadgets/item2", true),
        ("https://example.com/about/", true),
        ("https://example.com/", true),
        ("https://other.com/products/widgets/", false),
    ];

    for (url_str, should_visit) in urls_to_test {
        let url = Url::parse(url_str).unwrap();

        assert_eq!(
            crawl_state.should_visit_url(&url),
            should_visit,
            "URL {} should_visit expected: {}, got: {}",
            url_str,
            should_visit,
            crawl_state.should_visit_url(&url)
        );

        if should_visit {
            assert!(crawl_state.mark_visited(&url), "First visit should return true for {}", url_str);
            assert!(!crawl_state.mark_visited(&url), "Second visit should return false for {}", url_str);
        }
    }
}

#[test]
fn test_url_normalization_and_deduplication() {
    let start_url = Url::parse("https://example.com/").unwrap();
    let mut crawl_state = CrawlState::new(&start_url, true);

    // Test that URLs with different fragments are treated as the same
    let urls_with_fragments = vec![
        "https://example.com/page.html",
        "https://example.com/page.html#section1",
        "https://example.com/page.html#section2",
        "https://example.com/page.html?param=value#section3",
    ];

    let base_url = Url::parse("https://example.com/page.html").unwrap();

    // First URL should be new
    assert!(crawl_state.mark_visited(&base_url));

    // All other variations should be considered already visited
    for url_str in &urls_with_fragments[1..] {
        let url = Url::parse(url_str).unwrap();
        // Note: URLs with query parameters are different from the base URL
        // Only fragment differences should be normalized away
        let should_be_visited = if url_str.contains("?param=value") {
            true  // Different query params mean different URL
        } else {
            false  // Only fragment differences should be treated as same
        };

        assert_eq!(
            crawl_state.mark_visited(&url),
            should_be_visited,
            "URL {} should be considered already visited: {}",
            url_str, should_be_visited
        );
    }
}

// Test the interaction between path prefix matching and HTML content detection
#[test]
fn test_matching_and_content_detection_interaction() {
    let start_url = Url::parse("https://example.com/api/v1/").unwrap();
    let crawl_state = CrawlState::new(&start_url, false); // path prefix mode

    let test_urls = vec![
        // Should visit (same prefix) - HTML detection based on URL structure
        ("https://example.com/api/v1/users", true, true),  // no extension = HTML
        ("https://example.com/api/v1/users.json", true, false),  // .json = not HTML
        ("https://example.com/api/v1/docs/", true, true),  // ends with / = HTML
        ("https://example.com/api/v1/docs/guide.html", true, true),  // .html = HTML

        // Should not visit (different prefix) - but HTML detection still works
        ("https://example.com/api/v2/users", false, true),  // no extension = HTML but won't visit
        ("https://example.com/docs/", false, true),  // ends with / = HTML but won't visit
    ];

    for (url_str, should_visit, is_html) in test_urls {
        let url = Url::parse(url_str).unwrap();

        assert_eq!(
            crawl_state.should_visit_url(&url),
            should_visit,
            "URL {} should_visit - expected: {}, got: {}",
            url_str,
            should_visit,
            crawl_state.should_visit_url(&url)
        );

        if should_visit {
            let should_extract = crawl_state.should_extract_links(&url);
            assert_eq!(
                should_extract,
                should_visit, // should_extract_links should match should_visit_url
                "URL {} should_extract_links - expected: {}, got: {}",
                url_str,
                should_visit,
                should_extract
            );
        }

        assert_eq!(
            is_likely_html_content(&url),
            is_html,
            "URL {} is_likely_html_content - expected: {}, got: {}",
            url_str,
            is_html,
            is_likely_html_content(&url)
        );
    }
}

#[test]
fn normalization_ignores_the_fragment_and_keeps_the_query() {
    let plain = Url::parse("https://example.com/a/b?x=1&y=2").unwrap();
    let one = Url::parse("https://example.com/a/b?x=1&y=2#frag1").unwrap();
    let two = Url::parse("https://example.com/a/b?x=1&y=2#frag2").unwrap();
    let empty = Url::parse("https://example.com/a/b?x=1&y=2#").unwrap();
    let expected = "https://example.com/a/b?x=1&y=2";
    assert_eq!(CrawlState::normalize_url(&plain), expected);
    assert_eq!(CrawlState::normalize_url(&one), expected);
    assert_eq!(CrawlState::normalize_url(&two), expected);
    assert_eq!(CrawlState::normalize_url(&empty), expected);
    // the URL itself keeps its fragment
    assert_eq!(one.as_str(), "https://example.com/a/b?x=1&y=2#frag1");
    // another query is another URL
    let other = Url::parse("https://example.com/a/b?x=1&y=3#frag1").unwrap();
    assert_ne!(CrawlState::normalize_url(&other), expected);
}

#[test]
fn only_the_first_mark_of_equal_urls_is_new() {
    let start_url = Url::parse("https://example.com/").unwrap();
    let mut crawl_state = CrawlState::new(&start_url, false);
    let urls = vec![
        "https://example.com/docs#a",
        "https://example.com/docs",
        "https://example.com/docs#b",
        "https://example.com/docs#",
        "https://example.com/docs#a",
    ];
    let mut answers = Vec::new();
    for text in urls {
        answers.push(crawl_state.mark_visited(&Url::parse(text).unwrap()));
    }
    assert_eq!(answers, vec![true, false, false, false, false]);
    assert_eq!(crawl_state.visited_count(), 2);
}

#[test]
fn the_seed_counts_as_visited() {
    let start_url = Url::parse("https://example.com/start#top").unwrap();
    let mut crawl_state = CrawlState::new(&start_url, false);
    assert!(crawl_state.is_visited(&start_url));
    assert!(crawl_state.is_visited(&Url::parse("https://example.com/start").unwrap()));
    assert!(!crawl_state.mark_visited(&Url::parse("https://example.com/start#other").unwrap()));
    assert_eq!(crawl_state.visited_count(), 1);
}

#[test]
fn scope_in_path_mode() {
    let seed = Url::parse("https://example.com/products/widgets/").unwrap();
    let scope = CrawlState::new(&seed, false);
    let visits = |text: &str| scope.should_visit_url(&Url::parse(text).unwrap());
    assert!(visits("https://example.com/products/widgets/item1"));
    assert!(!visits("https://example.com/products/gadgets/item2"));
    assert!(!visits("https://other.com/products/widgets/item1"));
}

#[test]
fn scope_in_domain_wide_mode() {
    let seed = Url::parse("https://example.com/products/widgets/").unwrap();
    let scope = CrawlState::new(&seed, true);
    let visits = |text: &str| scope.should_visit_url(&Url::parse(text).unwrap());
    assert!(visits("https://example.com/products/gadgets/item2"));
    assert!(visits("https://example.com/about/"));
    assert!(!visits("https://other.com/products/widgets/item1"));
}

#[test]
fn scope_compares_paths_as_text_not_by_segment() {
    let seed = Url::parse("https://example.com/products/widgets").unwrap();
    let scope = CrawlState::new(&seed, false);
    let visits = |text: &str| scope.should_visit_url(&Url::parse(text).unwrap());
    assert!(visits("https://example.com/products/widgets-old/item"));
    assert!(visits("https://example.com/products/widgets"));
    assert!(!visits("https://example.com/products/widget"));
}

#[test]
fn scope_rejects_urls_without_a_domain() {
    let seed = Url::parse("https://example.com/").unwrap();
    let path_scope = CrawlState::new(&seed, false);
    let wide_scope = CrawlState::new(&seed, true);
    for text in ["https://127.0.0.1/", "https://[::1]/page", "mailto:user@example.com", "data:text/plain,hi"] {
        let url = Url::parse(text).unwrap();
        assert!(url.domain().is_none(), "{}", text);
        assert!(!path_scope.should_visit_url(&url), "{}", text);
        assert!(!wide_scope.should_visit_url(&url), "{}", text);
        assert!(!wide_scope.should_extract_links(&url), "{}", text);
    }
}

#[test]
fn scope_tells_subdomains_and_ports_apart_by_domain_only() {
    let seed = Url::parse("https://example.com/path/").unwrap();
    let scope = CrawlState::new(&seed, false);
    assert!(!scope.should_visit_url(&Url::parse("https://subdomain.example.com/path/").unwrap()));
    assert!(scope.should_visit_url(&Url::parse("https://example.com:8080/path/").unwrap()));
    assert!(scope.should_visit_url(&Url::parse("http://example.com/path/x").unwrap()));
    assert!(!scope.should_visit_url(&Url::parse("https://example.com/path").unwrap()));
}
