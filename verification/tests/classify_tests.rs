use link_checker::{is_absolute_url, is_likely_html_content, Url};

#[test]
fn test_is_absolute_url() {
    // Absolute URLs
    let absolute_urls = vec![
        "https://example.com/page",
        "http://example.com/page",
        "ftp://files.example.com/file",
        "mailto:user@example.com",
        "tel:+1234567890",
    ];

    for url in absolute_urls {
        assert!(is_absolute_url(url), "Should detect {} as absolute", url);
    }

    // Relative URLs
    let relative_urls = vec![
        "/page.html",
        "page.html",
        "../page.html",
        "./page.html",
        "?query=value",
        "#fragment",
    ];

    for url in relative_urls {
        assert!(!is_absolute_url(url), "Should NOT detect {} as absolute", url);
    }
}

#[test]
fn test_is_likely_html_content() {
    // URLs that should be detected as HTML
    let html_urls = vec![
        "https://example.com/",
        "https://example.com/dir/",
        "https://example.com/page.html",
        "https://example.com/page.htm",
        "https://example.com/page.php",
        "https://example.com/page.asp",
    ];

    for url_str in html_urls {
        let url = Url::parse(url_str).unwrap();
        assert!(is_likely_html_content(&url), "Should detect {} as HTML", url_str);
    }

    // URLs that should NOT be detected as HTML
    let non_html_urls = vec![
        "https://example.com/image.jpg",
        "https://example.com/document.pdf",
        "https://example.com/archive.zip",
        "https://example.com/script.js",
        "https://example.com/style.css",
        "https://example.com/data.json",
    ];

    for url_str in non_html_urls {
        let url = Url::parse(url_str).unwrap();
        assert!(!is_likely_html_content(&url), "Should NOT detect {} as HTML", url_str);
    }
}

#[test]
fn test_content_type_detection_logic() {
    // Test the logic for determining HTML content
    let test_cases = vec![
        // HTML-like URLs
        ("https://example.com/", true),
        ("https://example.com/page", true),
        ("https://example.com/dir/", true),
        ("https://example.com/page.html", true),
        ("https://example.com/page.htm", true),
        ("https://example.com/page.php", true),
        ("https://example.com/page.asp", true),
        ("https://example.com/page.aspx", true),
        ("https://example.com/page.jsp", true),

        // Non-HTML URLs
        ("https://example.com/image.jpg", false),
        ("https://example.com/document.pdf", false),
        ("https://example.com/archive.zip", false),
        ("https://example.com/script.js", false),
        ("https://example.com/style.css", false),
        ("https://example.com/data.json", false),
        ("https://example.com/data.xml", false),
    ];

    for (url_str, expected_html) in test_cases {
        let url = Url::parse(url_str).unwrap();
        assert_eq!(
            is_likely_html_content(&url),
            expected_html,
            "URL {} - expected HTML: {}, got: {}",
            url_str,
            expected_html,
            is_likely_html_content(&url)
        );
    }
}

#[test]
fn every_html_extension_counts_whatever_its_case() {
    for ext in ["html", "htm", "php", "asp", "aspx", "jsp", "cfm", "cgi", "pl", "py", "rb"] {
        assert!(link_checker::classify::is_html_like_path(&format!("/dir/page.{}", ext)), "{}", ext);
        let upper = ext.to_uppercase();
        assert!(link_checker::classify::is_html_like_path(&format!("/dir/page.{}", upper)), "{}", upper);
        assert!(!link_checker::classify::is_html_like_path(&format!("/dir/page.{}z", ext)), "{}z", ext);
        assert!(!link_checker::classify::is_html_like_path(&format!("/dir/page.z{}", ext)), "z{}", ext);
    }
    assert!(link_checker::classify::is_html_like_path("/a/Page.HtMl"));
}

#[test]
fn html_like_paths_by_shape() {
    let html_like = link_checker::classify::is_html_like_path;
    assert!(html_like(""));
    assert!(html_like("/"));
    assert!(html_like("/archive.zip/"));
    assert!(html_like("/v1.2/users"));
    assert!(html_like("/page"));
    assert!(html_like("page"));
    assert!(html_like("/dir.d/file.tar.html"));
    assert!(!html_like("/file.html.gz"));
    assert!(!html_like("/file."));
    assert!(!html_like("photo.jpeg"));
    assert!(!html_like("/.hidden"));
}

#[test]
fn the_query_does_not_count_for_the_extension() {
    let url = Url::parse("https://example.com/image.jpg?as=page.html").unwrap();
    assert!(!is_likely_html_content(&url));
    let url = Url::parse("https://example.com/page.html?as=image.jpg#x.png").unwrap();
    assert!(is_likely_html_content(&url));
    let url = Url::parse("https://example.com").unwrap();
    assert!(is_likely_html_content(&url));
}

#[test]
fn absolute_hrefs_by_shape() {
    assert!(is_absolute_url("://"));
    assert!(is_absolute_url("x://"));
    assert!(is_absolute_url("/redirect?to=https://example.com/"));
    assert!(is_absolute_url("mailto:"));
    assert!(is_absolute_url("tel:"));
    assert!(!is_absolute_url(""));
    assert!(!is_absolute_url(":/"));
    assert!(!is_absolute_url("//example.com/page"));
    assert!(!is_absolute_url("a/mailto:x"));
    assert!(!is_absolute_url("MAILTO:user@example.com"));
    assert!(!is_absolute_url("telephone"));
    assert!(!is_absolute_url("javascript:void(0)"));
    assert!(!is_absolute_url("https:/example.com"));
}
