use share_to_ytdlp::url::{extract_url, require_http_url, starts_with_http, UrlError};

#[test]
fn accepts_a_plain_url() {
    assert_eq!(
        extract_url("https://x.com/example/status/123"),
        Some("https://x.com/example/status/123".to_string())
    );
}

#[test]
fn extracts_a_url_from_share_text() {
    assert_eq!(
        extract_url("Take a look: https://x.com/example/status/123). More text"),
        Some("https://x.com/example/status/123".to_string())
    );
}

#[test]
fn rejects_non_http_text() {
    assert_eq!(extract_url("no link here"), None);
    assert!(require_http_url("file:///C:/video.mp4").is_err());
}

#[test]
fn scheme_prefix_ignores_ascii_case() {
    assert!(starts_with_http("HTTPS://example.com"));
    assert!(starts_with_http("hTtP://example.com"));
    assert!(starts_with_http("http://"));
    assert!(!starts_with_http("http:/"));
    assert!(!starts_with_http("https:/x"));
    assert!(!starts_with_http(" https://example.com"));
    assert!(!starts_with_http("ftp://example.com"));
    assert!(!starts_with_http(""));
    assert!(!starts_with_http("\u{0130}ttps://example.com"));
}

#[test]
fn require_trims_white_space_and_byte_order_marks() {
    assert_eq!(
        require_http_url("\u{feff}  https://example.com/a \t\n"),
        Ok("https://example.com/a".to_string())
    );
    assert_eq!(
        require_http_url("\u{3000}http://example.com\u{2028}"),
        Ok("http://example.com".to_string())
    );
}

#[test]
fn require_refuses_inner_white_space() {
    assert_eq!(
        require_http_url("https://example.com/a b"),
        Err(UrlError::NotHttpUrl)
    );
    assert_eq!(require_http_url(""), Err(UrlError::NotHttpUrl));
    assert_eq!(require_http_url("   "), Err(UrlError::NotHttpUrl));
    assert_eq!(
        require_http_url("see https://example.com"),
        Err(UrlError::NotHttpUrl)
    );
}

#[test]
fn url_error_message() {
    assert_eq!(UrlError::NotHttpUrl.message(), "expected one HTTP or HTTPS URL");
}

#[test]
fn extract_stops_at_quotes_and_angle_brackets() {
    assert_eq!(
        extract_url("<a href=\"https://example.com/x?y=1\">link</a>"),
        Some("https://example.com/x?y=1".to_string())
    );
    assert_eq!(
        extract_url("say 'http://a.b/c' now"),
        Some("http://a.b/c".to_string())
    );
    assert_eq!(
        extract_url("see <https://example.com/path>"),
        Some("https://example.com/path".to_string())
    );
    assert_eq!(
        extract_url("x https://a.b/c\u{feff}d"),
        Some("https://a.b/c".to_string())
    );
}

#[test]
fn extract_drops_trailing_punctuation() {
    assert_eq!(
        extract_url("Look (https://example.com/a).,;!]} ok"),
        Some("https://example.com/a".to_string())
    );
    assert_eq!(
        extract_url("end: https://example.com/a..."),
        Some("https://example.com/a".to_string())
    );
    assert_eq!(
        extract_url("a https://example.com/(x) b"),
        Some("https://example.com/(x".to_string())
    );
}

#[test]
fn extract_takes_the_first_url() {
    assert_eq!(
        extract_url("first http://one.example second https://two.example"),
        Some("http://one.example".to_string())
    );
    assert_eq!(
        extract_url("xhttps://a.example"),
        Some("https://a.example".to_string())
    );
}

#[test]
fn extract_keeps_a_whole_trimmed_url() {
    assert_eq!(
        extract_url("  https://example.com/a).  "),
        Some("https://example.com/a).".to_string())
    );
    assert_eq!(
        extract_url("\u{feff}HTTPS://Example.com"),
        Some("HTTPS://Example.com".to_string())
    );
}

#[test]
fn extract_handles_non_ascii_text() {
    assert_eq!(
        extract_url("Schau: https://bei\u{00df}pi\u{00e9}l.de/\u{1f600} \u{00fc}berall"),
        Some("https://bei\u{00df}pi\u{00e9}l.de/\u{1f600}".to_string())
    );
    assert_eq!(extract_url("\u{00e9}\u{00e9}\u{00e9}"), None);
    assert_eq!(extract_url(""), None);
    assert_eq!(extract_url("http:/ not"), None);
}

#[test]
fn extracted_url_is_accepted_unchanged() {
    for text in [
        "Take a look: https://x.com/example/status/123). More text",
        "  https://example.com/a).  ",
        "<https://example.com/path>",
        "x https://a.b/c\u{feff}d",
        "first http://one.example second https://two.example",
    ] {
        let url = extract_url(text).expect("text holds a URL");
        assert_eq!(require_http_url(&url), Ok(url.clone()));
        assert_eq!(extract_url(&url), Some(url.clone()));
    }
}

#[test]
fn accepted_url_is_extracted_unchanged() {
    for value in ["https://a.example/x).", "\u{feff} http://b.example \u{85}"] {
        let url = require_http_url(value).expect("value is a URL");
        assert_eq!(extract_url(value), Some(url));
    }
}

#[test]
fn trimming_twice_changes_nothing() {
    for value in ["\u{feff} https://a.example \t", "https://b.example", "\u{2003}http://c.example\u{feff}"] {
        let once = require_http_url(value).expect("value is a URL");
        assert_eq!(require_http_url(&once), Ok(once.clone()));
    }
}

#[test]
fn no_url_exactly_when_no_scheme_occurs() {
    for text in ["no link here", "", "   ", "http:/x https:x", "\u{feff}ftp://a.b"] {
        assert_eq!(extract_url(text), None, "{text:?}");
    }
    for text in ["xHTTP://a", "  \"https://a.b\"  ", "(http://)", "\u{00e9}https://\u{00e9}"] {
        assert!(extract_url(text).is_some(), "{text:?}");
    }
}
