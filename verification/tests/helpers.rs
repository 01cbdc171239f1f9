use rehyke_core::config::apply_unit;
use rehyke_core::extractor::meta_refresh_url;
use rehyke_core::parser::parse_atom_feed;
use rehyke_core::utils::{parse_url_lossy, Url};

#[test]
fn apply_unit_scales_each_unit() {
    assert_eq!(apply_unit(250, "ms"), Ok(250));
    assert_eq!(apply_unit(3, "s"), Ok(3_000));
    assert_eq!(apply_unit(3, "secs"), Ok(3_000));
    assert_eq!(apply_unit(2, "min"), Ok(120_000));
    assert_eq!(apply_unit(1, "hrs"), Ok(3_600_000));
    assert_eq!(apply_unit(1, "days"), Err("unknown duration unit: days".to_string()));
    assert_eq!(
        apply_unit(u64::MAX, "h"),
        Err("duration exceeds u64 milliseconds: h".to_string())
    );
}

#[test]
fn meta_refresh_url_reads_the_url() {
    assert_eq!(
        meta_refresh_url("5; url=https://example.com/next"),
        Some("https://example.com/next".to_string())
    );
    assert_eq!(meta_refresh_url("0"), None);
}

#[test]
fn atom_feed_reads_entries() {
    let xml = r#"<?xml version="1.0" encoding="utf-8"?>
<feed xmlns="http://www.w3.org/2005/Atom">
  <title>Example Feed</title>
  <subtitle>All the news</subtitle>
  <link href="https://example.com/"/>
  <entry>
    <title>First post</title>
    <link href="https://example.com/first"/>
    <summary>The first one</summary>
    <updated>2024-01-01T00:00:00Z</updated>
    <author><name>Jo</name></author>
  </entry>
</feed>"#;
    let feed = parse_atom_feed(xml).unwrap();
    assert_eq!(feed.title.as_deref(), Some("Example Feed"));
    assert_eq!(feed.items.len(), 1);
    assert_eq!(feed.items[0].title.as_deref(), Some("First post"));
    assert_eq!(feed.items[0].link.as_deref(), Some("https://example.com/first"));
}

#[test]
fn atom_feed_syntax_error_is_reported() {
    match parse_atom_feed("<feed><entry></feed>") {
        Err(e) => assert!(e.message().contains("Atom parse error: "), "{}", e.message()),
        Ok(_) => panic!("mismatched tags should fail"),
    }
}

#[test]
fn lossy_copy_keeps_the_url() {
    let u = Url::parse("https://example.com/a?b=c").unwrap();
    let copy = parse_url_lossy(&u);
    assert_eq!(copy.as_str(), u.as_str());
}

#[test]
fn request_headers_add_defaults() {
    let h = rehyke_core::fetcher::request_headers(&Vec::new());
    assert_eq!(
        h,
        vec![
            (
                "accept".to_string(),
                "text/html,application/xhtml+xml,application/xml;q=0.9,*/*;q=0.8".to_string()
            ),
            ("accept-language".to_string(), "en-US,en;q=0.9".to_string()),
        ]
    );
}

#[test]
fn request_headers_merge_case_insensitively() {
    let custom = vec![
        ("Accept".to_string(), "text/plain".to_string()),
        ("X-Token".to_string(), "1".to_string()),
        ("x-token".to_string(), "2".to_string()),
    ];
    let h = rehyke_core::fetcher::request_headers(&custom);
    assert_eq!(
        h,
        vec![
            ("accept".to_string(), "text/plain".to_string()),
            ("x-token".to_string(), "2".to_string()),
            ("accept-language".to_string(), "en-US,en;q=0.9".to_string()),
        ]
    );
}

#[test]
fn missing_content_type_is_html() {
    assert_eq!(rehyke_core::fetcher::content_type_or_html(None), "text/html");
    assert_eq!(
        rehyke_core::fetcher::content_type_or_html(Some("application/json")),
        "application/json"
    );
}
