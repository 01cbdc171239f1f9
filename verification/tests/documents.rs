use rehyke_core::dom::{attr_value, descendants, element_text, node_name, parse_html_document, select_in};
use rehyke_core::error::RehykeError;
use rehyke_core::html::{extract_metadata, parse_html as parse_html_page};
use rehyke_core::json::parse_json as parse_json_text_document;
use rehyke_core::parser::{ContentNode, ParseConfig};

#[test]
fn dom_keeps_structure_and_text() {
    let doc = parse_html_document("<div id=\"main\"><p>Hello <b>world</b></p><p>Second</p></div>");
    let ps = select_in(&doc, "p");
    assert_eq!(ps.len(), 2);
    assert_eq!(element_text(ps[0]), "Hello world");
    assert_eq!(element_text(ps[1]), "Second");
    let divs = select_in(&doc, "div");
    assert_eq!(divs.len(), 1);
    assert_eq!(node_name(divs[0]), "div");
    assert_eq!(attr_value(divs[0], "id"), Some("main"));
    assert_eq!(attr_value(divs[0], "class"), None);
    assert_eq!(descendants(divs[0], "b").len(), 1);
}

#[test]
fn dom_of_empty_text_has_document_shell() {
    let doc = parse_html_document("");
    assert_eq!(select_in(&doc, "html").len(), 1);
    assert_eq!(select_in(&doc, "body").len(), 1);
    assert_eq!(select_in(&doc, "p").len(), 0);
}

#[test]
fn metadata_reads_canonical_case_insensitively() {
    let doc = parse_html_document(
        "<html><head><link rel=\"Canonical\" href=\"https://example.com/page\"><meta name=\"keywords\" content=\"a, b ,c\"></head><body></body></html>",
    );
    let meta = extract_metadata(&doc);
    assert_eq!(meta.canonical_url.as_deref(), Some("https://example.com/page"));
    assert_eq!(meta.keywords, vec!["a".to_string(), "b".to_string(), "c".to_string()]);
}

#[test]
fn metadata_skipped_when_disabled() {
    let cfg = ParseConfig {
        clean_navigation: true,
        clean_footers: true,
        clean_ads: true,
        clean_comments: true,
        extract_metadata: false,
    };
    let doc = parse_html_page("<html><head><title>T</title></head><body><p>x</p></body></html>", &cfg).unwrap();
    assert!(doc.metadata.title.is_none());
}

#[test]
fn scripts_give_no_content() {
    let doc = parse_html_page(
        "<html><body><script>var x = 1;</script><p>Visible</p></body></html>",
        &ParseConfig::default(),
    )
    .unwrap();
    let texts: Vec<String> = doc
        .content_nodes
        .iter()
        .filter_map(|n| match n {
            ContentNode::Paragraph(t) => Some(t.clone()),
            ContentNode::RawText(t) => Some(t.clone()),
            _ => None,
        })
        .collect();
    assert!(texts.iter().any(|t| t.contains("Visible")));
    assert!(!texts.iter().any(|t| t.contains("var x")));
}

#[test]
fn navigation_kept_without_cleaning() {
    let cfg = ParseConfig {
        clean_navigation: false,
        clean_footers: true,
        clean_ads: true,
        clean_comments: true,
        extract_metadata: true,
    };
    let html = "<html><body><nav><p>Menu entry</p></nav><p>Body</p></body></html>";
    let kept = parse_html_page(html, &cfg).unwrap();
    let cleaned = parse_html_page(html, &ParseConfig::default()).unwrap();
    let has_menu = |nodes: &Vec<ContentNode>| {
        nodes.iter().any(|n| matches!(n, ContentNode::Paragraph(t) if t.contains("Menu entry")))
    };
    assert!(has_menu(&kept.content_nodes));
    assert!(!has_menu(&cleaned.content_nodes));
}

#[test]
fn json_error_has_prefix() {
    match parse_json_text_document("{oops") {
        Err(RehykeError::ParseError { url, message }) => {
            assert_eq!(url, "");
            assert!(message.starts_with("JSON parse error: "), "{}", message);
            assert!(message.len() > "JSON parse error: ".len());
        }
        _ => panic!("expected a parse error"),
    }
}

#[test]
fn json_array_of_objects_is_a_table() {
    let doc = parse_json_text_document("[{\"a\": 1, \"b\": \"x\"}, {\"a\": 2, \"b\": \"y\"}]").unwrap();
    match &doc.content_nodes[0] {
        ContentNode::Table { headers, rows } => {
            assert_eq!(headers, &vec!["a".to_string(), "b".to_string()]);
            assert_eq!(
                rows,
                &vec![
                    vec!["1".to_string(), "x".to_string()],
                    vec!["2".to_string(), "y".to_string()]
                ]
            );
        }
        other => panic!("expected a table, got {:?}", other),
    }
}

#[test]
fn json_ld_fills_metadata() {
    let doc = parse_json_text_document(
        "{\"@context\": \"https://schema.org\", \"@type\": \"Article\", \"headline\": \"Big News\", \"description\": \"What happened\", \"datePublished\": \"2024-01-02\", \"author\": {\"name\": \"Ann\"}}",
    )
    .unwrap();
    assert_eq!(doc.metadata.title.as_deref(), Some("Big News"));
    assert_eq!(doc.metadata.description.as_deref(), Some("What happened"));
    assert_eq!(doc.metadata.published_date.as_deref(), Some("2024-01-02"));
    assert_eq!(doc.metadata.author.as_deref(), Some("Ann"));
    assert!(matches!(&doc.content_nodes[0], ContentNode::Heading { level: 1, text } if text == "Big News"));
}

#[test]
fn json_scalar_members_are_paragraphs() {
    let doc = parse_json_text_document("{\"name\": \"x\", \"count\": 3}").unwrap();
    let paragraphs: Vec<String> = doc
        .content_nodes
        .iter()
        .filter_map(|n| match n {
            ContentNode::Paragraph(t) => Some(t.clone()),
            _ => None,
        })
        .collect();
    assert!(paragraphs.contains(&"name: x".to_string()), "{:?}", paragraphs);
    assert!(paragraphs.contains(&"count: 3".to_string()), "{:?}", paragraphs);
}

#[test]
fn error_messages_read_as_documented() {
    assert_eq!(
        RehykeError::HttpError { url: "https://x.org/".into(), status: 404 }.message(),
        "HTTP error for https://x.org/: 404"
    );
    assert_eq!(RehykeError::Timeout { url: "u".into() }.message(), "Connection timeout for u");
    assert_eq!(RehykeError::DnsError { domain: "d".into() }.message(), "DNS resolution failed for d");
    assert_eq!(
        RehykeError::TlsError { url: "u".into(), message: "m".into() }.message(),
        "TLS/SSL error for u: m"
    );
    assert_eq!(
        RehykeError::RenderError { url: "u".into(), message: "m".into() }.message(),
        "JavaScript rendering failed for u: m"
    );
    assert_eq!(RehykeError::BrowserError { message: "m".into() }.message(), "Browser launch failed: m");
    assert_eq!(
        RehykeError::ParseError { url: "u".into(), message: "m".into() }.message(),
        "Parse error for u: m"
    );
    assert_eq!(RehykeError::ProxyError { message: "m".into() }.message(), "Proxy error: m");
    assert_eq!(RehykeError::RateLimited { domain: "d".into() }.message(), "Rate limited by d");
    assert_eq!(RehykeError::MaxPagesReached { limit: 100 }.message(), "Max pages limit reached: 100");
    assert_eq!(RehykeError::IoError("m".into()).message(), "IO error: m");
    assert_eq!(RehykeError::ConfigError { message: "m".into() }.message(), "Configuration error: m");
    assert_eq!(RehykeError::RequestError("m".into()).message(), "Request error: m");
    assert_eq!(RehykeError::UrlParseError("m".into()).message(), "URL parse error: m");
}

#[test]
fn url_try_parse_reports_the_reason() {
    let err = rehyke_core::utils::Url::try_parse("no scheme here").err().unwrap();
    assert!(!err.is_empty());
    let ok = rehyke_core::utils::Url::try_parse("HTTPS://Example.COM/a").unwrap();
    assert_eq!(ok.as_str(), "https://example.com/a");
}
