use rehyke_core::fetcher::{detect_content_type, url_extension, ContentType};
use rehyke_core::utils::Url;

fn make_url(s: &str) -> Url {
    Url::parse(s).expect("test URL should be valid")
}

#[test]
fn detect_html_from_header() {
    let h: Option<&str> = Some("text/html; charset=utf-8");
    let url = make_url("https://example.com/page");
    assert_eq!(detect_content_type(h, &url, ""), ContentType::Html);
}

#[test]
fn detect_xhtml_from_header() {
    let h: Option<&str> = Some("application/xhtml+xml");
    let url = make_url("https://example.com/page");
    assert_eq!(detect_content_type(h, &url, ""), ContentType::Xhtml);
}

#[test]
fn detect_rss_from_header() {
    let h: Option<&str> = Some("application/rss+xml");
    let url = make_url("https://example.com/feed");
    assert_eq!(detect_content_type(h, &url, ""), ContentType::Rss);
}

#[test]
fn detect_atom_from_header() {
    let h: Option<&str> = Some("application/atom+xml");
    let url = make_url("https://example.com/feed");
    assert_eq!(detect_content_type(h, &url, ""), ContentType::Atom);
}

#[test]
fn detect_json_from_header() {
    let h: Option<&str> = Some("application/json");
    let url = make_url("https://example.com/api");
    assert_eq!(detect_content_type(h, &url, ""), ContentType::Json);
}

#[test]
fn detect_json_ld_from_header() {
    let h: Option<&str> = Some("application/ld+json");
    let url = make_url("https://example.com/data");
    assert_eq!(detect_content_type(h, &url, ""), ContentType::JsonLd);
}

#[test]
fn detect_svg_from_header() {
    let h: Option<&str> = Some("image/svg+xml");
    let url = make_url("https://example.com/image");
    assert_eq!(detect_content_type(h, &url, ""), ContentType::Svg);
}

#[test]
fn detect_plain_text_from_header() {
    let h: Option<&str> = Some("text/plain");
    let url = make_url("https://example.com/robots.txt");
    assert_eq!(detect_content_type(h, &url, ""), ContentType::PlainText);
}

#[test]
fn detect_xml_sitemap_from_header_and_body() {
    let h: Option<&str> = Some("application/xml");
    let url = make_url("https://example.com/sitemap.xml");
    let body = r#"<?xml version="1.0" encoding="UTF-8"?><urlset xmlns="http://www.sitemaps.org/schemas/sitemap/0.9"></urlset>"#;
    assert_eq!(detect_content_type(h, &url, body), ContentType::Sitemap);
}

#[test]
fn detect_xml_rss_from_header_and_body() {
    let h: Option<&str> = Some("text/xml; charset=utf-8");
    let url = make_url("https://example.com/feed.xml");
    let body = r#"<?xml version="1.0"?><rss version="2.0"><channel></channel></rss>"#;
    assert_eq!(detect_content_type(h, &url, body), ContentType::Rss);
}

#[test]
fn detect_other_from_header() {
    let h: Option<&str> = Some("application/pdf");
    let url = make_url("https://example.com/doc.pdf");
    assert_eq!(
        detect_content_type(h, &url, ""),
        ContentType::Other("application/pdf".to_string())
    );
}

#[test]
fn detect_html_from_url_extension() {
    let h: Option<&str> = None;
    let url = make_url("https://example.com/page.html");
    assert_eq!(detect_content_type(h, &url, ""), ContentType::Html);
}

#[test]
fn detect_htm_from_url_extension() {
    let h: Option<&str> = None;
    let url = make_url("https://example.com/page.htm");
    assert_eq!(detect_content_type(h, &url, ""), ContentType::Html);
}

#[test]
fn detect_rss_from_url_extension() {
    let h: Option<&str> = None;
    let url = make_url("https://example.com/feed.rss");
    assert_eq!(detect_content_type(h, &url, ""), ContentType::Rss);
}

#[test]
fn detect_atom_from_url_extension() {
    let h: Option<&str> = None;
    let url = make_url("https://example.com/feed.atom");
    assert_eq!(detect_content_type(h, &url, ""), ContentType::Atom);
}

#[test]
fn detect_json_from_url_extension() {
    let h: Option<&str> = None;
    let url = make_url("https://example.com/data.json");
    assert_eq!(detect_content_type(h, &url, ""), ContentType::Json);
}

#[test]
fn detect_svg_from_url_extension() {
    let h: Option<&str> = None;
    let url = make_url("https://example.com/logo.svg");
    assert_eq!(detect_content_type(h, &url, ""), ContentType::Svg);
}

#[test]
fn detect_txt_from_url_extension() {
    let h: Option<&str> = None;
    let url = make_url("https://example.com/robots.txt");
    assert_eq!(detect_content_type(h, &url, ""), ContentType::PlainText);
}

#[test]
fn detect_xml_from_url_extension_with_sitemap_body() {
    let h: Option<&str> = None;
    let url = make_url("https://example.com/sitemap.xml");
    let body = r#"<?xml version="1.0"?><urlset></urlset>"#;
    assert_eq!(detect_content_type(h, &url, body), ContentType::Sitemap);
}

#[test]
fn detect_xhtml_from_url_extension() {
    let h: Option<&str> = None;
    let url = make_url("https://example.com/page.xhtml");
    assert_eq!(detect_content_type(h, &url, ""), ContentType::Xhtml);
}

#[test]
fn detect_html_from_body_doctype() {
    let h: Option<&str> = None;
    let url = make_url("https://example.com/page");
    let body = "<!DOCTYPE html><html><head></head><body></body></html>";
    assert_eq!(detect_content_type(h, &url, body), ContentType::Html);
}

#[test]
fn detect_html_from_body_html_tag() {
    let h: Option<&str> = None;
    let url = make_url("https://example.com/page");
    let body = "<html><head></head><body>Hello</body></html>";
    assert_eq!(detect_content_type(h, &url, body), ContentType::Html);
}

#[test]
fn detect_rss_from_body() {
    let h: Option<&str> = None;
    let url = make_url("https://example.com/feed");
    let body = r#"<rss version="2.0"><channel><title>Blog</title></channel></rss>"#;
    assert_eq!(detect_content_type(h, &url, body), ContentType::Rss);
}

#[test]
fn detect_atom_from_body() {
    let h: Option<&str> = None;
    let url = make_url("https://example.com/feed");
    let body = r#"<feed xmlns="http://www.w3.org/2005/Atom"><title>Blog</title></feed>"#;
    assert_eq!(detect_content_type(h, &url, body), ContentType::Atom);
}

#[test]
fn detect_sitemap_from_body() {
    let h: Option<&str> = None;
    let url = make_url("https://example.com/sitemap");
    let body = r#"<?xml version="1.0" encoding="UTF-8"?><urlset xmlns="http://www.sitemaps.org/schemas/sitemap/0.9"><url><loc>https://example.com/</loc></url></urlset>"#;
    assert_eq!(detect_content_type(h, &url, body), ContentType::Sitemap);
}

#[test]
fn detect_sitemapindex_from_body() {
    let h: Option<&str> = None;
    let url = make_url("https://example.com/sitemap");
    let body = r#"<?xml version="1.0"?><sitemapindex><sitemap><loc>https://example.com/sitemap1.xml</loc></sitemap></sitemapindex>"#;
    assert_eq!(detect_content_type(h, &url, body), ContentType::Sitemap);
}

#[test]
fn detect_json_from_body() {
    let h: Option<&str> = None;
    let url = make_url("https://example.com/data");
    let body = r#"{"key": "value"}"#;
    assert_eq!(detect_content_type(h, &url, body), ContentType::Json);
}

#[test]
fn detect_json_array_from_body() {
    let h: Option<&str> = None;
    let url = make_url("https://example.com/data");
    let body = r#"[1, 2, 3]"#;
    assert_eq!(detect_content_type(h, &url, body), ContentType::Json);
}

#[test]
fn detect_svg_from_body() {
    let h: Option<&str> = None;
    let url = make_url("https://example.com/image");
    let body =
        r#"<svg xmlns="http://www.w3.org/2000/svg"><circle cx="50" cy="50" r="40"/></svg>"#;
    assert_eq!(detect_content_type(h, &url, body), ContentType::Svg);
}

#[test]
fn detect_xml_from_body() {
    let h: Option<&str> = None;
    let url = make_url("https://example.com/data");
    let body = r#"<?xml version="1.0"?><root><item>hello</item></root>"#;
    assert_eq!(detect_content_type(h, &url, body), ContentType::Xml);
}

#[test]
fn detect_default_html_from_empty_body() {
    let h: Option<&str> = None;
    let url = make_url("https://example.com/page");
    assert_eq!(detect_content_type(h, &url, ""), ContentType::Html);
}

#[test]
fn url_extension_html() {
    let url = make_url("https://example.com/page.html");
    assert_eq!(url_extension(&url), Some("html".to_string()));
}

#[test]
fn url_extension_none() {
    let url = make_url("https://example.com/page");
    assert_eq!(url_extension(&url), None);
}

#[test]
fn url_extension_uppercase() {
    let url = make_url("https://example.com/page.HTML");
    assert_eq!(url_extension(&url), Some("html".to_string()));
}

#[test]
fn url_extension_with_query() {
    let url = make_url("https://example.com/page.xml?foo=bar");
    assert_eq!(url_extension(&url), Some("xml".to_string()));
}
