use rehyke_core::dom::{parse_html_document, DomNode};
use rehyke_core::extractor::{
    classify_link, dedup_links, extract_links, extract_links_from_xml, parse_meta_refresh_url,
    parse_srcset, should_skip_url, ExtractedLinks, LinkType,
};
use rehyke_core::utils::Url;

fn base() -> Url {
    Url::parse("https://example.com/page").unwrap()
}

fn parse_html(html_str: &str) -> Vec<DomNode> {
    parse_html_document(html_str)
}

#[test]
fn test_extract_anchor_absolute() {
    let html = parse_html(
        r#"<html><body><a href="https://example.com/about">About</a></body></html>"#,
    );
    let links = extract_links(&html, &base());
    assert!(links.internal.contains(&"https://example.com/about".to_string()));
}

#[test]
fn test_extract_anchor_relative() {
    let html = parse_html(
        r#"<html><body><a href="/contact">Contact</a></body></html>"#,
    );
    let links = extract_links(&html, &base());
    assert!(links.internal.contains(&"https://example.com/contact".to_string()));
}

#[test]
fn test_extract_anchor_relative_path() {
    let html = parse_html(
        r#"<html><body><a href="other">Other</a></body></html>"#,
    );
    let links = extract_links(&html, &base());
    assert!(links.internal.contains(&"https://example.com/other".to_string()));
}

#[test]
fn test_extract_anchor_external() {
    let html = parse_html(
        r#"<html><body><a href="https://other.com/page">Other</a></body></html>"#,
    );
    let links = extract_links(&html, &base());
    assert!(links.external.contains(&"https://other.com/page".to_string()));
}

#[test]
fn test_extract_anchor_subdomain() {
    let html = parse_html(
        r#"<html><body><a href="https://blog.example.com/post">Blog</a></body></html>"#,
    );
    let links = extract_links(&html, &base());
    assert!(links.subdomains.contains(&"https://blog.example.com/post".to_string()));
}

#[test]
fn test_extract_link_stylesheet() {
    let html = parse_html(
        r#"<html><head><link rel="stylesheet" href="/style.css"></head><body></body></html>"#,
    );
    let links = extract_links(&html, &base());
    assert!(links.resources.contains(&"https://example.com/style.css".to_string()));
}

#[test]
fn test_extract_link_canonical() {
    let html = parse_html(
        r#"<html><head><link rel="canonical" href="https://example.com/canonical"></head><body></body></html>"#,
    );
    let links = extract_links(&html, &base());
    assert!(links.internal.contains(&"https://example.com/canonical".to_string()));
}

#[test]
fn test_extract_link_icon() {
    let html = parse_html(
        r#"<html><head><link rel="icon" href="/favicon.ico"></head><body></body></html>"#,
    );
    let links = extract_links(&html, &base());
    assert!(links.resources.contains(&"https://example.com/favicon.ico".to_string()));
}

#[test]
fn test_extract_img_src() {
    let html = parse_html(
        r#"<html><body><img src="/images/photo.jpg"></body></html>"#,
    );
    let links = extract_links(&html, &base());
    assert!(links
        .resources
        .contains(&"https://example.com/images/photo.jpg".to_string()));
}

#[test]
fn test_extract_script_src() {
    let html = parse_html(
        r#"<html><head><script src="/js/app.js"></script></head><body></body></html>"#,
    );
    let links = extract_links(&html, &base());
    assert!(links.resources.contains(&"https://example.com/js/app.js".to_string()));
}

#[test]
fn test_extract_iframe_src() {
    let html = parse_html(
        r#"<html><body><iframe src="https://example.com/embed"></iframe></body></html>"#,
    );
    let links = extract_links(&html, &base());
    // Iframes are classified as pages (navigable content).
    assert!(links.internal.contains(&"https://example.com/embed".to_string()));
}

#[test]
fn test_extract_video_src() {
    let html = parse_html(
        r#"<html><body><video src="/media/video.mp4"></video></body></html>"#,
    );
    let links = extract_links(&html, &base());
    assert!(links
        .resources
        .contains(&"https://example.com/media/video.mp4".to_string()));
}

#[test]
fn test_extract_video_poster() {
    let html = parse_html(
        r#"<html><body><video poster="/media/poster.jpg" src="/media/video.mp4"></video></body></html>"#,
    );
    let links = extract_links(&html, &base());
    assert!(links
        .resources
        .contains(&"https://example.com/media/poster.jpg".to_string()));
}

#[test]
fn test_extract_audio_src() {
    let html = parse_html(
        r#"<html><body><audio src="/media/song.mp3"></audio></body></html>"#,
    );
    let links = extract_links(&html, &base());
    assert!(links
        .resources
        .contains(&"https://example.com/media/song.mp3".to_string()));
}

#[test]
fn test_extract_source_src() {
    let html = parse_html(
        r#"<html><body><video><source src="/media/video.webm"></video></body></html>"#,
    );
    let links = extract_links(&html, &base());
    assert!(links
        .resources
        .contains(&"https://example.com/media/video.webm".to_string()));
}

#[test]
fn test_parse_srcset_single() {
    let base = Url::parse("https://example.com/").unwrap();
    let result = parse_srcset("image.jpg 1x", &base);
    assert_eq!(result, vec!["https://example.com/image.jpg"]);
}

#[test]
fn test_parse_srcset_multiple() {
    let base = Url::parse("https://example.com/").unwrap();
    let result = parse_srcset("small.jpg 300w, large.jpg 1024w", &base);
    assert_eq!(result.len(), 2);
    assert!(result.contains(&"https://example.com/small.jpg".to_string()));
    assert!(result.contains(&"https://example.com/large.jpg".to_string()));
}

#[test]
fn test_parse_srcset_absolute_urls() {
    let base = Url::parse("https://example.com/").unwrap();
    let result = parse_srcset("https://cdn.example.com/img.jpg 2x", &base);
    assert_eq!(result, vec!["https://cdn.example.com/img.jpg"]);
}

#[test]
fn test_extract_img_srcset() {
    let html = parse_html(
        r#"<html><body><img srcset="small.jpg 300w, large.jpg 1024w" src="small.jpg"></body></html>"#,
    );
    let base = Url::parse("https://example.com/").unwrap();
    let links = extract_links(&html, &base);
    assert!(links.resources.contains(&"https://example.com/small.jpg".to_string()));
    assert!(links.resources.contains(&"https://example.com/large.jpg".to_string()));
}

#[test]
fn test_classify_internal() {
    let mut links = ExtractedLinks::default();
    let url = Url::parse("https://example.com/page2").unwrap();
    classify_link(&url, &base(), LinkType::Page, &mut links);
    assert_eq!(links.internal, vec!["https://example.com/page2"]);
    assert!(links.external.is_empty());
    assert!(links.subdomains.is_empty());
}

#[test]
fn test_classify_external() {
    let mut links = ExtractedLinks::default();
    let url = Url::parse("https://other.com/page").unwrap();
    classify_link(&url, &base(), LinkType::Page, &mut links);
    assert!(links.internal.is_empty());
    assert_eq!(links.external, vec!["https://other.com/page"]);
}

#[test]
fn test_classify_subdomain() {
    let mut links = ExtractedLinks::default();
    let url = Url::parse("https://blog.example.com/post").unwrap();
    classify_link(&url, &base(), LinkType::Page, &mut links);
    assert!(links.internal.is_empty());
    assert_eq!(links.subdomains, vec!["https://blog.example.com/post"]);
}

#[test]
fn test_classify_resource() {
    let mut links = ExtractedLinks::default();
    let url = Url::parse("https://example.com/style.css").unwrap();
    classify_link(&url, &base(), LinkType::Resource, &mut links);
    assert_eq!(links.resources, vec!["https://example.com/style.css"]);
    assert!(links.internal.is_empty());
}

#[test]
fn test_classify_feed() {
    let mut links = ExtractedLinks::default();
    let url = Url::parse("https://example.com/feed.xml").unwrap();
    classify_link(&url, &base(), LinkType::Feed, &mut links);
    assert_eq!(links.feeds, vec!["https://example.com/feed.xml"]);
}

#[test]
fn test_classify_sitemap() {
    let mut links = ExtractedLinks::default();
    let url = Url::parse("https://example.com/sitemap.xml").unwrap();
    classify_link(&url, &base(), LinkType::Sitemap, &mut links);
    assert_eq!(links.sitemaps, vec!["https://example.com/sitemap.xml"]);
}

#[test]
fn test_skip_javascript_url() {
    assert!(should_skip_url("javascript:void(0)"));
    assert!(should_skip_url("JAVASCRIPT:alert(1)"));
}

#[test]
fn test_skip_mailto_url() {
    assert!(should_skip_url("mailto:user@example.com"));
}

#[test]
fn test_skip_tel_url() {
    assert!(should_skip_url("tel:+1234567890"));
}

#[test]
fn test_skip_data_url() {
    assert!(should_skip_url("data:image/png;base64,abc"));
}

#[test]
fn test_skip_empty_and_hash() {
    assert!(should_skip_url(""));
    assert!(should_skip_url("#"));
    assert!(should_skip_url("  "));
}

#[test]
fn test_no_skip_normal_urls() {
    assert!(!should_skip_url("https://example.com"));
    assert!(!should_skip_url("/relative/path"));
    assert!(!should_skip_url("page.html"));
}

#[test]
fn test_skip_urls_in_html() {
    let html = parse_html(
        r##"<html><body>
        <a href="javascript:void(0)">JS</a>
        <a href="mailto:test@example.com">Mail</a>
        <a href="tel:+123">Call</a>
        <a href="#">Top</a>
        <a href="https://example.com/real">Real</a>
        </body></html>"##,
    );
    let links = extract_links(&html, &base());
    // Only the real link should be extracted.
    assert_eq!(links.internal.len(), 1);
    assert!(links.internal.contains(&"https://example.com/real".to_string()));
}

#[test]
fn test_dedup_links() {
    let mut links = ExtractedLinks::default();
    links.internal.push("https://example.com/a".to_string());
    links.internal.push("https://example.com/a".to_string());
    links.internal.push("https://example.com/b".to_string());
    links.external.push("https://other.com/x".to_string());
    links.external.push("https://other.com/x".to_string());
    links
        .resources
        .push("https://example.com/style.css".to_string());
    links
        .resources
        .push("https://example.com/style.css".to_string());

    dedup_links(&mut links);

    assert_eq!(
        links.internal,
        vec!["https://example.com/a", "https://example.com/b"]
    );
    assert_eq!(links.external, vec!["https://other.com/x"]);
    assert_eq!(links.resources, vec!["https://example.com/style.css"]);
}

#[test]
fn test_dedup_preserves_order() {
    let mut links = ExtractedLinks::default();
    links.internal.push("https://example.com/c".to_string());
    links.internal.push("https://example.com/a".to_string());
    links.internal.push("https://example.com/c".to_string());
    links.internal.push("https://example.com/b".to_string());
    links.internal.push("https://example.com/a".to_string());

    dedup_links(&mut links);

    assert_eq!(
        links.internal,
        vec![
            "https://example.com/c",
            "https://example.com/a",
            "https://example.com/b"
        ]
    );
}

#[test]
fn test_parse_meta_refresh_url_simple() {
    let result = parse_meta_refresh_url("5;url=https://example.com/new");
    assert_eq!(result, Some("https://example.com/new".to_string()));
}

#[test]
fn test_parse_meta_refresh_url_case_insensitive() {
    let result = parse_meta_refresh_url("0; URL=https://example.com/redirect");
    assert_eq!(result, Some("https://example.com/redirect".to_string()));
}

#[test]
fn test_parse_meta_refresh_url_quoted() {
    let result = parse_meta_refresh_url("5;URL='https://example.com/quoted'");
    assert_eq!(result, Some("https://example.com/quoted".to_string()));
}

#[test]
fn test_parse_meta_refresh_no_url() {
    let result = parse_meta_refresh_url("5");
    assert!(result.is_none());
}

#[test]
fn test_meta_refresh_in_html() {
    let html = parse_html(
        r#"<html><head><meta http-equiv="refresh" content="5;url=https://example.com/new"></head><body></body></html>"#,
    );
    let links = extract_links(&html, &base());
    assert!(links.internal.contains(&"https://example.com/new".to_string()));
}

#[test]
fn test_feed_link_rss() {
    let html = parse_html(
        r#"<html><head><link rel="alternate" type="application/rss+xml" href="/feed.xml"></head><body></body></html>"#,
    );
    let links = extract_links(&html, &base());
    assert!(links.feeds.contains(&"https://example.com/feed.xml".to_string()));
}

#[test]
fn test_feed_link_atom() {
    let html = parse_html(
        r#"<html><head><link rel="alternate" type="application/atom+xml" href="/atom.xml"></head><body></body></html>"#,
    );
    let links = extract_links(&html, &base());
    assert!(links.feeds.contains(&"https://example.com/atom.xml".to_string()));
}

#[test]
fn test_sitemap_link() {
    let html = parse_html(
        r#"<html><head><link rel="sitemap" href="/sitemap.xml"></head><body></body></html>"#,
    );
    let links = extract_links(&html, &base());
    assert!(links.sitemaps.contains(&"https://example.com/sitemap.xml".to_string()));
}

#[test]
fn test_extract_links_from_sitemap_xml() {
    let xml = r#"<?xml version="1.0" encoding="UTF-8"?>
<urlset xmlns="http://www.sitemaps.org/schemas/sitemap/0.9">
  <url>
<loc>https://example.com/page1</loc>
  </url>
  <url>
<loc>https://example.com/page2</loc>
  </url>
</urlset>"#;
    let base = Url::parse("https://example.com/").unwrap();
    let links = extract_links_from_xml(xml, &base);
    assert_eq!(links.sitemaps.len(), 2);
    assert!(links.sitemaps.contains(&"https://example.com/page1".to_string()));
    assert!(links.sitemaps.contains(&"https://example.com/page2".to_string()));
}

#[test]
fn test_extract_links_from_rss_xml() {
    let xml = r#"<?xml version="1.0" encoding="UTF-8"?>
<rss version="2.0">
  <channel>
<title>Example</title>
<link>https://example.com</link>
<item>
  <title>Post 1</title>
  <link>https://example.com/post1</link>
</item>
<item>
  <title>Post 2</title>
  <link>https://example.com/post2</link>
</item>
  </channel>
</rss>"#;
    let base = Url::parse("https://example.com/").unwrap();
    let links = extract_links_from_xml(xml, &base);
    // RSS links should be classified as feeds since we are inside <channel>.
    assert!(!links.feeds.is_empty());
    let all_feeds: Vec<&String> = links.feeds.iter().collect();
    assert!(all_feeds.iter().any(|u| u.contains("example.com")));
}

#[test]
fn test_extract_links_from_atom_xml() {
    let xml = r#"<?xml version="1.0" encoding="UTF-8"?>
<feed xmlns="http://www.w3.org/2005/Atom">
  <title>Example Feed</title>
  <link href="https://example.com/"/>
  <entry>
<title>Entry 1</title>
<link href="https://example.com/entry1"/>
  </entry>
</feed>"#;
    let base = Url::parse("https://example.com/").unwrap();
    let links = extract_links_from_xml(xml, &base);
    assert!(!links.feeds.is_empty());
    let all: Vec<String> = links
        .feeds
        .iter()
        .chain(links.internal.iter())
        .cloned()
        .collect();
    assert!(all.iter().any(|u| u.contains("example.com")));
}

#[test]
fn test_extract_links_from_sitemap_index_xml() {
    let xml = r#"<?xml version="1.0" encoding="UTF-8"?>
<sitemapindex xmlns="http://www.sitemaps.org/schemas/sitemap/0.9">
  <sitemap>
<loc>https://example.com/sitemap1.xml</loc>
  </sitemap>
  <sitemap>
<loc>https://example.com/sitemap2.xml</loc>
  </sitemap>
</sitemapindex>"#;
    let base = Url::parse("https://example.com/").unwrap();
    let links = extract_links_from_xml(xml, &base);
    assert_eq!(links.sitemaps.len(), 2);
    assert!(links
        .sitemaps
        .contains(&"https://example.com/sitemap1.xml".to_string()));
    assert!(links
        .sitemaps
        .contains(&"https://example.com/sitemap2.xml".to_string()));
}

#[test]
fn test_extract_area_href() {
    let html = parse_html(
        r#"<html><body><map><area href="/region1"><area href="/region2"></map></body></html>"#,
    );
    let links = extract_links(&html, &base());
    assert!(links.internal.contains(&"https://example.com/region1".to_string()));
    assert!(links.internal.contains(&"https://example.com/region2".to_string()));
}

#[test]
fn test_extract_form_action() {
    let html = parse_html(
        r#"<html><body><form action="/search"></form></body></html>"#,
    );
    let links = extract_links(&html, &base());
    assert!(links.internal.contains(&"https://example.com/search".to_string()));
}

#[test]
fn test_extract_og_url() {
    let html = parse_html(
        r#"<html><head><meta property="og:url" content="https://example.com/canonical-page"></head><body></body></html>"#,
    );
    let links = extract_links(&html, &base());
    assert!(links
        .internal
        .contains(&"https://example.com/canonical-page".to_string()));
}

#[test]
fn test_extract_og_image() {
    let html = parse_html(
        r#"<html><head><meta property="og:image" content="https://example.com/og.jpg"></head><body></body></html>"#,
    );
    let links = extract_links(&html, &base());
    assert!(links.resources.contains(&"https://example.com/og.jpg".to_string()));
}

#[test]
fn test_extract_twitter_image() {
    let html = parse_html(
        r#"<html><head><meta name="twitter:image" content="https://example.com/tw.jpg"></head><body></body></html>"#,
    );
    let links = extract_links(&html, &base());
    assert!(links.resources.contains(&"https://example.com/tw.jpg".to_string()));
}

#[test]
fn test_full_html_document() {
    let html_str = r#"<!DOCTYPE html>
<html>
<head>
<link rel="stylesheet" href="/css/main.css">
<link rel="alternate" type="application/rss+xml" href="/feed.xml">
<link rel="canonical" href="https://example.com/page">
<link rel="sitemap" href="/sitemap.xml">
<script src="/js/app.js"></script>
<meta http-equiv="refresh" content="10;url=https://example.com/redirected">
<meta property="og:image" content="https://example.com/og-image.png">
</head>
<body>
<a href="/about">About</a>
<a href="https://other.com">Other</a>
<a href="https://blog.example.com/post">Blog Post</a>
<a href="javascript:void(0)">No-op</a>
<a href="mailto:test@example.com">Email</a>
<img src="/images/hero.jpg" srcset="/images/hero-sm.jpg 480w, /images/hero-lg.jpg 1024w">
<iframe src="https://example.com/widget"></iframe>
<video src="/video/intro.mp4" poster="/video/poster.jpg"></video>
</body>
</html>"#;

    let html = parse_html(html_str);
    let base = Url::parse("https://example.com/page").unwrap();
    let mut links = extract_links(&html, &base);
    dedup_links(&mut links);

    // Internal pages
    assert!(links.internal.contains(&"https://example.com/about".to_string()));
    assert!(links
        .internal
        .contains(&"https://example.com/page".to_string())); // canonical
    assert!(links
        .internal
        .contains(&"https://example.com/redirected".to_string())); // meta refresh
    assert!(links
        .internal
        .contains(&"https://example.com/widget".to_string())); // iframe

    // External
    assert!(links.external.contains(&"https://other.com/".to_string()));

    // Subdomains
    assert!(links
        .subdomains
        .contains(&"https://blog.example.com/post".to_string()));

    // Resources
    assert!(links
        .resources
        .contains(&"https://example.com/css/main.css".to_string()));
    assert!(links
        .resources
        .contains(&"https://example.com/js/app.js".to_string()));
    assert!(links
        .resources
        .contains(&"https://example.com/images/hero.jpg".to_string()));
    assert!(links
        .resources
        .contains(&"https://example.com/images/hero-sm.jpg".to_string()));
    assert!(links
        .resources
        .contains(&"https://example.com/images/hero-lg.jpg".to_string()));
    assert!(links
        .resources
        .contains(&"https://example.com/og-image.png".to_string()));
    assert!(links
        .resources
        .contains(&"https://example.com/video/intro.mp4".to_string()));
    assert!(links
        .resources
        .contains(&"https://example.com/video/poster.jpg".to_string()));

    // Feeds
    assert!(links.feeds.contains(&"https://example.com/feed.xml".to_string()));

    // Sitemaps
    assert!(links
        .sitemaps
        .contains(&"https://example.com/sitemap.xml".to_string()));

    // javascript: and mailto: should NOT be anywhere
    let all_urls: Vec<&String> = links
        .internal
        .iter()
        .chain(&links.external)
        .chain(&links.subdomains)
        .chain(&links.resources)
        .chain(&links.feeds)
        .chain(&links.sitemaps)
        .collect();
    assert!(!all_urls.iter().any(|u| u.starts_with("javascript:")));
    assert!(!all_urls.iter().any(|u| u.starts_with("mailto:")));
}
