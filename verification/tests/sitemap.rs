use rehyke_core::sitemap::{Sitemap, SitemapEntry};
use rehyke_core::utils::Url;

/// Reads a `<priority>` value as a number; text that is not one gives `None`.
fn priority(entry: &SitemapEntry) -> Option<f64> {
    entry.priority.as_deref().and_then(|p| p.parse::<f64>().ok())
}

#[test]
fn test_standard_sitemap() {
    let xml = r#"<?xml version="1.0" encoding="UTF-8"?>
<urlset xmlns="http://www.sitemaps.org/schemas/sitemap/0.9">
  <url>
<loc>https://example.com/</loc>
<lastmod>2024-01-15</lastmod>
<changefreq>daily</changefreq>
<priority>1.0</priority>
  </url>
  <url>
<loc>https://example.com/about</loc>
<lastmod>2024-01-10</lastmod>
<changefreq>monthly</changefreq>
<priority>0.8</priority>
  </url>
  <url>
<loc>https://example.com/blog</loc>
  </url>
</urlset>"#;

    let sitemap = Sitemap::parse(xml).unwrap();
    assert_eq!(sitemap.entries.len(), 3);
    assert!(sitemap.sub_sitemaps.is_empty());

    assert_eq!(sitemap.entries[0].loc, "https://example.com/");
    assert_eq!(
        sitemap.entries[0].lastmod.as_deref(),
        Some("2024-01-15")
    );
    assert_eq!(
        sitemap.entries[0].changefreq.as_deref(),
        Some("daily")
    );
    assert_eq!(priority(&sitemap.entries[0]), Some(1.0));

    assert_eq!(sitemap.entries[2].loc, "https://example.com/blog");
    assert!(sitemap.entries[2].lastmod.is_none());
    assert!(sitemap.entries[2].changefreq.is_none());
    assert!(priority(&sitemap.entries[2]).is_none());
}

#[test]
fn test_urls_method() {
    let xml = r#"<?xml version="1.0" encoding="UTF-8"?>
<urlset xmlns="http://www.sitemaps.org/schemas/sitemap/0.9">
  <url><loc>https://example.com/a</loc></url>
  <url><loc>https://example.com/b</loc></url>
</urlset>"#;

    let sitemap = Sitemap::parse(xml).unwrap();
    let urls = sitemap.urls();
    assert_eq!(urls.len(), 2);
    assert_eq!(urls[0], "https://example.com/a");
    assert_eq!(urls[1], "https://example.com/b");
}

#[test]
fn test_sitemap_index() {
    let xml = r#"<?xml version="1.0" encoding="UTF-8"?>
<sitemapindex xmlns="http://www.sitemaps.org/schemas/sitemap/0.9">
  <sitemap>
<loc>https://example.com/sitemap1.xml</loc>
<lastmod>2024-01-15</lastmod>
  </sitemap>
  <sitemap>
<loc>https://example.com/sitemap2.xml</loc>
  </sitemap>
</sitemapindex>"#;

    let sitemap = Sitemap::parse(xml).unwrap();
    assert!(sitemap.entries.is_empty());
    assert_eq!(sitemap.sub_sitemaps.len(), 2);
    assert_eq!(
        sitemap.sub_sitemaps[0],
        "https://example.com/sitemap1.xml"
    );
    assert_eq!(
        sitemap.sub_sitemaps[1],
        "https://example.com/sitemap2.xml"
    );
}

#[test]
fn test_is_sitemap_index_detection() {
    let index_xml = r#"<sitemapindex xmlns="http://www.sitemaps.org/schemas/sitemap/0.9"></sitemapindex>"#;
    let urlset_xml = r#"<urlset xmlns="http://www.sitemaps.org/schemas/sitemap/0.9"></urlset>"#;

    assert!(Sitemap::is_sitemap_index(index_xml));
    assert!(!Sitemap::is_sitemap_index(urlset_xml));
}

#[test]
fn test_common_sitemap_urls() {
    let base = Url::parse("https://example.com/some/page").unwrap();
    let urls = Sitemap::common_sitemap_urls(&base);
    assert_eq!(urls.len(), 4);
    assert_eq!(urls[0], "https://example.com/sitemap.xml");
    assert_eq!(urls[1], "https://example.com/sitemap_index.xml");
    assert_eq!(urls[2], "https://example.com/sitemap/sitemap.xml");
    assert_eq!(urls[3], "https://example.com/sitemaps.xml");
}

#[test]
fn test_common_sitemap_urls_http() {
    let base = Url::parse("http://example.com/").unwrap();
    let urls = Sitemap::common_sitemap_urls(&base);
    assert!(urls[0].starts_with("http://"));
}

#[test]
fn test_empty_urlset() {
    let xml = r#"<?xml version="1.0" encoding="UTF-8"?>
<urlset xmlns="http://www.sitemaps.org/schemas/sitemap/0.9">
</urlset>"#;

    let sitemap = Sitemap::parse(xml).unwrap();
    assert!(sitemap.entries.is_empty());
    assert!(sitemap.sub_sitemaps.is_empty());
    assert!(sitemap.urls().is_empty());
}

#[test]
fn test_empty_sitemapindex() {
    let xml = r#"<?xml version="1.0" encoding="UTF-8"?>
<sitemapindex xmlns="http://www.sitemaps.org/schemas/sitemap/0.9">
</sitemapindex>"#;

    let sitemap = Sitemap::parse(xml).unwrap();
    assert!(sitemap.entries.is_empty());
    assert!(sitemap.sub_sitemaps.is_empty());
}

#[test]
fn test_entry_with_all_fields() {
    let xml = r#"<?xml version="1.0" encoding="UTF-8"?>
<urlset xmlns="http://www.sitemaps.org/schemas/sitemap/0.9">
  <url>
<loc>https://example.com/full</loc>
<lastmod>2024-06-01T12:00:00+00:00</lastmod>
<changefreq>weekly</changefreq>
<priority>0.7</priority>
  </url>
</urlset>"#;

    let sitemap = Sitemap::parse(xml).unwrap();
    assert_eq!(sitemap.entries.len(), 1);
    let entry = &sitemap.entries[0];
    assert_eq!(entry.loc, "https://example.com/full");
    assert_eq!(
        entry.lastmod.as_deref(),
        Some("2024-06-01T12:00:00+00:00")
    );
    assert_eq!(entry.changefreq.as_deref(), Some("weekly"));
    assert_eq!(priority(entry), Some(0.7));
}

#[test]
fn test_entry_loc_only() {
    let xml = r#"<?xml version="1.0" encoding="UTF-8"?>
<urlset xmlns="http://www.sitemaps.org/schemas/sitemap/0.9">
  <url>
<loc>https://example.com/minimal</loc>
  </url>
</urlset>"#;

    let sitemap = Sitemap::parse(xml).unwrap();
    assert_eq!(sitemap.entries.len(), 1);
    let entry = &sitemap.entries[0];
    assert_eq!(entry.loc, "https://example.com/minimal");
    assert!(entry.lastmod.is_none());
    assert!(entry.changefreq.is_none());
    assert!(priority(entry).is_none());
}

#[test]
fn test_url_without_loc_skipped() {
    let xml = r#"<?xml version="1.0" encoding="UTF-8"?>
<urlset xmlns="http://www.sitemaps.org/schemas/sitemap/0.9">
  <url>
<lastmod>2024-01-01</lastmod>
  </url>
  <url>
<loc>https://example.com/valid</loc>
  </url>
</urlset>"#;

    let sitemap = Sitemap::parse(xml).unwrap();
    assert_eq!(sitemap.entries.len(), 1);
    assert_eq!(sitemap.entries[0].loc, "https://example.com/valid");
}

#[test]
fn test_namespace_prefixed_tags() {
    // Some sitemaps use namespace prefixes like <ns:url>.
    let xml = r#"<?xml version="1.0" encoding="UTF-8"?>
<ns:urlset xmlns:ns="http://www.sitemaps.org/schemas/sitemap/0.9">
  <ns:url>
<ns:loc>https://example.com/ns</ns:loc>
  </ns:url>
</ns:urlset>"#;

    let sitemap = Sitemap::parse(xml).unwrap();
    assert_eq!(sitemap.entries.len(), 1);
    assert_eq!(sitemap.entries[0].loc, "https://example.com/ns");
}

#[test]
fn test_invalid_priority_ignored() {
    let xml = r#"<?xml version="1.0" encoding="UTF-8"?>
<urlset xmlns="http://www.sitemaps.org/schemas/sitemap/0.9">
  <url>
<loc>https://example.com/bad-priority</loc>
<priority>not-a-number</priority>
  </url>
</urlset>"#;

    let sitemap = Sitemap::parse(xml).unwrap();
    assert_eq!(sitemap.entries.len(), 1);
    assert!(priority(&sitemap.entries[0]).is_none());
}

#[test]
fn test_multiple_entries() {
    let xml = r#"<?xml version="1.0" encoding="UTF-8"?>
<urlset xmlns="http://www.sitemaps.org/schemas/sitemap/0.9">
  <url><loc>https://example.com/1</loc><priority>0.9</priority></url>
  <url><loc>https://example.com/2</loc><priority>0.5</priority></url>
  <url><loc>https://example.com/3</loc><priority>0.3</priority></url>
  <url><loc>https://example.com/4</loc><priority>0.1</priority></url>
</urlset>"#;

    let sitemap = Sitemap::parse(xml).unwrap();
    assert_eq!(sitemap.entries.len(), 4);
    assert_eq!(priority(&sitemap.entries[0]), Some(0.9));
    assert_eq!(priority(&sitemap.entries[3]), Some(0.1));
}

#[test]
fn test_priority_text_kept_verbatim() {
    let xml = r#"<urlset><url><loc>https://example.com/p</loc><priority>0.25</priority></url></urlset>"#;
    let sitemap = Sitemap::parse(xml).unwrap();
    assert_eq!(sitemap.entries[0].priority.as_deref(), Some("0.25"));
}

#[test]
fn test_local_name_strips_prefix() {
    assert_eq!(rehyke_core::sitemap::local_name_str("ns:loc"), "loc");
    assert_eq!(rehyke_core::sitemap::local_name_str("a:b:url"), "url");
    assert_eq!(rehyke_core::sitemap::local_name_str("loc"), "loc");
}

#[test]
fn test_malformed_sitemap_is_error() {
    let xml = "<urlset><url><loc>https://example.com/</loc></wrong></urlset>";
    assert!(Sitemap::parse(xml).is_err());
}

#[test]
fn test_index_without_sitemap_children_is_empty() {
    let xml = "<sitemapindex><loc>https://example.com/x.xml</loc></sitemapindex>";
    let sitemap = Sitemap::parse(xml).unwrap();
    assert!(sitemap.sub_sitemaps.is_empty());
    assert!(sitemap.entries.is_empty());
}
