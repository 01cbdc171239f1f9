use rehyke_core::robots::{path_matches, RobotsTxt};
use rehyke_core::utils::Url;

/// The crawl delay in seconds: the last `Crawl-delay` value that reads as a
/// number.
fn crawl_delay(robots: &RobotsTxt) -> Option<f64> {
    robots
        .crawl_delay_values()
        .iter()
        .rev()
        .find_map(|v| v.parse::<f64>().ok())
}

#[test]
fn test_basic_disallow() {
    let content = "\
User-agent: *
Disallow: /admin
Disallow: /private/
";
    let robots = RobotsTxt::parse(content);
    assert!(!robots.is_allowed("/admin"));
    assert!(!robots.is_allowed("/admin/settings"));
    assert!(!robots.is_allowed("/private/"));
    assert!(!robots.is_allowed("/private/data"));
    assert!(robots.is_allowed("/public"));
    assert!(robots.is_allowed("/"));
}

#[test]
fn test_basic_allow_overrides_disallow() {
    let content = "\
User-agent: *
Disallow: /dir/
Allow: /dir/page
";
    let robots = RobotsTxt::parse(content);
    assert!(robots.is_allowed("/dir/page"));
    assert!(robots.is_allowed("/dir/page/sub"));
    assert!(!robots.is_allowed("/dir/other"));
}

#[test]
fn test_allow_same_length_takes_precedence() {
    let content = "\
User-agent: *
Disallow: /x
Allow: /x
";
    let robots = RobotsTxt::parse(content);
    assert!(robots.is_allowed("/x"));
}

#[test]
fn test_wildcard_user_agent() {
    let content = "\
User-agent: *
Disallow: /secret
";
    let robots = RobotsTxt::parse(content);
    assert!(!robots.is_allowed("/secret"));
    assert!(robots.is_allowed("/open"));
}

#[test]
fn test_specific_user_agent_rehyke() {
    let content = "\
User-agent: *
Disallow: /all-bots

User-agent: Rehyke
Disallow: /rehyke-only
Allow: /all-bots
";
    let robots = RobotsTxt::parse(content);
    // The Rehyke-specific rules should apply, not the wildcard.
    assert!(robots.is_allowed("/all-bots"));
    assert!(!robots.is_allowed("/rehyke-only"));
}

#[test]
fn test_case_insensitive_user_agent() {
    let content = "\
User-agent: REHYKE
Disallow: /blocked
";
    let robots = RobotsTxt::parse(content);
    assert!(!robots.is_allowed("/blocked"));
}

#[test]
fn test_sitemap_extraction() {
    let content = "\
User-agent: *
Disallow: /tmp

Sitemap: https://example.com/sitemap.xml
Sitemap: https://example.com/sitemap2.xml
";
    let robots = RobotsTxt::parse(content);
    assert_eq!(robots.sitemaps().len(), 2);
    assert_eq!(robots.sitemaps()[0], "https://example.com/sitemap.xml");
    assert_eq!(robots.sitemaps()[1], "https://example.com/sitemap2.xml");
}

#[test]
fn test_no_sitemaps() {
    let content = "\
User-agent: *
Disallow:
";
    let robots = RobotsTxt::parse(content);
    assert!(robots.sitemaps().is_empty());
}

#[test]
fn test_wildcard_in_path() {
    let content = "\
User-agent: *
Disallow: /dir/*/private
";
    let robots = RobotsTxt::parse(content);
    assert!(!robots.is_allowed("/dir/abc/private"));
    assert!(!robots.is_allowed("/dir/xyz/private/data"));
    assert!(robots.is_allowed("/dir/abc/public"));
}

#[test]
fn test_dollar_anchor() {
    let content = "\
User-agent: *
Disallow: /*.pdf$
";
    let robots = RobotsTxt::parse(content);
    assert!(!robots.is_allowed("/docs/report.pdf"));
    assert!(robots.is_allowed("/docs/report.pdf.bak"));
    assert!(robots.is_allowed("/docs/report.html"));
}

#[test]
fn test_wildcard_star_only() {
    // A pattern of just "*" should match everything.
    assert!(path_matches("/anything", "*"));
    assert!(path_matches("/", "*"));
}

#[test]
fn test_path_matches_prefix() {
    assert!(path_matches("/admin/page", "/admin"));
    assert!(!path_matches("/public", "/admin"));
}

#[test]
fn test_path_matches_exact_with_anchor() {
    assert!(path_matches("/page.html", "/page.html$"));
    assert!(!path_matches("/page.htmlx", "/page.html$"));
}

#[test]
fn test_crawl_delay_integer() {
    let content = "\
User-agent: *
Crawl-delay: 10
Disallow:
";
    let robots = RobotsTxt::parse(content);
    assert_eq!(crawl_delay(&robots), Some(10.0));
}

#[test]
fn test_crawl_delay_float() {
    let content = "\
User-agent: *
Crawl-delay: 0.5
Disallow:
";
    let robots = RobotsTxt::parse(content);
    assert_eq!(crawl_delay(&robots), Some(0.5));
}

#[test]
fn test_no_crawl_delay() {
    let content = "\
User-agent: *
Disallow: /x
";
    let robots = RobotsTxt::parse(content);
    assert_eq!(crawl_delay(&robots), None);
}

#[test]
fn test_empty_content() {
    let robots = RobotsTxt::parse("");
    assert!(robots.is_allowed("/anything"));
    assert!(robots.sitemaps().is_empty());
    assert_eq!(crawl_delay(&robots), None);
}

#[test]
fn test_comments_only() {
    let content = "\
# This is a comment
# Another comment
";
    let robots = RobotsTxt::parse(content);
    assert!(robots.is_allowed("/anything"));
}

#[test]
fn test_malformed_lines_ignored() {
    let content = "\
This is not a valid directive
User-agent: *
Disallow /missing-colon
Disallow: /valid
invalid line
";
    let robots = RobotsTxt::parse(content);
    assert!(!robots.is_allowed("/valid"));
    assert!(robots.is_allowed("/other"));
}

#[test]
fn test_inline_comments_stripped() {
    let content = "\
User-agent: *
Disallow: /secret # this is secret
";
    let robots = RobotsTxt::parse(content);
    assert!(!robots.is_allowed("/secret"));
}

#[test]
fn test_robots_url_construction() {
    let base = Url::parse("https://example.com/some/page").unwrap();
    assert_eq!(
        RobotsTxt::robots_url(&base),
        "https://example.com/robots.txt"
    );
}

#[test]
fn test_robots_url_http() {
    let base = Url::parse("http://example.com/").unwrap();
    assert_eq!(
        RobotsTxt::robots_url(&base),
        "http://example.com/robots.txt"
    );
}

#[test]
fn test_multiple_groups() {
    let content = "\
User-agent: Googlebot
Disallow: /google-only

User-agent: *
Disallow: /blocked
";
    let robots = RobotsTxt::parse(content);
    // We are not Googlebot so wildcard rules apply.
    assert!(!robots.is_allowed("/blocked"));
    assert!(robots.is_allowed("/google-only"));
}

#[test]
fn test_disallow_everything() {
    let content = "\
User-agent: *
Disallow: /
";
    let robots = RobotsTxt::parse(content);
    assert!(!robots.is_allowed("/"));
    assert!(!robots.is_allowed("/anything"));
}

#[test]
fn test_allow_everything() {
    let content = "\
User-agent: *
Disallow:
";
    let robots = RobotsTxt::parse(content);
    assert!(robots.is_allowed("/anything"));
    assert!(robots.is_allowed("/"));
}
