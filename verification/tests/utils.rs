use rehyke_core::utils::{is_same_domain, is_subdomain, normalize_url, resolve_url, root_domain, sanitize_url, url_to_filename, url_to_slug, Url};

#[test]
fn test_normalize_basic() {
    let url = Url::parse("HTTP://Example.COM/Path").unwrap();
    let result = normalize_url(&url, false);
    assert_eq!(result, "http://example.com/Path");
}

#[test]
fn test_normalize_removes_fragment() {
    let url = Url::parse("https://example.com/page#section").unwrap();
    let result = normalize_url(&url, false);
    assert_eq!(result, "https://example.com/page");
}

#[test]
fn test_normalize_trailing_slash_removed() {
    let url = Url::parse("https://example.com/page/").unwrap();
    let result = normalize_url(&url, false);
    assert_eq!(result, "https://example.com/page");
}

#[test]
fn test_normalize_root_path_trailing_slash_kept() {
    let url = Url::parse("https://example.com/").unwrap();
    let result = normalize_url(&url, false);
    assert_eq!(result, "https://example.com/");
}

#[test]
fn test_normalize_sorts_query_params() {
    let url = Url::parse("https://example.com/search?z=1&a=2&m=3").unwrap();
    let result = normalize_url(&url, false);
    assert_eq!(result, "https://example.com/search?a=2&m=3&z=1");
}

#[test]
fn test_normalize_removes_default_http_port() {
    let url = Url::parse("http://example.com:80/page").unwrap();
    let result = normalize_url(&url, false);
    assert_eq!(result, "http://example.com/page");
}

#[test]
fn test_normalize_removes_default_https_port() {
    let url = Url::parse("https://example.com:443/page").unwrap();
    let result = normalize_url(&url, false);
    assert_eq!(result, "https://example.com/page");
}

#[test]
fn test_normalize_keeps_non_default_port() {
    let url = Url::parse("https://example.com:8080/page").unwrap();
    let result = normalize_url(&url, false);
    assert_eq!(result, "https://example.com:8080/page");
}

#[test]
fn test_normalize_removes_www() {
    let url = Url::parse("https://www.example.com/page").unwrap();
    let result = normalize_url(&url, true);
    assert_eq!(result, "https://example.com/page");
}

#[test]
fn test_normalize_keeps_www_when_flag_false() {
    let url = Url::parse("https://www.example.com/page").unwrap();
    let result = normalize_url(&url, false);
    assert_eq!(result, "https://www.example.com/page");
}

#[test]
fn test_normalize_decodes_percent_encoding() {
    let url = Url::parse("https://example.com/%41%42%43").unwrap();
    let result = normalize_url(&url, false);
    assert_eq!(result, "https://example.com/ABC");
}

#[test]
fn test_normalize_complex_url() {
    let url =
        Url::parse("HTTP://WWW.Example.COM:80/path/?b=2&a=1#frag").unwrap();
    let result = normalize_url(&url, true);
    assert_eq!(result, "http://example.com/path?a=1&b=2");
}

#[test]
fn test_same_domain_true() {
    let a = Url::parse("https://example.com/a").unwrap();
    let b = Url::parse("https://example.com/b").unwrap();
    assert!(is_same_domain(&a, &b));
}

#[test]
fn test_same_domain_case_insensitive() {
    let a = Url::parse("https://Example.COM/a").unwrap();
    let b = Url::parse("https://example.com/b").unwrap();
    assert!(is_same_domain(&a, &b));
}

#[test]
fn test_same_domain_different_hosts() {
    let a = Url::parse("https://other.com/a").unwrap();
    let b = Url::parse("https://example.com/b").unwrap();
    assert!(!is_same_domain(&a, &b));
}

#[test]
fn test_same_domain_subdomain_not_equal() {
    let a = Url::parse("https://blog.example.com/a").unwrap();
    let b = Url::parse("https://example.com/b").unwrap();
    assert!(!is_same_domain(&a, &b));
}

#[test]
fn test_is_subdomain_true() {
    let url = Url::parse("https://blog.example.com/").unwrap();
    let base = Url::parse("https://example.com/").unwrap();
    assert!(is_subdomain(&url, &base));
}

#[test]
fn test_is_subdomain_deep() {
    let url = Url::parse("https://a.b.example.com/").unwrap();
    let base = Url::parse("https://example.com/").unwrap();
    assert!(is_subdomain(&url, &base));
}

#[test]
fn test_is_subdomain_same_host_false() {
    let url = Url::parse("https://example.com/").unwrap();
    let base = Url::parse("https://example.com/").unwrap();
    assert!(!is_subdomain(&url, &base));
}

#[test]
fn test_is_subdomain_external_false() {
    let url = Url::parse("https://notexample.com/").unwrap();
    let base = Url::parse("https://example.com/").unwrap();
    assert!(!is_subdomain(&url, &base));
}

#[test]
fn test_root_domain_simple() {
    let url = Url::parse("https://example.com/page").unwrap();
    assert_eq!(root_domain(&url), Some("example.com".to_string()));
}

#[test]
fn test_root_domain_subdomain() {
    let url = Url::parse("https://blog.example.com/page").unwrap();
    assert_eq!(root_domain(&url), Some("example.com".to_string()));
}

#[test]
fn test_root_domain_deep_subdomain() {
    let url = Url::parse("https://a.b.c.example.com/page").unwrap();
    assert_eq!(root_domain(&url), Some("example.com".to_string()));
}

#[test]
fn test_root_domain_single_label() {
    let url = Url::parse("https://localhost/page").unwrap();
    assert_eq!(root_domain(&url), Some("localhost".to_string()));
}

#[test]
fn test_resolve_relative_path() {
    let base = Url::parse("https://example.com/dir/page").unwrap();
    let resolved = resolve_url(&base, "other").unwrap();
    assert_eq!(resolved.as_str(), "https://example.com/dir/other");
}

#[test]
fn test_resolve_absolute_path() {
    let base = Url::parse("https://example.com/dir/page").unwrap();
    let resolved = resolve_url(&base, "/root").unwrap();
    assert_eq!(resolved.as_str(), "https://example.com/root");
}

#[test]
fn test_resolve_protocol_relative() {
    let base = Url::parse("https://example.com/dir/page").unwrap();
    let resolved = resolve_url(&base, "//cdn.example.com/file.js").unwrap();
    assert_eq!(resolved.as_str(), "https://cdn.example.com/file.js");
}

#[test]
fn test_resolve_full_url() {
    let base = Url::parse("https://example.com/").unwrap();
    let resolved = resolve_url(&base, "https://other.com/page").unwrap();
    assert_eq!(resolved.as_str(), "https://other.com/page");
}

#[test]
fn test_resolve_parent_directory() {
    let base = Url::parse("https://example.com/a/b/c").unwrap();
    let resolved = resolve_url(&base, "../d").unwrap();
    assert_eq!(resolved.as_str(), "https://example.com/a/d");
}

#[test]
fn test_resolve_empty_string_returns_none() {
    let base = Url::parse("https://example.com/page").unwrap();
    assert!(resolve_url(&base, "").is_none());
}

#[test]
fn test_resolve_whitespace_trimmed() {
    let base = Url::parse("https://example.com/dir/page").unwrap();
    let resolved = resolve_url(&base, "  /other  ").unwrap();
    assert_eq!(resolved.as_str(), "https://example.com/other");
}

#[test]
fn test_sanitize_adds_scheme() {
    let result = sanitize_url("example.com/page").unwrap();
    assert_eq!(result, "https://example.com/page");
}

#[test]
fn test_sanitize_trims_whitespace() {
    let result = sanitize_url("  https://example.com/page  ").unwrap();
    assert_eq!(result, "https://example.com/page");
}

#[test]
fn test_sanitize_collapses_internal_whitespace() {
    let result = sanitize_url("https://example.com/ pa ge").unwrap();
    // Whitespace collapsed to produce a parseable URL.
    assert!(result.starts_with("https://example.com/"));
}

#[test]
fn test_sanitize_empty_string_returns_none() {
    assert!(sanitize_url("").is_none());
}

#[test]
fn test_sanitize_whitespace_only_returns_none() {
    assert!(sanitize_url("   ").is_none());
}

#[test]
fn test_sanitize_protocol_relative() {
    let result = sanitize_url("//cdn.example.com/file").unwrap();
    assert_eq!(result, "https://cdn.example.com/file");
}

#[test]
fn test_normalize_unicode_path() {
    // Unicode characters in the path should survive normalization.
    let url = Url::parse("https://example.com/%E4%B8%AD%E6%96%87").unwrap();
    let result = normalize_url(&url, false);
    // The percent-encoded Chinese characters should be decoded to UTF-8.
    assert!(result.contains('\u{4e2d}')); // U+4E2D
}

#[test]
fn test_normalize_empty_query_value() {
    let url = Url::parse("https://example.com/page?key=").unwrap();
    let result = normalize_url(&url, false);
    assert_eq!(result, "https://example.com/page?key=");
}

#[test]
fn test_is_subdomain_suffix_collision() {
    // "notexample.com" should not be considered a subdomain of "example.com"
    let url = Url::parse("https://notexample.com/").unwrap();
    let base = Url::parse("https://example.com/").unwrap();
    assert!(!is_subdomain(&url, &base));
}

#[test]
fn test_url_to_filename_basic() {
    let url = Url::parse("https://example.com/blog/post").unwrap();
    let filename = url_to_filename(&url);
    assert_eq!(filename, "example.com_blog_post");
}

#[test]
fn test_url_to_filename_root() {
    let url = Url::parse("https://example.com/").unwrap();
    let filename = url_to_filename(&url);
    assert!(!filename.is_empty());
    assert!(filename.contains("example.com"));
}

#[test]
fn test_url_to_filename_special_chars() {
    let url = Url::parse("https://example.com/path?q=1&b=2#frag").unwrap();
    let filename = url_to_filename(&url);
    assert!(!filename.contains('?'));
    assert!(!filename.contains('#'));
    assert!(!filename.contains('&'));
}

#[test]
fn test_url_to_slug_basic() {
    let url = Url::parse("https://example.com/Blog/Post").unwrap();
    let slug = url_to_slug(&url);
    assert_eq!(slug, "example-com-blog-post");
}

#[test]
fn test_url_to_slug_root() {
    let url = Url::parse("https://example.com/").unwrap();
    let slug = url_to_slug(&url);
    assert!(!slug.is_empty());
    assert!(slug.contains("example"));
}

#[test]
fn test_url_to_slug_no_leading_trailing_hyphens() {
    let url = Url::parse("https://example.com/page/").unwrap();
    let slug = url_to_slug(&url);
    assert!(!slug.starts_with('-'));
    assert!(!slug.ends_with('-'));
}

#[test]
fn normalize_keeps_reserved_escapes() {
    let url = Url::parse("https://example.com/a%2Fb").unwrap();
    assert_eq!(normalize_url(&url, false), "https://example.com/a%2Fb");
    let url = Url::parse("https://example.com/q%3Fx%23y%25z%20w").unwrap();
    assert_eq!(normalize_url(&url, false), "https://example.com/q%3Fx%23y%25z%20w");
}

#[test]
fn normalize_decodes_unreserved_and_text() {
    let url = Url::parse("https://example.com/%7euser/%41-%2e%5F").unwrap();
    assert_eq!(normalize_url(&url, false), "https://example.com/~user/A-._");
    let url = Url::parse("https://example.com/caf%C3%A9%2Fx").unwrap();
    assert_eq!(normalize_url(&url, false), "https://example.com/caf\u{e9}%2Fx");
}

#[test]
fn normalize_ignores_query_order_case_and_default_port() {
    let a = Url::parse("HTTPS://Example.COM:443/p?b=2&a=1&a=0#x").unwrap();
    let b = Url::parse("https://example.com/p?a=0&b=2&a=1").unwrap();
    assert_eq!(normalize_url(&a, false), normalize_url(&b, false));
    assert_eq!(normalize_url(&b, false), "https://example.com/p?a=0&a=1&b=2");
}
