use rehyke_core::converter::{
    collapse_blank_lines, escape_markdown, format_table, strip_html_tags, to_markdown_with_url,
    ConverterConfig,
};
use rehyke_core::html::parse_html;
use rehyke_core::parser::{ContentNode, ParseConfig};
use rehyke_core::anti_detect::AntiDetect;
use rehyke_core::config::{DelayStrategy, RetryConfig};
use rehyke_core::extractor::dedup_vec;
use rehyke_core::fetcher::compute_backoff;
use rehyke_core::robots::{path_matches, RobotsTxt};
use rehyke_core::utils::{is_same_domain, is_subdomain, normalize_url, Url};

fn at(s: &str) -> Url {
    Url::parse(s).unwrap()
}

#[test]
fn law_dedup_leaves_no_duplicates_and_is_idempotent() {
    let mut v: Vec<String> = ["a", "b", "a", "c", "b", "a"].iter().map(|s| s.to_string()).collect();
    dedup_vec(&mut v);
    assert_eq!(v, vec!["a".to_string(), "b".to_string(), "c".to_string()]);
    let once = v.clone();
    dedup_vec(&mut v);
    assert_eq!(v, once);
}

#[test]
fn law_backoff_is_capped_and_grows() {
    let retry = RetryConfig { max_retries: 10, initial_delay_ms: 500, max_delay_ms: 30000 };
    let mut last = 0u64;
    for attempt in 0..40u32 {
        let d = compute_backoff(&retry, attempt, None);
        assert!(d <= 30000);
        assert!(d >= last);
        last = d;
    }
    assert_eq!(compute_backoff(&retry, 0, None), 500);
    assert_eq!(compute_backoff(&retry, 3, None), 4000);
    assert_eq!(compute_backoff(&retry, 10, None), 30000);
    assert_eq!(compute_backoff(&retry, 0, Some("7")), 7000);
    assert_eq!(compute_backoff(&retry, 0, Some("3600")), 30000);
    assert_eq!(compute_backoff(&retry, 2, Some("soon")), 2000);
}

#[test]
fn law_same_domain_is_symmetric() {
    let pairs = [
        ("https://example.com/a", "https://EXAMPLE.com/b"),
        ("https://example.com/", "https://blog.example.com/"),
        ("http://a.org/", "https://b.org/"),
    ];
    for (a, b) in pairs.iter() {
        assert_eq!(is_same_domain(&at(a), &at(b)), is_same_domain(&at(b), &at(a)));
    }
    assert!(is_same_domain(&at("https://example.com/x"), &at("https://example.com/y")));
}

#[test]
fn law_subdomain_is_not_mutual() {
    let sub = at("https://blog.example.com/");
    let base = at("https://example.com/");
    assert!(is_subdomain(&sub, &base));
    assert!(!is_subdomain(&base, &sub));
    assert!(!is_subdomain(&base, &base));
}

#[test]
fn law_adaptive_delay_stays_in_bounds() {
    let mut ad = AntiDetect::new(DelayStrategy::Adaptive { initial_ms: 1000 });
    assert_eq!(ad.get_delay(), 1000);
    let statuses = [429u16, 429, 503, 500, 200, 200, 429, 429, 429, 429, 429, 429, 200, 404];
    for s in statuses.iter() {
        let before = ad.get_delay();
        ad.record_response(*s, 5);
        let after = ad.get_delay();
        assert!((1000..=30000).contains(&after), "{} after {}", after, s);
        if *s == 429 || *s == 503 {
            assert!(after >= before);
        }
        if (200..=299).contains(s) {
            assert!(after <= before);
        }
    }
}

#[test]
fn law_robots_star_and_prefix() {
    assert!(path_matches("/anything/at/all", "*"));
    assert!(path_matches("/private/page", "/private"));
    assert!(!path_matches("/public", "/private"));
    assert!(path_matches("/exact", "/exact$"));
    assert!(!path_matches("/exact/more", "/exact$"));
}

#[test]
fn law_empty_robots_allows_everything() {
    let robots = RobotsTxt::parse("");
    assert!(robots.is_allowed("/"));
    assert!(robots.is_allowed("/admin/secret"));
}

#[test]
fn law_allow_wins_a_tie() {
    let robots = RobotsTxt::parse("User-agent: *\nDisallow: /page\nAllow: /page\n");
    assert!(robots.is_allowed("/page"));
}

#[test]
fn law_collapsed_output_keeps_runs_short() {
    let out = collapse_blank_lines("a\n\n\n\n\nb\n \n\t\n\n\nc", 2);
    assert_eq!(out, "a\n\n\nb\n\n\nc\n");
    assert!(!out.contains("\n\n\n\n"));
    let out = collapse_blank_lines("\n\n\nx", 0);
    assert_eq!(out, "x\n");
}

#[test]
fn law_stripped_text_has_no_tags() {
    let out = strip_html_tags("<p>Hello <b>bold</b> a > b <br/>end<unclosed");
    assert_eq!(out, "Hello bold a > b end");
    assert!(!out.contains('<'));
}

fn unescape(s: &str) -> String {
    let mut out = String::new();
    let mut chars = s.chars();
    while let Some(c) = chars.next() {
        if c == '\\' {
            if let Some(n) = chars.next() {
                out.push(n);
                continue;
            }
        }
        out.push(c);
    }
    out
}

#[test]
fn law_escaping_can_be_undone_and_costs_one_backslash_each() {
    let text = "a*b_c\\d [x](y) #1 + 2 - 3. ! | `z`";
    let escaped = escape_markdown(text);
    assert_eq!(unescape(&escaped), text);
    let specials = text.chars().filter(|c| "\\*_[]()#+-.!|`".contains(*c)).count();
    assert_eq!(specials, 15);
    assert_eq!(escaped.chars().count(), text.chars().count() + specials);
    assert_eq!(escape_markdown("plain words 42"), "plain words 42");
    assert_ne!(escape_markdown("x.y"), "x.y");
}

#[test]
fn law_stripping_tags_is_idempotent_and_only_drops() {
    let once = strip_html_tags("<p>a > b</p><br/>c");
    assert_eq!(once, "a > bc");
    assert_eq!(strip_html_tags(&once), once);
    assert_eq!(strip_html_tags("no tags here > there"), "no tags here > there");
}

#[test]
fn law_table_lines_share_one_shape() {
    let headers = vec!["Name".to_string(), "Count".to_string()];
    let rows = vec![
        vec!["alpha".to_string(), "1".to_string()],
        vec!["b".to_string()],
        vec!["café".to_string(), "22".to_string(), "extra".to_string()],
    ];
    let table = format_table(&headers, &rows);
    assert!(table.ends_with('\n'));
    let lines: Vec<&str> = table.lines().collect();
    assert_eq!(lines.len(), rows.len() + 2);
    let width = lines[0].chars().count();
    for line in &lines {
        assert!(line.starts_with('|') && line.ends_with('|'));
        assert_eq!(line.chars().count(), width);
        assert_eq!(line.matches('|').count(), headers.len() + 1);
    }
    assert!(lines[1].chars().all(|c| c == '|' || c == '-'));
    assert_eq!(format_table(&[], &rows), "");
}

#[test]
fn law_dedup_keeps_first_occurrence_order() {
    let mut v: Vec<String> = ["b", "a", "b", "c", "a"].iter().map(|s| s.to_string()).collect();
    dedup_vec(&mut v);
    assert_eq!(v, vec!["b".to_string(), "a".to_string(), "c".to_string()]);
}

#[test]
fn law_normalization_ignores_form() {
    let a = normalize_url(&at("HTTPS://Example.COM:443/docs?b=2&a=1#intro"), false);
    let b = normalize_url(&at("https://example.com/docs?a=1&b=2"), false);
    assert_eq!(a, b);
    assert!(!a.contains('#'));
}

#[test]
fn law_walked_headings_are_well_formed() {
    let doc = parse_html(
        "<html><body><h1></h1><h3>Title</h3><p></p><p>Text</p><b></b><h6>Last</h6></body></html>",
        &ParseConfig::default(),
    )
    .unwrap();
    for node in &doc.content_nodes {
        match node {
            ContentNode::Heading { level, text } => {
                assert!(*level >= 1 && *level <= 6);
                assert!(!text.is_empty());
            }
            ContentNode::Paragraph(t) | ContentNode::Bold(t) => assert!(!t.is_empty()),
            _ => {}
        }
    }
    let levels: Vec<u8> = doc
        .content_nodes
        .iter()
        .filter_map(|n| match n {
            ContentNode::Heading { level, .. } => Some(*level),
            _ => None,
        })
        .collect();
    assert_eq!(levels, vec![3, 6]);
}

#[test]
fn law_document_ends_with_one_newline() {
    let doc = parse_html(
        "<html><head><title>T</title></head><body><p>Body text</p><p>   </p></body></html>",
        &ParseConfig::default(),
    )
    .unwrap();
    let md = to_markdown_with_url(&doc, "https://example.com/", &ConverterConfig::default());
    assert!(md.ends_with('\n'));
    assert!(!md.ends_with("\n\n"));
    assert!(!md[..md.len() - 1].ends_with(char::is_whitespace));
}

#[test]
fn law_collapsing_is_idempotent_and_keeps_text_lines() {
    let text = "a\n\n\n\n  \nb\n\t\nc\n\n";
    let once = collapse_blank_lines(text, 1);
    assert_eq!(once, "a\n\nb\n\nc\n\n");
    assert_eq!(collapse_blank_lines(&once, 1), once);
    let kept: Vec<&str> = once.lines().filter(|l| !l.trim().is_empty()).collect();
    assert_eq!(kept, vec!["a", "b", "c"]);
}

#[test]
fn law_document_holds_no_open_bracket() {
    let doc = parse_html(
        "<html><head><title>A &lt;b&gt; title</title></head><body><p>x &lt; y</p><p>Tail</p></body></html>",
        &ParseConfig::default(),
    )
    .unwrap();
    let mut config = ConverterConfig::default();
    let md = to_markdown_with_url(&doc, "https://example.com/<path>", &config);
    assert!(!md.contains('<'));
    config.include_footer = true;
    let md = to_markdown_with_url(&doc, "https://example.com/", &config);
    assert!(!md.contains('<'));
    assert!(md.contains("*Crawled by"));
}

#[test]
fn law_document_opens_with_frontmatter() {
    let doc = parse_html(
        "<html><head><title>Home</title></head><body><p>Body</p></body></html>",
        &ParseConfig::default(),
    )
    .unwrap();
    let md = to_markdown_with_url(&doc, "https://example.com/", &ConverterConfig::default());
    assert!(md.starts_with("---\nurl: https://example.com/\n"));
    let md = to_markdown_with_url(&doc, "", &ConverterConfig::default());
    assert!(md.starts_with("---\nurl:\n"));
}
