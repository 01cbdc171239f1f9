use rehyke_core::config::{CrawlConfigBuilder, DelayStrategy, ScanMode};
use rehyke_core::crawl::{
    compile_patterns, parse_seed_url, robots_from_response, robots_location, url_passes_patterns,
    CrawlAction, Crawler, FetchedPage, PageOutcome,
};
use rehyke_core::error::RehykeError;
use rehyke_core::output::RenderMethod;
use rehyke_core::robots::RobotsTxt;
use rehyke_core::utils::Url;

fn seed_url(s: &str) -> Url {
    Url::parse(s).unwrap()
}

fn strings(v: &[&str]) -> Vec<String> {
    v.iter().map(|s| s.to_string()).collect()
}

fn html_page(body: &str, at: &str) -> FetchedPage {
    FetchedPage {
        body: body.to_string(),
        final_url: seed_url(at),
        status: 200,
        content_type: "text/html; charset=utf-8".to_string(),
        render_method: RenderMethod::Static,
    }
}

#[test]
fn compile_patterns_reports_the_bad_pattern() {
    let err = compile_patterns(&strings(&["^https://", "(unclosed"])).err().unwrap();
    match err {
        RehykeError::ConfigError { message } => {
            assert!(message.starts_with("invalid regex pattern '(unclosed': "), "{}", message);
            assert!(message.len() > "invalid regex pattern '(unclosed': ".len());
        }
        other => panic!("unexpected error {:?}", other),
    }
}

#[test]
fn compile_patterns_accepts_valid_patterns() {
    let compiled = compile_patterns(&strings(&[r"\.pdf$", "/login"])).unwrap();
    assert_eq!(compiled.len(), 2);
}

#[test]
fn no_patterns_admit_every_url() {
    let none = compile_patterns(&Vec::new()).unwrap();
    assert!(url_passes_patterns(&none, &none, "https://example.com/anything"));
    assert!(url_passes_patterns(&none, &none, ""));
}

#[test]
fn allow_list_requires_a_match() {
    let allow = compile_patterns(&strings(&["/blog/"])).unwrap();
    let none = compile_patterns(&Vec::new()).unwrap();
    assert!(url_passes_patterns(&allow, &none, "https://example.com/blog/post-1"));
    assert!(!url_passes_patterns(&allow, &none, "https://example.com/shop/item"));
}

#[test]
fn deny_list_wins_over_allow_list() {
    let allow = compile_patterns(&strings(&["example\\.com"])).unwrap();
    let deny = compile_patterns(&strings(&[r"\.pdf$"])).unwrap();
    assert!(url_passes_patterns(&allow, &deny, "https://example.com/a.html"));
    assert!(!url_passes_patterns(&allow, &deny, "https://example.com/a.pdf"));
}

#[test]
fn seed_url_errors_name_the_seed() {
    let err = parse_seed_url("not a url").err().unwrap();
    let message = err.message();
    assert!(
        message.starts_with("Configuration error: invalid seed URL 'not a url': "),
        "{}",
        message
    );
    assert!(parse_seed_url("https://example.com/start").is_ok());
}

#[test]
fn robots_location_is_at_the_site_root() {
    let loc = robots_location(&seed_url("https://example.com/a/b?c=d")).unwrap();
    assert_eq!(loc.as_str(), "https://example.com/robots.txt");
    let loc = robots_location(&seed_url("http://sub.example.org:8080/x")).unwrap();
    assert_eq!(loc.as_str(), "http://sub.example.org/robots.txt");
}

#[test]
fn robots_only_from_a_200_response() {
    let body = "User-agent: *\nDisallow: /private\n";
    assert!(robots_from_response(404, body).is_none());
    assert!(robots_from_response(500, body).is_none());
    let robots = robots_from_response(200, body).unwrap();
    assert!(!robots.is_allowed("/private/page"));
    assert!(robots.is_allowed("/public"));
}

#[test]
fn crawler_refuses_a_bad_pattern() {
    let config = CrawlConfigBuilder::new().exclude_patterns(strings(&["[z-a]"])).build();
    match Crawler::new(&config) {
        Err(RehykeError::ConfigError { message }) => {
            assert!(message.starts_with("invalid regex pattern '[z-a]': "), "{}", message)
        }
        _ => panic!("expected a configuration error"),
    }
}

#[test]
fn crawler_without_seed_finishes() {
    let config = CrawlConfigBuilder::new().delay_strategy(DelayStrategy::NoDelay).build();
    let mut crawler = Crawler::new(&config).ok().unwrap();
    assert!(crawler.is_done());
    assert!(matches!(crawler.next_action(), CrawlAction::Finish));
}

#[test]
fn lite_crawl_fetches_only_the_seed() {
    let config = CrawlConfigBuilder::new()
        .mode(ScanMode::Lite)
        .delay_strategy(DelayStrategy::NoDelay)
        .build();
    let mut crawler = Crawler::new(&config).ok().unwrap();
    crawler.add_seed(seed_url("https://example.com/"));
    let task = match crawler.next_action() {
        CrawlAction::Fetch { task, delay_ms } => {
            assert_eq!(delay_ms, 0);
            task
        }
        _ => panic!("the seed should be fetched"),
    };
    assert_eq!(task.url.as_str(), "https://example.com/");
    assert_eq!(task.depth, 0);
    let page = html_page(
        "<html><head><title>Home</title></head><body><p>Hello</p><a href=\"/about\">About</a></body></html>",
        "https://example.com/",
    );
    let record = crawler.process_page(&task, page).unwrap();
    assert_eq!(record.title, "Home");
    assert_eq!(record.url, "https://example.com/");
    assert_eq!(record.depth, 0);
    assert_eq!(record.status_code, 200);
    assert!(record.markdown.contains("Hello"));
    assert!(record.links.internal.contains(&"https://example.com/about".to_string()));
    crawler.page_done(&task);
    assert!(crawler.is_done());
    assert!(matches!(crawler.next_action(), CrawlAction::Finish));
    assert_eq!(crawler.stats().total_crawled, 1);
}

#[test]
fn full_crawl_follows_internal_links() {
    let config = CrawlConfigBuilder::new()
        .mode(ScanMode::Full)
        .delay_strategy(DelayStrategy::NoDelay)
        .build();
    let mut crawler = Crawler::new(&config).ok().unwrap();
    crawler.add_seed(seed_url("https://example.com/"));
    let task = match crawler.next_action() {
        CrawlAction::Fetch { task, .. } => task,
        _ => panic!("the seed should be fetched"),
    };
    let page = html_page(
        "<html><body><a href=\"/about\">About</a></body></html>",
        "https://example.com/",
    );
    let record = crawler.process_page(&task, page).unwrap();
    assert_eq!(record.title, "Untitled");
    crawler.page_done(&task);
    let next = match crawler.next_action() {
        CrawlAction::Fetch { task, .. } => task,
        _ => panic!("the linked page should be fetched"),
    };
    assert_eq!(next.url.as_str(), "https://example.com/about");
    assert_eq!(next.depth, 1);
}

#[test]
fn robots_rules_skip_disallowed_pages() {
    let config = CrawlConfigBuilder::new().delay_strategy(DelayStrategy::NoDelay).build();
    let mut crawler = Crawler::new(&config).ok().unwrap();
    crawler.set_robots(Some(RobotsTxt::parse("User-agent: *\nDisallow: /\n")));
    crawler.add_seed(seed_url("https://example.com/"));
    match crawler.next_action() {
        CrawlAction::Skip(task) => assert_eq!(task.url.as_str(), "https://example.com/"),
        _ => panic!("robots.txt disallows everything"),
    }
}

#[test]
fn excluded_seed_is_skipped() {
    let config = CrawlConfigBuilder::new()
        .delay_strategy(DelayStrategy::NoDelay)
        .exclude_patterns(strings(&["example"]))
        .build();
    let mut crawler = Crawler::new(&config).ok().unwrap();
    crawler.add_seed(seed_url("https://example.com/"));
    assert!(matches!(crawler.next_action(), CrawlAction::Skip(_)));
}

#[test]
fn failed_fetch_counts_as_an_error() {
    let config = CrawlConfigBuilder::new()
        .mode(ScanMode::Lite)
        .delay_strategy(DelayStrategy::NoDelay)
        .build();
    let mut crawler = Crawler::new(&config).ok().unwrap();
    crawler.add_seed(seed_url("https://example.com/"));
    let task = match crawler.next_action() {
        CrawlAction::Fetch { task, .. } => task,
        _ => panic!("the seed should be fetched"),
    };
    crawler.fetch_failed(&task);
    assert_eq!(crawler.stats().total_errors, 1);
}

#[test]
fn json_page_has_no_links() {
    let config = CrawlConfigBuilder::new()
        .mode(ScanMode::Full)
        .delay_strategy(DelayStrategy::NoDelay)
        .build();
    let mut crawler = Crawler::new(&config).ok().unwrap();
    crawler.add_seed(seed_url("https://example.com/data.json"));
    let task = match crawler.next_action() {
        CrawlAction::Fetch { task, .. } => task,
        _ => panic!("the seed should be fetched"),
    };
    let page = FetchedPage {
        body: "{\"name\": \"x\"}".to_string(),
        final_url: seed_url("https://example.com/data.json"),
        status: 200,
        content_type: "application/json".to_string(),
        render_method: RenderMethod::Static,
    };
    let record = crawler.process_page(&task, page).unwrap();
    assert!(record.links.internal.is_empty());
    assert_eq!(record.content_type, "application/json");
}

#[test]
fn unparsable_json_fails_the_task() {
    let config = CrawlConfigBuilder::new()
        .mode(ScanMode::Lite)
        .delay_strategy(DelayStrategy::NoDelay)
        .build();
    let mut crawler = Crawler::new(&config).ok().unwrap();
    crawler.add_seed(seed_url("https://example.com/data.json"));
    let task = match crawler.next_action() {
        CrawlAction::Fetch { task, .. } => task,
        _ => panic!("the seed should be fetched"),
    };
    let page = FetchedPage {
        body: "{not json".to_string(),
        final_url: seed_url("https://example.com/data.json"),
        status: 200,
        content_type: "application/json".to_string(),
        render_method: RenderMethod::Static,
    };
    assert!(crawler.process_page(&task, page).is_none());
    assert_eq!(crawler.stats().total_errors, 1);
}

#[test]
fn compile_patterns_empty_list() {
    let result = compile_patterns(&Vec::new());
    assert!(result.is_ok());
    assert!(result.unwrap().is_empty());
}

#[test]
fn compile_patterns_valid_regex() {
    let patterns = vec![
        r"https://example\.com/.*".to_string(),
        r"/admin(/.*)?".to_string(),
        r"\.(pdf|zip)$".to_string(),
    ];
    let result = compile_patterns(&patterns);
    assert!(result.is_ok());
    let compiled = result.unwrap();
    assert_eq!(compiled.len(), 3);
    assert!(compiled[2].is_match("report.pdf"));
    assert!(!compiled[2].is_match("report.html"));
}

#[test]
fn compile_patterns_invalid_regex_returns_error() {
    let patterns = vec!["[unclosed bracket".to_string()];
    let result = compile_patterns(&patterns);
    assert!(result.is_err());
    match result.err().unwrap() {
        RehykeError::ConfigError { message } => {
            assert!(message.contains("[unclosed bracket"));
        }
        other => panic!("expected ConfigError, got {:?}", other),
    }
}

#[test]
fn compile_patterns_first_invalid_short_circuits() {
    let patterns = vec![
        r"valid.*pattern".to_string(),
        "[bad".to_string(),
        r"another.*valid".to_string(),
    ];
    let result = compile_patterns(&patterns);
    assert!(result.is_err());
}

fn first_task(crawler: &mut Crawler) -> rehyke_core::scheduler::CrawlTask {
    match crawler.next_action() {
        CrawlAction::Fetch { task, .. } => task,
        _ => panic!("the seed should be fetched"),
    }
}

#[test]
fn handled_page_gives_its_record() {
    let config = CrawlConfigBuilder::new()
        .mode(ScanMode::Lite)
        .delay_strategy(DelayStrategy::NoDelay)
        .build();
    let mut crawler = Crawler::new(&config).ok().unwrap();
    crawler.add_seed(seed_url("https://example.com/"));
    let task = first_task(&mut crawler);
    let page = html_page(
        "<html><head><title>Home</title></head><body><p>Hello</p></body></html>",
        "https://example.com/",
    );
    match crawler.handle_page(&task, page) {
        PageOutcome::Record(record) => {
            assert_eq!(record.title, "Home");
            assert!(record.markdown.contains("Hello"));
        }
        _ => panic!("the page should give a record"),
    }
    assert_eq!(crawler.stats().total_errors, 0);
    crawler.page_done(&task);
    assert_eq!(crawler.stats().total_crawled, 1);
}

#[test]
fn handled_page_with_unreadable_refresh_changes_nothing() {
    let config = CrawlConfigBuilder::new()
        .mode(ScanMode::Lite)
        .delay_strategy(DelayStrategy::NoDelay)
        .build();
    let mut crawler = Crawler::new(&config).ok().unwrap();
    crawler.add_seed(seed_url("https://example.com/"));
    let task = first_task(&mut crawler);
    let page = html_page(
        "<html><head><meta http-equiv=\"refresh\" content=\"0; url='\"></head><body>x</body></html>",
        "https://example.com/",
    );
    assert!(matches!(crawler.handle_page(&task, page), PageOutcome::UnreadableRefresh));
    assert_eq!(crawler.stats().total_crawled, 0);
    assert_eq!(crawler.stats().total_errors, 0);
}

#[test]
fn handled_json_that_does_not_parse_fails() {
    let config = CrawlConfigBuilder::new()
        .mode(ScanMode::Lite)
        .delay_strategy(DelayStrategy::NoDelay)
        .build();
    let mut crawler = Crawler::new(&config).ok().unwrap();
    crawler.add_seed(seed_url("https://example.com/data.json"));
    let task = first_task(&mut crawler);
    let page = FetchedPage {
        body: "{not json".to_string(),
        final_url: seed_url("https://example.com/data.json"),
        status: 200,
        content_type: "application/json".to_string(),
        render_method: RenderMethod::Static,
    };
    assert!(matches!(crawler.handle_page(&task, page), PageOutcome::ParseFailed));
    assert_eq!(crawler.stats().total_errors, 1);
}
