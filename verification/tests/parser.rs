use rehyke_core::fetcher::ContentType;
use rehyke_core::parser::{
    collapse_whitespace, extract_language_from_class, parse, parse_atom, parse_html, parse_json,
    parse_rss, parse_rss_feed, ContentNode, ParseConfig,
};

#[test]
fn test_extract_title() {
    let html = r#"<html><head><title>My Page Title</title></head><body></body></html>"#;
    let doc = parse_html(html, &ParseConfig::default()).unwrap();
    assert_eq!(doc.metadata.title.as_deref(), Some("My Page Title"));
}

#[test]
fn test_extract_meta_description() {
    let html = r#"
    <html>
    <head>
        <meta name="description" content="A page about testing">
    </head>
    <body></body>
    </html>"#;
    let doc = parse_html(html, &ParseConfig::default()).unwrap();
    assert_eq!(
        doc.metadata.description.as_deref(),
        Some("A page about testing")
    );
}

#[test]
fn test_extract_og_metadata() {
    let html = r#"
    <html>
    <head>
        <meta property="og:title" content="OG Title">
        <meta property="og:description" content="OG Description">
        <meta property="og:image" content="https://example.com/image.jpg">
    </head>
    <body></body>
    </html>"#;
    let doc = parse_html(html, &ParseConfig::default()).unwrap();
    // og:title fills in when <title> is absent.
    assert_eq!(doc.metadata.title.as_deref(), Some("OG Title"));
    assert_eq!(
        doc.metadata.description.as_deref(),
        Some("OG Description")
    );
    assert_eq!(
        doc.metadata.og_image.as_deref(),
        Some("https://example.com/image.jpg")
    );
}

#[test]
fn test_extract_language() {
    let html = r#"<html lang="en-US"><head></head><body></body></html>"#;
    let doc = parse_html(html, &ParseConfig::default()).unwrap();
    assert_eq!(doc.metadata.language.as_deref(), Some("en-US"));
}

#[test]
fn test_extract_canonical_url() {
    let html = r#"
    <html>
    <head><link rel="canonical" href="https://example.com/page"></head>
    <body></body>
    </html>"#;
    let doc = parse_html(html, &ParseConfig::default()).unwrap();
    assert_eq!(
        doc.metadata.canonical_url.as_deref(),
        Some("https://example.com/page")
    );
}

#[test]
fn test_extract_keywords() {
    let html = r#"
    <html>
    <head><meta name="keywords" content="rust, web, crawler, parser"></head>
    <body></body>
    </html>"#;
    let doc = parse_html(html, &ParseConfig::default()).unwrap();
    assert_eq!(
        doc.metadata.keywords,
        vec!["rust", "web", "crawler", "parser"]
    );
}

#[test]
fn test_extract_author() {
    let html = r#"
    <html>
    <head><meta name="author" content="Jane Doe"></head>
    <body></body>
    </html>"#;
    let doc = parse_html(html, &ParseConfig::default()).unwrap();
    assert_eq!(doc.metadata.author.as_deref(), Some("Jane Doe"));
}

#[test]
fn test_extract_published_date() {
    let html = r#"
    <html>
    <head><meta property="article:published_time" content="2024-01-15"></head>
    <body></body>
    </html>"#;
    let doc = parse_html(html, &ParseConfig::default()).unwrap();
    assert_eq!(
        doc.metadata.published_date.as_deref(),
        Some("2024-01-15")
    );
}

#[test]
fn test_metadata_extraction_disabled() {
    let html = r#"
    <html>
    <head>
        <title>Should Not Extract</title>
        <meta name="description" content="Ignored">
    </head>
    <body></body>
    </html>"#;
    let config = ParseConfig {
        extract_metadata: false,
        ..Default::default()
    };
    let doc = parse_html(html, &config).unwrap();
    assert!(doc.metadata.title.is_none());
    assert!(doc.metadata.description.is_none());
}

#[test]
fn test_heading_nodes() {
    let html = r#"
    <html><body>
        <h1>Title</h1>
        <h2>Subtitle</h2>
        <h3>Section</h3>
    </body></html>"#;
    let doc = parse_html(html, &ParseConfig::default()).unwrap();
    let headings: Vec<_> = doc
        .content_nodes
        .iter()
        .filter_map(|n| match n {
            ContentNode::Heading { level, text } => Some((*level, text.as_str())),
            _ => None,
        })
        .collect();
    assert_eq!(
        headings,
        vec![(1, "Title"), (2, "Subtitle"), (3, "Section")]
    );
}

#[test]
fn test_paragraph_nodes() {
    let html =
        r#"<html><body><p>Hello world</p><p>Second paragraph</p></body></html>"#;
    let doc = parse_html(html, &ParseConfig::default()).unwrap();
    let paragraphs: Vec<_> = doc
        .content_nodes
        .iter()
        .filter_map(|n| match n {
            ContentNode::Paragraph(text) => Some(text.as_str()),
            _ => None,
        })
        .collect();
    assert_eq!(paragraphs, vec!["Hello world", "Second paragraph"]);
}

#[test]
fn test_link_node() {
    let html = r#"<html><body><a href="https://example.com">Click me</a></body></html>"#;
    let doc = parse_html(html, &ParseConfig::default()).unwrap();
    let links: Vec<_> = doc
        .content_nodes
        .iter()
        .filter_map(|n| match n {
            ContentNode::Link { text, href } => {
                Some((text.as_str(), href.as_str()))
            }
            _ => None,
        })
        .collect();
    assert_eq!(links, vec![("Click me", "https://example.com")]);
}

#[test]
fn test_image_node() {
    let html =
        r#"<html><body><img src="pic.jpg" alt="A picture"></body></html>"#;
    let doc = parse_html(html, &ParseConfig::default()).unwrap();
    let images: Vec<_> = doc
        .content_nodes
        .iter()
        .filter_map(|n| match n {
            ContentNode::Image { alt, src } => {
                Some((alt.as_str(), src.as_str()))
            }
            _ => None,
        })
        .collect();
    assert_eq!(images, vec![("A picture", "pic.jpg")]);
}

#[test]
fn test_bold_and_italic_nodes() {
    let html =
        r#"<html><body><strong>Bold</strong><em>Italic</em></body></html>"#;
    let doc = parse_html(html, &ParseConfig::default()).unwrap();
    assert!(doc
        .content_nodes
        .iter()
        .any(|n| matches!(n, ContentNode::Bold(t) if t == "Bold")));
    assert!(doc
        .content_nodes
        .iter()
        .any(|n| matches!(n, ContentNode::Italic(t) if t == "Italic")));
}

#[test]
fn test_code_and_codeblock_nodes() {
    let html = r#"
    <html><body>
        <code>inline_code()</code>
        <pre><code class="language-python">print("hello")</code></pre>
    </body></html>"#;
    let doc = parse_html(html, &ParseConfig::default()).unwrap();

    assert!(doc
        .content_nodes
        .iter()
        .any(|n| matches!(n, ContentNode::Code(t) if t == "inline_code()")));

    let code_blocks: Vec<_> = doc
        .content_nodes
        .iter()
        .filter_map(|n| match n {
            ContentNode::CodeBlock { language, code } => {
                Some((language.as_deref(), code.as_str()))
            }
            _ => None,
        })
        .collect();
    assert!(code_blocks
        .iter()
        .any(|(lang, code)| *lang == Some("python")
            && *code == r#"print("hello")"#));
}

#[test]
fn parser_test_unordered_list() {
    let html = r#"
    <html><body>
        <ul>
            <li>Item A</li>
            <li>Item B</li>
            <li>Item C</li>
        </ul>
    </body></html>"#;
    let doc = parse_html(html, &ParseConfig::default()).unwrap();
    let lists: Vec<_> = doc
        .content_nodes
        .iter()
        .filter_map(|n| match n {
            ContentNode::UnorderedList(items) => Some(items.clone()),
            _ => None,
        })
        .collect();
    assert_eq!(lists.len(), 1);
    assert_eq!(lists[0], vec!["Item A", "Item B", "Item C"]);
}

#[test]
fn parser_test_ordered_list() {
    let html = r#"
    <html><body>
        <ol>
            <li>First</li>
            <li>Second</li>
        </ol>
    </body></html>"#;
    let doc = parse_html(html, &ParseConfig::default()).unwrap();
    let lists: Vec<_> = doc
        .content_nodes
        .iter()
        .filter_map(|n| match n {
            ContentNode::OrderedList(items) => Some(items.clone()),
            _ => None,
        })
        .collect();
    assert_eq!(lists.len(), 1);
    assert_eq!(lists[0], vec!["First", "Second"]);
}

#[test]
fn test_blockquote() {
    let html = r#"<html><body><blockquote>Wise words</blockquote></body></html>"#;
    let doc = parse_html(html, &ParseConfig::default()).unwrap();
    assert!(doc
        .content_nodes
        .iter()
        .any(|n| matches!(n, ContentNode::Blockquote(t) if t == "Wise words")));
}

#[test]
fn test_table_node() {
    let html = r#"
    <html><body>
        <table>
            <tr><th>Name</th><th>Age</th></tr>
            <tr><td>Alice</td><td>30</td></tr>
            <tr><td>Bob</td><td>25</td></tr>
        </table>
    </body></html>"#;
    let doc = parse_html(html, &ParseConfig::default()).unwrap();
    let tables: Vec<_> = doc
        .content_nodes
        .iter()
        .filter_map(|n| match n {
            ContentNode::Table { headers, rows } => {
                Some((headers.clone(), rows.clone()))
            }
            _ => None,
        })
        .collect();
    assert_eq!(tables.len(), 1);
    assert_eq!(tables[0].0, vec!["Name", "Age"]);
    assert_eq!(tables[0].1.len(), 2);
    assert_eq!(tables[0].1[0], vec!["Alice", "30"]);
    assert_eq!(tables[0].1[1], vec!["Bob", "25"]);
}

#[test]
fn parser_test_horizontal_rule() {
    let html =
        r#"<html><body><p>Before</p><hr><p>After</p></body></html>"#;
    let doc = parse_html(html, &ParseConfig::default()).unwrap();
    assert!(doc
        .content_nodes
        .iter()
        .any(|n| matches!(n, ContentNode::HorizontalRule)));
}

#[test]
fn parser_test_strikethrough() {
    let html = r#"<html><body><del>removed</del><s>also removed</s></body></html>"#;
    let doc = parse_html(html, &ParseConfig::default()).unwrap();
    let strikes: Vec<_> = doc
        .content_nodes
        .iter()
        .filter_map(|n| match n {
            ContentNode::Strikethrough(t) => Some(t.as_str()),
            _ => None,
        })
        .collect();
    assert_eq!(strikes, vec!["removed", "also removed"]);
}

#[test]
fn parser_test_definition_list() {
    let html = r#"
    <html><body>
        <dl>
            <dt>Term</dt><dd>Definition</dd>
            <dt>Another</dt><dd>Another def</dd>
        </dl>
    </body></html>"#;
    let doc = parse_html(html, &ParseConfig::default()).unwrap();
    let dls: Vec<_> = doc
        .content_nodes
        .iter()
        .filter_map(|n| match n {
            ContentNode::DefinitionList(pairs) => Some(pairs.clone()),
            _ => None,
        })
        .collect();
    assert_eq!(dls.len(), 1);
    assert_eq!(
        dls[0],
        vec![
            ("Term".to_string(), "Definition".to_string()),
            ("Another".to_string(), "Another def".to_string()),
        ]
    );
}

#[test]
fn test_figure_with_caption() {
    let html = r#"
    <html><body>
        <figure>
            <img src="photo.jpg" alt="Photo">
            <figcaption>My great photo</figcaption>
        </figure>
    </body></html>"#;
    let doc = parse_html(html, &ParseConfig::default()).unwrap();
    let images: Vec<_> = doc
        .content_nodes
        .iter()
        .filter_map(|n| match n {
            ContentNode::Image { alt, src } => {
                Some((alt.as_str(), src.as_str()))
            }
            _ => None,
        })
        .collect();
    assert_eq!(images.len(), 1);
    assert_eq!(images[0], ("My great photo", "photo.jpg"));
}

#[test]
fn test_video_node() {
    let html = r#"<html><body><video src="video.mp4" title="Demo"></video></body></html>"#;
    let doc = parse_html(html, &ParseConfig::default()).unwrap();
    assert!(doc.content_nodes.iter().any(|n| matches!(
        n,
        ContentNode::Media {
            media_type,
            title,
            src
        } if media_type == "video" && title == "Demo" && src == "video.mp4"
    )));
}

#[test]
fn test_iframe_node() {
    let html = r#"<html><body><iframe src="https://embed.com/v" title="Embed"></iframe></body></html>"#;
    let doc = parse_html(html, &ParseConfig::default()).unwrap();
    assert!(doc.content_nodes.iter().any(|n| matches!(
        n,
        ContentNode::Media {
            media_type,
            title,
            src
        } if media_type == "iframe" && title == "Embed" && src == "https://embed.com/v"
    )));
}

#[test]
fn test_script_removal() {
    let html = r#"
    <html><body>
        <p>Visible</p>
        <script>alert("evil")</script>
        <p>Also visible</p>
    </body></html>"#;
    let doc = parse_html(html, &ParseConfig::default()).unwrap();
    let texts: Vec<_> = doc
        .content_nodes
        .iter()
        .filter_map(|n| match n {
            ContentNode::Paragraph(t) => Some(t.as_str()),
            _ => None,
        })
        .collect();
    assert_eq!(texts, vec!["Visible", "Also visible"]);
    // Ensure no node contains the script content.
    for node in &doc.content_nodes {
        match node {
            ContentNode::RawText(t) | ContentNode::Paragraph(t) => {
                assert!(!t.contains("alert"));
            }
            _ => {}
        }
    }
}

#[test]
fn test_style_removal() {
    let html = r#"
    <html><body>
        <style>body { color: red; }</style>
        <p>Content</p>
    </body></html>"#;
    let doc = parse_html(html, &ParseConfig::default()).unwrap();
    let texts: Vec<_> = doc
        .content_nodes
        .iter()
        .filter_map(|n| match n {
            ContentNode::Paragraph(t) => Some(t.as_str()),
            _ => None,
        })
        .collect();
    assert_eq!(texts, vec!["Content"]);
    for node in &doc.content_nodes {
        match node {
            ContentNode::RawText(t) | ContentNode::Paragraph(t) => {
                assert!(!t.contains("color"));
            }
            _ => {}
        }
    }
}

#[test]
fn test_noscript_removal() {
    let html = r#"
    <html><body>
        <noscript>Enable JS</noscript>
        <p>Real content</p>
    </body></html>"#;
    let doc = parse_html(html, &ParseConfig::default()).unwrap();
    for node in &doc.content_nodes {
        match node {
            ContentNode::RawText(t) | ContentNode::Paragraph(t) => {
                assert!(!t.contains("Enable JS"));
            }
            _ => {}
        }
    }
}

#[test]
fn test_nav_removal_enabled() {
    let html = r#"
    <html><body>
        <nav><a href="/">Home</a><a href="/about">About</a></nav>
        <p>Main content</p>
    </body></html>"#;
    let config = ParseConfig {
        clean_navigation: true,
        ..Default::default()
    };
    let doc = parse_html(html, &config).unwrap();
    // Nav links should not appear.
    assert!(!doc.content_nodes.iter().any(
        |n| matches!(n, ContentNode::Link { text, .. } if text == "Home")
    ));
    // Main content should be present.
    assert!(doc.content_nodes.iter().any(
        |n| matches!(n, ContentNode::Paragraph(t) if t == "Main content")
    ));
}

#[test]
fn test_nav_removal_disabled() {
    let html = r#"
    <html><body>
        <nav><a href="/">Home</a></nav>
        <p>Main content</p>
    </body></html>"#;
    let config = ParseConfig {
        clean_navigation: false,
        clean_footers: false,
        clean_ads: false,
        clean_comments: false,
        extract_metadata: true,
    };
    let doc = parse_html(html, &config).unwrap();
    // Nav link should now appear.
    assert!(doc.content_nodes.iter().any(
        |n| matches!(n, ContentNode::Link { text, .. } if text == "Home")
    ));
}

#[test]
fn test_footer_removal_enabled() {
    let html = r#"
    <html><body>
        <p>Main content</p>
        <footer><p>Copyright 2024</p></footer>
    </body></html>"#;
    let config = ParseConfig {
        clean_footers: true,
        ..Default::default()
    };
    let doc = parse_html(html, &config).unwrap();
    assert!(!doc.content_nodes.iter().any(
        |n| matches!(n, ContentNode::Paragraph(t) if t.contains("Copyright"))
    ));
}

#[test]
fn test_footer_removal_disabled() {
    let html = r#"
    <html><body>
        <p>Main content</p>
        <footer><p>Copyright 2024</p></footer>
    </body></html>"#;
    let config = ParseConfig {
        clean_navigation: false,
        clean_footers: false,
        clean_ads: false,
        clean_comments: false,
        extract_metadata: true,
    };
    let doc = parse_html(html, &config).unwrap();
    assert!(doc.content_nodes.iter().any(
        |n| matches!(n, ContentNode::Paragraph(t) if t.contains("Copyright"))
    ));
}

#[test]
fn test_ad_removal() {
    let html = r#"
    <html><body>
        <p>Real content</p>
        <div class="ad-banner"><p>Buy stuff!</p></div>
        <div id="google_ads_123"><p>Sponsored</p></div>
        <p>More real content</p>
    </body></html>"#;
    let config = ParseConfig {
        clean_ads: true,
        ..Default::default()
    };
    let doc = parse_html(html, &config).unwrap();
    let texts: Vec<_> = doc
        .content_nodes
        .iter()
        .filter_map(|n| match n {
            ContentNode::Paragraph(t) => Some(t.as_str()),
            _ => None,
        })
        .collect();
    assert!(texts.contains(&"Real content"));
    assert!(texts.contains(&"More real content"));
    assert!(!texts.contains(&"Buy stuff!"));
    assert!(!texts.contains(&"Sponsored"));
}

#[test]
fn test_comment_section_removal() {
    let html = r#"
    <html><body>
        <p>Article text</p>
        <div id="comments"><p>User comment</p></div>
        <div class="disqus_thread"><p>Disqus comment</p></div>
    </body></html>"#;
    let config = ParseConfig {
        clean_comments: true,
        ..Default::default()
    };
    let doc = parse_html(html, &config).unwrap();
    let texts: Vec<_> = doc
        .content_nodes
        .iter()
        .filter_map(|n| match n {
            ContentNode::Paragraph(t) => Some(t.as_str()),
            _ => None,
        })
        .collect();
    assert!(texts.contains(&"Article text"));
    assert!(!texts.contains(&"User comment"));
    assert!(!texts.contains(&"Disqus comment"));
}

#[test]
fn test_parse_rss() {
    let rss = r#"<?xml version="1.0" encoding="UTF-8"?>
    <rss version="2.0">
        <channel>
            <title>My Blog</title>
            <link>https://example.com</link>
            <description>A test blog</description>
            <item>
                <title>First Post</title>
                <link>https://example.com/first</link>
                <description>Hello world</description>
                <pubDate>Mon, 01 Jan 2024 00:00:00 GMT</pubDate>
                <author>alice@example.com</author>
            </item>
            <item>
                <title>Second Post</title>
                <link>https://example.com/second</link>
                <description>Another post</description>
            </item>
        </channel>
    </rss>"#;

    let doc = parse_rss(rss).unwrap();
    assert_eq!(doc.metadata.title.as_deref(), Some("My Blog"));
    assert_eq!(doc.metadata.description.as_deref(), Some("A test blog"));
    assert_eq!(doc.content_type, ContentType::Rss);

    // Should have heading for feed, paragraphs for items, etc.
    assert!(doc.content_nodes.iter().any(
        |n| matches!(n, ContentNode::Heading { level: 1, text } if text == "My Blog")
    ));
    assert!(doc.content_nodes.iter().any(
        |n| matches!(n, ContentNode::Heading { level: 2, text } if text == "First Post")
    ));
    assert!(doc.content_nodes.iter().any(
        |n| matches!(n, ContentNode::Heading { level: 2, text } if text == "Second Post")
    ));
}

#[test]
fn test_parse_rss_items() {
    let rss = r#"<?xml version="1.0"?>
    <rss version="2.0">
        <channel>
            <title>Feed</title>
            <item>
                <title>Post</title>
                <link>https://example.com/post</link>
                <description>Content here</description>
            </item>
        </channel>
    </rss>"#;

    let feed = parse_rss_feed(rss).unwrap();
    assert_eq!(feed.items.len(), 1);
    assert_eq!(feed.items[0].title.as_deref(), Some("Post"));
    assert_eq!(
        feed.items[0].link.as_deref(),
        Some("https://example.com/post")
    );
    assert_eq!(
        feed.items[0].description.as_deref(),
        Some("Content here")
    );
}

#[test]
fn test_parse_atom() {
    let atom = r#"<?xml version="1.0" encoding="UTF-8"?>
    <feed xmlns="http://www.w3.org/2005/Atom">
        <title>Atom Feed</title>
        <subtitle>A test feed</subtitle>
        <link href="https://example.com" />
        <entry>
            <title>Entry One</title>
            <link href="https://example.com/one" />
            <summary>First entry summary</summary>
            <updated>2024-01-01T00:00:00Z</updated>
            <author><name>Alice</name></author>
        </entry>
    </feed>"#;

    let doc = parse_atom(atom).unwrap();
    assert_eq!(doc.metadata.title.as_deref(), Some("Atom Feed"));
    assert_eq!(doc.metadata.description.as_deref(), Some("A test feed"));
    assert_eq!(doc.content_type, ContentType::Atom);

    assert!(doc.content_nodes.iter().any(
        |n| matches!(n, ContentNode::Heading { level: 1, text } if text == "Atom Feed")
    ));
    assert!(doc.content_nodes.iter().any(
        |n| matches!(n, ContentNode::Heading { level: 2, text } if text == "Entry One")
    ));
}

#[test]
fn test_parse_json_object() {
    let json = r#"{"name": "Test", "value": 42}"#;
    let doc = parse_json(json).unwrap();
    assert_eq!(doc.content_type, ContentType::Json);
    assert!(!doc.content_nodes.is_empty());
}

#[test]
fn test_parse_json_ld() {
    let json = r#"{
        "@context": "https://schema.org",
        "@type": "Article",
        "headline": "Test Article",
        "description": "A test",
        "author": {"name": "Bob"},
        "datePublished": "2024-06-01"
    }"#;
    let doc = parse_json(json).unwrap();
    assert_eq!(doc.metadata.title.as_deref(), Some("Test Article"));
    assert_eq!(doc.metadata.description.as_deref(), Some("A test"));
    assert_eq!(doc.metadata.author.as_deref(), Some("Bob"));
    assert_eq!(
        doc.metadata.published_date.as_deref(),
        Some("2024-06-01")
    );
}

#[test]
fn test_parse_json_array_as_table() {
    let json = r#"[
        {"name": "Alice", "age": 30},
        {"name": "Bob", "age": 25}
    ]"#;
    let doc = parse_json(json).unwrap();
    assert!(doc
        .content_nodes
        .iter()
        .any(|n| matches!(n, ContentNode::Table { .. })));
}

#[test]
fn test_parse_dispatch_html() {
    let html = "<html><body><p>Hello</p></body></html>";
    let doc =
        parse(html, &ContentType::Html, &ParseConfig::default()).unwrap();
    assert_eq!(doc.content_type, ContentType::Html);
}

#[test]
fn test_parse_dispatch_plain_text() {
    let text = "Just some plain text.";
    let doc = parse(text, &ContentType::PlainText, &ParseConfig::default())
        .unwrap();
    assert_eq!(doc.content_type, ContentType::PlainText);
    assert!(doc.content_nodes.iter().any(
        |n| matches!(n, ContentNode::RawText(t) if t == "Just some plain text.")
    ));
}

#[test]
fn test_parse_dispatch_unknown() {
    let data = "some binary gibberish";
    let ct = ContentType::Other("application/octet-stream".to_string());
    let doc = parse(data, &ct, &ParseConfig::default()).unwrap();
    assert!(matches!(doc.content_type, ContentType::Other(_)));
}

#[test]
fn test_collapse_whitespace() {
    assert_eq!(collapse_whitespace("  hello   world  "), "hello world");
    assert_eq!(collapse_whitespace("\n\t foo \n bar \t"), "foo bar");
    assert_eq!(collapse_whitespace(""), "");
    assert_eq!(collapse_whitespace("   "), "");
}

#[test]
fn test_extract_language_from_class() {
    assert_eq!(
        extract_language_from_class("language-python"),
        Some("python".to_string())
    );
    assert_eq!(
        extract_language_from_class("lang-rust"),
        Some("rust".to_string())
    );
    assert_eq!(
        extract_language_from_class("highlight-js"),
        Some("js".to_string())
    );
    assert_eq!(
        extract_language_from_class("python"),
        Some("python".to_string())
    );
    // Multiple classes: first matching prefix wins.
    assert_eq!(
        extract_language_from_class("hljs language-go"),
        Some("go".to_string())
    );
}

#[test]
fn test_complex_html_document() {
    let html = r#"
    <html lang="en">
    <head>
        <title>Complex Page</title>
        <meta name="description" content="A complex test page">
        <meta name="author" content="Test Author">
        <link rel="canonical" href="https://example.com/complex">
    </head>
    <body>
        <nav><a href="/">Home</a></nav>
        <main>
            <h1>Main Heading</h1>
            <p>Intro paragraph with <strong>bold</strong> and <em>italic</em>.</p>
            <h2>Code Examples</h2>
            <pre><code class="language-rust">fn main() {}</code></pre>
            <h2>Data</h2>
            <table>
                <tr><th>Col A</th><th>Col B</th></tr>
                <tr><td>1</td><td>2</td></tr>
            </table>
            <ul>
                <li>Bullet one</li>
                <li>Bullet two</li>
            </ul>
            <blockquote>A wise quote</blockquote>
            <hr>
            <img src="photo.png" alt="Photo">
        </main>
        <footer><p>Footer text</p></footer>
        <script>console.log("removed")</script>
    </body>
    </html>"#;

    let doc = parse_html(html, &ParseConfig::default()).unwrap();

    // Metadata.
    assert_eq!(doc.metadata.title.as_deref(), Some("Complex Page"));
    assert_eq!(
        doc.metadata.description.as_deref(),
        Some("A complex test page")
    );
    assert_eq!(doc.metadata.author.as_deref(), Some("Test Author"));
    assert_eq!(doc.metadata.language.as_deref(), Some("en"));
    assert_eq!(
        doc.metadata.canonical_url.as_deref(),
        Some("https://example.com/complex")
    );

    // Content nodes — spot check.
    assert!(doc.content_nodes.iter().any(
        |n| matches!(n, ContentNode::Heading { level: 1, text } if text == "Main Heading")
    ));
    assert!(doc.content_nodes.iter().any(
        |n| matches!(n, ContentNode::CodeBlock { language: Some(l), .. } if l == "rust")
    ));
    assert!(doc.content_nodes.iter().any(
        |n| matches!(n, ContentNode::Table { headers, .. } if headers == &["Col A", "Col B"])
    ));
    assert!(doc.content_nodes.iter().any(
        |n| matches!(n, ContentNode::UnorderedList(items) if items.len() == 2)
    ));
    assert!(doc.content_nodes.iter().any(
        |n| matches!(n, ContentNode::Blockquote(t) if t == "A wise quote")
    ));
    assert!(doc
        .content_nodes
        .iter()
        .any(|n| matches!(n, ContentNode::HorizontalRule)));
    assert!(doc.content_nodes.iter().any(
        |n| matches!(n, ContentNode::Image { src, .. } if src == "photo.png")
    ));

    // Cleaned elements should not appear.
    for node in &doc.content_nodes {
        match node {
            ContentNode::RawText(t) | ContentNode::Paragraph(t) => {
                assert!(!t.contains("console.log"));
                assert!(!t.contains("Footer text"));
            }
            _ => {}
        }
    }
}
