use rehyke_core::converter::{
    build_frontmatter, collapse_blank_lines, escape_markdown, format_table, render_feed_item,
    render_node, strip_html_tags, to_markdown, to_markdown_with_url, ConverterConfig,
};
use rehyke_core::fetcher::ContentType;
use rehyke_core::parser::{ContentNode, FeedItem, PageMetadata, ParsedDocument};

fn make_metadata() -> PageMetadata {
    PageMetadata {
        title: Some("Test Page".to_string()),
        description: Some("A test page description".to_string()),
        author: Some("Author Name".to_string()),
        published_date: Some("2024-01-15".to_string()),
        language: Some("en".to_string()),
        canonical_url: Some("https://example.com/page".to_string()),
        og_image: None,
        keywords: vec!["test".to_string(), "page".to_string()],
    }
}

fn make_doc(content: Vec<ContentNode>) -> ParsedDocument {
    ParsedDocument {
        metadata: make_metadata(),
        content_nodes: content,
        content_type: ContentType::Html,
    }
}

/// URL used for frontmatter in tests.
const TEST_URL: &str = "https://example.com/page";

#[test]
fn test_heading_levels() {
    for level in 1..=6u8 {
        let node = ContentNode::Heading {
            level,
            text: format!("Heading {}", level),
        };
        let rendered = render_node(&node);
        let prefix = "#".repeat(level as usize);
        assert_eq!(rendered, format!("{} Heading {}\n\n", prefix, level));
    }
}

#[test]
fn test_heading_level_clamped() {
    let node = ContentNode::Heading {
        level: 7,
        text: "Deep heading".to_string(),
    };
    let rendered = render_node(&node);
    assert!(rendered.starts_with("######"));
    assert!(!rendered.starts_with("#######"));
}

#[test]
fn test_paragraph() {
    let node = ContentNode::Paragraph("Hello, world!".to_string());
    let rendered = render_node(&node);
    assert_eq!(rendered, "Hello, world!\n\n");
}

#[test]
fn test_paragraph_trims_whitespace() {
    let node = ContentNode::Paragraph("  Hello  ".to_string());
    let rendered = render_node(&node);
    assert_eq!(rendered, "Hello\n\n");
}

#[test]
fn test_empty_paragraph() {
    let node = ContentNode::Paragraph("   ".to_string());
    let rendered = render_node(&node);
    assert_eq!(rendered, "\n");
}

#[test]
fn test_link() {
    let node = ContentNode::Link {
        text: "Example".to_string(),
        href: "https://example.com".to_string(),
    };
    let rendered = render_node(&node);
    assert_eq!(rendered, "[Example](https://example.com)");
}

#[test]
fn test_image() {
    let node = ContentNode::Image {
        alt: "An image".to_string(),
        src: "https://example.com/img.png".to_string(),
    };
    let rendered = render_node(&node);
    assert_eq!(rendered, "![An image](https://example.com/img.png)\n\n");
}

#[test]
fn test_inline_code() {
    let node = ContentNode::Code("let x = 42;".to_string());
    let rendered = render_node(&node);
    assert_eq!(rendered, "`let x = 42;`");
}

#[test]
fn test_code_block_with_language() {
    let node = ContentNode::CodeBlock {
        language: Some("rust".to_string()),
        code: "fn main() {\n    println!(\"hello\");\n}".to_string(),
    };
    let rendered = render_node(&node);
    assert_eq!(
        rendered,
        "```rust\nfn main() {\n    println!(\"hello\");\n}\n```\n\n"
    );
}

#[test]
fn test_code_block_without_language() {
    let node = ContentNode::CodeBlock {
        language: None,
        code: "some code".to_string(),
    };
    let rendered = render_node(&node);
    assert_eq!(rendered, "```\nsome code\n```\n\n");
}

#[test]
fn converter_test_unordered_list() {
    let node = ContentNode::UnorderedList(vec![
        "Item one".to_string(),
        "Item two".to_string(),
        "Item three".to_string(),
    ]);
    let rendered = render_node(&node);
    assert_eq!(rendered, "- Item one\n- Item two\n- Item three\n\n");
}

#[test]
fn converter_test_ordered_list() {
    let node = ContentNode::OrderedList(vec![
        "First".to_string(),
        "Second".to_string(),
        "Third".to_string(),
    ]);
    let rendered = render_node(&node);
    assert_eq!(rendered, "1. First\n2. Second\n3. Third\n\n");
}

#[test]
fn test_format_table_basic() {
    let headers = vec!["Name".to_string(), "Age".to_string()];
    let rows = vec![
        vec!["Alice".to_string(), "30".to_string()],
        vec!["Bob".to_string(), "25".to_string()],
    ];
    let table = format_table(&headers, &rows);
    let lines: Vec<&str> = table.lines().collect();

    assert_eq!(lines.len(), 4);
    assert!(lines[0].contains("Name"));
    assert!(lines[0].contains("Age"));
    assert!(lines[1].contains("---"));
    assert!(lines[2].contains("Alice"));
    assert!(lines[2].contains("30"));
    assert!(lines[3].contains("Bob"));
    assert!(lines[3].contains("25"));
}

#[test]
fn test_format_table_empty_headers() {
    let headers: Vec<String> = vec![];
    let rows: Vec<Vec<String>> = vec![];
    let table = format_table(&headers, &rows);
    assert_eq!(table, "");
}

#[test]
fn test_format_table_missing_cells() {
    let headers = vec!["A".to_string(), "B".to_string(), "C".to_string()];
    let rows = vec![vec!["1".to_string()]]; // row has fewer cells than headers
    let table = format_table(&headers, &rows);
    let lines: Vec<&str> = table.lines().collect();
    assert_eq!(lines.len(), 3);
    // The row should have 3 columns, with empty cells padded
    assert!(lines[2].contains("1"));
}

#[test]
fn test_table_node_rendering() {
    let node = ContentNode::Table {
        headers: vec!["Col1".to_string(), "Col2".to_string()],
        rows: vec![vec!["A".to_string(), "B".to_string()]],
    };
    let rendered = render_node(&node);
    assert!(rendered.contains("| Col1"));
    assert!(rendered.contains("| A"));
    assert!(rendered.contains("---"));
}

#[test]
fn test_frontmatter_full_metadata() {
    let meta = make_metadata();
    let fm = build_frontmatter("https://example.com/page", &meta);

    assert!(fm.starts_with("---\n"));
    assert!(fm.ends_with("---\n"));
    assert!(fm.contains("url: https://example.com/page"));
    assert!(fm.contains("title: Test Page"));
    assert!(fm.contains("description: A test page description"));
    assert!(fm.contains("author: Author Name"));
    assert!(fm.contains("published: 2024-01-15"));
    assert!(fm.contains("language: en"));
    assert!(fm.contains("canonical: https://example.com/page"));
}

#[test]
fn test_frontmatter_minimal_metadata() {
    let meta = PageMetadata::default();
    let fm = build_frontmatter("https://example.com", &meta);

    assert!(fm.starts_with("---\n"));
    assert!(fm.contains("url: https://example.com"));
    // Optional fields should not appear
    assert!(!fm.contains("title:"));
    assert!(!fm.contains("description:"));
    assert!(!fm.contains("author:"));
}

#[test]
fn test_frontmatter_yaml_escaping() {
    let meta = PageMetadata {
        title: Some("Title: with colon".to_string()),
        description: Some("Normal description".to_string()),
        ..Default::default()
    };
    let fm = build_frontmatter("https://example.com", &meta);
    // Title should be escaped because it contains ':'
    assert!(fm.contains("title: \"Title: with colon\""));
}

#[test]
fn test_collapse_blank_lines_basic() {
    let input = "Hello\n\n\n\n\nWorld\n";
    let result = collapse_blank_lines(input, 2);
    // Should have at most 2 blank lines (3 newlines between content)
    assert_eq!(result, "Hello\n\n\nWorld\n");
}

#[test]
fn test_collapse_blank_lines_within_limit() {
    let input = "A\n\nB\n";
    let result = collapse_blank_lines(input, 2);
    assert_eq!(result, "A\n\nB\n");
}

#[test]
fn test_collapse_blank_lines_zero_max() {
    let input = "A\n\n\nB\n";
    let result = collapse_blank_lines(input, 0);
    assert_eq!(result, "A\nB\n");
}

#[test]
fn test_escape_markdown_special_chars() {
    let input = "Hello *world* and _underscores_";
    let escaped = escape_markdown(input);
    assert_eq!(escaped, "Hello \\*world\\* and \\_underscores\\_");
}

#[test]
fn test_escape_markdown_brackets() {
    let input = "[link](url)";
    let escaped = escape_markdown(input);
    assert_eq!(escaped, "\\[link\\]\\(url\\)");
}

#[test]
fn test_escape_markdown_all_chars() {
    let input = r"\*_[]()#+-.!|`";
    let escaped = escape_markdown(input);
    assert_eq!(escaped, r"\\\*\_\[\]\(\)\#\+\-\.\!\|\`");
}

#[test]
fn test_escape_markdown_plain_text() {
    let input = "Just normal text here";
    let escaped = escape_markdown(input);
    assert_eq!(escaped, input);
}

#[test]
fn test_strip_html_tags_basic() {
    let input = "<p>Hello <strong>world</strong></p>";
    let result = strip_html_tags(input);
    assert_eq!(result, "Hello world");
}

#[test]
fn test_strip_html_tags_self_closing() {
    let input = "Line one<br/>Line two";
    let result = strip_html_tags(input);
    assert_eq!(result, "Line oneLine two");
}

#[test]
fn test_strip_html_tags_with_attributes() {
    let input = r#"<div class="container">Content</div>"#;
    let result = strip_html_tags(input);
    assert_eq!(result, "Content");
}

#[test]
fn test_strip_html_tags_no_tags() {
    let input = "No HTML here";
    let result = strip_html_tags(input);
    assert_eq!(result, input);
}

#[test]
fn test_strip_html_tags_nested() {
    let input = "<div><p>Nested <em>tags</em></p></div>";
    let result = strip_html_tags(input);
    assert_eq!(result, "Nested tags");
}

#[test]
fn test_blockquote_single_line() {
    let node = ContentNode::Blockquote("A quote".to_string());
    let rendered = render_node(&node);
    assert_eq!(rendered, "> A quote\n\n");
}

#[test]
fn test_blockquote_multiline() {
    let node = ContentNode::Blockquote("Line one\nLine two\nLine three".to_string());
    let rendered = render_node(&node);
    assert_eq!(rendered, "> Line one\n> Line two\n> Line three\n\n");
}

#[test]
fn test_bold() {
    let node = ContentNode::Bold("important".to_string());
    assert_eq!(render_node(&node), "**important**");
}

#[test]
fn test_italic() {
    let node = ContentNode::Italic("emphasis".to_string());
    assert_eq!(render_node(&node), "*emphasis*");
}

#[test]
fn converter_test_strikethrough() {
    let node = ContentNode::Strikethrough("removed".to_string());
    assert_eq!(render_node(&node), "~~removed~~");
}

#[test]
fn converter_test_horizontal_rule() {
    let node = ContentNode::HorizontalRule;
    assert_eq!(render_node(&node), "---\n\n");
}

#[test]
fn test_line_break() {
    let node = ContentNode::LineBreak;
    assert_eq!(render_node(&node), "\n");
}

#[test]
fn converter_test_definition_list() {
    let node = ContentNode::DefinitionList(vec![
        ("Term1".to_string(), "Definition1".to_string()),
        ("Term2".to_string(), "Definition2".to_string()),
    ]);
    let rendered = render_node(&node);
    assert_eq!(
        rendered,
        "**Term1:** Definition1\n\n**Term2:** Definition2\n\n"
    );
}

#[test]
fn test_media() {
    let node = ContentNode::Media {
        media_type: "video".to_string(),
        title: "My Video".to_string(),
        src: "https://example.com/video.mp4".to_string(),
    };
    let rendered = render_node(&node);
    assert_eq!(
        rendered,
        "[Media: My Video](https://example.com/video.mp4)\n\n"
    );
}

#[test]
fn test_raw_text() {
    let node = ContentNode::RawText("just raw text".to_string());
    assert_eq!(render_node(&node), "just raw text");
}

#[test]
fn test_full_document_with_frontmatter_and_footer() {
    let doc = make_doc(vec![
        ContentNode::Heading {
            level: 1,
            text: "Welcome".to_string(),
        },
        ContentNode::Paragraph("This is a test document.".to_string()),
        ContentNode::UnorderedList(vec!["Alpha".to_string(), "Beta".to_string()]),
    ]);

    let config = ConverterConfig::default();
    let md = to_markdown_with_url(&doc, TEST_URL, &config);

    // Frontmatter present
    assert!(md.starts_with("---\n"));
    assert!(md.contains("url: https://example.com/page"));
    assert!(md.contains("title: Test Page"));

    // Content present
    assert!(md.contains("# Welcome"));
    assert!(md.contains("This is a test document."));
    assert!(md.contains("- Alpha"));
    assert!(md.contains("- Beta"));

    // Footer present
    assert!(md.contains("*Crawled by [Rehyke](https://github.com/user/rehyke)*"));

    // Ends with single newline
    assert!(md.ends_with('\n'));
    assert!(!md.ends_with("\n\n"));
}

#[test]
fn test_full_document_no_frontmatter_no_footer() {
    let doc = make_doc(vec![ContentNode::Paragraph(
        "Just a paragraph.".to_string(),
    )]);

    let config = ConverterConfig {
        include_frontmatter: false,
        include_footer: false,
        max_blank_lines: 2,
    };
    let md = to_markdown(&doc, &config);

    // No frontmatter
    assert!(!md.starts_with("---"));
    // No footer
    assert!(!md.contains("Crawled by"));
    // Content present
    assert!(md.contains("Just a paragraph."));
    // Ends with single newline
    assert!(md.ends_with('\n'));
}

#[test]
fn test_full_document_blank_line_collapsing() {
    let doc = make_doc(vec![
        ContentNode::Paragraph("First".to_string()),
        ContentNode::Paragraph("".to_string()),
        ContentNode::Paragraph("".to_string()),
        ContentNode::Paragraph("".to_string()),
        ContentNode::Paragraph("Second".to_string()),
    ]);

    let config = ConverterConfig {
        include_frontmatter: false,
        include_footer: false,
        max_blank_lines: 2,
    };
    let md = to_markdown(&doc, &config);

    // Count consecutive newlines - should not exceed 3 (which means 2 blank lines)
    let max_consecutive = md
        .as_bytes()
        .windows(4)
        .filter(|w| w == b"\n\n\n\n")
        .count();
    assert_eq!(max_consecutive, 0, "Should not have more than 2 consecutive blank lines");
}

#[test]
fn test_full_document_strips_html() {
    let doc = make_doc(vec![ContentNode::RawText(
        "Hello <b>world</b> and <i>more</i>".to_string(),
    )]);

    let config = ConverterConfig {
        include_frontmatter: false,
        include_footer: false,
        max_blank_lines: 2,
    };
    let md = to_markdown(&doc, &config);

    assert!(!md.contains('<'));
    assert!(!md.contains('>'));
    assert!(md.contains("Hello world and more"));
}

#[test]
fn test_full_document_with_table() {
    let doc = make_doc(vec![
        ContentNode::Heading {
            level: 2,
            text: "Data Table".to_string(),
        },
        ContentNode::Table {
            headers: vec!["Name".to_string(), "Value".to_string()],
            rows: vec![
                vec!["foo".to_string(), "42".to_string()],
                vec!["bar".to_string(), "99".to_string()],
            ],
        },
    ]);

    let config = ConverterConfig {
        include_frontmatter: false,
        include_footer: false,
        max_blank_lines: 2,
    };
    let md = to_markdown(&doc, &config);

    assert!(md.contains("## Data Table"));
    assert!(md.contains("| Name"));
    assert!(md.contains("| foo"));
    assert!(md.contains("| bar"));
}

#[test]
fn test_full_document_with_code_block() {
    let doc = make_doc(vec![ContentNode::CodeBlock {
        language: Some("python".to_string()),
        code: "print(\"hello\")".to_string(),
    }]);

    let config = ConverterConfig {
        include_frontmatter: false,
        include_footer: false,
        max_blank_lines: 2,
    };
    let md = to_markdown(&doc, &config);

    assert!(md.contains("```python"));
    assert!(md.contains("print(\"hello\")"));
    assert!(md.contains("```\n"));
}

#[test]
fn test_render_feed_item_with_all_fields() {
    let item = FeedItem {
        title: Some("Article One".to_string()),
        link: Some("https://example.com/1".to_string()),
        description: Some("First article".to_string()),
        pub_date: Some("2024-01-01".to_string()),
        author: Some("Jane".to_string()),
    };

    let rendered = render_feed_item(&item);

    assert!(rendered.contains("[Article One](https://example.com/1)"));
    assert!(rendered.contains("First article"));
    assert!(rendered.contains("By Jane"));
    assert!(rendered.contains("2024-01-01"));
}

#[test]
fn test_render_feed_item_minimal() {
    let item = FeedItem {
        title: Some("Article Two".to_string()),
        link: None,
        description: None,
        pub_date: None,
        author: None,
    };

    let rendered = render_feed_item(&item);
    assert!(rendered.contains("### Article Two"));
}
