use std::path::{Path, PathBuf};

use rehyke_core::config::FileStructure;
use rehyke_core::output::url_to_file_path;
use rehyke_core::utils::{url_to_slug, Url};

#[test]
fn test_url_to_file_path_flat() {
    let url = Url::parse("https://example.com/blog/post").unwrap();
    let output_dir = Path::new("/tmp/output");
    let path = PathBuf::from(url_to_file_path(&url, "/tmp/output", &FileStructure::Flat));

    let slug = url_to_slug(&url);
    assert_eq!(path, output_dir.join(format!("{}.md", slug)));
    assert!(path.to_string_lossy().ends_with(".md"));
}

#[test]
fn test_url_to_file_path_flat_root() {
    let url = Url::parse("https://example.com/").unwrap();
    let output_dir = Path::new("/tmp/output");
    let path = PathBuf::from(url_to_file_path(&url, "/tmp/output", &FileStructure::Flat));

    assert!(path.to_string_lossy().ends_with(".md"));
}

#[test]
fn test_url_to_file_path_mirror() {
    let url = Url::parse("https://example.com/blog/post").unwrap();
    let output_dir = Path::new("/tmp/output");
    let path = PathBuf::from(url_to_file_path(&url, "/tmp/output", &FileStructure::Mirror));

    let expected = output_dir.join("example.com/blog/post/index.md");
    assert_eq!(path, expected);
}

#[test]
fn test_url_to_file_path_mirror_root() {
    let url = Url::parse("https://example.com/").unwrap();
    let output_dir = Path::new("/tmp/output");
    let path = PathBuf::from(url_to_file_path(&url, "/tmp/output", &FileStructure::Mirror));

    let expected = output_dir.join("example.com/index.md");
    assert_eq!(path, expected);
}

#[test]
fn test_url_to_file_path_mirror_deep() {
    let url = Url::parse("https://docs.example.com/api/v2/reference").unwrap();
    let output_dir = Path::new("/tmp/output");
    let path = PathBuf::from(url_to_file_path(&url, "/tmp/output", &FileStructure::Mirror));

    let expected = output_dir.join("docs.example.com/api/v2/reference/index.md");
    assert_eq!(path, expected);
}

#[test]
fn test_slug_used_for_flat_filename() {
    let url = Url::parse("https://example.com/About-Us/Team").unwrap();
    let slug = url_to_slug(&url);

    // Slugs should be lowercase and use hyphens.
    assert_eq!(slug, slug.to_lowercase());
    assert!(!slug.contains('/'));
    assert!(!slug.is_empty());
}

#[test]
fn test_slug_no_special_characters() {
    let url = Url::parse("https://example.com/path?query=1&other=2#frag").unwrap();
    let slug = url_to_slug(&url);

    assert!(!slug.contains('?'));
    assert!(!slug.contains('&'));
    assert!(!slug.contains('#'));
    assert!(!slug.contains('='));
}
