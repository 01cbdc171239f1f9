//! Core of a web crawler that turns pages into clean Markdown: URL handling,
//! robots.txt rules, the crawl frontier, content-type detection, link
//! classification, feed and sitemap reading, and the Markdown converter.

pub mod anti_detect;
pub mod bindings;
pub mod browser_fingerprint;
pub mod cli;
pub mod config;
pub mod converter;
pub mod crawl;
pub mod dom;
pub mod error;
pub mod extractor;
pub mod fetcher;
pub mod html;
pub mod json;
pub mod output;
pub mod parser;
pub mod proxy;
pub mod renderer;
pub mod robots;
pub mod scheduler;
pub mod sitemap;
pub mod text;
pub mod utils;
pub mod xml;
