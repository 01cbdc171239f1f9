//! Errors of the crawler.

use vstd::prelude::*;

use crate::text::{decimal, decimal_string, push_str};

verus! {

/// What went wrong. Errors of the HTTP client, the file system and the URL
/// parser are carried as their messages.
#[derive(Debug, Clone, PartialEq, Eq)]
pub enum RehykeError {
    HttpError { url: String, status: u16 },
    Timeout { url: String },
    DnsError { domain: String },
    TlsError { url: String, message: String },
    RenderError { url: String, message: String },
    BrowserError { message: String },
    ParseError { url: String, message: String },
    ProxyError { message: String },
    RateLimited { domain: String },
    MaxPagesReached { limit: usize },
    IoError(String),
    ConfigError { message: String },
    RequestError(String),
    UrlParseError(String),
}

/// The human-readable message of an error.
pub open spec fn error_message(e: RehykeError) -> Seq<char> {
    match e {
        RehykeError::HttpError { url, status } => "HTTP error for "@ + url@ + ": "@ + decimal(
            status as nat,
        ),
        RehykeError::Timeout { url } => "Connection timeout for "@ + url@,
        RehykeError::DnsError { domain } => "DNS resolution failed for "@ + domain@,
        RehykeError::TlsError { url, message } => "TLS/SSL error for "@ + url@ + ": "@ + message@,
        RehykeError::RenderError { url, message } => "JavaScript rendering failed for "@ + url@
            + ": "@ + message@,
        RehykeError::BrowserError { message } => "Browser launch failed: "@ + message@,
        RehykeError::ParseError { url, message } => "Parse error for "@ + url@ + ": "@ + message@,
        RehykeError::ProxyError { message } => "Proxy error: "@ + message@,
        RehykeError::RateLimited { domain } => "Rate limited by "@ + domain@,
        RehykeError::MaxPagesReached { limit } => "Max pages limit reached: "@ + decimal(
            limit as nat,
        ),
        RehykeError::IoError(m) => "IO error: "@ + m@,
        RehykeError::ConfigError { message } => "Configuration error: "@ + message@,
        RehykeError::RequestError(m) => "Request error: "@ + m@,
        RehykeError::UrlParseError(m) => "URL parse error: "@ + m@,
    }
}

impl RehykeError {
    /// The human-readable message of the error.
    pub fn message(&self) -> (res: String)
        ensures
            res@ == error_message(*self),
    {
        let mut out = String::new();
        match self {
            RehykeError::HttpError { url, status } => {
                push_str(&mut out, "HTTP error for ");
                push_str(&mut out, url.as_str());
                push_str(&mut out, ": ");
                let d = decimal_string(*status as u64);
                push_str(&mut out, d.as_str());
            },
            RehykeError::Timeout { url } => {
                push_str(&mut out, "Connection timeout for ");
                push_str(&mut out, url.as_str());
            },
            RehykeError::DnsError { domain } => {
                push_str(&mut out, "DNS resolution failed for ");
                push_str(&mut out, domain.as_str());
            },
            RehykeError::TlsError { url, message } => {
                push_str(&mut out, "TLS/SSL error for ");
                push_str(&mut out, url.as_str());
                push_str(&mut out, ": ");
                push_str(&mut out, message.as_str());
            },
            RehykeError::RenderError { url, message } => {
                push_str(&mut out, "JavaScript rendering failed for ");
                push_str(&mut out, url.as_str());
                push_str(&mut out, ": ");
                push_str(&mut out, message.as_str());
            },
            RehykeError::BrowserError { message } => {
                push_str(&mut out, "Browser launch failed: ");
                push_str(&mut out, message.as_str());
            },
            RehykeError::ParseError { url, message } => {
                push_str(&mut out, "Parse error for ");
                push_str(&mut out, url.as_str());
                push_str(&mut out, ": ");
                push_str(&mut out, message.as_str());
            },
            RehykeError::ProxyError { message } => {
                push_str(&mut out, "Proxy error: ");
                push_str(&mut out, message.as_str());
            },
            RehykeError::RateLimited { domain } => {
                push_str(&mut out, "Rate limited by ");
                push_str(&mut out, domain.as_str());
            },
            RehykeError::MaxPagesReached { limit } => {
                push_str(&mut out, "Max pages limit reached: ");
                let d = decimal_string(*limit as u64);
                push_str(&mut out, d.as_str());
            },
            RehykeError::IoError(m) => {
                push_str(&mut out, "IO error: ");
                push_str(&mut out, m.as_str());
            },
            RehykeError::ConfigError { message } => {
                push_str(&mut out, "Configuration error: ");
                push_str(&mut out, message.as_str());
            },
            RehykeError::RequestError(m) => {
                push_str(&mut out, "Request error: ");
                push_str(&mut out, m.as_str());
            },
            RehykeError::UrlParseError(m) => {
                push_str(&mut out, "URL parse error: ");
                push_str(&mut out, m.as_str());
            },
        }
        out
    }
}

} // verus!
