//! Content-type detection for fetched documents and the retry policy applied
//! to HTTP responses.

use vstd::prelude::*;

use crate::config::{RetryConfig, kv_insert, kv_insert_exec, kv_views, parse_u64_str, parse_u64_text};
use crate::error::RehykeError;
use crate::text::{
    ascii_lower_seq, ascii_lower_string, chars_of, contains_seq, contains_str, eq_str, find_first, find_seq, opt_str_view, push_str,
    split_chars, split_on, starts_with, str_starts_with, string_from_range, string_of,
    to_lowercase, trim, trim_start, trim_start_str, trim_str, unicode_lowercase,
};
use crate::utils::{Url, UrlView};

verus! {

/// Detected content type of a response.
#[derive(Debug, Clone, PartialEq)]
pub enum ContentType {
    Html,
    Xhtml,
    Xml,
    Rss,
    Atom,
    Json,
    JsonLd,
    Svg,
    PlainText,
    Sitemap,
    Other(String),
}

/// A content type with the MIME type of `Other` as a character sequence.
pub ghost enum KindView {
    Html,
    Xhtml,
    Xml,
    Rss,
    Atom,
    Json,
    JsonLd,
    Svg,
    PlainText,
    Sitemap,
    Other(Seq<char>),
}

/// The view of a content type.
pub open spec fn kind_view(c: ContentType) -> KindView {
    match c {
        ContentType::Html => KindView::Html,
        ContentType::Xhtml => KindView::Xhtml,
        ContentType::Xml => KindView::Xml,
        ContentType::Rss => KindView::Rss,
        ContentType::Atom => KindView::Atom,
        ContentType::Json => KindView::Json,
        ContentType::JsonLd => KindView::JsonLd,
        ContentType::Svg => KindView::Svg,
        ContentType::PlainText => KindView::PlainText,
        ContentType::Sitemap => KindView::Sitemap,
        ContentType::Other(m) => KindView::Other(m@),
    }
}

// ---------------------------------------------------------------------------
// The model
// ---------------------------------------------------------------------------

/// The index of the last occurrence of `c` in `s`.
pub open spec fn last_index_of(s: Seq<char>, c: char) -> Option<int>
    decreases s.len(),
{
    if s.len() == 0 {
        None
    } else if s.last() == c {
        Some(s.len() - 1)
    } else {
        last_index_of(s.drop_last(), c)
    }
}

/// The lowercased extension of the last segment of a path: what follows
/// its last `.`, when that is not empty.
pub open spec fn path_extension(path: Seq<char>) -> Option<Seq<char>> {
    let seg = split_on(path, '/').last();
    match last_index_of(seg, '.') {
        Some(d) => if d + 1 < seg.len() {
            Some(unicode_lowercase(seg.subrange(d + 1, seg.len() as int)))
        } else {
            None
        },
        None => None,
    }
}

/// The document after an XML declaration: what follows the first `?>`,
/// without leading whitespace; the document itself without a declaration.
pub open spec fn after_declaration(trimmed: Seq<char>) -> Seq<char> {
    if starts_with(trimmed, "<?xml"@) {
        match find_first(trimmed, "?>"@) {
            Some(i) => trim_start(trimmed.subrange(i + 2, trimmed.len() as int)),
            None => trimmed,
        }
    } else {
        trimmed
    }
}

/// The kind of an XML document by its first element: RSS, Atom, sitemap,
/// SVG, or generic XML.
pub open spec fn xml_subtype(body: Seq<char>) -> KindView {
    let lower = unicode_lowercase(after_declaration(trim_start(body)));
    if starts_with(lower, "<rss"@) {
        KindView::Rss
    } else if starts_with(lower, "<feed"@) {
        KindView::Atom
    } else if starts_with(lower, "<urlset"@) || starts_with(lower, "<sitemapindex"@) {
        KindView::Sitemap
    } else if starts_with(lower, "<svg"@) {
        KindView::Svg
    } else {
        KindView::Xml
    }
}

/// The kind of a document by its beginning, HTML when nothing else fits.
pub open spec fn body_kind(body: Seq<char>) -> KindView {
    let t = trim_start(body);
    let lower = unicode_lowercase(t);
    if starts_with(lower, "<?xml"@) {
        xml_subtype(body)
    } else if starts_with(lower, "<rss"@) {
        KindView::Rss
    } else if starts_with(lower, "<feed"@) {
        KindView::Atom
    } else if starts_with(lower, "<urlset"@) || starts_with(lower, "<sitemapindex"@) {
        KindView::Sitemap
    } else if starts_with(lower, "<!doctype html"@) || starts_with(lower, "<html"@) {
        KindView::Html
    } else if starts_with(lower, "<svg"@) {
        KindView::Svg
    } else if starts_with(t, seq!['{']) || starts_with(t, seq!['[']) {
        KindView::Json
    } else {
        KindView::Html
    }
}

/// The kind named by a (lowercased) `Content-Type` value, for the types both
/// detectors recognise; generic XML is left to the caller.
pub open spec fn mime_kind(lower: Seq<char>) -> Option<KindView> {
    if contains_seq(lower, "text/html"@) {
        Some(KindView::Html)
    } else if contains_seq(lower, "application/xhtml+xml"@) {
        Some(KindView::Xhtml)
    } else if contains_seq(lower, "application/rss+xml"@) {
        Some(KindView::Rss)
    } else if contains_seq(lower, "application/atom+xml"@) {
        Some(KindView::Atom)
    } else if contains_seq(lower, "application/ld+json"@) {
        Some(KindView::JsonLd)
    } else if contains_seq(lower, "application/json"@) || contains_seq(lower, "text/json"@) {
        Some(KindView::Json)
    } else if contains_seq(lower, "image/svg+xml"@) {
        Some(KindView::Svg)
    } else {
        None
    }
}

/// The value names generic XML.
pub open spec fn is_xml_mime(lower: Seq<char>) -> bool {
    contains_seq(lower, "text/xml"@) || contains_seq(lower, "application/xml"@)
}

/// The MIME type of a `Content-Type` value without its parameters.
pub open spec fn mime_essence(lower: Seq<char>) -> Seq<char> {
    trim(split_on(lower, ';')[0])
}

/// The kind of a response from its `Content-Type` header value.
pub open spec fn header_kind(ct: Seq<char>, body: Seq<char>) -> KindView {
    let lower = unicode_lowercase(ct);
    match mime_kind(lower) {
        Some(k) => k,
        None => if is_xml_mime(lower) {
            xml_subtype(body)
        } else if contains_seq(lower, "text/plain"@) {
            KindView::PlainText
        } else {
            KindView::Other(mime_essence(lower))
        },
    }
}

/// The kind of a response from the extension of its URL, if it names one.
pub open spec fn extension_kind(ext: Seq<char>, body: Seq<char>) -> Option<KindView> {
    if ext == "html"@ || ext == "htm"@ {
        Some(KindView::Html)
    } else if ext == "xhtml"@ || ext == "xht"@ {
        Some(KindView::Xhtml)
    } else if ext == "xml"@ {
        Some(xml_subtype(body))
    } else if ext == "rss"@ {
        Some(KindView::Rss)
    } else if ext == "atom"@ {
        Some(KindView::Atom)
    } else if ext == "json"@ {
        Some(KindView::Json)
    } else if ext == "jsonld"@ {
        Some(KindView::JsonLd)
    } else if ext == "svg"@ {
        Some(KindView::Svg)
    } else if ext == "txt"@ || ext == "text"@ {
        Some(KindView::PlainText)
    } else {
        None
    }
}

/// The kind of a response: by its `Content-Type` header when it has one,
/// else by its URL's extension, else by its body.
pub open spec fn response_kind(ct: Option<Seq<char>>, url: UrlView, body: Seq<char>) -> KindView {
    match ct {
        Some(c) => header_kind(c, body),
        None => match path_extension(url.path) {
            Some(ext) => match extension_kind(ext, body) {
                Some(k) => k,
                None => body_kind(body),
            },
            None => body_kind(body),
        },
    }
}

/// The kind named by a `Content-Type` string, falling back to the URL's
/// extension (a shorter list) and then to HTML.
pub open spec fn str_kind(ct: Seq<char>, url: UrlView) -> KindView {
    let lower = unicode_lowercase(ct);
    match mime_kind(lower) {
        Some(k) => k,
        None => if is_xml_mime(lower) {
            KindView::Xml
        } else if contains_seq(lower, "text/plain"@) {
            KindView::PlainText
        } else {
            match path_extension(url.path) {
                Some(ext) => if ext == "html"@ || ext == "htm"@ {
                    KindView::Html
                } else if ext == "json"@ {
                    KindView::Json
                } else if ext == "xml"@ {
                    KindView::Xml
                } else if ext == "txt"@ {
                    KindView::PlainText
                } else if ext == "svg"@ {
                    KindView::Svg
                } else {
                    KindView::Html
                },
                None => KindView::Html,
            }
        },
    }
}


// ---------------------------------------------------------------------------
// Detection
// ---------------------------------------------------------------------------

/// The lowercased extension of the last segment of the URL's path (see
/// [`path_extension`]).
pub fn url_extension(url: &Url) -> (res: Option<String>)
    ensures
        opt_str_view(res) == path_extension(url@.path),
{
    let pv = chars_of(url.path());
    let segs = split_chars(&pv, '/');
    proof {
        crate::text::lemma_split_len(url@.path, '/');
    }
    let seg = &segs[segs.len() - 1];
    assert(seg@ == split_on(url@.path, '/').last());
    let mut i: usize = seg.len();
    assert(seg@.subrange(0, i as int) =~= seg@);
    while i > 0
        invariant
            i <= seg.len(),
            seg@ == split_on(url@.path, '/').last(),
            last_index_of(seg@, '.') == last_index_of(seg@.subrange(0, i as int), '.'),
        decreases i,
    {
        assert(seg@.subrange(0, i as int).drop_last() =~= seg@.subrange(0, i - 1));
        if seg[i - 1] == '.' {
            if i < seg.len() {
                let ext = string_from_range(seg, i, seg.len());
                return Some(to_lowercase(ext.as_str()));
            } else {
                return None;
            }
        }
        i = i - 1;
    }
    None
}

/// Whether the lowercased text starts with `p`.
fn starts(s: &String, p: &str) -> (res: bool)
    ensures
        res == starts_with(s@, p@),
{
    str_starts_with(s.as_str(), p)
}

/// The document after its XML declaration (see [`after_declaration`]).
fn after_declaration_exec(trimmed: &String) -> (res: String)
    ensures
        res@ == after_declaration(trimmed@),
{
    if starts(trimmed, "<?xml") {
        let v = chars_of(trimmed.as_str());
        let pat = chars_of("?>");
        match find_seq(&v, &pat) {
            Some(i) => {
                proof {
                    reveal_strlit("?>");
                }
                assert(pat@.len() == 2);
                let n = v.len();
                assert(i + 2 <= n);
                let rest = string_from_range(&v, i + 2, n);
                trim_start_str(rest.as_str())
            },
            None => trimmed.clone(),
        }
    } else {
        trimmed.clone()
    }
}

/// The kind of an XML document by its first element (see [`xml_subtype`]).
pub fn detect_xml_subtype(body: &str) -> (res: ContentType)
    ensures
        kind_view(res) == xml_subtype(body@),
{
    let trimmed = trim_start_str(body);
    let inspectable = after_declaration_exec(&trimmed);
    let lower = to_lowercase(inspectable.as_str());
    if starts(&lower, "<rss") {
        ContentType::Rss
    } else if starts(&lower, "<feed") {
        ContentType::Atom
    } else if starts(&lower, "<urlset") || starts(&lower, "<sitemapindex") {
        ContentType::Sitemap
    } else if starts(&lower, "<svg") {
        ContentType::Svg
    } else {
        ContentType::Xml
    }
}

/// The kind of a document by its beginning (see [`body_kind`]).
pub fn detect_from_body(body: &str) -> (res: ContentType)
    ensures
        kind_view(res) == body_kind(body@),
{
    let trimmed = trim_start_str(body);
    let lower = to_lowercase(trimmed.as_str());
    if starts(&lower, "<?xml") {
        detect_xml_subtype(body)
    } else if starts(&lower, "<rss") {
        ContentType::Rss
    } else if starts(&lower, "<feed") {
        ContentType::Atom
    } else if starts(&lower, "<urlset") || starts(&lower, "<sitemapindex") {
        ContentType::Sitemap
    } else if starts(&lower, "<!doctype html") || starts(&lower, "<html") {
        ContentType::Html
    } else if starts(&lower, "<svg") {
        ContentType::Svg
    } else if starts(&trimmed, "{") || starts(&trimmed, "[") {
        proof {
            reveal_strlit("{");
            reveal_strlit("[");
            assert("{"@ =~= seq!['{']);
            assert("["@ =~= seq!['[']);
        }
        ContentType::Json
    } else {
        proof {
            reveal_strlit("{");
            reveal_strlit("[");
            assert("{"@ =~= seq!['{']);
            assert("["@ =~= seq!['[']);
        }
        ContentType::Html
    }
}

/// The kind named by a lowercased `Content-Type` value (see [`mime_kind`]).
fn mime_kind_exec(lower: &String) -> (res: Option<ContentType>)
    ensures
        match res {
            Some(c) => mime_kind(lower@) == Some(kind_view(c)),
            None => mime_kind(lower@) is None,
        },
{
    let l = lower.as_str();
    if contains_str(l, "text/html") {
        Some(ContentType::Html)
    } else if contains_str(l, "application/xhtml+xml") {
        Some(ContentType::Xhtml)
    } else if contains_str(l, "application/rss+xml") {
        Some(ContentType::Rss)
    } else if contains_str(l, "application/atom+xml") {
        Some(ContentType::Atom)
    } else if contains_str(l, "application/ld+json") {
        Some(ContentType::JsonLd)
    } else if contains_str(l, "application/json") || contains_str(l, "text/json") {
        Some(ContentType::Json)
    } else if contains_str(l, "image/svg+xml") {
        Some(ContentType::Svg)
    } else {
        None
    }
}

/// The MIME type of a lowercased `Content-Type` value without parameters.
fn mime_essence_exec(lower: &String) -> (res: String)
    ensures
        res@ == mime_essence(lower@),
{
    let v = chars_of(lower.as_str());
    let parts = split_chars(&v, ';');
    proof {
        crate::text::lemma_split_len(lower@, ';');
    }
    let first = string_of(&parts[0]);
    trim_str(first.as_str())
}

/// The kind of a response: by its `Content-Type` header value when there is
/// one, else by its URL's extension, else by its body (see
/// [`response_kind`]).
pub fn detect_content_type(content_type: Option<&str>, url: &Url, body: &str) -> (res: ContentType)
    ensures
        kind_view(res) == response_kind(
            match content_type {
                Some(c) => Some(c@),
                None => None,
            },
            url@,
            body@,
        ),
{
    match content_type {
        Some(ct) => {
            let lower = to_lowercase(ct);
            match mime_kind_exec(&lower) {
                Some(k) => k,
                None => {
                    let l = lower.as_str();
                    if contains_str(l, "text/xml") || contains_str(l, "application/xml") {
                        detect_xml_subtype(body)
                    } else if contains_str(l, "text/plain") {
                        ContentType::PlainText
                    } else {
                        ContentType::Other(mime_essence_exec(&lower))
                    }
                },
            }
        },
        None => {
            match url_extension(url) {
                Some(ext) => {
                    let e = ext.as_str();
                    if eq_lit(e, "html") || eq_lit(e, "htm") {
                        ContentType::Html
                    } else if eq_lit(e, "xhtml") || eq_lit(e, "xht") {
                        ContentType::Xhtml
                    } else if eq_lit(e, "xml") {
                        detect_xml_subtype(body)
                    } else if eq_lit(e, "rss") {
                        ContentType::Rss
                    } else if eq_lit(e, "atom") {
                        ContentType::Atom
                    } else if eq_lit(e, "json") {
                        ContentType::Json
                    } else if eq_lit(e, "jsonld") {
                        ContentType::JsonLd
                    } else if eq_lit(e, "svg") {
                        ContentType::Svg
                    } else if eq_lit(e, "txt") || eq_lit(e, "text") {
                        ContentType::PlainText
                    } else {
                        detect_from_body(body)
                    }
                },
                None => detect_from_body(body),
            }
        },
    }
}

fn eq_lit(a: &str, b: &str) -> (res: bool)
    ensures
        res == (a@ == b@),
{
    crate::text::eq_str(a, b)
}

/// The kind named by a `Content-Type` string, falling back to the URL's
/// extension and then to HTML (see [`str_kind`]).
pub fn detect_content_type_from_str(content_type: &str, url: &Url) -> (res: ContentType)
    ensures
        kind_view(res) == str_kind(content_type@, url@),
{
    let lower = to_lowercase(content_type);
    match mime_kind_exec(&lower) {
        Some(k) => k,
        None => {
            let l = lower.as_str();
            if contains_str(l, "text/xml") || contains_str(l, "application/xml") {
                ContentType::Xml
            } else if contains_str(l, "text/plain") {
                ContentType::PlainText
            } else {
                match url_extension(url) {
                    Some(ext) => {
                        let e = ext.as_str();
                        if eq_lit(e, "html") || eq_lit(e, "htm") {
                            ContentType::Html
                        } else if eq_lit(e, "json") {
                            ContentType::Json
                        } else if eq_lit(e, "xml") {
                            ContentType::Xml
                        } else if eq_lit(e, "txt") {
                            ContentType::PlainText
                        } else if eq_lit(e, "svg") {
                            ContentType::Svg
                        } else {
                            ContentType::Html
                        }
                    },
                    None => ContentType::Html,
                }
            }
        },
    }
}


// ---------------------------------------------------------------------------
// Retries
// ---------------------------------------------------------------------------

/// `2^attempt`, saturating at `u32::MAX`.
pub open spec fn pow2_saturating(attempt: u32) -> nat {
    if attempt >= 32 {
        u32::MAX as nat
    } else {
        vstd::arithmetic::power2::pow2(attempt as nat)
    }
}

/// The smaller of two naturals.
pub open spec fn min_nat(a: nat, b: nat) -> nat {
    if a <= b {
        a
    } else {
        b
    }
}

/// The delay in milliseconds before retry number `attempt` (from 0): the
/// `Retry-After` header's whole seconds when it has such a value, else the
/// initial delay doubled `attempt` times; either capped at the maximum
/// delay.
pub open spec fn backoff_millis(retry: RetryConfig, attempt: u32, retry_after: Option<Seq<char>>) -> nat {
    let computed = min_nat(retry.initial_delay_ms as nat * pow2_saturating(attempt), retry.max_delay_ms as nat);
    match retry_after {
        Some(v) => match parse_u64_text(trim(v)) {
            Some(secs) => min_nat(secs * 1000, retry.max_delay_ms as nat),
            None => computed,
        },
        None => computed,
    }
}

/// The delay before retry number `attempt` (see [`backoff_millis`]), given
/// the response's `Retry-After` header value if it has one.
pub fn compute_backoff(retry: &RetryConfig, attempt: u32, retry_after: Option<&str>) -> (res: u64)
    ensures
        res == backoff_millis(
            *retry,
            attempt,
            match retry_after {
                Some(v) => Some(v@),
                None => None,
            },
        ),
{
    match retry_after {
        Some(v) => {
            let t = trim_str(v);
            match parse_u64_str(t.as_str()) {
                Some(secs) => {
                    let ms: u128 = (secs as u128) * 1000;
                    if ms < retry.max_delay_ms as u128 {
                        return ms as u64;
                    } else {
                        return retry.max_delay_ms;
                    }
                },
                None => {},
            }
        },
        None => {},
    }
    let factor: u32 = if attempt >= 32 {
        u32::MAX
    } else {
        let mut f: u32 = 1;
        let mut k: u32 = 0;
        proof {
            vstd::arithmetic::power2::lemma2_to64();
        }
        while k < attempt
            invariant
                k <= attempt < 32,
                f as nat == vstd::arithmetic::power2::pow2(k as nat),
            decreases attempt - k,
        {
            proof {
                vstd::arithmetic::power2::lemma_pow2_unfold((k + 1) as nat);
                vstd::arithmetic::power2::lemma_pow2_strictly_increases(k as nat, 31);
                vstd::arithmetic::power2::lemma2_to64();
            }
            f = f * 2;
            k = k + 1;
        }
        f
    };
    let a: u128 = retry.initial_delay_ms as u128;
    let b: u128 = factor as u128;
    assert(a * b <= 0xffff_ffff_ffff_ffff * 0xffff_ffff) by (nonlinear_arith)
        requires
            a <= 0xffff_ffff_ffff_ffff,
            b <= 0xffff_ffff,
    ;
    let product: u128 = a * b;
    if product < retry.max_delay_ms as u128 {
        product as u64
    } else {
        retry.max_delay_ms
    }
}

/// What to do with an HTTP response status.
#[derive(Debug, Clone, Copy, PartialEq, Eq, Structural)]
pub enum StatusDecision {
    /// Wait and request again.
    Retry,
    /// Keep the response.
    Accept,
    /// Fail with an HTTP error.
    Reject,
}

/// 429 and the 500, 502, 503 and 504 server errors may go away on retry.
pub open spec fn retryable_status(status: u16) -> bool {
    status == 429 || status == 500 || status == 502 || status == 503 || status == 504
}

/// The decision for a response with `status` after `attempt` retries: retry
/// a retryable status while retries remain, reject any other status from
/// 400 on, and accept the rest.
pub open spec fn status_decision_spec(status: u16, attempt: u32, max_retries: u32) -> StatusDecision {
    if retryable_status(status) && attempt < max_retries {
        StatusDecision::Retry
    } else if status >= 400 {
        StatusDecision::Reject
    } else {
        StatusDecision::Accept
    }
}

/// The decision for a response status (see [`status_decision_spec`]).
pub fn status_decision(status: u16, attempt: u32, max_retries: u32) -> (res: StatusDecision)
    ensures
        res == status_decision_spec(status, attempt, max_retries),
{
    let retryable = status == 429 || status == 500 || status == 502 || status == 503 || status
        == 504;
    if retryable && attempt < max_retries {
        StatusDecision::Retry
    } else if status >= 400 {
        StatusDecision::Reject
    } else {
        StatusDecision::Accept
    }
}

/// Timeouts, DNS failures, request errors and configuration errors are
/// transient network failures worth retrying.
pub open spec fn network_error(err: RehykeError) -> bool {
    ||| err is Timeout
    ||| err is DnsError
    ||| err is RequestError
    ||| err is ConfigError
}

/// Whether an error is a transient network failure (see [`network_error`]).
pub fn is_network_error(err: &RehykeError) -> (res: bool)
    ensures
        res == network_error(*err),
{
    match err {
        RehykeError::Timeout { .. } => true,
        RehykeError::DnsError { .. } => true,
        RehykeError::RequestError(_) => true,
        RehykeError::ConfigError { .. } => true,
        _ => false,
    }
}

/// Whether a failed request is retried after `attempt` retries: a network
/// failure while retries remain.
pub fn should_retry_error(err: &RehykeError, attempt: u32, max_retries: u32) -> (res: bool)
    ensures
        res == (network_error(*err) && attempt < max_retries),
{
    is_network_error(err) && attempt < max_retries
}

/// The error for a failed request, from what the HTTP client reports: a
/// timeout; a connection failure whose message (lowercased) mentions DNS or
/// name resolution; a message mentioning TLS, SSL or a certificate; an HTTP
/// status; else a configuration error carrying the message.
pub open spec fn request_failure(
    is_timeout: bool,
    is_connect: bool,
    message: Seq<char>,
    status: Option<u16>,
    url: UrlView,
) -> (Seq<char>, nat) {
    let lower = unicode_lowercase(message);
    if is_timeout {
        (url.serialization, 0)
    } else if is_connect && (contains_seq(lower, "dns"@) || contains_seq(lower, "resolve"@)
        || contains_seq(lower, "name resolution"@)) {
        (
            match url.host {
                Some(h) => h,
                None => "<unknown>"@,
            },
            1,
        )
    } else if contains_seq(lower, "tls"@) || contains_seq(lower, "ssl"@) || contains_seq(
        lower,
        "certificate"@,
    ) {
        (url.serialization, 2)
    } else if status is Some {
        (url.serialization, 3)
    } else {
        ("request failed for "@ + url.serialization + ": "@ + message, 4)
    }
}

/// `res` is the error [`request_failure`] describes: the variant its
/// number selects, carrying its text.
pub open spec fn failure_matches(res: RehykeError, f: (Seq<char>, nat), message: Seq<char>, status: Option<u16>) -> bool {
    match res {
        RehykeError::Timeout { url } => f.1 == 0 && url@ == f.0,
        RehykeError::DnsError { domain } => f.1 == 1 && domain@ == f.0,
        RehykeError::TlsError { url, message: m } => f.1 == 2 && url@ == f.0 && m@ == message,
        RehykeError::HttpError { url, status: s } => f.1 == 3 && url@ == f.0 && Some(s) == status,
        RehykeError::ConfigError { message: m } => f.1 == 4 && m@ == f.0,
        _ => false,
    }
}

/// The error for a failed request (see [`request_failure`]): `Timeout`,
/// `DnsError` (with the host), `TlsError` (with the message), `HttpError`
/// (with the status) or `ConfigError`.
pub fn classify_request_failure(
    is_timeout: bool,
    is_connect: bool,
    message: &str,
    status: Option<u16>,
    url: &Url,
) -> (res: RehykeError)
    ensures
        failure_matches(
            res,
            request_failure(is_timeout, is_connect, message@, status, url@),
            message@,
            status,
        ),
{
    if is_timeout {
        return RehykeError::Timeout { url: url.to_string() };
    }
    let lower = to_lowercase(message);
    let l = lower.as_str();
    if is_connect && (contains_str(l, "dns") || contains_str(l, "resolve") || contains_str(
        l,
        "name resolution",
    )) {
        let domain = match url.host_str() {
            Some(h) => h.to_owned(),
            None => "<unknown>".to_owned(),
        };
        return RehykeError::DnsError { domain };
    }
    if contains_str(l, "tls") || contains_str(l, "ssl") || contains_str(l, "certificate") {
        return RehykeError::TlsError { url: url.to_string(), message: message.to_owned() };
    }
    match status {
        Some(s) => RehykeError::HttpError { url: url.to_string(), status: s },
        None => {
            let mut m = String::new();
            push_str(&mut m, "request failed for ");
            push_str(&mut m, url.as_str());
            push_str(&mut m, ": ");
            push_str(&mut m, message);
            RehykeError::ConfigError { message: m }
        },
    }
}

/// The delay before a retry never exceeds the configured maximum.
pub proof fn lemma_backoff_capped(retry: RetryConfig, attempt: u32, retry_after: Option<Seq<char>>)
    ensures
        backoff_millis(retry, attempt, retry_after) <= retry.max_delay_ms,
{
}

/// Without a `Retry-After` value, a later retry never waits less than an
/// earlier one.
pub proof fn lemma_backoff_grows(retry: RetryConfig, a: u32, b: u32)
    requires
        a <= b,
    ensures
        backoff_millis(retry, a, None) <= backoff_millis(retry, b, None),
{
    vstd::arithmetic::power2::lemma2_to64();
    if a < b && b < 32 {
        vstd::arithmetic::power2::lemma_pow2_strictly_increases(a as nat, b as nat);
    }
    if a < 32 && b >= 32 {
        if a < 31 {
            vstd::arithmetic::power2::lemma_pow2_strictly_increases(a as nat, 31);
        }
    }
    assert(pow2_saturating(a) <= pow2_saturating(b));
    assert(retry.initial_delay_ms as nat * pow2_saturating(a) <= retry.initial_delay_ms as nat * pow2_saturating(b)) by (nonlinear_arith)
        requires
            pow2_saturating(a) <= pow2_saturating(b),
    {
    }
}

// ---------------------------------------------------------------------------
// Request headers
// ---------------------------------------------------------------------------

/// The `Accept` header sent when the configuration sets none.
pub open spec fn default_accept() -> Seq<char> {
    "text/html,application/xhtml+xml,application/xml;q=0.9,*/*;q=0.8"@
}

/// The `Accept-Language` header sent when the configuration sets none.
pub open spec fn default_accept_language() -> Seq<char> {
    "en-US,en;q=0.9"@
}

/// The header map the custom headers make, in order: names in lower case
/// (header names are case-insensitive), a header replacing the value of an
/// earlier one with the same name.
pub open spec fn header_entries(custom: Seq<(Seq<char>, Seq<char>)>) -> Seq<(Seq<char>, Seq<char>)>
    decreases custom.len(),
{
    if custom.len() == 0 {
        Seq::empty()
    } else {
        kv_insert(header_entries(custom.drop_last()), ascii_lower_seq(custom.last().0), custom.last().1)
    }
}

pub open spec fn has_header(h: Seq<(Seq<char>, Seq<char>)>, name: Seq<char>) -> bool {
    exists|i: int| 0 <= i < h.len() && (#[trigger] h[i]).0 == name
}

/// The headers every request carries: the custom headers (see
/// [`header_entries`]), then `accept` and `accept-language` with their
/// defaults when the custom headers set neither.
pub open spec fn request_header_entries(custom: Seq<(Seq<char>, Seq<char>)>) -> Seq<(Seq<char>, Seq<char>)> {
    let h = header_entries(custom);
    let h1 = if has_header(h, "accept"@) {
        h
    } else {
        h.push(("accept"@, default_accept()))
    };
    if has_header(h1, "accept-language"@) {
        h1
    } else {
        h1.push(("accept-language"@, default_accept_language()))
    }
}

fn has_header_exec(h: &Vec<(String, String)>, name: &str) -> (res: bool)
    ensures
        res == has_header(kv_views(h@), name@),
{
    let mut i: usize = 0;
    while i < h.len()
        invariant
            i <= h.len(),
            forall|k: int| 0 <= k < i ==> (#[trigger] kv_views(h@)[k]).0 != name@,
        decreases h.len() - i,
    {
        if eq_str(h[i].0.as_str(), name) {
            assert(kv_views(h@)[i as int].0 == name@);
            return true;
        }
        i = i + 1;
    }
    false
}

/// The headers every request carries (see [`request_header_entries`]).
pub fn request_headers(custom: &Vec<(String, String)>) -> (res: Vec<(String, String)>)
    ensures
        kv_views(res@) == request_header_entries(kv_views(custom@)),
{
    let ghost cv = kv_views(custom@);
    let mut out: Vec<(String, String)> = Vec::new();
    assert(kv_views(out@) =~= header_entries(cv.take(0)));
    let mut i: usize = 0;
    while i < custom.len()
        invariant
            i <= custom.len(),
            cv == kv_views(custom@),
            kv_views(out@) == header_entries(cv.take(i as int)),
            kv_views(out@).map_values(|p: (Seq<char>, Seq<char>)| p.0).no_duplicates(),
        decreases custom.len() - i,
    {
        let name = ascii_lower_string(custom[i].0.as_str());
        kv_insert_exec(&mut out, name.as_str(), custom[i].1.as_str());
        assert(cv.take(i + 1).drop_last() =~= cv.take(i as int));
        assert(cv.take(i + 1).last() == cv[i as int]);
        i = i + 1;
    }
    assert(cv.take(custom.len() as int) =~= cv);
    let ghost h = kv_views(out@);
    if !has_header_exec(&out, "accept") {
        let k = "accept".to_owned();
        let v = "text/html,application/xhtml+xml,application/xml;q=0.9,*/*;q=0.8".to_owned();
        out.push((k, v));
        assert(kv_views(out@) =~= h.push(("accept"@, default_accept())));
    }
    let ghost h1 = kv_views(out@);
    if !has_header_exec(&out, "accept-language") {
        let k = "accept-language".to_owned();
        let v = "en-US,en;q=0.9".to_owned();
        out.push((k, v));
        assert(kv_views(out@) =~= h1.push(("accept-language"@, default_accept_language())));
    }
    out
}

/// The content type a response is taken to have: its `Content-Type` header,
/// `text/html` when it has none.
pub fn content_type_or_html(header: Option<&str>) -> (res: String)
    ensures
        res@ == match header {
            Some(h) => h@,
            None => "text/html"@,
        },
{
    match header {
        Some(h) => h.to_owned(),
        None => "text/html".to_owned(),
    }
}

/// How one request of a fetch with retries came out.
pub ghost enum AttemptOutcome {
    /// A response with this status.
    Status(u16),
    /// The request failed with this error.
    Failed(RehykeError),
}

/// The fetch requests again after this outcome of retry number `attempt`.
pub open spec fn retry_follows(o: AttemptOutcome, attempt: u32, max_retries: u32) -> bool {
    match o {
        AttemptOutcome::Status(s) => status_decision_spec(s, attempt, max_retries) == StatusDecision::Retry,
        AttemptOutcome::Failed(e) => network_error(e) && attempt < max_retries,
    }
}

/// The number of requests a fetch sends, from retry number `attempt`, when
/// its requests come out as `outcomes` (in order): one more after each
/// outcome that calls for a retry.
pub open spec fn requests_sent(outcomes: Seq<AttemptOutcome>, attempt: u32, max_retries: u32) -> nat
    decreases outcomes.len(),
{
    if outcomes.len() == 0 {
        0
    } else if retry_follows(outcomes[0], attempt, max_retries) {
        1 + requests_sent(outcomes.drop_first(), (attempt + 1) as u32, max_retries)
    } else {
        1
    }
}

/// A retry is only ever decided while retries remain.
pub proof fn lemma_retry_needs_budget(o: AttemptOutcome, attempt: u32, max_retries: u32)
    ensures
        retry_follows(o, attempt, max_retries) ==> attempt < max_retries,
{
}

/// Whatever the responses, a fetch with `max_retries` retries sends at most
/// `max_retries + 1` requests; an accepted response has a status below 400.
pub proof fn lemma_requests_bounded(outcomes: Seq<AttemptOutcome>, attempt: u32, max_retries: u32)
    requires
        attempt <= max_retries,
    ensures
        requests_sent(outcomes, attempt, max_retries) <= max_retries - attempt + 1,
        forall|s: u16, a: u32|
            status_decision_spec(s, a, max_retries) == StatusDecision::Accept ==> s < 400,
    decreases outcomes.len(),
{
    if outcomes.len() > 0 && retry_follows(outcomes[0], attempt, max_retries) {
        lemma_retry_needs_budget(outcomes[0], attempt, max_retries);
        lemma_requests_bounded(outcomes.drop_first(), (attempt + 1) as u32, max_retries);
    }
}


/// What each file extension names: `html`/`htm` HTML, `xhtml`/`xht` XHTML,
/// `xml` the XML kind of the body, `rss` RSS, `atom` Atom, `json` JSON,
/// `jsonld` JSON-LD, `svg` SVG, `txt`/`text` plain text; no other extension
/// names a kind.
pub proof fn lemma_extension_kinds(ext: Seq<char>, body: Seq<char>)
    ensures
        ext == "html"@ ==> extension_kind(ext, body) == Some(KindView::Html),
        ext == "htm"@ ==> extension_kind(ext, body) == Some(KindView::Html),
        ext == "xhtml"@ ==> extension_kind(ext, body) == Some(KindView::Xhtml),
        ext == "xht"@ ==> extension_kind(ext, body) == Some(KindView::Xhtml),
        ext == "rss"@ ==> extension_kind(ext, body) == Some(KindView::Rss),
        ext == "atom"@ ==> extension_kind(ext, body) == Some(KindView::Atom),
        ext == "json"@ ==> extension_kind(ext, body) == Some(KindView::Json),
        ext == "jsonld"@ ==> extension_kind(ext, body) == Some(KindView::JsonLd),
        ext == "svg"@ ==> extension_kind(ext, body) == Some(KindView::Svg),
        ext == "txt"@ ==> extension_kind(ext, body) == Some(KindView::PlainText),
        ext == "text"@ ==> extension_kind(ext, body) == Some(KindView::PlainText),
        ext == "xml"@ ==> extension_kind(ext, body) == Some(xml_subtype(body)),
        !(ext == "html"@ || ext == "htm"@ || ext == "xhtml"@ || ext == "xht"@ || ext == "xml"@ || ext == "rss"@
            || ext == "atom"@ || ext == "json"@ || ext == "jsonld"@ || ext == "svg"@ || ext == "txt"@ || ext
            == "text"@) ==> extension_kind(ext, body) is None,
{
    reveal_strlit("html");
    assert("html"@ =~= seq!['h', 't', 'm', 'l']);
    reveal_strlit("htm");
    assert("htm"@ =~= seq!['h', 't', 'm']);
    reveal_strlit("xhtml");
    assert("xhtml"@ =~= seq!['x', 'h', 't', 'm', 'l']);
    reveal_strlit("xht");
    assert("xht"@ =~= seq!['x', 'h', 't']);
    reveal_strlit("xml");
    assert("xml"@ =~= seq!['x', 'm', 'l']);
    reveal_strlit("rss");
    assert("rss"@ =~= seq!['r', 's', 's']);
    reveal_strlit("atom");
    assert("atom"@ =~= seq!['a', 't', 'o', 'm']);
    reveal_strlit("json");
    assert("json"@ =~= seq!['j', 's', 'o', 'n']);
    reveal_strlit("jsonld");
    assert("jsonld"@ =~= seq!['j', 's', 'o', 'n', 'l', 'd']);
    reveal_strlit("svg");
    assert("svg"@ =~= seq!['s', 'v', 'g']);
    reveal_strlit("txt");
    assert("txt"@ =~= seq!['t', 'x', 't']);
    reveal_strlit("text");
    assert("text"@ =~= seq!['t', 'e', 'x', 't']);
}

/// Without a recognised `Content-Type`, the kind of a fetched page comes
/// from its URL's extension: `html`/`htm` HTML, `json` JSON, `xml` XML,
/// `txt` plain text, `svg` SVG, anything else (or none) HTML.
pub proof fn lemma_str_kind_extensions(ct: Seq<char>, url: UrlView)
    requires
        mime_kind(unicode_lowercase(ct)) is None,
        !is_xml_mime(unicode_lowercase(ct)),
        !contains_seq(unicode_lowercase(ct), "text/plain"@),
    ensures
        path_extension(url.path) == Some("html"@) ==> str_kind(ct, url) == KindView::Html,
        path_extension(url.path) == Some("htm"@) ==> str_kind(ct, url) == KindView::Html,
        path_extension(url.path) == Some("json"@) ==> str_kind(ct, url) == KindView::Json,
        path_extension(url.path) == Some("xml"@) ==> str_kind(ct, url) == KindView::Xml,
        path_extension(url.path) == Some("txt"@) ==> str_kind(ct, url) == KindView::PlainText,
        path_extension(url.path) == Some("svg"@) ==> str_kind(ct, url) == KindView::Svg,
        path_extension(url.path) is None ==> str_kind(ct, url) == KindView::Html,
{
    reveal_strlit("html");
    assert("html"@ =~= seq!['h', 't', 'm', 'l']);
    reveal_strlit("htm");
    assert("htm"@ =~= seq!['h', 't', 'm']);
    reveal_strlit("xhtml");
    assert("xhtml"@ =~= seq!['x', 'h', 't', 'm', 'l']);
    reveal_strlit("xht");
    assert("xht"@ =~= seq!['x', 'h', 't']);
    reveal_strlit("xml");
    assert("xml"@ =~= seq!['x', 'm', 'l']);
    reveal_strlit("rss");
    assert("rss"@ =~= seq!['r', 's', 's']);
    reveal_strlit("atom");
    assert("atom"@ =~= seq!['a', 't', 'o', 'm']);
    reveal_strlit("json");
    assert("json"@ =~= seq!['j', 's', 'o', 'n']);
    reveal_strlit("jsonld");
    assert("jsonld"@ =~= seq!['j', 's', 'o', 'n', 'l', 'd']);
    reveal_strlit("svg");
    assert("svg"@ =~= seq!['s', 'v', 'g']);
    reveal_strlit("txt");
    assert("txt"@ =~= seq!['t', 'x', 't']);
    reveal_strlit("text");
    assert("text"@ =~= seq!['t', 'e', 'x', 't']);
}

/// What each `Content-Type` names, in order of precedence: `text/html`
/// HTML, then `application/xhtml+xml` XHTML, `application/rss+xml` RSS,
/// `application/atom+xml` Atom, `application/ld+json` JSON-LD,
/// `application/json` or `text/json` JSON, `image/svg+xml` SVG.
pub proof fn lemma_mime_kinds(lower: Seq<char>)
    ensures
        contains_seq(lower, "text/html"@) ==> mime_kind(lower) == Some(KindView::Html),
        !contains_seq(lower, "text/html"@) && contains_seq(lower, "application/xhtml+xml"@) ==> mime_kind(lower)
            == Some(KindView::Xhtml),
        !contains_seq(lower, "text/html"@) && !contains_seq(lower, "application/xhtml+xml"@) && contains_seq(
            lower,
            "application/rss+xml"@,
        ) ==> mime_kind(lower) == Some(KindView::Rss),
        !contains_seq(lower, "text/html"@) && !contains_seq(lower, "application/xhtml+xml"@) && !contains_seq(
            lower,
            "application/rss+xml"@,
        ) && contains_seq(lower, "application/atom+xml"@) ==> mime_kind(lower) == Some(KindView::Atom),
        !contains_seq(lower, "text/html"@) && !contains_seq(lower, "application/xhtml+xml"@) && !contains_seq(
            lower,
            "application/rss+xml"@,
        ) && !contains_seq(lower, "application/atom+xml"@) && contains_seq(lower, "application/ld+json"@)
            ==> mime_kind(lower) == Some(KindView::JsonLd),
        !contains_seq(lower, "text/html"@) && !contains_seq(lower, "application/xhtml+xml"@) && !contains_seq(
            lower,
            "application/rss+xml"@,
        ) && !contains_seq(lower, "application/atom+xml"@) && !contains_seq(lower, "application/ld+json"@) && (
        contains_seq(lower, "application/json"@) || contains_seq(lower, "text/json"@)) ==> mime_kind(lower)
            == Some(KindView::Json),
        !contains_seq(lower, "text/html"@) && !contains_seq(lower, "application/xhtml+xml"@) && !contains_seq(
            lower,
            "application/rss+xml"@,
        ) && !contains_seq(lower, "application/atom+xml"@) && !contains_seq(lower, "application/ld+json"@)
            && !contains_seq(lower, "application/json"@) && !contains_seq(lower, "text/json"@) && contains_seq(
            lower,
            "image/svg+xml"@,
        ) ==> mime_kind(lower) == Some(KindView::Svg),
{
}


proof fn lemma_prefix_char(s: Seq<char>, p: Seq<char>, k: int)
    requires
        starts_with(s, p),
        0 <= k < p.len(),
    ensures
        s[k] == p[k],
{
    assert(s.subrange(0, p.len() as int)[k] == s[k]);
}

/// What the beginning of a body names (after leading whitespace, in any
/// case): `<rss` RSS, `<feed` Atom, `<urlset` or `<sitemapindex` a sitemap,
/// `<!doctype html` or `<html` HTML, `<svg` SVG.
pub proof fn lemma_body_kinds(body: Seq<char>)
    ensures
        starts_with(unicode_lowercase(trim_start(body)), "<rss"@) ==> body_kind(body) == KindView::Rss,
        starts_with(unicode_lowercase(trim_start(body)), "<feed"@) ==> body_kind(body) == KindView::Atom,
        starts_with(unicode_lowercase(trim_start(body)), "<urlset"@) ==> body_kind(body) == KindView::Sitemap,
        starts_with(unicode_lowercase(trim_start(body)), "<sitemapindex"@) ==> body_kind(body) == KindView::Sitemap,
        starts_with(unicode_lowercase(trim_start(body)), "<!doctype html"@) ==> body_kind(body) == KindView::Html,
        starts_with(unicode_lowercase(trim_start(body)), "<html"@) ==> body_kind(body) == KindView::Html,
        starts_with(unicode_lowercase(trim_start(body)), "<svg"@) ==> body_kind(body) == KindView::Svg,
{
    let lower = unicode_lowercase(trim_start(body));
    reveal_strlit("<?xml");
    assert("<?xml"@ =~= seq!['<', '?', 'x', 'm', 'l']);
    reveal_strlit("<rss");
    assert("<rss"@ =~= seq!['<', 'r', 's', 's']);
    reveal_strlit("<feed");
    assert("<feed"@ =~= seq!['<', 'f', 'e', 'e', 'd']);
    reveal_strlit("<urlset");
    assert("<urlset"@ =~= seq!['<', 'u', 'r', 'l', 's', 'e', 't']);
    reveal_strlit("<sitemapindex");
    assert("<sitemapindex"@ =~= seq!['<', 's', 'i', 't', 'e', 'm', 'a', 'p', 'i', 'n', 'd', 'e', 'x']);
    reveal_strlit("<!doctype html");
    assert("<!doctype html"@ =~= seq!['<', '!', 'd', 'o', 'c', 't', 'y', 'p', 'e', ' ', 'h', 't', 'm', 'l']);
    reveal_strlit("<html");
    assert("<html"@ =~= seq!['<', 'h', 't', 'm', 'l']);
    reveal_strlit("<svg");
    assert("<svg"@ =~= seq!['<', 's', 'v', 'g']);
    if starts_with(lower, "<rss"@) {
        lemma_prefix_char(lower, "<rss"@, 1);
        lemma_prefix_char(lower, "<rss"@, 2);
        lemma_prefix_char(lower, "<rss"@, 3);
        if starts_with(lower, "<?xml"@) {
            lemma_prefix_char(lower, "<?xml"@, 1);
        }
    }
    if starts_with(lower, "<feed"@) {
        lemma_prefix_char(lower, "<feed"@, 1);
        lemma_prefix_char(lower, "<feed"@, 2);
        lemma_prefix_char(lower, "<feed"@, 3);
        lemma_prefix_char(lower, "<feed"@, 4);
        if starts_with(lower, "<?xml"@) {
            lemma_prefix_char(lower, "<?xml"@, 1);
        }
        if starts_with(lower, "<rss"@) {
            lemma_prefix_char(lower, "<rss"@, 1);
        }
    }
    if starts_with(lower, "<urlset"@) {
        lemma_prefix_char(lower, "<urlset"@, 1);
        lemma_prefix_char(lower, "<urlset"@, 2);
        lemma_prefix_char(lower, "<urlset"@, 3);
        lemma_prefix_char(lower, "<urlset"@, 4);
        if starts_with(lower, "<?xml"@) {
            lemma_prefix_char(lower, "<?xml"@, 1);
        }
        if starts_with(lower, "<rss"@) {
            lemma_prefix_char(lower, "<rss"@, 1);
        }
        if starts_with(lower, "<feed"@) {
            lemma_prefix_char(lower, "<feed"@, 1);
        }
    }
    if starts_with(lower, "<sitemapindex"@) {
        lemma_prefix_char(lower, "<sitemapindex"@, 1);
        lemma_prefix_char(lower, "<sitemapindex"@, 2);
        lemma_prefix_char(lower, "<sitemapindex"@, 3);
        lemma_prefix_char(lower, "<sitemapindex"@, 4);
        if starts_with(lower, "<?xml"@) {
            lemma_prefix_char(lower, "<?xml"@, 1);
        }
        if starts_with(lower, "<rss"@) {
            lemma_prefix_char(lower, "<rss"@, 1);
        }
        if starts_with(lower, "<feed"@) {
            lemma_prefix_char(lower, "<feed"@, 1);
        }
        if starts_with(lower, "<urlset"@) {
            lemma_prefix_char(lower, "<urlset"@, 1);
        }
    }
    if starts_with(lower, "<!doctype html"@) {
        lemma_prefix_char(lower, "<!doctype html"@, 1);
        lemma_prefix_char(lower, "<!doctype html"@, 2);
        lemma_prefix_char(lower, "<!doctype html"@, 3);
        lemma_prefix_char(lower, "<!doctype html"@, 4);
        if starts_with(lower, "<?xml"@) {
            lemma_prefix_char(lower, "<?xml"@, 1);
        }
        if starts_with(lower, "<rss"@) {
            lemma_prefix_char(lower, "<rss"@, 1);
        }
        if starts_with(lower, "<feed"@) {
            lemma_prefix_char(lower, "<feed"@, 1);
        }
        if starts_with(lower, "<urlset"@) {
            lemma_prefix_char(lower, "<urlset"@, 1);
        }
        if starts_with(lower, "<sitemapindex"@) {
            lemma_prefix_char(lower, "<sitemapindex"@, 1);
        }
    }
    if starts_with(lower, "<html"@) {
        lemma_prefix_char(lower, "<html"@, 1);
        lemma_prefix_char(lower, "<html"@, 2);
        lemma_prefix_char(lower, "<html"@, 3);
        lemma_prefix_char(lower, "<html"@, 4);
        if starts_with(lower, "<?xml"@) {
            lemma_prefix_char(lower, "<?xml"@, 1);
        }
        if starts_with(lower, "<rss"@) {
            lemma_prefix_char(lower, "<rss"@, 1);
        }
        if starts_with(lower, "<feed"@) {
            lemma_prefix_char(lower, "<feed"@, 1);
        }
        if starts_with(lower, "<urlset"@) {
            lemma_prefix_char(lower, "<urlset"@, 1);
        }
        if starts_with(lower, "<sitemapindex"@) {
            lemma_prefix_char(lower, "<sitemapindex"@, 1);
        }
        if starts_with(lower, "<!doctype html"@) {
            lemma_prefix_char(lower, "<!doctype html"@, 1);
        }
    }
    if starts_with(lower, "<svg"@) {
        lemma_prefix_char(lower, "<svg"@, 1);
        lemma_prefix_char(lower, "<svg"@, 2);
        lemma_prefix_char(lower, "<svg"@, 3);
        if starts_with(lower, "<?xml"@) {
            lemma_prefix_char(lower, "<?xml"@, 1);
        }
        if starts_with(lower, "<rss"@) {
            lemma_prefix_char(lower, "<rss"@, 1);
        }
        if starts_with(lower, "<feed"@) {
            lemma_prefix_char(lower, "<feed"@, 1);
        }
        if starts_with(lower, "<urlset"@) {
            lemma_prefix_char(lower, "<urlset"@, 1);
        }
        if starts_with(lower, "<sitemapindex"@) {
            lemma_prefix_char(lower, "<sitemapindex"@, 2);
        }
        if starts_with(lower, "<!doctype html"@) {
            lemma_prefix_char(lower, "<!doctype html"@, 1);
        }
        if starts_with(lower, "<html"@) {
            lemma_prefix_char(lower, "<html"@, 1);
        }
    }
}


/// Which statuses are retried: while retries remain, exactly 429, 500, 502,
/// 503 and 504; any other status of 400 or more is rejected, and a status
/// below 400 accepted. With no retry left, every status of 400 or more is
/// rejected.
pub proof fn lemma_status_decisions(status: u16, attempt: u32, max_retries: u32)
    ensures
        attempt < max_retries ==> (status_decision_spec(status, attempt, max_retries) == StatusDecision::Retry
            <==> (status == 429 || status == 500 || status == 502 || status == 503 || status == 504)),
        !(attempt < max_retries && (status == 429 || status == 500 || status == 502 || status == 503 || status
            == 504)) ==> status_decision_spec(status, attempt, max_retries) == (if status >= 400 {
            StatusDecision::Reject
        } else {
            StatusDecision::Accept
        }),
{
}

/// How a failed request is classified, in order: a timeout; a connection
/// failure whose message mentions `dns`, `resolve` or `name resolution` is a
/// DNS error carrying the host; a message mentioning `tls`, `ssl` or
/// `certificate` is a TLS error; a failure with a status is an HTTP error;
/// anything else a configuration error with the message.
pub proof fn lemma_request_failure_kinds(
    is_timeout: bool,
    is_connect: bool,
    message: Seq<char>,
    status: Option<u16>,
    url: UrlView,
)
    ensures
        ({
            let lower = unicode_lowercase(message);
            let dns = is_connect && (contains_seq(lower, "dns"@) || contains_seq(lower, "resolve"@) || contains_seq(
                lower,
                "name resolution"@,
            ));
            let tls = contains_seq(lower, "tls"@) || contains_seq(lower, "ssl"@) || contains_seq(lower, "certificate"@);
            let f = request_failure(is_timeout, is_connect, message, status, url);
            &&& is_timeout ==> f == (url.serialization, 0nat)
            &&& !is_timeout && dns ==> f.1 == 1 && (url.host matches Some(h) ==> f.0 == h)
            &&& !is_timeout && !dns && tls ==> f == (url.serialization, 2nat)
            &&& !is_timeout && !dns && !tls && status is Some ==> f == (url.serialization, 3nat)
            &&& !is_timeout && !dns && !tls && status is None ==> f == ("request failed for "@ + url.serialization
                + ": "@ + message, 4nat)
        }),
{
}

} // verus!
