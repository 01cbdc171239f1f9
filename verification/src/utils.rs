//! URL handling: parsing and joining (through the `url` crate), and the
//! crawler's own URL logic — normalization for deduplication, domain and
//! subdomain tests, root domains, resolution and sanitization.

use vstd::prelude::*;

use crate::text::{
    all_ascii, ascii_lower_seq, chars_of, contains_seq, contains_str, decimal, decimal_string, ends_with,
    eq_ignore_ascii_case, eq_ignore_case_ascii, eq_str, is_whitespace_char, is_ws, join_with,
    lemma_split_len, push_char, push_str, split_chars, split_on, starts_with, str_ends_with,
    str_starts_with, string_from_range, string_of, to_lowercase, trim, trim_str,
    unicode_lowercase, opt_str_view, clone_opt_string,
};

verus! {

// ---------------------------------------------------------------------------
// The URL type
// ---------------------------------------------------------------------------

/// A parsed absolute URL: its serialization and the components the crawler
/// reads. Values are only made by parsing or joining through the `url`
/// crate.
#[derive(Debug)]
pub struct Url {
    serialization: String,
    scheme: String,
    host: Option<String>,
    port: Option<u16>,
    path: String,
    query_pairs: Vec<(String, String)>,
}

/// The components of a parsed URL as character sequences.
pub ghost struct UrlView {
    /// The full serialization (`Url::as_str`).
    pub serialization: Seq<char>,
    /// The scheme (`Url::scheme`).
    pub scheme: Seq<char>,
    /// The host (`Url::host_str`).
    pub host: Option<Seq<char>>,
    /// The explicit, non-default port (`Url::port`).
    pub port: Option<u16>,
    /// The path (`Url::path`).
    pub path: Seq<char>,
    /// The decoded query pairs (`Url::query_pairs`), in order.
    pub query_pairs: Seq<(Seq<char>, Seq<char>)>,
}

/// The character views of `(name, value)` pairs.
pub open spec fn pairs_view(v: Seq<(String, String)>) -> Seq<(Seq<char>, Seq<char>)> {
    v.map_values(|p: (String, String)| (p.0@, p.1@))
}

impl View for Url {
    type V = UrlView;

    closed spec fn view(&self) -> UrlView {
        UrlView {
            serialization: self.serialization@,
            scheme: self.scheme@,
            host: opt_str_view(self.host),
            port: self.port,
            path: self.path@,
            query_pairs: pairs_view(self.query_pairs@),
        }
    }
}

/// What `url::Url::parse` yields for `input`: the URL, or the message of
/// its error when `input` is not a valid absolute URL.
pub uninterp spec fn url_parsed(input: Seq<char>) -> Result<UrlView, Seq<char>>;

/// The URL that `input` parses to, if it does.
pub open spec fn url_parse(input: Seq<char>) -> Option<UrlView> {
    match url_parsed(input) {
        Ok(u) => Some(u),
        Err(_) => None,
    }
}

/// What `url::Url::join` yields for `input` against the URL serialized as
/// `base`.
pub uninterp spec fn url_join(base: Seq<char>, input: Seq<char>) -> Option<UrlView>;

/// `url::Url::parse`, with the result taken apart into a [`Url`] and an
/// error into its message. The result is named by [`url_parsed`]; the
/// WHATWG parsing rules are not stated.
#[verifier::external_body]
fn parse_with_url_crate(input: &str) -> (res: Result<Url, String>)
    ensures
        match res {
            Ok(u) => url_parsed(input@) == Ok::<UrlView, Seq<char>>(u@),
            Err(e) => url_parsed(input@) == Err::<UrlView, Seq<char>>(e@),
        },
{
    match url::Url::parse(input) {
        Ok(u) => Ok(Url {
            serialization: u.as_str().to_string(),
            scheme: u.scheme().to_string(),
            host: u.host_str().map(|h| h.to_string()),
            port: u.port(),
            path: u.path().to_string(),
            query_pairs: u.query_pairs().map(|(k, v)| (k.into_owned(), v.into_owned())).collect(),
        }),
        Err(e) => Err(e.to_string()),
    }
}

/// `url::Url::join` of `input` onto the URL whose serialization is `base`,
/// taken apart into a [`Url`]. The result is named by [`url_join`].
#[verifier::external_body]
fn join_with_url_crate(base: &str, input: &str) -> (res: Option<Url>)
    ensures
        match res {
            Some(u) => url_join(base@, input@) == Some(u@),
            None => url_join(base@, input@) is None,
        },
{
    match url::Url::parse(base).and_then(|b| b.join(input)) {
        Ok(u) => Some(Url {
            serialization: u.as_str().to_string(),
            scheme: u.scheme().to_string(),
            host: u.host_str().map(|h| h.to_string()),
            port: u.port(),
            path: u.path().to_string(),
            query_pairs: u.query_pairs().map(|(k, v)| (k.into_owned(), v.into_owned())).collect(),
        }),
        Err(_) => None,
    }
}

/// A copy of a list of string pairs.
pub fn clone_pairs(v: &Vec<(String, String)>) -> (res: Vec<(String, String)>)
    ensures
        pairs_view(res@) == pairs_view(v@),
{
    let mut out: Vec<(String, String)> = Vec::new();
    let mut i: usize = 0;
    while i < v.len()
        invariant
            i <= v@.len(),
            pairs_view(out@) == pairs_view(v@.subrange(0, i as int)),
        decreases v.len() - i,
    {
        let p = (v[i].0.clone(), v[i].1.clone());
        let ghost before = out@;
        out.push(p);
        i = i + 1;
        assert(pairs_view(out@) =~= pairs_view(before).push((p.0@, p.1@)));
        assert(pairs_view(v@.subrange(0, i as int)) =~= pairs_view(v@.subrange(0, i - 1)).push(
            (v@[i - 1].0@, v@[i - 1].1@),
        ));
    }
    assert(v@.subrange(0, v@.len() as int) =~= v@);
    out
}

impl Clone for Url {
    fn clone(&self) -> (res: Self)
        ensures
            res@ == self@,
    {
        Url {
            serialization: self.serialization.clone(),
            scheme: self.scheme.clone(),
            host: clone_opt_string(&self.host),
            port: self.port,
            path: self.path.clone(),
            query_pairs: clone_pairs(&self.query_pairs),
        }
    }
}

impl Url {
    /// Parse an absolute URL; `None` when the input is not one.
    pub fn parse(input: &str) -> (res: Option<Url>)
        ensures
            match res {
                Some(u) => url_parse(input@) == Some(u@),
                None => url_parse(input@) is None,
            },
    {
        match parse_with_url_crate(input) {
            Ok(u) => Some(u),
            Err(_) => None,
        }
    }

    /// Parse an absolute URL, or give the message of the parse error.
    pub fn try_parse(input: &str) -> (res: Result<Url, String>)
        ensures
            match res {
                Ok(u) => url_parsed(input@) == Ok::<UrlView, Seq<char>>(u@),
                Err(e) => url_parsed(input@) == Err::<UrlView, Seq<char>>(e@),
            },
    {
        parse_with_url_crate(input)
    }

    /// Resolve `input` against this URL; `None` when that fails.
    pub fn join(&self, input: &str) -> (res: Option<Url>)
        ensures
            match res {
                Some(u) => url_join(self@.serialization, input@) == Some(u@),
                None => url_join(self@.serialization, input@) is None,
            },
    {
        join_with_url_crate(self.serialization.as_str(), input)
    }

    /// The serialization of the URL.
    pub fn as_str(&self) -> (res: &str)
        ensures
            res@ == self@.serialization,
    {
        self.serialization.as_str()
    }

    /// The scheme.
    pub fn scheme(&self) -> (res: &str)
        ensures
            res@ == self@.scheme,
    {
        self.scheme.as_str()
    }

    /// The host, when the URL has one.
    pub fn host_str(&self) -> (res: Option<&str>)
        ensures
            match res {
                Some(h) => self@.host == Some(h@),
                None => self@.host is None,
            },
    {
        match &self.host {
            Some(h) => Some(h.as_str()),
            None => None,
        }
    }

    /// The explicit port, when it is not the scheme's default.
    pub fn port(&self) -> (res: Option<u16>)
        ensures
            res == self@.port,
    {
        self.port
    }

    /// The path.
    pub fn path(&self) -> (res: &str)
        ensures
            res@ == self@.path,
    {
        self.path.as_str()
    }

    /// The decoded query pairs, in order.
    pub fn query_pairs(&self) -> (res: &Vec<(String, String)>)
        ensures
            pairs_view(res@) == self@.query_pairs,
    {
        &self.query_pairs
    }

    /// The serialization as an owned string (`to_string`).
    pub fn to_string(&self) -> (res: String)
        ensures
            res@ == self@.serialization,
    {
        self.serialization.clone()
    }
}


// ---------------------------------------------------------------------------
// Percent-decoding (through the `percent_encoding` crate)
// ---------------------------------------------------------------------------

/// What `percent_encoding::percent_decode_str(s).decode_utf8_lossy()` yields
/// for `s`: every `%XX` escape turned into its byte, and the bytes read as
/// UTF-8 with invalid sequences replaced.
pub uninterp spec fn percent_decoded(s: Seq<char>) -> Seq<char>;

/// `percent_encoding::percent_decode_str` followed by `decode_utf8_lossy`.
/// The result is named by [`percent_decoded`]; the decoding rules are not
/// stated.
#[verifier::external_body]
fn percent_decode_lossy(s: &str) -> (res: String)
    ensures
        res@ == percent_decoded(s@),
{
    percent_encoding::percent_decode_str(s).decode_utf8_lossy().to_string()
}

// ---------------------------------------------------------------------------
// Normalization: the model
// ---------------------------------------------------------------------------

/// `www.`
pub open spec fn www_dot() -> Seq<char> {
    seq!['w', 'w', 'w', '.']
}

/// The host with a leading `www.` removed when `remove_www` asks for it.
pub open spec fn strip_www(host: Seq<char>, remove_www: bool) -> Seq<char> {
    if remove_www && starts_with(host, www_dot()) {
        host.subrange(4, host.len() as int)
    } else {
        host
    }
}

/// Port 80 for `http` and 443 for `https`.
pub open spec fn is_default_port(scheme: Seq<char>, port: u16) -> bool {
    ||| (scheme == seq!['h', 't', 't', 'p'] && port == 80)
    ||| (scheme == seq!['h', 't', 't', 'p', 's'] && port == 443)
}

/// `:<port>` for an explicit port that is not the scheme's default.
pub open spec fn port_suffix(scheme: Seq<char>, port: Option<u16>) -> Seq<char> {
    match port {
        Some(p) => if is_default_port(scheme, p) {
            Seq::<char>::empty()
        } else {
            seq![':'] + decimal(p as nat)
        },
        None => Seq::<char>::empty(),
    }
}

/// The value of a hexadecimal digit.
pub open spec fn hex_value(c: char) -> Option<u8> {
    if '0' <= c && c <= '9' {
        Some((c as u32 - 48) as u8)
    } else if 'a' <= c && c <= 'f' {
        Some((c as u32 - 87) as u8)
    } else if 'A' <= c && c <= 'F' {
        Some((c as u32 - 55) as u8)
    } else {
        None
    }
}

/// The byte of the `%XX` escape that starts `s`, if one does.
pub open spec fn escape_at(s: Seq<char>) -> Option<u8> {
    if s.len() >= 3 && s[0] == '%' && hex_value(s[1]) is Some && hex_value(s[2]) is Some {
        Some((hex_value(s[1])->Some_0 * 16 + hex_value(s[2])->Some_0) as u8)
    } else {
        None
    }
}

/// An unreserved ASCII character of RFC 3986: a letter, a digit, `-`, `.`,
/// `_` or `~`.
pub open spec fn unreserved_byte(b: u8) -> bool {
    (65 <= b && b <= 90) || (97 <= b && b <= 122) || (48 <= b && b <= 57) || b == 45 || b == 46 || b == 95
        || b == 126
}

/// The length of the run of escapes of non-ASCII bytes (`%80` to `%FF`)
/// that starts `s`.
pub open spec fn high_run(s: Seq<char>) -> nat
    decreases s.len(),
{
    match escape_at(s) {
        Some(b) => if b >= 128 {
            3 + high_run(s.subrange(3, s.len() as int))
        } else {
            0
        },
        None => 0,
    }
}

/// A run of non-ASCII escapes fits in the text, and one starts wherever an
/// escape of a non-ASCII byte does.
pub proof fn lemma_high_run_bounds(s: Seq<char>)
    ensures
        high_run(s) <= s.len(),
        (escape_at(s) matches Some(b) && b >= 128) ==> high_run(s) >= 3,
    decreases s.len(),
{
    if escape_at(s) is Some {
        lemma_high_run_bounds(s.subrange(3, s.len() as int));
    }
}

/// A path with unnecessary percent-encoding decoded: an escape of an
/// unreserved ASCII character becomes that character, a run of escapes of
/// non-ASCII bytes is decoded as UTF-8 text (see [`percent_decoded`]), and
/// every other escape (of `/`, `?`, `#`, `%`, spaces and the like) stays as
/// it is.
pub open spec fn decode_path(s: Seq<char>) -> Seq<char>
    decreases s.len(),
{
    if s.len() == 0 {
        Seq::empty()
    } else {
        match escape_at(s) {
            Some(b) => if b >= 128 {
                let n = high_run(s);
                proof {
                    lemma_high_run_bounds(s);
                }
                percent_decoded(s.subrange(0, n as int)) + decode_path(s.subrange(n as int, s.len() as int))
            } else if unreserved_byte(b) {
                seq![b as char] + decode_path(s.subrange(3, s.len() as int))
            } else {
                s.subrange(0, 3) + decode_path(s.subrange(3, s.len() as int))
            },
            None => seq![s[0]] + decode_path(s.subrange(1, s.len() as int)),
        }
    }
}

/// A path without its trailing `/`, unless the path is `/` itself.
pub open spec fn without_trailing_slash(path: Seq<char>) -> Seq<char> {
    if path.len() > 1 && path.last() == '/' {
        path.drop_last()
    } else {
        path
    }
}

/// Lexicographic order on strings by code point, which is the order of
/// `String` comparison.
pub open spec fn chars_less(a: Seq<char>, b: Seq<char>) -> bool
    decreases a.len(),
{
    if b.len() == 0 {
        false
    } else if a.len() == 0 {
        true
    } else if a[0] != b[0] {
        a[0] < b[0]
    } else {
        chars_less(a.drop_first(), b.drop_first())
    }
}

/// Order on query pairs: by name, then by value.
pub open spec fn pair_less(a: (Seq<char>, Seq<char>), b: (Seq<char>, Seq<char>)) -> bool {
    chars_less(a.0, b.0) || (a.0 == b.0 && chars_less(a.1, b.1))
}

/// `x` inserted into `s` before the first element that is not below it.
pub open spec fn insert_pair(x: (Seq<char>, Seq<char>), s: Seq<(Seq<char>, Seq<char>)>) -> Seq<
    (Seq<char>, Seq<char>),
>
    decreases s.len(),
{
    if s.len() == 0 {
        seq![x]
    } else if pair_less(s[0], x) {
        seq![s[0]] + insert_pair(x, s.drop_first())
    } else {
        seq![x] + s
    }
}

/// The pairs in ascending order (name, then value).
pub open spec fn sort_pairs(s: Seq<(Seq<char>, Seq<char>)>) -> Seq<(Seq<char>, Seq<char>)>
    decreases s.len(),
{
    if s.len() == 0 {
        s
    } else {
        insert_pair(s.last(), sort_pairs(s.drop_last()))
    }
}

/// `name=value`.
pub open spec fn pair_text(p: (Seq<char>, Seq<char>)) -> Seq<char> {
    p.0 + seq!['='] + p.1
}

/// The pairs sorted and written `a=1&b=2`.
pub open spec fn sorted_query(pairs: Seq<(Seq<char>, Seq<char>)>) -> Seq<char> {
    join_with(sort_pairs(pairs).map_values(|p: (Seq<char>, Seq<char>)| pair_text(p)), seq!['&'])
}

/// `?` and the sorted query, when there are query pairs.
pub open spec fn query_suffix(pairs: Seq<(Seq<char>, Seq<char>)>) -> Seq<char> {
    if pairs.len() == 0 {
        Seq::<char>::empty()
    } else {
        seq!['?'] + sorted_query(pairs)
    }
}

/// The normalized form built from a lowercased scheme and host, the port, a
/// decoded path and the query pairs. The fragment never appears.
pub open spec fn assembled(
    scheme: Seq<char>,
    host: Seq<char>,
    remove_www: bool,
    port: Option<u16>,
    decoded_path: Seq<char>,
    pairs: Seq<(Seq<char>, Seq<char>)>,
) -> Seq<char> {
    scheme + seq![':', '/', '/'] + strip_www(host, remove_www) + port_suffix(scheme, port)
        + without_trailing_slash(decoded_path) + query_suffix(pairs)
}

/// The normalized form of a URL: its serialization when it has no host,
/// otherwise the assembled form.
pub open spec fn normalized(u: UrlView, remove_www: bool) -> Seq<char> {
    match u.host {
        None => u.serialization,
        Some(h) => assembled(
            unicode_lowercase(u.scheme),
            unicode_lowercase(h),
            remove_www,
            u.port,
            decode_path(u.path),
            u.query_pairs,
        ),
    }
}

// ---------------------------------------------------------------------------
// Normalization: lemmas
// ---------------------------------------------------------------------------

/// Appending one piece to a join.
pub proof fn lemma_join_push(parts: Seq<Seq<char>>, x: Seq<char>, sep: Seq<char>)
    ensures
        join_with(parts.push(x), sep) == (if parts.len() == 0 {
            x
        } else {
            join_with(parts, sep) + sep + x
        }),
{
    assert(parts.push(x).drop_last() =~= parts);
    if parts.len() == 0 {
        assert(parts.push(x).len() == 1);
    }
}

/// Inserting before the first element that is not below `x`.
proof fn lemma_insert_at(x: (Seq<char>, Seq<char>), s: Seq<(Seq<char>, Seq<char>)>, j: int)
    requires
        0 <= j <= s.len(),
        forall|k: int| 0 <= k < j ==> pair_less(#[trigger] s[k], x),
        j < s.len() ==> !pair_less(s[j], x),
    ensures
        insert_pair(x, s) == s.subrange(0, j) + seq![x] + s.subrange(j, s.len() as int),
    decreases j,
{
    if j == 0 {
        if s.len() == 0 {
            assert(seq![x] =~= s.subrange(0, 0) + seq![x] + s.subrange(0, 0));
        } else {
            assert(seq![x] + s =~= s.subrange(0, 0) + seq![x] + s.subrange(0, s.len() as int));
        }
    } else {
        let t = s.drop_first();
        assert forall|k: int| 0 <= k < j - 1 implies pair_less(#[trigger] t[k], x) by {
            assert(t[k] == s[k + 1]);
        }
        lemma_insert_at(x, t, j - 1);
        assert(pair_less(s[0], x));
        assert(seq![s[0]] + (t.subrange(0, j - 1) + seq![x] + t.subrange(j - 1, t.len() as int))
            =~= s.subrange(0, j) + seq![x] + s.subrange(j, s.len() as int));
    }
}


// ---------------------------------------------------------------------------
// Normalization: the code
// ---------------------------------------------------------------------------

/// The view of one query pair.
pub open spec fn pair_view(p: (String, String)) -> (Seq<char>, Seq<char>) {
    (p.0@, p.1@)
}

/// Lexicographic comparison of two strings by code point.
fn str_less(a: &str, b: &str) -> (res: bool)
    ensures
        res == chars_less(a@, b@),
{
    let v = chars_of(a);
    let w = chars_of(b);
    let mut i: usize = 0;
    assert(a@.skip(0) =~= a@);
    assert(b@.skip(0) =~= b@);
    while i < v.len() && i < w.len() && v[i] == w[i]
        invariant
            v@ == a@,
            w@ == b@,
            i <= v.len(),
            i <= w.len(),
            chars_less(a@, b@) == chars_less(a@.skip(i as int), b@.skip(i as int)),
        decreases v.len() - i,
    {
        assert(a@.skip(i as int).drop_first() =~= a@.skip(i + 1));
        assert(b@.skip(i as int).drop_first() =~= b@.skip(i + 1));
        i = i + 1;
    }
    if i == w.len() {
        false
    } else if i == v.len() {
        true
    } else {
        v[i] < w[i]
    }
}

/// [`pair_less`] on two pairs.
fn pair_less_exec(a: &(String, String), b: &(String, String)) -> (res: bool)
    ensures
        res == pair_less(pair_view(*a), pair_view(*b)),
{
    if str_less(a.0.as_str(), b.0.as_str()) {
        true
    } else if eq_str(a.0.as_str(), b.0.as_str()) {
        str_less(a.1.as_str(), b.1.as_str())
    } else {
        false
    }
}

/// The query pairs in ascending order (name, then value).
pub fn sort_query_pairs(pairs: &Vec<(String, String)>) -> (res: Vec<(String, String)>)
    ensures
        pairs_view(res@) == sort_pairs(pairs_view(pairs@)),
{
    let mut out: Vec<(String, String)> = Vec::new();
    let mut i: usize = 0;
    while i < pairs.len()
        invariant
            i <= pairs.len(),
            pairs_view(out@) == sort_pairs(pairs_view(pairs@.subrange(0, i as int))),
        decreases pairs.len() - i,
    {
        let x = (pairs[i].0.clone(), pairs[i].1.clone());
        let ghost xs = pair_view(x);
        let ghost s = pairs_view(out@);
        let mut j: usize = 0;
        while j < out.len() && pair_less_exec(&out[j], &x)
            invariant
                j <= out.len(),
                s == pairs_view(out@),
                xs == pair_view(x),
                forall|k: int| 0 <= k < j ==> pair_less(#[trigger] s[k], xs),
            decreases out.len() - j,
        {
            assert(s[j as int] == pair_view(out@[j as int]));
            j = j + 1;
        }
        proof {
            if j < out.len() {
                assert(s[j as int] == pair_view(out@[j as int]));
            }
            lemma_insert_at(xs, s, j as int);
        }
        out.insert(j, x);
        assert(pairs_view(out@) =~= s.subrange(0, j as int) + seq![xs] + s.subrange(
            j as int,
            s.len() as int,
        ));
        let ghost pre = pairs_view(pairs@.subrange(0, i as int));
        i = i + 1;
        assert(pairs_view(pairs@.subrange(0, i as int)).drop_last() =~= pre);
        assert(pairs_view(pairs@.subrange(0, i as int)).last() == xs);
    }
    assert(pairs@.subrange(0, pairs@.len() as int) =~= pairs@);
    out
}

/// The query written `a=1&b=2` with the pairs sorted.
pub fn build_sorted_query(pairs: &Vec<(String, String)>) -> (res: Option<String>)
    ensures
        match res {
            Some(q) => pairs@.len() > 0 && q@ == sorted_query(pairs_view(pairs@)),
            None => pairs@.len() == 0,
        },
{
    if pairs.len() == 0 {
        return None;
    }
    let sorted = sort_query_pairs(pairs);
    let ghost texts = sort_pairs(pairs_view(pairs@)).map_values(
        |p: (Seq<char>, Seq<char>)| pair_text(p),
    );
    let mut out = String::new();
    let mut i: usize = 0;
    while i < sorted.len()
        invariant
            i <= sorted.len(),
            pairs_view(sorted@) == sort_pairs(pairs_view(pairs@)),
            texts == sort_pairs(pairs_view(pairs@)).map_values(
                |p: (Seq<char>, Seq<char>)| pair_text(p),
            ),
            out@ == join_with(texts.subrange(0, i as int), seq!['&']),
        decreases sorted.len() - i,
    {
        if i > 0 {
            push_char(&mut out, '&');
        }
        push_str(&mut out, sorted[i].0.as_str());
        push_char(&mut out, '=');
        push_str(&mut out, sorted[i].1.as_str());
        proof {
            assert(texts[i as int] == pair_text(pair_view(sorted@[i as int])));
            assert(texts.subrange(0, i + 1) =~= texts.subrange(0, i as int).push(texts[i as int]));
            lemma_join_push(texts.subrange(0, i as int), texts[i as int], seq!['&']);
        }
        i = i + 1;
    }
    assert(texts.subrange(0, texts.len() as int) =~= texts);
    Some(out)
}

fn hex_digit(c: char) -> (res: Option<u8>)
    ensures
        res == hex_value(c),
{
    if '0' <= c && c <= '9' {
        Some((c as u32 - 48) as u8)
    } else if 'a' <= c && c <= 'f' {
        Some((c as u32 - 87) as u8)
    } else if 'A' <= c && c <= 'F' {
        Some((c as u32 - 55) as u8)
    } else {
        None
    }
}

/// The byte of the escape at `v[i..]`, if one starts there.
fn escape_byte(v: &Vec<char>, i: usize) -> (res: Option<u8>)
    requires
        i <= v.len(),
    ensures
        res == escape_at(v@.subrange(i as int, v@.len() as int)),
{
    let ghost rest = v@.subrange(i as int, v@.len() as int);
    if v.len() - i < 3 || v[i] != '%' {
        return None;
    }
    assert(rest[0] == v@[i as int] && rest[1] == v@[i + 1] && rest[2] == v@[i + 2]);
    match (hex_digit(v[i + 1]), hex_digit(v[i + 2])) {
        (Some(hi), Some(lo)) => Some(hi * 16 + lo),
        _ => None,
    }
}

/// The end of the run of non-ASCII escapes that starts at `v[i..]`.
fn high_run_end(v: &Vec<char>, i: usize) -> (j: usize)
    requires
        i <= v.len(),
    ensures
        j == i + high_run(v@.subrange(i as int, v@.len() as int)),
        j <= v.len(),
{
    let mut j = i;
    loop
        invariant
            i <= j <= v.len(),
            high_run(v@.subrange(i as int, v@.len() as int)) == (j - i) + high_run(
                v@.subrange(j as int, v@.len() as int),
            ),
        decreases v.len() - j,
    {
        let ghost rest = v@.subrange(j as int, v@.len() as int);
        match escape_byte(v, j) {
            Some(b) => {
                if b >= 128 {
                    assert(rest.subrange(3, rest.len() as int) =~= v@.subrange(j + 3, v@.len() as int));
                    j = j + 3;
                } else {
                    return j;
                }
            },
            None => {
                return j;
            },
        }
    }
}

/// Decode unnecessary percent-encoding in a path (see [`decode_path`]):
/// unreserved characters and non-ASCII text are decoded, reserved
/// characters such as `/`, `?` and `#` stay encoded.
pub fn decode_unreserved(path: &str) -> (res: String)
    ensures
        res@ == decode_path(path@),
{
    let v = chars_of(path);
    let mut out = String::new();
    let mut i: usize = 0;
    assert(v@.subrange(0, v@.len() as int) =~= v@);
    while i < v.len()
        invariant
            i <= v.len(),
            v@ == path@,
            out@ + decode_path(v@.subrange(i as int, v@.len() as int)) == decode_path(path@),
        decreases v.len() - i,
    {
        let ghost rest = v@.subrange(i as int, v@.len() as int);
        let ghost before = out@;
        match escape_byte(&v, i) {
            Some(b) => {
                if b >= 128 {
                    let j = high_run_end(&v, i);
                    let run = string_from_range(&v, i, j);
                    let d = percent_decode_lossy(run.as_str());
                    push_str(&mut out, d.as_str());
                    assert(rest.subrange(0, (j - i) as int) =~= v@.subrange(i as int, j as int));
                    assert(rest.subrange((j - i) as int, rest.len() as int) =~= v@.subrange(
                        j as int,
                        v@.len() as int,
                    ));
                    assert(out@ + decode_path(v@.subrange(j as int, v@.len() as int)) =~= before
                        + decode_path(rest));
                    i = j;
                } else {
                    assert(rest.subrange(3, rest.len() as int) =~= v@.subrange(i + 3, v@.len() as int));
                    if unreserved(b) {
                        push_char(&mut out, b as char);
                    } else {
                        push_char(&mut out, v[i]);
                        push_char(&mut out, v[i + 1]);
                        push_char(&mut out, v[i + 2]);
                        assert(rest.subrange(0, 3) =~= seq![v@[i as int], v@[i + 1], v@[i + 2]]);
                    }
                    assert(out@ + decode_path(v@.subrange(i + 3, v@.len() as int)) =~= before
                        + decode_path(rest));
                    i = i + 3;
                }
            },
            None => {
                push_char(&mut out, v[i]);
                assert(rest.subrange(1, rest.len() as int) =~= v@.subrange(i + 1, v@.len() as int));
                assert(out@ + decode_path(v@.subrange(i + 1, v@.len() as int)) =~= before + decode_path(rest));
                i = i + 1;
            },
        }
    }
    assert(decode_path(v@.subrange(i as int, v@.len() as int)) =~= Seq::<char>::empty());
    out
}

fn unreserved(b: u8) -> (res: bool)
    ensures
        res == unreserved_byte(b),
{
    (65 <= b && b <= 90) || (97 <= b && b <= 122) || (48 <= b && b <= 57) || b == 45 || b == 46 || b == 95
        || b == 126
}


/// The normalized form assembled from its parts: `scheme://host[:port]path[?query]`
/// with `www.` removed from the host when asked, the default port dropped, a
/// trailing `/` dropped from the path (except the root path), and the query
/// pairs sorted. The scheme and host are expected lowercased and the path
/// decoded already.
pub fn assemble_normalized(
    scheme: &str,
    host: &str,
    remove_www: bool,
    port: Option<u16>,
    decoded_path: &str,
    pairs: &Vec<(String, String)>,
) -> (res: String)
    ensures
        res@ == assembled(scheme@, host@, remove_www, port, decoded_path@, pairs_view(pairs@)),
{
    proof {
        reveal_strlit("www.");
        reveal_strlit("http");
        reveal_strlit("https");
        assert("www."@ =~= www_dot());
        assert("http"@ =~= seq!['h', 't', 't', 'p']);
        assert("https"@ =~= seq!['h', 't', 't', 'p', 's']);
    }
    let host_part = if remove_www && str_starts_with(host, "www.") {
        let hv = chars_of(host);
        string_from_range(&hv, 4, hv.len())
    } else {
        host.to_owned()
    };
    assert(host_part@ == strip_www(host@, remove_www));
    let mut port_part = String::new();
    match port {
        Some(p) => {
            let is_default = (eq_str(scheme, "http") && p == 80) || (eq_str(scheme, "https") && p
                == 443);
            assert(is_default == is_default_port(scheme@, p));
            if !is_default {
                push_char(&mut port_part, ':');
                let digits = decimal_string(p as u64);
                push_str(&mut port_part, digits.as_str());
                assert(port_part@ =~= seq![':'] + decimal(p as nat));
            }
        },
        None => {},
    }
    assert(port_part@ =~= port_suffix(scheme@, port));
    let pv = chars_of(decoded_path);
    let path_part = if pv.len() > 1 && pv[pv.len() - 1] == '/' {
        assert(pv@.subrange(0, pv@.len() - 1) =~= pv@.drop_last());
        string_from_range(&pv, 0, pv.len() - 1)
    } else {
        decoded_path.to_owned()
    };
    assert(path_part@ == without_trailing_slash(decoded_path@));
    let mut query_part = String::new();
    match build_sorted_query(pairs) {
        Some(q) => {
            push_char(&mut query_part, '?');
            push_str(&mut query_part, q.as_str());
        },
        None => {},
    }
    assert(query_part@ =~= query_suffix(pairs_view(pairs@)));
    let mut out = String::new();
    push_str(&mut out, scheme);
    push_char(&mut out, ':');
    push_char(&mut out, '/');
    push_char(&mut out, '/');
    assert(out@ =~= scheme@ + seq![':', '/', '/']);
    push_str(&mut out, host_part.as_str());
    push_str(&mut out, port_part.as_str());
    push_str(&mut out, path_part.as_str());
    push_str(&mut out, query_part.as_str());
    out
}

/// Normalize a URL for deduplication: lowercase scheme and host, drop the
/// default port and the fragment, drop a trailing `/` (except for the root
/// path), sort the query pairs, decode unnecessary percent-encoding in the
/// path (see [`decode_path`]), and remove
/// a leading `www.` when `remove_www` is set. A URL without a host is
/// returned as it serializes.
pub fn normalize_url(url: &Url, remove_www: bool) -> (res: String)
    ensures
        res@ == normalized(url@, remove_www),
{
    match url.host_str() {
        None => url.to_string(),
        Some(h) => {
            let scheme = to_lowercase(url.scheme());
            let host = to_lowercase(h);
            let path = decode_unreserved(url.path());
            assemble_normalized(
                scheme.as_str(),
                host.as_str(),
                remove_www,
                url.port(),
                path.as_str(),
                url.query_pairs(),
            )
        },
    }
}


// ---------------------------------------------------------------------------
// Domains
// ---------------------------------------------------------------------------

/// Both URLs have a host and the hosts are equal ignoring ASCII case.
pub open spec fn same_domain(a: UrlView, b: UrlView) -> bool {
    match (a.host, b.host) {
        (Some(x), Some(y)) => eq_ignore_ascii_case(x, y),
        _ => false,
    }
}

/// Both URLs have hosts, and both hosts are ASCII (as the `url` crate's
/// hosts of web URLs are: domains in punycode, addresses in digits).
pub open spec fn ascii_hosts(a: UrlView, b: UrlView) -> bool {
    a.host matches Some(x) && b.host matches Some(y) && all_ascii(x) && all_ascii(y)
}

/// `url`'s lowercased host ends with `.` followed by `base`'s lowercased
/// host, and the two differ.
pub open spec fn subdomain_of(url: UrlView, base: UrlView) -> bool {
    match (url.host, base.host) {
        (Some(x), Some(y)) => {
            let xl = unicode_lowercase(x);
            let yl = unicode_lowercase(y);
            xl != yl && ends_with(xl, seq!['.'] + yl)
        },
        _ => false,
    }
}

/// The last two dot-separated labels of a host joined by `.`, or the host
/// itself when it has a single label.
pub open spec fn last_two_labels(host: Seq<char>) -> Seq<char> {
    let labels = split_on(host, '.');
    if labels.len() >= 2 {
        labels[labels.len() - 2] + seq!['.'] + labels[labels.len() - 1]
    } else {
        host
    }
}

/// Whether two URLs are on the same host (ASCII case-insensitive). A URL
/// without a host is on no domain.
pub fn is_same_domain(url: &Url, base: &Url) -> (res: bool)
    ensures
        res == same_domain(url@, base@),
{
    match (url.host_str(), base.host_str()) {
        (Some(a), Some(b)) => eq_ignore_case_ascii(a, b),
        _ => false,
    }
}

/// Whether `url`'s host is a proper subdomain of `base`'s host: it ends with
/// `.<base host>` (compared lowercased). A host is not its own subdomain.
pub fn is_subdomain(url: &Url, base: &Url) -> (res: bool)
    ensures
        res == subdomain_of(url@, base@),
        ascii_hosts(url@, base@) ==> (res ==> !same_domain(url@, base@)),
        ascii_hosts(url@, base@) ==> (res <==> (url@.host matches Some(x) && base@.host matches Some(y)
            && ascii_lower_seq(x) != ascii_lower_seq(y) && ends_with(
            ascii_lower_seq(x),
            seq!['.'] + ascii_lower_seq(y),
        ))),
{
    match (url.host_str(), base.host_str()) {
        (Some(a), Some(b)) => {
            let al = to_lowercase(a);
            let bl = to_lowercase(b);
            if eq_str(al.as_str(), bl.as_str()) {
                return false;
            }
            let mut suffix = String::new();
            push_char(&mut suffix, '.');
            push_str(&mut suffix, bl.as_str());
            str_ends_with(al.as_str(), suffix.as_str())
        },
        _ => false,
    }
}

/// The root domain of a URL's host: its last two labels (`blog.example.com`
/// gives `example.com`), or the host itself when it has one label. `None`
/// when the URL has no host.
pub fn root_domain(url: &Url) -> (res: Option<String>)
    ensures
        match url@.host {
            Some(h) => res is Some && res.unwrap()@ == last_two_labels(h),
            None => res is None,
        },
{
    let host = match url.host_str() {
        Some(h) => h,
        None => return None,
    };
    let hv = chars_of(host);
    let labels = split_chars(&hv, '.');
    proof {
        lemma_split_len(host@, '.');
    }
    let n = labels.len();
    if n >= 2 {
        let mut out = string_of(&labels[n - 2]);
        push_char(&mut out, '.');
        let last = string_of(&labels[n - 1]);
        push_str(&mut out, last.as_str());
        Some(out)
    } else {
        Some(host.to_owned())
    }
}

// ---------------------------------------------------------------------------
// Resolution and sanitization
// ---------------------------------------------------------------------------

/// Resolve a possibly relative reference against `base` (after trimming
/// whitespace). `None` for an empty reference or when joining fails.
pub fn resolve_url(base: &Url, relative: &str) -> (res: Option<Url>)
    ensures
        trim(relative@).len() == 0 ==> res is None,
        trim(relative@).len() > 0 ==> match res {
            Some(u) => url_join(base@.serialization, trim(relative@)) == Some(u@),
            None => url_join(base@.serialization, trim(relative@)) is None,
        },
{
    let trimmed = trim_str(relative);
    if trimmed.as_str().is_empty() {
        return None;
    }
    base.join(trimmed.as_str())
}

/// The characters of `s` that are not whitespace, in order.
pub open spec fn strip_ws(s: Seq<char>) -> Seq<char>
    decreases s.len(),
{
    if s.len() == 0 {
        s
    } else if is_ws(s.last()) {
        strip_ws(s.drop_last())
    } else {
        strip_ws(s.drop_last()).push(s.last())
    }
}

/// `https://` in front of a reference without a scheme, `https:` in front of
/// a protocol-relative one (`//host/...`), nothing otherwise.
pub open spec fn with_default_scheme(s: Seq<char>) -> Seq<char> {
    if !contains_seq(s, seq![':', '/', '/']) && !starts_with(s, seq!['/', '/']) {
        seq!['h', 't', 't', 'p', 's', ':', '/', '/'] + s
    } else if starts_with(s, seq!['/', '/']) {
        seq!['h', 't', 't', 'p', 's', ':'] + s
    } else {
        s
    }
}

/// The string that [`sanitize_url`] hands to the URL parser, or `None` when
/// the input is blank.
pub open spec fn sanitize_candidate(raw: Seq<char>) -> Option<Seq<char>> {
    let t = trim(raw);
    let c = strip_ws(t);
    if t.len() == 0 || c.len() == 0 {
        None
    } else {
        Some(with_default_scheme(c))
    }
}

/// Clean up a scraped URL string: trim it, remove internal whitespace, add
/// `https://` (or `https:` for `//host/...`) when there is no scheme, and
/// keep it only if it parses; the result is the parsed URL's serialization.
pub fn sanitize_url(raw: &str) -> (res: Option<String>)
    ensures
        match sanitize_candidate(raw@) {
            None => res is None,
            Some(c) => match url_parse(c) {
                Some(u) => res is Some && res.unwrap()@ == u.serialization,
                None => res is None,
            },
        },
{
    let trimmed = trim_str(raw);
    if trimmed.as_str().is_empty() {
        return None;
    }
    let tv = chars_of(trimmed.as_str());
    let mut collapsed = String::new();
    let mut i: usize = 0;
    while i < tv.len()
        invariant
            i <= tv.len(),
            collapsed@ == strip_ws(tv@.subrange(0, i as int)),
        decreases tv.len() - i,
    {
        let c = tv[i];
        assert(tv@.subrange(0, i + 1).drop_last() =~= tv@.subrange(0, i as int));
        if !is_whitespace_char(c) {
            push_char(&mut collapsed, c);
        }
        i = i + 1;
    }
    assert(tv@.subrange(0, tv@.len() as int) =~= tv@);
    if collapsed.as_str().is_empty() {
        return None;
    }
    proof {
        reveal_strlit("://");
        reveal_strlit("//");
        reveal_strlit("https://");
        reveal_strlit("https:");
        assert("://"@ =~= seq![':', '/', '/']);
        assert("//"@ =~= seq!['/', '/']);
        assert("https://"@ =~= seq!['h', 't', 't', 'p', 's', ':', '/', '/']);
        assert("https:"@ =~= seq!['h', 't', 't', 'p', 's', ':']);
    }
    let has_scheme = contains_str(collapsed.as_str(), "://");
    let protocol_relative = str_starts_with(collapsed.as_str(), "//");
    let candidate = if !has_scheme && !protocol_relative {
        let mut s = String::new();
        push_str(&mut s, "https://");
        push_str(&mut s, collapsed.as_str());
        s
    } else if protocol_relative {
        let mut s = String::new();
        push_str(&mut s, "https:");
        push_str(&mut s, collapsed.as_str());
        s
    } else {
        collapsed
    };
    match Url::parse(candidate.as_str()) {
        Some(u) => Some(u.to_string()),
        None => None,
    }
}

/// A copy of an already parsed URL.
pub fn parse_url_lossy(url: &Url) -> (res: Url)
    ensures
        res@ == url@,
{
    url.clone()
}


// ---------------------------------------------------------------------------
// File names
// ---------------------------------------------------------------------------

/// An ASCII letter or digit.
pub open spec fn is_ascii_alnum(c: char) -> bool {
    ('a' <= c && c <= 'z') || ('A' <= c && c <= 'Z') || ('0' <= c && c <= '9')
}

/// Every run of the character `c` shortened to one `c` (what replacing the
/// regular expression `c{2,}` by `c` does).
pub open spec fn collapse_runs(s: Seq<char>, c: char) -> Seq<char>
    decreases s.len(),
{
    if s.len() == 0 {
        s
    } else if s.last() == c && s.len() >= 2 && s[s.len() - 2] == c {
        collapse_runs(s.drop_last(), c)
    } else {
        collapse_runs(s.drop_last(), c).push(s.last())
    }
}

/// `s` without the leading characters that are `a` or `b`.
pub open spec fn strip_leading(s: Seq<char>, a: char, b: char) -> Seq<char>
    decreases s.len(),
{
    if s.len() > 0 && (s[0] == a || s[0] == b) {
        strip_leading(s.drop_first(), a, b)
    } else {
        s
    }
}

/// `s` without the trailing characters that are `a` or `b`.
pub open spec fn strip_trailing(s: Seq<char>, a: char, b: char) -> Seq<char>
    decreases s.len(),
{
    if s.len() > 0 && (s.last() == a || s.last() == b) {
        strip_trailing(s.drop_last(), a, b)
    } else {
        s
    }
}

/// `s` without leading and trailing characters that are `a` or `b`
/// (`str::trim_matches`).
pub open spec fn strip_both(s: Seq<char>, a: char, b: char) -> Seq<char> {
    strip_trailing(strip_leading(s, a, b), a, b)
}

/// A file-name character: ASCII alphanumerics, `-`, `_` and `.` are kept,
/// anything else becomes `_`.
pub open spec fn filename_char(c: char) -> char {
    if is_ascii_alnum(c) || c == '-' || c == '_' || c == '.' {
        c
    } else {
        '_'
    }
}

/// A slug character: ASCII alphanumerics are kept, anything else becomes
/// `-`.
pub open spec fn slug_char(c: char) -> char {
    if is_ascii_alnum(c) {
        c
    } else {
        '-'
    }
}

/// The host of a URL, or `unknown`.
pub open spec fn host_or_unknown(u: UrlView) -> Seq<char> {
    match u.host {
        Some(h) => h,
        None => "unknown"@,
    }
}

/// `index` when empty, else the name itself.
pub open spec fn or_index(s: Seq<char>) -> Seq<char> {
    if s.len() == 0 {
        "index"@
    } else {
        s
    }
}

/// Each character mapped to a file-name character (`keep_extra`) or a slug
/// character.
pub open spec fn name_chars(s: Seq<char>, keep_extra: bool) -> Seq<char>
    decreases s.len(),
{
    if s.len() == 0 {
        s
    } else {
        name_chars(s.drop_last(), keep_extra).push(
            if keep_extra {
                filename_char(s.last())
            } else {
                slug_char(s.last())
            },
        )
    }
}

/// A file name for a URL: `host_path` with unsafe characters replaced by
/// `_`, runs of `_` shortened, `_` and `.` trimmed from both ends; `index`
/// when nothing is left.
pub open spec fn filename_of(u: UrlView) -> Seq<char> {
    let combined = host_or_unknown(u) + seq!['_'] + u.path;
    or_index(strip_both(collapse_runs(name_chars(combined, true), '_'), '_', '.'))
}

/// A slug for a URL: host and path lowercased, every character other than
/// an ASCII letter or digit replaced by `-`, runs of `-` shortened, `-`
/// trimmed from both ends; `index` when nothing is left.
pub open spec fn slug_of(u: UrlView) -> Seq<char> {
    let lower = unicode_lowercase(host_or_unknown(u) + u.path);
    or_index(strip_both(collapse_runs(name_chars(lower, false), '-'), '-', '-'))
}

/// Map each character, shorten runs of `c`, and trim `a` and `b` from both
/// ends.
fn clean_name(s: &str, keep_extra: bool, c: char, a: char, b: char) -> (res: String)
    ensures
        res@ == strip_both(collapse_runs(name_chars(s@, keep_extra), c), a, b),
{
    let v = chars_of(s);
    let mut out: Vec<char> = Vec::new();
    let mut prev: char = ' ';
    let mut i: usize = 0;
    while i < v.len()
        invariant
            i <= v.len(),
            v@ == s@,
            out@ == collapse_runs(name_chars(s@.subrange(0, i as int), keep_extra), c),
            i > 0 ==> name_chars(s@.subrange(0, i as int), keep_extra).last() == prev,
            i > 0 ==> out@.len() > 0 && out@.last() == prev,
        decreases v.len() - i,
    {
        let x = v[i];
        let alnum = ('a' <= x && x <= 'z') || ('A' <= x && x <= 'Z') || ('0' <= x && x <= '9');
        let m = if keep_extra {
            if alnum || x == '-' || x == '_' || x == '.' {
                x
            } else {
                '_'
            }
        } else {
            if alnum {
                x
            } else {
                '-'
            }
        };
        let ghost pre = s@.subrange(0, i as int);
        let ghost sub = s@.subrange(0, i + 1);
        assert(sub.drop_last() =~= pre);
        assert(sub.last() == x);
        let ghost mp = name_chars(pre, keep_extra);
        assert(name_chars(sub, keep_extra) == mp.push(m));
        assert(mp.push(m).drop_last() =~= mp);
        if i > 0 {
            assert(mp.push(m)[mp.push(m).len() - 2] == prev);
        }
        if m == c && i > 0 && prev == c {
            assert(out@ == collapse_runs(mp.push(m), c));
        } else {
            out.push(m);
        }
        prev = m;
        i = i + 1;
    }
    assert(s@.subrange(0, s@.len() as int) =~= s@);
    let mut lo: usize = 0;
    let ghost col = out@;
    assert(out@.subrange(0, out@.len() as int) =~= out@);
    while lo < out.len() && (out[lo] == a || out[lo] == b)
        invariant
            lo <= out.len(),
            out@ == col,
            strip_leading(col, a, b) == strip_leading(col.subrange(lo as int, col.len() as int), a, b),
        decreases out.len() - lo,
    {
        assert(col.subrange(lo as int, col.len() as int).drop_first() =~= col.subrange(lo + 1, col.len() as int));
        lo = lo + 1;
    }
    let ghost lead = col.subrange(lo as int, col.len() as int);
    assert(strip_leading(col, a, b) == lead);
    let mut hi: usize = out.len();
    assert(lead =~= col.subrange(lo as int, hi as int));
    while hi > lo && (out[hi - 1] == a || out[hi - 1] == b)
        invariant
            lo <= hi <= out.len(),
            out@ == col,
            strip_trailing(lead, a, b) == strip_trailing(col.subrange(lo as int, hi as int), a, b),
        decreases hi - lo,
    {
        assert(col.subrange(lo as int, hi as int).drop_last() =~= col.subrange(lo as int, hi - 1));
        hi = hi - 1;
    }
    string_from_range(&out, lo, hi)
}

/// `index` in place of an empty name.
fn or_index_exec(s: String) -> (res: String)
    ensures
        res@ == or_index(s@),
{
    if s.as_str().is_empty() {
        "index".to_owned()
    } else {
        s
    }
}

/// A file-system-safe file name for a URL (see [`filename_of`]); query and
/// fragment are left out.
pub fn url_to_filename(url: &Url) -> (res: String)
    ensures
        res@ == filename_of(url@),
{
    let mut combined = String::new();
    match url.host_str() {
        Some(h) => push_str(&mut combined, h),
        None => push_str(&mut combined, "unknown"),
    }
    push_char(&mut combined, '_');
    push_str(&mut combined, url.path());
    assert(combined@ == host_or_unknown(url@) + seq!['_'] + url@.path);
    let cleaned = clean_name(combined.as_str(), true, '_', '_', '.');
    or_index_exec(cleaned)
}

/// A readable, kebab-case slug for a URL (see [`slug_of`]).
pub fn url_to_slug(url: &Url) -> (res: String)
    ensures
        res@ == slug_of(url@),
{
    let mut combined = String::new();
    match url.host_str() {
        Some(h) => push_str(&mut combined, h),
        None => push_str(&mut combined, "unknown"),
    }
    push_str(&mut combined, url.path());
    assert(combined@ == host_or_unknown(url@) + url@.path);
    let lower = to_lowercase(combined.as_str());
    let cleaned = clean_name(lower.as_str(), false, '-', '-', '-');
    or_index_exec(cleaned)
}

/// Being on the same host is symmetric.
pub proof fn lemma_same_domain_symmetric(a: UrlView, b: UrlView)
    ensures
        same_domain(a, b) == same_domain(b, a),
{
}

/// A URL with a host is on its own host and is no subdomain of itself.
pub proof fn lemma_own_host(a: UrlView)
    requires
        a.host is Some,
    ensures
        same_domain(a, a),
        !subdomain_of(a, a),
{
}

/// Of two hosts, at most one is a subdomain of the other.
pub proof fn lemma_subdomain_asymmetric(a: UrlView, b: UrlView)
    ensures
        !(subdomain_of(a, b) && subdomain_of(b, a)),
{
}

proof fn lemma_strip_ws_has_none(s: Seq<char>)
    ensures
        forall|i: int| 0 <= i < strip_ws(s).len() ==> !is_ws(#[trigger] strip_ws(s)[i]),
    decreases s.len(),
{
    if s.len() > 0 {
        lemma_strip_ws_has_none(s.drop_last());
        let p = strip_ws(s.drop_last());
        if !is_ws(s.last()) {
            assert forall|i: int| 0 <= i < strip_ws(s).len() implies !is_ws(#[trigger] strip_ws(s)[i]) by {
                if i < p.len() {
                    assert(strip_ws(s)[i] == p[i]);
                }
            }
        }
    }
}

/// Blank input sanitizes to nothing, and the text handed to the URL parser
/// holds no whitespace.
pub proof fn lemma_sanitize_candidate(raw: Seq<char>)
    ensures
        trim(raw).len() == 0 ==> sanitize_candidate(raw) is None,
        sanitize_candidate(raw) matches Some(c) ==> forall|i: int| 0 <= i < c.len() ==> !is_ws(#[trigger] c[i]),
{
    let c = strip_ws(trim(raw));
    lemma_strip_ws_has_none(trim(raw));
    if let Some(w) = sanitize_candidate(raw) {
        assert forall|i: int| 0 <= i < w.len() implies !is_ws(#[trigger] w[i]) by {
            if !contains_seq(c, seq![':', '/', '/']) && !starts_with(c, seq!['/', '/']) {
                if i >= 8 {
                    assert(w[i] == c[i - 8]);
                }
            } else if starts_with(c, seq!['/', '/']) {
                if i >= 6 {
                    assert(w[i] == c[i - 6]);
                }
            } else {
                assert(w[i] == c[i]);
            }
        }
    }
}

proof fn lemma_insert_pair_len(x: (Seq<char>, Seq<char>), s: Seq<(Seq<char>, Seq<char>)>)
    ensures
        insert_pair(x, s).len() == s.len() + 1,
    decreases s.len(),
{
    if s.len() > 0 && pair_less(s[0], x) {
        lemma_insert_pair_len(x, s.drop_first());
    }
}

proof fn lemma_sort_pairs_len(s: Seq<(Seq<char>, Seq<char>)>)
    ensures
        sort_pairs(s).len() == s.len(),
    decreases s.len(),
{
    if s.len() > 0 {
        lemma_sort_pairs_len(s.drop_last());
        lemma_insert_pair_len(s.last(), sort_pairs(s.drop_last()));
    }
}

/// Normalization ignores what does not change the resource: two URLs with
/// hosts whose scheme and host differ only in case, whose ports are equal or
/// one is absent where the other is the scheme's default, with the same path
/// and query pairs that sort the same, normalize alike. (A URL's fragment
/// never takes part.)
pub proof fn lemma_normalized_ignores_case_and_default_port(u: UrlView, v: UrlView, remove_www: bool)
    requires
        u.host is Some,
        v.host is Some,
        unicode_lowercase(u.scheme) == unicode_lowercase(v.scheme),
        unicode_lowercase(u.host->Some_0) == unicode_lowercase(v.host->Some_0),
        u.port == v.port || (u.port is None && (v.port matches Some(p) && is_default_port(
            unicode_lowercase(v.scheme),
            p,
        ))) || (v.port is None && (u.port matches Some(p) && is_default_port(unicode_lowercase(u.scheme), p))),
        u.path == v.path,
        sort_pairs(u.query_pairs) == sort_pairs(v.query_pairs),
    ensures
        normalized(u, remove_www) == normalized(v, remove_www),
{
    lemma_sort_pairs_len(u.query_pairs);
    lemma_sort_pairs_len(v.query_pairs);
    let sc = unicode_lowercase(u.scheme);
    assert(port_suffix(sc, u.port) == port_suffix(sc, v.port));
    assert(query_suffix(u.query_pairs) == query_suffix(v.query_pairs));
}

proof fn lemma_chars_less_order(a: Seq<char>, b: Seq<char>, c: Seq<char>)
    ensures
        !chars_less(a, a),
        !(chars_less(a, b) && chars_less(b, a)),
        a != b ==> chars_less(a, b) || chars_less(b, a),
        chars_less(a, b) && chars_less(b, c) ==> chars_less(a, c),
    decreases a.len(),
{
    if a.len() > 0 {
        lemma_chars_less_order(a.drop_first(), a.drop_first(), a.drop_first());
        if b.len() > 0 {
            if c.len() > 0 {
                lemma_chars_less_order(a.drop_first(), b.drop_first(), c.drop_first());
            } else {
                lemma_chars_less_order(a.drop_first(), b.drop_first(), b.drop_first());
            }
            if a != b && a[0] == b[0] {
                assert(a.drop_first() != b.drop_first()) by {
                    if a.drop_first() == b.drop_first() {
                        assert(a =~= seq![a[0]] + a.drop_first());
                        assert(b =~= seq![b[0]] + b.drop_first());
                    }
                }
            }
        }
    } else {
        if b.len() > 0 && c.len() > 0 {
        }
        if b.len() == 0 {
            assert(a =~= b);
        }
    }
}

proof fn lemma_pair_less_order(a: (Seq<char>, Seq<char>), b: (Seq<char>, Seq<char>), c: (Seq<char>, Seq<char>))
    ensures
        !(pair_less(a, b) && pair_less(b, a)),
        a != b ==> pair_less(a, b) || pair_less(b, a),
        pair_less(a, b) && pair_less(b, c) ==> pair_less(a, c),
{
    lemma_chars_less_order(a.0, b.0, c.0);
    lemma_chars_less_order(a.1, b.1, c.1);
    lemma_chars_less_order(b.0, a.0, c.0);
    lemma_chars_less_order(b.1, a.1, c.1);
}

/// Inserting two pairs gives the same sequence in either order.
proof fn lemma_insert_pairs_commute(x: (Seq<char>, Seq<char>), y: (Seq<char>, Seq<char>), t: Seq<(Seq<char>, Seq<char>)>)
    ensures
        insert_pair(x, insert_pair(y, t)) == insert_pair(y, insert_pair(x, t)),
    decreases t.len(),
{
    lemma_pair_less_order(x, y, x);
    lemma_pair_less_order(y, x, y);
    if t.len() == 0 {
        assert(insert_pair(y, t) =~= seq![y]);
        assert(insert_pair(x, t) =~= seq![x]);
        assert(seq![y].drop_first() =~= Seq::<(Seq<char>, Seq<char>)>::empty());
        assert(seq![x].drop_first() =~= Seq::<(Seq<char>, Seq<char>)>::empty());
        if x == y {
        } else if pair_less(x, y) {
            assert(insert_pair(x, seq![y]) =~= seq![x] + seq![y]);
            assert(insert_pair(y, seq![x]) =~= seq![x] + insert_pair(y, Seq::empty()));
        } else {
            assert(insert_pair(y, seq![x]) =~= seq![y] + seq![x]);
            assert(insert_pair(x, seq![y]) =~= seq![y] + insert_pair(x, Seq::empty()));
        }
    } else {
        let t0 = t[0];
        let r = t.drop_first();
        lemma_pair_less_order(t0, x, y);
        lemma_pair_less_order(t0, y, x);
        lemma_pair_less_order(x, t0, y);
        lemma_pair_less_order(y, t0, x);
        lemma_pair_less_order(x, y, t0);
        lemma_pair_less_order(y, x, t0);
        if pair_less(t0, x) && pair_less(t0, y) {
            lemma_insert_pairs_commute(x, y, r);
            let iy = insert_pair(y, t);
            assert(iy == seq![t0] + insert_pair(y, r));
            assert(iy[0] == t0);
            assert(iy.drop_first() =~= insert_pair(y, r));
            let ix = insert_pair(x, t);
            assert(ix == seq![t0] + insert_pair(x, r));
            assert(ix[0] == t0);
            assert(ix.drop_first() =~= insert_pair(x, r));
        } else if pair_less(t0, x) {
            let iy = insert_pair(y, t);
            assert(iy == seq![y] + t);
            assert(iy[0] == y);
            assert(iy.drop_first() =~= t);
            let ix = insert_pair(x, t);
            assert(ix == seq![t0] + insert_pair(x, r));
            assert(ix[0] == t0);
        } else if pair_less(t0, y) {
            let ix = insert_pair(x, t);
            assert(ix == seq![x] + t);
            assert(ix[0] == x);
            assert(ix.drop_first() =~= t);
            let iy = insert_pair(y, t);
            assert(iy == seq![t0] + insert_pair(y, r));
            assert(iy[0] == t0);
        } else {
            let iy = insert_pair(y, t);
            let ix = insert_pair(x, t);
            assert(iy == seq![y] + t);
            assert(ix == seq![x] + t);
            assert(iy[0] == y && ix[0] == x);
            assert(iy.drop_first() =~= t);
            assert(ix.drop_first() =~= t);
        }
    }
}

/// Sorting query pairs does not depend on the order of two neighbours.
proof fn lemma_sort_pairs_swap(
    s: Seq<(Seq<char>, Seq<char>)>,
    a: (Seq<char>, Seq<char>),
    b: (Seq<char>, Seq<char>),
    rest: Seq<(Seq<char>, Seq<char>)>,
)
    ensures
        sort_pairs(s + seq![a, b] + rest) == sort_pairs(s + seq![b, a] + rest),
    decreases rest.len(),
{
    let p = s + seq![a, b] + rest;
    let q = s + seq![b, a] + rest;
    if rest.len() == 0 {
        assert(p.drop_last() =~= s.push(a));
        assert(q.drop_last() =~= s.push(b));
        assert(s.push(a).drop_last() =~= s);
        assert(s.push(b).drop_last() =~= s);
        assert(p.last() == b && q.last() == a);
        assert(sort_pairs(s.push(a)) == insert_pair(a, sort_pairs(s)));
        assert(sort_pairs(s.push(b)) == insert_pair(b, sort_pairs(s)));
        assert(sort_pairs(p) == insert_pair(b, sort_pairs(s.push(a))));
        assert(sort_pairs(q) == insert_pair(a, sort_pairs(s.push(b))));
        lemma_insert_pairs_commute(b, a, sort_pairs(s));
    } else {
        lemma_sort_pairs_swap(s, a, b, rest.drop_last());
        assert(p.drop_last() =~= s + seq![a, b] + rest.drop_last());
        assert(q.drop_last() =~= s + seq![b, a] + rest.drop_last());
        assert(p.last() == rest.last() && q.last() == rest.last());
        assert(sort_pairs(p) == insert_pair(rest.last(), sort_pairs(p.drop_last())));
        assert(sort_pairs(q) == insert_pair(rest.last(), sort_pairs(q.drop_last())));
    }
}

/// Normalization does not depend on the order of the query pairs: swapping
/// two neighbouring pairs (and so any reordering, swap by swap) gives the
/// same normalized URL.
pub proof fn lemma_normalized_ignores_query_order(
    u: UrlView,
    s: Seq<(Seq<char>, Seq<char>)>,
    a: (Seq<char>, Seq<char>),
    b: (Seq<char>, Seq<char>),
    rest: Seq<(Seq<char>, Seq<char>)>,
    remove_www: bool,
)
    requires
        u.query_pairs == s + seq![a, b] + rest,
    ensures
        normalized(u, remove_www) == normalized(
            UrlView { query_pairs: s + seq![b, a] + rest, ..u },
            remove_www,
        ),
{
    lemma_sort_pairs_swap(s, a, b, rest);
    let v = UrlView { query_pairs: s + seq![b, a] + rest, ..u };
    assert(query_suffix(u.query_pairs) == query_suffix(v.query_pairs));
}


/// Moving one pair to the end does not change the sorted pairs.
proof fn lemma_sort_pairs_move_last(
    a: Seq<(Seq<char>, Seq<char>)>,
    x: (Seq<char>, Seq<char>),
    b: Seq<(Seq<char>, Seq<char>)>,
)
    ensures
        sort_pairs(a + seq![x] + b) == sort_pairs(a + b + seq![x]),
    decreases b.len(),
{
    if b.len() > 0 {
        let b0 = b[0];
        let r = b.drop_first();
        lemma_sort_pairs_swap(a, x, b0, r);
        assert(a + seq![x] + b =~= a + seq![x, b0] + r);
        assert(a + seq![b0, x] + r =~= (a + seq![b0]) + seq![x] + r);
        lemma_sort_pairs_move_last(a + seq![b0], x, r);
        assert((a + seq![b0]) + r + seq![x] =~= a + b + seq![x]);
    } else {
        assert(a + seq![x] + b =~= a + b + seq![x]);
    }
}

/// Sorting query pairs depends only on which pairs there are, each counted
/// as often as it occurs, not on their order.
pub proof fn lemma_sort_pairs_permutation(s: Seq<(Seq<char>, Seq<char>)>, t: Seq<(Seq<char>, Seq<char>)>)
    requires
        s.to_multiset() == t.to_multiset(),
    ensures
        sort_pairs(s) == sort_pairs(t),
    decreases s.len(),
{
    broadcast use vstd::seq_lib::group_to_multiset_ensures;
    broadcast use vstd::multiset::group_multiset_axioms;

    assert(s.to_multiset().len() == s.len());
    assert(t.to_multiset().len() == t.len());
    if s.len() == 0 {
        assert(t =~= s);
    } else {
        let x = s.last();
        let s1 = s.drop_last();
        assert(s1.push(x) =~= s);
        assert(s.contains(x)) by {
            assert(s[s.len() - 1] == x);
        }
        assert(s.to_multiset().count(x) > 0);
        assert(t.to_multiset().count(x) > 0);
        assert(t.contains(x));
        let k = choose|k: int| 0 <= k < t.len() && t[k] == x;
        let t1 = t.remove(k);
        assert(t1.to_multiset() == t.to_multiset().remove(x));
        assert(s1.to_multiset() =~= s.to_multiset().remove(x));
        lemma_sort_pairs_permutation(s1, t1);
        let a = t.subrange(0, k);
        let b = t.subrange(k + 1, t.len() as int);
        assert(t =~= a + seq![x] + b);
        assert(t1 =~= a + b);
        lemma_sort_pairs_move_last(a, x, b);
        assert(a + b + seq![x] =~= t1.push(x));
        assert(t1.push(x).drop_last() =~= t1);
        assert(t1.push(x).last() == x);
    }
}

/// Normalization ignores what does not change the resource: two URLs with
/// hosts whose schemes and hosts differ only in letter case, whose ports
/// are equal or where one leaves out the scheme's default port that the
/// other writes, with the same path and the same query pairs in any order,
/// normalize alike, whatever their fragments.
pub proof fn lemma_normalized_ignores_form(u: UrlView, v: UrlView, remove_www: bool)
    requires
        u.host is Some,
        v.host is Some,
        unicode_lowercase(u.scheme) == unicode_lowercase(v.scheme),
        unicode_lowercase(u.host->Some_0) == unicode_lowercase(v.host->Some_0),
        u.port == v.port || (u.port is None && (v.port matches Some(p) && is_default_port(
            unicode_lowercase(v.scheme),
            p,
        ))) || (v.port is None && (u.port matches Some(p) && is_default_port(unicode_lowercase(u.scheme), p))),
        u.path == v.path,
        u.query_pairs.to_multiset() == v.query_pairs.to_multiset(),
    ensures
        normalized(u, remove_www) == normalized(v, remove_www),
{
    lemma_sort_pairs_permutation(u.query_pairs, v.query_pairs);
    lemma_normalized_ignores_case_and_default_port(u, v, remove_www);
}

} // verus!
