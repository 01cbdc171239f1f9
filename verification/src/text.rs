//! Character- and string-level building blocks shared by the other modules.
//!
//! Strings are reasoned about through their character sequences (`s@`).
//! The spec functions here give the meaning of the std string operations the
//! library relies on (`trim`, `split`, `lines`, `join`, prefix and substring
//! tests); the executable functions compute them and are proved to agree.

use vstd::prelude::*;

verus! {

// ---------------------------------------------------------------------------
// Whitespace
// ---------------------------------------------------------------------------

/// `true` for the characters that carry the Unicode `White_Space` property,
/// which is exactly the set `char::is_whitespace` accepts.
pub open spec fn is_ws(c: char) -> bool {
    ||| ('\t' <= c && c <= '\r')
    ||| c == ' '
    ||| c == '\u{85}'
    ||| c == '\u{A0}'
    ||| c == '\u{1680}'
    ||| ('\u{2000}' <= c && c <= '\u{200A}')
    ||| c == '\u{2028}'
    ||| c == '\u{2029}'
    ||| c == '\u{202F}'
    ||| c == '\u{205F}'
    ||| c == '\u{3000}'
}

/// Executable counterpart of [`is_ws`].
pub fn is_whitespace_char(c: char) -> (res: bool)
    ensures
        res == is_ws(c),
{
    ('\t' <= c && c <= '\r') || c == ' ' || c == '\u{85}' || c == '\u{A0}' || c == '\u{1680}'
        || ('\u{2000}' <= c && c <= '\u{200A}') || c == '\u{2028}' || c == '\u{2029}'
        || c == '\u{202F}' || c == '\u{205F}' || c == '\u{3000}'
}

/// `s` with its leading whitespace removed (`str::trim_start`).
pub open spec fn trim_start(s: Seq<char>) -> Seq<char>
    decreases s.len(),
{
    if s.len() > 0 && is_ws(s[0]) {
        trim_start(s.drop_first())
    } else {
        s
    }
}

/// `s` with its trailing whitespace removed (`str::trim_end`).
pub open spec fn trim_end(s: Seq<char>) -> Seq<char>
    decreases s.len(),
{
    if s.len() > 0 && is_ws(s.last()) {
        trim_end(s.drop_last())
    } else {
        s
    }
}

/// `s` with leading and trailing whitespace removed (`str::trim`).
pub open spec fn trim(s: Seq<char>) -> Seq<char> {
    trim_end(trim_start(s))
}

/// Every character of `s` is whitespace.
pub open spec fn all_ws(s: Seq<char>) -> bool {
    forall|i: int| 0 <= i < s.len() ==> is_ws(#[trigger] s[i])
}

// ---------------------------------------------------------------------------
// Splitting and joining
// ---------------------------------------------------------------------------

/// The pieces of `s` between occurrences of `sep` (`str::split` with a
/// character pattern): always at least one piece, empty pieces kept.
pub open spec fn split_on(s: Seq<char>, sep: char) -> Seq<Seq<char>>
    decreases s.len(),
{
    if s.len() == 0 {
        seq![Seq::<char>::empty()]
    } else {
        let parts = split_on(s.drop_last(), sep);
        if s.last() == sep {
            parts.push(Seq::<char>::empty())
        } else {
            parts.update(parts.len() - 1, parts.last().push(s.last()))
        }
    }
}

/// A line as `str::lines` yields it: a trailing carriage return is removed.
pub open spec fn strip_cr(line: Seq<char>) -> Seq<char> {
    if line.len() > 0 && line.last() == '\r' {
        line.drop_last()
    } else {
        line
    }
}

/// The lines of `s` (`str::lines`): split at `\n`, a final empty piece
/// dropped, and a trailing `\r` removed from each line.
pub open spec fn lines_of(s: Seq<char>) -> Seq<Seq<char>> {
    let parts = split_on(s, '\n');
    let kept = if parts.last().len() == 0 {
        parts.drop_last()
    } else {
        parts
    };
    kept.map_values(|l: Seq<char>| strip_cr(l))
}

/// The pieces joined with `sep` between consecutive pieces (`join`).
pub open spec fn join_with(parts: Seq<Seq<char>>, sep: Seq<char>) -> Seq<char>
    decreases parts.len(),
{
    if parts.len() == 0 {
        Seq::<char>::empty()
    } else if parts.len() == 1 {
        parts[0]
    } else {
        join_with(parts.drop_last(), sep) + sep + parts.last()
    }
}

/// The concatenation of all pieces.
pub open spec fn concat_all(parts: Seq<Seq<char>>) -> Seq<char>
    decreases parts.len(),
{
    if parts.len() == 0 {
        Seq::<char>::empty()
    } else {
        concat_all(parts.drop_last()) + parts.last()
    }
}

/// The character views of a sequence of strings.
pub open spec fn views(v: Seq<String>) -> Seq<Seq<char>> {
    v.map_values(|s: String| s@)
}

// ---------------------------------------------------------------------------
// Prefixes, suffixes, substrings
// ---------------------------------------------------------------------------

/// `p` is a prefix of `s`.
pub open spec fn starts_with(s: Seq<char>, p: Seq<char>) -> bool {
    p.len() <= s.len() && s.subrange(0, p.len() as int) == p
}

/// `p` is a suffix of `s`.
pub open spec fn ends_with(s: Seq<char>, p: Seq<char>) -> bool {
    p.len() <= s.len() && s.subrange(s.len() - p.len(), s.len() as int) == p
}

/// `p` occurs in `s` at position `i`.
pub open spec fn occurs_at(s: Seq<char>, p: Seq<char>, i: int) -> bool {
    0 <= i && i + p.len() <= s.len() && s.subrange(i, i + p.len()) == p
}

/// `p` occurs somewhere in `s` (`str::contains`).
pub open spec fn contains_seq(s: Seq<char>, p: Seq<char>) -> bool {
    exists|i: int| occurs_at(s, p, i)
}

/// Position of the first occurrence of `p` in `s` (`str::find`).
#[verifier::opaque]
pub open spec fn find_first(s: Seq<char>, p: Seq<char>) -> Option<int> {
    if contains_seq(s, p) {
        Some(choose|i: int| occurs_at(s, p, i) && forall|j: int| 0 <= j < i ==> !occurs_at(s, p, j))
    } else {
        None
    }
}

// ---------------------------------------------------------------------------
// ASCII case
// ---------------------------------------------------------------------------

/// ASCII lowercase of one character (`char::to_ascii_lowercase`).
pub open spec fn ascii_lower(c: char) -> char {
    if 'A' <= c && c <= 'Z' {
        ((c as u32) + 32) as char
    } else {
        c
    }
}

/// ASCII lowercase of a sequence (`str::to_ascii_lowercase`).
pub open spec fn ascii_lower_seq(s: Seq<char>) -> Seq<char> {
    s.map_values(|c: char| ascii_lower(c))
}

/// Case-insensitive ASCII equality (`str::eq_ignore_ascii_case`).
pub open spec fn eq_ignore_ascii_case(a: Seq<char>, b: Seq<char>) -> bool {
    ascii_lower_seq(a) == ascii_lower_seq(b)
}


// ---------------------------------------------------------------------------
// Conversions with std (trusted; each wraps one std conversion)
// ---------------------------------------------------------------------------

/// The characters of a string slice, in order (`str::chars` collected).
#[verifier::external_body]
pub(crate) fn chars_of(s: &str) -> (res: Vec<char>)
    ensures
        res@ == s@,
{
    s.chars().collect()
}

/// A string made of the characters `v[lo..hi]` (`Iterator::collect`).
#[verifier::external_body]
pub(crate) fn string_from_range(v: &Vec<char>, lo: usize, hi: usize) -> (res: String)
    requires
        lo <= hi <= v.len(),
    ensures
        res@ == v@.subrange(lo as int, hi as int),
{
    v[lo..hi].iter().collect()
}

/// Append one character to a string (`String::push`).
#[verifier::external_body]
pub(crate) fn push_char(s: &mut String, c: char)
    ensures
        final(s)@ == old(s)@.push(c),
{
    s.push(c)
}

/// Append a string slice to a string (`String::push_str`).
#[verifier::external_body]
pub(crate) fn push_str(s: &mut String, t: &str)
    ensures
        final(s)@ == old(s)@ + t@,
{
    s.push_str(t)
}

/// Length in bytes of the UTF-8 encoding of `s` (`str::len`).
pub open spec fn utf8_len(s: Seq<char>) -> nat {
    vstd::utf8::encode_utf8(s).len()
}

/// Byte length of a string slice (`str::len`): the length of its UTF-8
/// encoding, which always fits in `usize`.
#[verifier::external_body]
pub(crate) fn byte_len(s: &str) -> (res: usize)
    ensures
        res == utf8_len(s@),
        res <= isize::MAX,
{
    s.len()
}

/// Whether `char::is_alphanumeric` holds of `c`: the Unicode `Alphabetic`
/// or `Numeric` property.
pub uninterp spec fn unicode_alphanumeric(c: char) -> bool;

/// `char::is_alphanumeric`. The result is named by [`unicode_alphanumeric`];
/// for ASCII it is exactly the letters and digits.
#[verifier::external_body]
pub(crate) fn is_alphanumeric(c: char) -> (res: bool)
    ensures
        res == unicode_alphanumeric(c),
        (c as u32) < 128 ==> (res <==> (('a' <= c && c <= 'z') || ('A' <= c && c <= 'Z') || ('0'
            <= c && c <= '9'))),
{
    c.is_alphanumeric()
}

/// What `str::to_lowercase` returns for a string: its full Unicode lowercase
/// mapping.
pub uninterp spec fn unicode_lowercase(s: Seq<char>) -> Seq<char>;

/// Every character of `s` is ASCII.
pub open spec fn all_ascii(s: Seq<char>) -> bool {
    forall|i: int| 0 <= i < s.len() ==> (#[trigger] s[i] as u32) < 128
}

/// `str::to_lowercase`. The result is named by [`unicode_lowercase`]; the
/// mapping itself (Unicode case tables) is not stated, but for ASCII text it
/// is ASCII lowercasing (`A`-`Z` to `a`-`z`, everything else kept).
#[verifier::external_body]
pub(crate) fn to_lowercase(s: &str) -> (res: String)
    ensures
        res@ == unicode_lowercase(s@),
        all_ascii(s@) ==> res@ == ascii_lower_seq(s@),
{
    s.to_lowercase()
}

// ---------------------------------------------------------------------------
// Executable string operations
// ---------------------------------------------------------------------------

/// A string with the characters of `v`.
pub fn string_of(v: &Vec<char>) -> (res: String)
    ensures
        res@ == v@,
{
    let res = string_from_range(v, 0, v.len());
    assert(v@.subrange(0, v@.len() as int) =~= v@);
    res
}

/// Index of the first non-whitespace character at or after `lo`, or `hi`.
pub fn skip_ws_forward(v: &Vec<char>, lo: usize, hi: usize) -> (i: usize)
    requires
        lo <= hi <= v.len(),
    ensures
        lo <= i <= hi,
        trim_start(v@.subrange(lo as int, hi as int)) == v@.subrange(i as int, hi as int),
{
    let mut i: usize = lo;
    while i < hi && is_whitespace_char(v[i])
        invariant
            lo <= i <= hi <= v.len(),
            trim_start(v@.subrange(lo as int, hi as int)) == trim_start(
                v@.subrange(i as int, hi as int),
            ),
        decreases hi - i,
    {
        assert(v@.subrange(i as int, hi as int).drop_first() =~= v@.subrange(i + 1, hi as int));
        i = i + 1;
    }
    i
}

/// `str::trim_start`, as an owned string.
pub fn trim_start_str(s: &str) -> (res: String)
    ensures
        res@ == trim_start(s@),
{
    let v = chars_of(s);
    let i = skip_ws_forward(&v, 0, v.len());
    assert(v@.subrange(0, v@.len() as int) =~= v@);
    string_from_range(&v, i, v.len())
}

/// Index just past the last non-whitespace character before `hi`, or `lo`.
pub fn skip_ws_backward(v: &Vec<char>, lo: usize, hi: usize) -> (j: usize)
    requires
        lo <= hi <= v.len(),
    ensures
        lo <= j <= hi,
        trim_end(v@.subrange(lo as int, hi as int)) == v@.subrange(lo as int, j as int),
{
    let mut j: usize = hi;
    while j > lo && is_whitespace_char(v[j - 1])
        invariant
            lo <= j <= hi <= v.len(),
            trim_end(v@.subrange(lo as int, hi as int)) == trim_end(
                v@.subrange(lo as int, j as int),
            ),
        decreases j - lo,
    {
        assert(v@.subrange(lo as int, j as int).drop_last() =~= v@.subrange(lo as int, j - 1));
        j = j - 1;
    }
    j
}

/// Bounds `(i, j)` such that `v[i..j]` is `trim(v)`.
pub fn trim_bounds(v: &Vec<char>) -> (res: (usize, usize))
    ensures
        res.0 <= res.1 <= v.len(),
        trim(v@) == v@.subrange(res.0 as int, res.1 as int),
{
    let i = skip_ws_forward(v, 0, v.len());
    assert(v@.subrange(0, v@.len() as int) =~= v@);
    let j = skip_ws_backward(v, i, v.len());
    (i, j)
}

/// `str::trim`, as an owned string.
pub fn trim_str(s: &str) -> (res: String)
    ensures
        res@ == trim(s@),
{
    let v = chars_of(s);
    let (i, j) = trim_bounds(&v);
    string_from_range(&v, i, j)
}

/// `str::trim_end`, as an owned string.
pub fn trim_end_str(s: &str) -> (res: String)
    ensures
        res@ == trim_end(s@),
{
    let v = chars_of(s);
    let j = skip_ws_backward(&v, 0, v.len());
    assert(v@.subrange(0, v@.len() as int) =~= v@);
    string_from_range(&v, 0, j)
}

/// `trim` of a whitespace-only sequence is empty, and conversely.
pub proof fn lemma_trim_empty_iff_all_ws(s: Seq<char>)
    ensures
        (trim(s).len() == 0) <==> all_ws(s),
    decreases s.len(),
{
    lemma_trim_start_empty_iff(s);
    lemma_trim_start_suffix(s);
    let t = trim_start(s);
    if t.len() > 0 {
        assert(!is_ws(t[0]));
        lemma_trim_end_keeps_non_ws_first(t);
    }
}

proof fn lemma_trim_start_empty_iff(s: Seq<char>)
    ensures
        (trim_start(s).len() == 0) <==> all_ws(s),
    decreases s.len(),
{
    if s.len() > 0 {
        lemma_trim_start_empty_iff(s.drop_first());
        if is_ws(s[0]) {
            if all_ws(s.drop_first()) {
                assert forall|i: int| 0 <= i < s.len() implies is_ws(#[trigger] s[i]) by {
                    if i > 0 {
                        assert(s[i] == s.drop_first()[i - 1]);
                    }
                }
            }
            if all_ws(s) {
                assert forall|i: int| 0 <= i < s.drop_first().len() implies is_ws(
                    #[trigger] s.drop_first()[i],
                ) by {
                    assert(s.drop_first()[i] == s[i + 1]);
                }
            }
        } else {
            assert(!is_ws(s[0]));
        }
    }
}

/// `trim_start(s)` is a suffix of `s`, and starts with a non-whitespace
/// character when non-empty.
pub proof fn lemma_trim_start_suffix(s: Seq<char>)
    ensures
        trim_start(s).len() <= s.len(),
        trim_start(s) == s.subrange(s.len() - trim_start(s).len(), s.len() as int),
        trim_start(s).len() > 0 ==> !is_ws(trim_start(s)[0]),
    decreases s.len(),
{
    if s.len() > 0 && is_ws(s[0]) {
        lemma_trim_start_suffix(s.drop_first());
        assert(s.drop_first().subrange(
            s.drop_first().len() - trim_start(s.drop_first()).len(),
            s.drop_first().len() as int,
        ) =~= s.subrange(s.len() - trim_start(s).len(), s.len() as int));
    } else {
        assert(s.subrange(0, s.len() as int) =~= s);
    }
}

proof fn lemma_trim_end_keeps_non_ws_first(s: Seq<char>)
    requires
        s.len() > 0,
        !is_ws(s[0]),
    ensures
        trim_end(s).len() > 0,
    decreases s.len(),
{
    if is_ws(s.last()) {
        assert(s.len() > 1);
        lemma_trim_end_keeps_non_ws_first(s.drop_last());
    }
}

/// Whether every character of `v` is whitespace (`trim().is_empty()`).
pub fn is_blank(v: &Vec<char>) -> (res: bool)
    ensures
        res == all_ws(v@),
        res == (trim(v@).len() == 0),
{
    proof {
        lemma_trim_empty_iff_all_ws(v@);
    }
    let mut i: usize = 0;
    while i < v.len()
        invariant
            i <= v.len(),
            forall|k: int| 0 <= k < i ==> is_ws(#[trigger] v@[k]),
        decreases v.len() - i,
    {
        if !is_whitespace_char(v[i]) {
            assert(!is_ws(v@[i as int]));
            proof {
                lemma_trim_empty_iff_all_ws(v@);
            }
            return false;
        }
        i = i + 1;
    }
    true
}

/// Split `v` at every occurrence of `sep` (`str::split` with a char).
pub fn split_chars(v: &Vec<char>, sep: char) -> (res: Vec<Vec<char>>)
    ensures
        res@.len() == split_on(v@, sep).len(),
        forall|k: int| 0 <= k < res@.len() ==> #[trigger] res@[k]@ == split_on(v@, sep)[k],
{
    let mut parts: Vec<Vec<char>> = Vec::new();
    let mut cur: Vec<char> = Vec::new();
    let mut i: usize = 0;
    assert(v@.subrange(0, 0) =~= Seq::<char>::empty());
    while i < v.len()
        invariant
            i <= v.len(),
            parts@.len() + 1 == split_on(v@.subrange(0, i as int), sep).len(),
            forall|k: int|
                0 <= k < parts@.len() ==> #[trigger] parts@[k]@ == split_on(
                    v@.subrange(0, i as int),
                    sep,
                )[k],
            cur@ == split_on(v@.subrange(0, i as int), sep).last(),
        decreases v.len() - i,
    {
        let ghost prev = v@.subrange(0, i as int);
        assert(v@.subrange(0, i + 1).drop_last() =~= prev);
        let c = v[i];
        if c == sep {
            parts.push(cur);
            cur = Vec::new();
        } else {
            cur.push(c);
        }
        i = i + 1;
    }
    parts.push(cur);
    assert(v@.subrange(0, v@.len() as int) =~= v@);
    parts
}

/// `p` is a prefix of `v[lo..]`.
pub fn has_prefix_at(v: &Vec<char>, lo: usize, p: &Vec<char>) -> (res: bool)
    requires
        lo <= v.len(),
    ensures
        res == starts_with(v@.subrange(lo as int, v@.len() as int), p@),
        res == occurs_at(v@, p@, lo as int),
{
    if p.len() > v.len() - lo {
        return false;
    }
    let mut k: usize = 0;
    while k < p.len()
        invariant
            lo + p.len() <= v.len(),
            k <= p.len(),
            forall|m: int| 0 <= m < k ==> v@[lo + m] == p@[m],
        decreases p.len() - k,
    {
        if v[lo + k] != p[k] {
            assert(v@.subrange(lo as int, v@.len() as int).subrange(0, p@.len() as int)[k as int]
                != p@[k as int]);
            assert(v@.subrange(lo as int, lo + p@.len())[k as int] != p@[k as int]);
            return false;
        }
        k = k + 1;
    }
    assert(v@.subrange(lo as int, v@.len() as int).subrange(0, p@.len() as int) =~= p@);
    assert(v@.subrange(lo as int, lo + p@.len()) =~= p@);
    true
}

/// `str::starts_with`.
pub fn str_starts_with(s: &str, p: &str) -> (res: bool)
    ensures
        res == starts_with(s@, p@),
{
    let v = chars_of(s);
    let w = chars_of(p);
    let r = has_prefix_at(&v, 0, &w);
    assert(v@.subrange(0, v@.len() as int) =~= v@);
    r
}

/// `str::ends_with`.
pub fn str_ends_with(s: &str, p: &str) -> (res: bool)
    ensures
        res == ends_with(s@, p@),
{
    let v = chars_of(s);
    let w = chars_of(p);
    if w.len() > v.len() {
        return false;
    }
    let r = has_prefix_at(&v, v.len() - w.len(), &w);
    assert(v@.subrange(v@.len() - w@.len(), v@.len() as int).subrange(0, w@.len() as int)
        =~= v@.subrange(v@.len() - w@.len(), v@.len() as int));
    r
}

/// First position at or after `from` where `p` occurs in `v`.
pub fn find_from(v: &Vec<char>, p: &Vec<char>, from: usize) -> (res: Option<usize>)
    requires
        from <= v.len(),
    ensures
        match res {
            Some(i) => from <= i && occurs_at(v@, p@, i as int) && forall|j: int|
                from <= j < i ==> !occurs_at(v@, p@, j),
            None => forall|j: int| from <= j ==> !occurs_at(v@, p@, j),
        },
{
    let mut i: usize = from;
    loop
        invariant
            from <= i <= v.len(),
            forall|j: int| from <= j < i ==> !occurs_at(v@, p@, j),
        decreases v.len() - i,
    {
        if has_prefix_at(v, i, p) {
            return Some(i);
        }
        if i == v.len() {
            assert forall|j: int| from <= j implies !occurs_at(v@, p@, j) by {
                if j > v.len() {
                    assert(!occurs_at(v@, p@, j));
                }
            }
            return None;
        }
        i = i + 1;
    }
}

/// `str::find` for a string pattern, as a character index.
pub fn find_seq(v: &Vec<char>, p: &Vec<char>) -> (res: Option<usize>)
    ensures
        match res {
            Some(i) => find_first(v@, p@) == Some(i as int) && occurs_at(v@, p@, i as int),
            None => find_first(v@, p@) is None,
        },
{
    let r = find_from(v, p, 0);
    proof {
        reveal(find_first);
    }
    match r {
        Some(i) => {
            assert(occurs_at(v@, p@, i as int));
            assert(contains_seq(v@, p@));
            let ghost w = choose|k: int|
                occurs_at(v@, p@, k) && forall|j: int| 0 <= j < k ==> !occurs_at(v@, p@, j);
            assert(occurs_at(v@, p@, w) && forall|j: int| 0 <= j < w ==> !occurs_at(v@, p@, j));
            assert(w == i);
        },
        None => {
            assert(!contains_seq(v@, p@));
        },
    }
    r
}

/// `str::contains` for a string pattern.
pub fn contains_str(s: &str, p: &str) -> (res: bool)
    ensures
        res == contains_seq(s@, p@),
{
    let v = chars_of(s);
    let w = chars_of(p);
    let r = find_from(&v, &w, 0);
    r.is_some()
}

/// String equality by characters.
pub fn eq_str(a: &str, b: &str) -> (res: bool)
    ensures
        res == (a@ == b@),
{
    let v = chars_of(a);
    let w = chars_of(b);
    if v.len() != w.len() {
        return false;
    }
    let mut i: usize = 0;
    while i < v.len()
        invariant
            v@ == a@,
            w@ == b@,
            v.len() == w.len(),
            i <= v.len(),
            forall|k: int| 0 <= k < i ==> v@[k] == w@[k],
        decreases v.len() - i,
    {
        if v[i] != w[i] {
            assert(a@[i as int] != b@[i as int]);
            return false;
        }
        i = i + 1;
    }
    assert(v@ =~= w@);
    true
}

/// ASCII lowercase of one character.
pub fn to_ascii_lower_char(c: char) -> (res: char)
    ensures
        res == ascii_lower(c),
{
    if 'A' <= c && c <= 'Z' {
        let code: u32 = (c as u32) + 32;
        proof {
            assert(code == (c as u32) + 32);
        }
        char_from_u32_ascii(code)
    } else {
        c
    }
}

/// The character of an ASCII code point.
pub(crate) fn char_from_u32_ascii(code: u32) -> (res: char)
    requires
        code < 128,
    ensures
        res == code as char,
{
    let b = code as u8;
    assert(b == code);
    b as char
}

/// ASCII lowercase of a string (`str::to_ascii_lowercase`).
pub fn ascii_lower_string(s: &str) -> (res: String)
    ensures
        res@ == ascii_lower_seq(s@),
{
    let v = chars_of(s);
    let mut out = String::new();
    let mut i: usize = 0;
    while i < v.len()
        invariant
            v@ == s@,
            i <= v.len(),
            out@ == ascii_lower_seq(s@.subrange(0, i as int)),
        decreases v.len() - i,
    {
        let c = to_ascii_lower_char(v[i]);
        push_char(&mut out, c);
        i = i + 1;
        assert(out@ =~= ascii_lower_seq(s@.subrange(0, i as int)));
    }
    assert(s@.subrange(0, s@.len() as int) =~= s@);
    out
}

/// `str::eq_ignore_ascii_case`.
pub fn eq_ignore_case_ascii(a: &str, b: &str) -> (res: bool)
    ensures
        res == eq_ignore_ascii_case(a@, b@),
{
    let v = chars_of(a);
    let w = chars_of(b);
    if v.len() != w.len() {
        proof {
            assert(ascii_lower_seq(a@).len() != ascii_lower_seq(b@).len());
        }
        return false;
    }
    let mut i: usize = 0;
    while i < v.len()
        invariant
            v@ == a@,
            w@ == b@,
            v.len() == w.len(),
            i <= v.len(),
            forall|k: int| 0 <= k < i ==> ascii_lower(v@[k]) == ascii_lower(w@[k]),
        decreases v.len() - i,
    {
        if to_ascii_lower_char(v[i]) != to_ascii_lower_char(w[i]) {
            assert(ascii_lower_seq(a@)[i as int] != ascii_lower_seq(b@)[i as int]);
            return false;
        }
        i = i + 1;
    }
    assert(ascii_lower_seq(a@) =~= ascii_lower_seq(b@));
    true
}


// ---------------------------------------------------------------------------
// Decimal numbers
// ---------------------------------------------------------------------------

/// The decimal digit character for `d < 10`.
pub open spec fn digit_char(d: nat) -> char {
    (('0' as u32) + d) as char
}

/// Decimal representation of `n` without leading zeros (`n.to_string()`).
pub open spec fn decimal(n: nat) -> Seq<char>
    decreases n,
{
    if n < 10 {
        seq![digit_char(n)]
    } else {
        decimal(n / 10).push(digit_char(n % 10))
    }
}

/// Decimal representation of an unsigned integer.
pub fn decimal_string(n: u64) -> (res: String)
    ensures
        res@ == decimal(n as nat),
    decreases n,
{
    let d: u32 = (n % 10) as u32;
    let c = char_from_u32_ascii(48 + d);
    if n < 10 {
        let mut s = String::new();
        push_char(&mut s, c);
        assert(s@ =~= seq![digit_char(n as nat)]);
        s
    } else {
        let mut s = decimal_string(n / 10);
        push_char(&mut s, c);
        s
    }
}

// ---------------------------------------------------------------------------
// Lines
// ---------------------------------------------------------------------------

/// The lines of a string (`str::lines`), as owned strings.
pub fn lines_vec(s: &str) -> (res: Vec<String>)
    ensures
        views(res@) == lines_of(s@),
{
    let v = chars_of(s);
    let parts = split_chars(&v, '\n');
    let ghost sp = split_on(s@, '\n');
    proof {
        lemma_split_len(s@, '\n');
    }
    let last_idx = parts.len() - 1;
    let n = if parts[last_idx].len() == 0 { last_idx } else { parts.len() };
    let ghost kept = if sp.last().len() == 0 { sp.drop_last() } else { sp };
    let ghost target = lines_of(s@);
    assert(n == kept.len());
    let mut out: Vec<String> = Vec::new();
    let mut i: usize = 0;
    while i < n
        invariant
            n <= parts.len(),
            n == kept.len(),
            parts@.len() == sp.len(),
            forall|k: int| 0 <= k < parts@.len() ==> #[trigger] parts@[k]@ == sp[k],
            kept == (if sp.last().len() == 0 { sp.drop_last() } else { sp }),
            target == kept.map_values(|l: Seq<char>| strip_cr(l)),
            i <= n,
            views(out@) == target.subrange(0, i as int),
        decreases n - i,
    {
        let line = &parts[i];
        assert(line@ == kept[i as int]);
        let mut hi = line.len();
        if hi > 0 && line[hi - 1] == '\r' {
            hi = hi - 1;
        }
        assert(line@.subrange(0, hi as int) == strip_cr(line@)) by {
            if line@.len() > 0 && line@.last() == '\r' {
                assert(line@.subrange(0, hi as int) =~= line@.drop_last());
            } else {
                assert(line@.subrange(0, hi as int) =~= line@);
            }
        }
        let piece = string_from_range(line, 0, hi);
        assert(piece@ == target[i as int]);
        let ghost before = out@;
        out.push(piece);
        assert(out@ == before.push(piece));
        assert(views(out@) =~= views(before).push(piece@));
        i = i + 1;
        assert(views(out@) =~= target.subrange(0, i as int));
    }
    assert(target.subrange(0, n as int) =~= target);
    out
}

/// The view of an optional string.
pub open spec fn opt_str_view(o: Option<String>) -> Option<Seq<char>> {
    match o {
        Some(s) => Some(s@),
        None => None,
    }
}

/// A copy of an optional string.
pub fn clone_opt_string(o: &Option<String>) -> (res: Option<String>)
    ensures
        opt_str_view(res) == opt_str_view(*o),
{
    match o {
        Some(s) => Some(s.clone()),
        None => None,
    }
}

/// A copy of a list of strings.
pub fn clone_strings(v: &Vec<String>) -> (res: Vec<String>)
    ensures
        views(res@) == views(v@),
{
    let mut out: Vec<String> = Vec::new();
    let mut i: usize = 0;
    while i < v.len()
        invariant
            i <= v@.len(),
            views(out@) == views(v@.subrange(0, i as int)),
        decreases v.len() - i,
    {
        let s = v[i].clone();
        let ghost before = out@;
        out.push(s);
        i = i + 1;
        assert(views(out@) =~= views(before).push(s@));
        assert(views(v@.subrange(0, i as int)) =~= views(v@.subrange(0, i - 1)).push(v@[i - 1]@));
    }
    assert(v@.subrange(0, v@.len() as int) =~= v@);
    out
}

/// The whitespace-separated words of `s` (`str::split_whitespace`).
pub open spec fn words(s: Seq<char>) -> Seq<Seq<char>>
    decreases s.len(),
{
    if s.len() == 0 {
        Seq::empty()
    } else {
        let w = words(s.drop_last());
        let c = s.last();
        if is_ws(c) {
            w
        } else if s.len() >= 2 && !is_ws(s[s.len() - 2]) {
            w.update(w.len() - 1, w.last().push(c))
        } else {
            w.push(seq![c])
        }
    }
}

/// A string ending in a non-whitespace character has a word.
pub proof fn lemma_words_nonempty(s: Seq<char>)
    requires
        s.len() > 0,
        !is_ws(s.last()),
    ensures
        words(s).len() > 0,
    decreases s.len(),
{
    if s.len() >= 2 && !is_ws(s[s.len() - 2]) {
        assert(s.drop_last().last() == s[s.len() - 2]);
        lemma_words_nonempty(s.drop_last());
    }
}

/// The words of a string (`str::split_whitespace`), as owned strings.
pub fn split_whitespace_vec(s: &str) -> (res: Vec<String>)
    ensures
        views(res@) == words(s@),
{
    let v = chars_of(s);
    let mut out: Vec<String> = Vec::new();
    let mut cur: Vec<char> = Vec::new();
    let mut i: usize = 0;
    assert(v@.subrange(0, 0) =~= Seq::<char>::empty());
    while i < v.len()
        invariant
            i <= v.len(),
            v@ == s@,
            cur@.len() > 0 <==> (i > 0 && !is_ws(v@[i - 1])),
            words(v@.subrange(0, i as int)) == if cur@.len() > 0 {
                views(out@).push(cur@)
            } else {
                views(out@)
            },
        decreases v.len() - i,
    {
        let c = v[i];
        let ghost pre = v@.subrange(0, i as int);
        let ghost next = v@.subrange(0, i + 1);
        assert(next.drop_last() =~= pre);
        assert(next.last() == c);
        if is_whitespace_char(c) {
            assert(words(next) == words(pre));
            if cur.len() > 0 {
                let w = string_of(&cur);
                let ghost before = out@;
                out.push(w);
                assert(views(out@) =~= views(before).push(cur@));
                cur = Vec::new();
            }
        } else {
            if cur.len() > 0 {
                assert(next[next.len() - 2] == v@[i - 1]);
            } else if i > 0 {
                assert(next[next.len() - 2] == v@[i - 1]);
            }
            let ghost old_cur = cur@;
            cur.push(c);
            proof {
                if old_cur.len() > 0 {
                    let w = words(pre);
                    assert(w =~= views(out@).push(old_cur));
                    assert(words(next) =~= views(out@).push(cur@));
                } else {
                    assert(cur@ =~= seq![c]);
                    assert(words(next) =~= words(pre).push(seq![c]));
                }
            }
        }
        i = i + 1;
    }
    assert(v@.subrange(0, v@.len() as int) =~= v@);
    if cur.len() > 0 {
        let w = string_of(&cur);
        let ghost before = out@;
        out.push(w);
        assert(views(out@) =~= views(before).push(cur@));
    }
    out
}

/// Runs of whitespace collapsed to single spaces, with none at either end:
/// the words joined by a space.
pub fn join_words(s: &str) -> (res: String)
    ensures
        res@ == join_with(words(s@), seq![' ']),
{
    let ws = split_whitespace_vec(s);
    let ghost w = views(ws@);
    let mut out = String::new();
    let mut i: usize = 0;
    while i < ws.len()
        invariant
            i <= ws.len(),
            w == views(ws@),
            out@ == join_with(w.subrange(0, i as int), seq![' ']),
        decreases ws.len() - i,
    {
        if i > 0 {
            push_char(&mut out, ' ');
        }
        push_str(&mut out, ws[i].as_str());
        proof {
            assert(w.subrange(0, i + 1) =~= w.subrange(0, i as int).push(w[i as int]));
            assert(w.subrange(0, i + 1).drop_last() =~= w.subrange(0, i as int));
            if i == 0 {
                assert(w.subrange(0, 1).len() == 1);
            }
        }
        i = i + 1;
    }
    assert(w.subrange(0, w.len() as int) =~= w);
    out
}

/// `split_on` always yields at least one piece.
pub proof fn lemma_split_len(s: Seq<char>, sep: char)
    ensures
        split_on(s, sep).len() >= 1,
    decreases s.len(),
{
    if s.len() > 0 {
        lemma_split_len(s.drop_last(), sep);
    }
}

} // verus!
