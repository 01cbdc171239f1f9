//! Conversion of parsed documents into Markdown.

use vstd::prelude::*;

use crate::parser::{ContentNode, FeedItem, PageMetadata, ParsedDocument};
use crate::text::{
    concat_all, decimal, trim_end_str, decimal_string, lines_vec, trim_str, views,
    chars_of, is_blank, join_with, lines_of, push_char, push_str, skip_ws_backward, split_chars,
    split_on, string_from_range, string_of, strip_cr, trim, trim_end, utf8_len, byte_len,
};

verus! {

/// Configuration for Markdown output.
#[derive(Debug, Clone)]
pub struct ConverterConfig {
    /// Include YAML frontmatter with metadata.
    pub include_frontmatter: bool,
    /// Include a footer with source attribution.
    pub include_footer: bool,
    /// Maximum consecutive blank lines.
    pub max_blank_lines: usize,
}

impl Default for ConverterConfig {
    fn default() -> (res: Self)
        ensures
            res.include_frontmatter,
            res.include_footer,
            res.max_blank_lines == 2,
    {
        ConverterConfig { include_frontmatter: true, include_footer: true, max_blank_lines: 2 }
    }
}

// ---------------------------------------------------------------------------
// Markdown escaping
// ---------------------------------------------------------------------------

/// The characters that `escape_markdown` prefixes with a backslash.
pub open spec fn is_md_special(c: char) -> bool {
    c == '\\' || c == '*' || c == '_' || c == '[' || c == ']' || c == '(' || c == ')' || c == '#'
        || c == '+' || c == '-' || c == '.' || c == '!' || c == '|' || c == '`'
}

/// `text` with every Markdown-special character preceded by a backslash.
pub open spec fn escaped_md(s: Seq<char>) -> Seq<char>
    decreases s.len(),
{
    if s.len() == 0 {
        Seq::<char>::empty()
    } else if is_md_special(s.last()) {
        escaped_md(s.drop_last()).push('\\').push(s.last())
    } else {
        escaped_md(s.drop_last()).push(s.last())
    }
}

/// Escape special Markdown characters in text content:
/// `\`, `*`, `_`, `[`, `]`, `(`, `)`, `#`, `+`, `-`, `.`, `!`, `|` and `` ` ``.
pub fn escape_markdown(text: &str) -> (res: String)
    ensures
        res@ == escaped_md(text@),
{
    let v = chars_of(text);
    let mut out = String::new();
    let mut i: usize = 0;
    while i < v.len()
        invariant
            i <= v.len(),
            v@ == text@,
            out@ == escaped_md(v@.subrange(0, i as int)),
        decreases v.len() - i,
    {
        let c = v[i];
        assert(v@.subrange(0, i + 1).drop_last() =~= v@.subrange(0, i as int));
        if c == '\\' || c == '*' || c == '_' || c == '[' || c == ']' || c == '(' || c == ')'
            || c == '#' || c == '+' || c == '-' || c == '.' || c == '!' || c == '|' || c == '`' {
            push_char(&mut out, '\\');
        }
        push_char(&mut out, c);
        i = i + 1;
    }
    assert(v@.subrange(0, v@.len() as int) =~= v@);
    out
}

// ---------------------------------------------------------------------------
// HTML tag stripping
// ---------------------------------------------------------------------------

/// The text kept by `strip_html_tags` and whether it ends inside a tag: a
/// `<` opens a tag, a `>` closes an open tag, and characters inside a tag are
/// dropped; a `>` outside any tag is kept.
pub open spec fn strip_tags_state(s: Seq<char>) -> (Seq<char>, bool)
    decreases s.len(),
{
    if s.len() == 0 {
        (Seq::<char>::empty(), false)
    } else {
        let (out, inside) = strip_tags_state(s.drop_last());
        let c = s.last();
        if c == '<' {
            (out, true)
        } else if c == '>' {
            if inside {
                (out, false)
            } else {
                (out.push(c), false)
            }
        } else if !inside {
            (out.push(c), false)
        } else {
            (out, true)
        }
    }
}

/// The text of `s` with HTML tags removed.
pub open spec fn stripped_tags(s: Seq<char>) -> Seq<char> {
    strip_tags_state(s).0
}

/// Remove any remaining HTML tags (`<p>`, `</p>`, `<br/>`,
/// `<div class="foo">`, ...) from text.
pub fn strip_html_tags(text: &str) -> (res: String)
    ensures
        res@ == stripped_tags(text@),
{
    let v = chars_of(text);
    let mut out = String::new();
    let mut inside = false;
    let mut i: usize = 0;
    while i < v.len()
        invariant
            i <= v.len(),
            v@ == text@,
            (out@, inside) == strip_tags_state(v@.subrange(0, i as int)),
        decreases v.len() - i,
    {
        let c = v[i];
        assert(v@.subrange(0, i + 1).drop_last() =~= v@.subrange(0, i as int));
        if c == '<' {
            inside = true;
        } else if c == '>' {
            if inside {
                inside = false;
            } else {
                push_char(&mut out, c);
            }
        } else if !inside {
            push_char(&mut out, c);
        }
        i = i + 1;
    }
    assert(v@.subrange(0, v@.len() as int) =~= v@);
    out
}

// ---------------------------------------------------------------------------
// Blank-line collapsing
// ---------------------------------------------------------------------------

/// The lines `collapse_blank_lines` looks at: the pieces between `\n`, with
/// a final empty piece (after a trailing newline) left out.
pub open spec fn collapse_input_lines(text: Seq<char>) -> Seq<Seq<char>> {
    let parts = split_on(text, '\n');
    if parts.last().len() == 0 {
        parts.drop_last()
    } else {
        parts
    }
}

/// Output so far and the current run of blank lines after processing
/// `lines`: a non-blank line is copied with its newline and resets the run;
/// a blank line extends the run and adds a newline while the run is at most
/// `max`.
pub open spec fn collapse_state(lines: Seq<Seq<char>>, max: nat) -> (Seq<char>, nat)
    decreases lines.len(),
{
    if lines.len() == 0 {
        (Seq::<char>::empty(), 0)
    } else {
        let (out, run) = collapse_state(lines.drop_last(), max);
        let line = lines.last();
        if trim(line).len() == 0 {
            if run + 1 <= max {
                (out.push('\n'), run + 1)
            } else {
                (out, run + 1)
            }
        } else {
            ((out + line).push('\n'), 0)
        }
    }
}

/// `text` with every run of blank lines shortened to at most `max` lines.
pub open spec fn collapsed_blank_lines(text: Seq<char>, max: nat) -> Seq<char> {
    collapse_state(collapse_input_lines(text), max).0
}

/// Collapse consecutive blank lines (lines holding only whitespace) in
/// `text` to at most `max` blank lines.
pub fn collapse_blank_lines(text: &str, max: usize) -> (res: String)
    ensures
        res@ == collapsed_blank_lines(text@, max as nat),
{
    let v = chars_of(text);
    let lines = split_chars(&v, '\n');
    let ghost parts = split_on(text@, '\n');
    let ghost input = collapse_input_lines(text@);
    proof {
        crate::text::lemma_split_len(text@, '\n');
    }
    let last_idx = lines.len() - 1;
    let n = if lines[last_idx].len() == 0 { last_idx } else { lines.len() };
    assert(n == input.len());
    let mut out = String::new();
    let mut run: usize = 0;
    let mut i: usize = 0;
    while i < n
        invariant
            n <= lines.len(),
            n == input.len(),
            lines@.len() == parts.len(),
            forall|k: int| 0 <= k < lines@.len() ==> #[trigger] lines@[k]@ == parts[k],
            input == (if parts.last().len() == 0 { parts.drop_last() } else { parts }),
            i <= n,
            run <= i,
            (out@, run as nat) == collapse_state(input.subrange(0, i as int), max as nat),
        decreases n - i,
    {
        assert(input.subrange(0, i + 1).drop_last() =~= input.subrange(0, i as int));
        assert(input[i as int] == parts[i as int]);
        let line = &lines[i];
        if is_blank(line) {
            if run + 1 <= max {
                push_char(&mut out, '\n');
            }
            run = run + 1;
        } else {
            let s = string_of(line);
            push_str(&mut out, s.as_str());
            push_char(&mut out, '\n');
            run = 0;
        }
        i = i + 1;
    }
    assert(input.subrange(0, n as int) =~= input);
    out
}

// ---------------------------------------------------------------------------
// Trailing whitespace
// ---------------------------------------------------------------------------

/// `text.lines().map(str::trim_end).join("\n")`.
pub open spec fn trimmed_lines(text: Seq<char>) -> Seq<char> {
    join_with(lines_of(text).map_values(|l: Seq<char>| trim_end(l)), seq!['\n'])
}

/// Trim trailing whitespace from each line of `text`; lines are rejoined
/// with `\n` and a final line ending is dropped.
pub fn trim_trailing_whitespace(text: &str) -> (res: String)
    ensures
        res@ == trimmed_lines(text@),
{
    let v = chars_of(text);
    let parts = split_chars(&v, '\n');
    let ghost sp = split_on(text@, '\n');
    proof {
        crate::text::lemma_split_len(text@, '\n');
    }
    let last_idx = parts.len() - 1;
    let n = if parts[last_idx].len() == 0 { last_idx } else { parts.len() };
    let ghost kept = if sp.last().len() == 0 { sp.drop_last() } else { sp };
    let ghost target = lines_of(text@).map_values(|l: Seq<char>| trim_end(l));
    assert(n == kept.len());
    assert(target.len() == n);
    let mut out = String::new();
    let mut i: usize = 0;
    while i < n
        invariant
            n <= parts.len(),
            n == kept.len(),
            parts@.len() == sp.len(),
            forall|k: int| 0 <= k < parts@.len() ==> #[trigger] parts@[k]@ == sp[k],
            kept == (if sp.last().len() == 0 { sp.drop_last() } else { sp }),
            target == kept.map_values(|l: Seq<char>| strip_cr(l)).map_values(
                |l: Seq<char>| trim_end(l),
            ),
            i <= n,
            out@ == join_with(target.subrange(0, i as int), seq!['\n']),
        decreases n - i,
    {
        let line = &parts[i];
        assert(line@ == kept[i as int]);
        let mut hi = line.len();
        if hi > 0 && line[hi - 1] == '\r' {
            hi = hi - 1;
        }
        assert(line@.subrange(0, hi as int) == strip_cr(line@)) by {
            if line@.len() > 0 && line@.last() == '\r' {
                assert(line@.subrange(0, hi as int) =~= line@.drop_last());
            } else {
                assert(line@.subrange(0, hi as int) =~= line@);
            }
        }
        let j = skip_ws_backward(line, 0, hi);
        let piece = string_from_range(line, 0, j);
        assert(piece@ == target[i as int]);
        if i > 0 {
            push_char(&mut out, '\n');
        }
        push_str(&mut out, piece.as_str());
        assert(target.subrange(0, i + 1).drop_last() =~= target.subrange(0, i as int));
        if i == 0 {
            assert(target.subrange(0, 1)[0] == piece@);
            assert(out@ =~= piece@);
        }
        i = i + 1;
    }
    assert(target.subrange(0, n as int) =~= target);
    out
}

// ---------------------------------------------------------------------------
// Tables
// ---------------------------------------------------------------------------

/// The larger of two naturals.
pub open spec fn max_nat(a: nat, b: nat) -> nat {
    if a >= b {
        a
    } else {
        b
    }
}

/// The widest cell (in bytes) in column `i` over all rows that have one.
pub open spec fn rows_width(rows: Seq<Seq<Seq<char>>>, i: int) -> nat
    decreases rows.len(),
{
    if rows.len() == 0 {
        0
    } else {
        let r = rows.last();
        let w = if i < r.len() {
            utf8_len(r[i])
        } else {
            0
        };
        max_nat(rows_width(rows.drop_last(), i), w)
    }
}

/// Width of column `i`: its widest cell, header included, and at least 3.
pub open spec fn column_width(headers: Seq<Seq<char>>, rows: Seq<Seq<Seq<char>>>, i: int) -> nat {
    max_nat(max_nat(utf8_len(headers[i]), rows_width(rows, i)), 3)
}

/// `n` copies of `c`.
pub open spec fn repeat_char(c: char, n: nat) -> Seq<char> {
    Seq::new(n, |k: int| c)
}

/// `s` padded with spaces on the right to `w` characters (`{:<w$}`).
pub open spec fn pad_right(s: Seq<char>, w: nat) -> Seq<char> {
    if s.len() >= w {
        s
    } else {
        s + repeat_char(' ', (w - s.len()) as nat)
    }
}

/// Cell `i` of a row, or empty when the row is shorter.
pub open spec fn cell_at(row: Seq<Seq<char>>, i: int) -> Seq<char> {
    if 0 <= i < row.len() {
        row[i]
    } else {
        Seq::<char>::empty()
    }
}

/// One table line: `| cell | cell |` with each cell padded to its width.
pub open spec fn table_line(cells: Seq<Seq<char>>, widths: Seq<nat>) -> Seq<char> {
    seq!['|'] + concat_all(
        Seq::new(
            widths.len(),
            |i: int| seq![' '] + pad_right(cell_at(cells, i), widths[i]) + seq![' ', '|'],
        ),
    ) + seq!['\n']
}

/// The header separator line: `|-----|---|`.
pub open spec fn separator_line(widths: Seq<nat>) -> Seq<char> {
    seq!['|'] + concat_all(
        Seq::new(widths.len(), |i: int| seq!['-'] + repeat_char('-', widths[i]) + seq!['-', '|']),
    ) + seq!['\n']
}

/// The character views of table rows.
pub open spec fn rows_view(rows: Seq<Vec<String>>) -> Seq<Seq<Seq<char>>> {
    rows.map_values(|r: Vec<String>| views(r@))
}

/// The column widths of a table.
pub open spec fn table_widths(headers: Seq<Seq<char>>, rows: Seq<Seq<Seq<char>>>) -> Seq<nat> {
    Seq::new(headers.len(), |i: int| column_width(headers, rows, i))
}

/// A GFM table: header line, separator line, one line per row (cells beyond
/// the header count dropped, missing cells empty); empty without headers.
pub open spec fn table_markdown(headers: Seq<Seq<char>>, rows: Seq<Seq<Seq<char>>>) -> Seq<char> {
    if headers.len() == 0 {
        Seq::<char>::empty()
    } else {
        let widths = table_widths(headers, rows);
        table_line(headers, widths) + separator_line(widths) + concat_all(
            rows.map_values(|r: Seq<Seq<char>>| table_line(r, widths)),
        )
    }
}

/// Append `n` copies of `c`.
fn push_repeat(out: &mut String, c: char, n: usize)
    ensures
        final(out)@ == old(out)@ + repeat_char(c, n as nat),
{
    let mut k: usize = 0;
    while k < n
        invariant
            k <= n,
            out@ == old(out)@ + repeat_char(c, k as nat),
        decreases n - k,
    {
        push_char(out, c);
        k = k + 1;
        assert(out@ =~= old(out)@ + repeat_char(c, k as nat));
    }
}

/// Width of column `col` of the table.
fn compute_column_width(headers: &[String], rows: &[Vec<String>], col: usize) -> (res: usize)
    requires
        col < headers@.len(),
    ensures
        res == column_width(views(headers@), rows_view(rows@), col as int),
{
    let ghost rv = rows_view(rows@);
    let mut w = byte_len(headers[col].as_str());
    let mut r: usize = 0;
    while r < rows.len()
        invariant
            col < headers@.len(),
            rv == rows_view(rows@),
            r <= rows@.len(),
            w == max_nat(utf8_len(headers@[col as int]@), rows_width(rv.subrange(0, r as int), col as int)),
        decreases rows.len() - r,
    {
        assert(rv.subrange(0, r + 1).drop_last() =~= rv.subrange(0, r as int));
        assert(rv.subrange(0, r + 1).last() == views(rows@[r as int]@));
        let row = &rows[r];
        if col < row.len() {
            let cw = byte_len(row[col].as_str());
            if cw > w {
                w = cw;
            }
        }
        r = r + 1;
    }
    assert(rv.subrange(0, rows@.len() as int) =~= rv);
    if w < 3 {
        w = 3;
    }
    w
}

/// Append one table line for `cells` with the given widths.
fn push_table_line(out: &mut String, cells: &Vec<String>, widths: &Vec<usize>)
    ensures
        final(out)@ == old(out)@ + table_line(
            views(cells@),
            widths@.map_values(|w: usize| w as nat),
        ),
{
    let ghost ws = widths@.map_values(|w: usize| w as nat);
    let ghost cv = views(cells@);
    let ghost pieces = Seq::new(
        ws.len(),
        |i: int| seq![' '] + pad_right(cell_at(cv, i), ws[i]) + seq![' ', '|'],
    );
    push_char(out, '|');
    let ghost start = out@;
    let mut i: usize = 0;
    while i < widths.len()
        invariant
            i <= widths@.len(),
            ws == widths@.map_values(|w: usize| w as nat),
            cv == views(cells@),
            pieces == Seq::new(
                ws.len(),
                |i: int| seq![' '] + pad_right(cell_at(cv, i), ws[i]) + seq![' ', '|'],
            ),
            out@ == start + concat_all(pieces.subrange(0, i as int)),
        decreases widths.len() - i,
    {
        assert(pieces.subrange(0, i + 1).drop_last() =~= pieces.subrange(0, i as int));
        push_char(out, ' ');
        let mut n_chars: usize = 0;
        if i < cells.len() {
            let cv_i = chars_of(cells[i].as_str());
            n_chars = cv_i.len();
            push_str(out, cells[i].as_str());
        }
        assert(cell_at(cv, i as int).len() == n_chars);
        if n_chars < widths[i] {
            push_repeat(out, ' ', widths[i] - n_chars);
        }
        push_char(out, ' ');
        push_char(out, '|');
        assert(out@ =~= start + concat_all(pieces.subrange(0, i as int)) + pieces[i as int]);
        i = i + 1;
    }
    assert(pieces.subrange(0, ws.len() as int) =~= pieces);
    push_char(out, '\n');
}

/// Format a GFM (GitHub Flavored Markdown) table with aligned columns:
///
/// ```text
/// | Header1 | Header2 |
/// |---------|---------|
/// | Cell1   | Cell2   |
/// ```
pub fn format_table(headers: &[String], rows: &[Vec<String>]) -> (res: String)
    ensures
        res@ == table_markdown(views(headers@), rows_view(rows@)),
{
    let mut out = String::new();
    if headers.len() == 0 {
        return out;
    }
    let ghost hv = views(headers@);
    let ghost rv = rows_view(rows@);
    let mut widths: Vec<usize> = Vec::new();
    let mut c: usize = 0;
    while c < headers.len()
        invariant
            c <= headers@.len(),
            hv == views(headers@),
            rv == rows_view(rows@),
            widths@.len() == c,
            forall|k: int| 0 <= k < c ==> #[trigger] widths@[k] == column_width(hv, rv, k),
        decreases headers.len() - c,
    {
        let w = compute_column_width(headers, rows, c);
        widths.push(w);
        c = c + 1;
    }
    let ghost ws = widths@.map_values(|w: usize| w as nat);
    assert(ws =~= table_widths(hv, rv));
    let header_vec = slice_to_vec(headers);
    push_table_line(&mut out, &header_vec, &widths);
    let ghost after_header = out@;
    push_char(&mut out, '|');
    let ghost sep_start = out@;
    let ghost sep_pieces = Seq::new(ws.len(), |i: int| seq!['-'] + repeat_char('-', ws[i]) + seq!['-', '|']);
    let mut i: usize = 0;
    while i < widths.len()
        invariant
            i <= widths@.len(),
            ws == widths@.map_values(|w: usize| w as nat),
            sep_pieces == Seq::new(ws.len(), |i: int| seq!['-'] + repeat_char('-', ws[i]) + seq!['-', '|']),
            out@ == sep_start + concat_all(sep_pieces.subrange(0, i as int)),
        decreases widths.len() - i,
    {
        assert(sep_pieces.subrange(0, i + 1).drop_last() =~= sep_pieces.subrange(0, i as int));
        push_char(&mut out, '-');
        push_repeat(&mut out, '-', widths[i]);
        push_char(&mut out, '-');
        push_char(&mut out, '|');
        assert(out@ =~= sep_start + concat_all(sep_pieces.subrange(0, i as int)) + sep_pieces[i as int]);
        i = i + 1;
    }
    assert(sep_pieces.subrange(0, ws.len() as int) =~= sep_pieces);
    push_char(&mut out, '\n');
    let ghost body_start = out@;
    let ghost row_pieces = rv.map_values(|r: Seq<Seq<char>>| table_line(r, ws));
    let mut r: usize = 0;
    while r < rows.len()
        invariant
            r <= rows@.len(),
            rv == rows_view(rows@),
            ws == widths@.map_values(|w: usize| w as nat),
            row_pieces == rv.map_values(|r: Seq<Seq<char>>| table_line(r, ws)),
            out@ == body_start + concat_all(row_pieces.subrange(0, r as int)),
        decreases rows.len() - r,
    {
        assert(row_pieces.subrange(0, r + 1).drop_last() =~= row_pieces.subrange(0, r as int));
        push_table_line(&mut out, &rows[r], &widths);
        assert(out@ =~= body_start + concat_all(row_pieces.subrange(0, r as int)) + row_pieces[r as int]);
        r = r + 1;
    }
    assert(row_pieces.subrange(0, rows@.len() as int) =~= row_pieces);
    out
}

/// A vector holding clones of the strings of a slice.
fn slice_to_vec(v: &[String]) -> (res: Vec<String>)
    ensures
        res@ == v@,
{
    let mut out: Vec<String> = Vec::new();
    let mut i: usize = 0;
    while i < v.len()
        invariant
            i <= v@.len(),
            out@ == v@.subrange(0, i as int),
        decreases v.len() - i,
    {
        out.push(v[i].clone());
        i = i + 1;
        assert(out@ =~= v@.subrange(0, i as int));
    }
    out
}

// ---------------------------------------------------------------------------
// Rendering of content nodes
// ---------------------------------------------------------------------------

/// Heading level clamped to `1..=6` (`u8::clamp(1, 6)`).
pub open spec fn clamp_level(level: u8) -> nat {
    if level < 1 {
        1
    } else if level > 6 {
        6
    } else {
        level as nat
    }
}

/// `- item` lines of an unordered list, then a blank line.
pub open spec fn unordered_list_markdown(items: Seq<Seq<char>>) -> Seq<char> {
    concat_all(items.map_values(|it: Seq<char>| "- "@ + it + seq!['\n'])) + seq!['\n']
}

/// `N. item` lines of an ordered list (numbered from 1), then a blank line.
pub open spec fn ordered_list_markdown(items: Seq<Seq<char>>) -> Seq<char> {
    concat_all(items.map(|i: int, it: Seq<char>| decimal((i + 1) as nat) + ". "@ + it + seq!['\n']))
        + seq!['\n']
}

/// `> line` for every line of the quote, then a blank line.
pub open spec fn blockquote_markdown(text: Seq<char>) -> Seq<char> {
    concat_all(lines_of(text).map_values(|l: Seq<char>| "> "@ + l + seq!['\n'])) + seq!['\n']
}

/// The character views of `(term, definition)` pairs.
pub open spec fn pair_views(v: Seq<(String, String)>) -> Seq<(Seq<char>, Seq<char>)> {
    v.map_values(|p: (String, String)| (p.0@, p.1@))
}

/// `**term:** definition` paragraphs.
pub open spec fn definition_list_markdown(items: Seq<(Seq<char>, Seq<char>)>) -> Seq<char> {
    concat_all(
        items.map_values(
            |p: (Seq<char>, Seq<char>)| "**"@ + p.0 + ":** "@ + p.1 + seq!['\n', '\n'],
        ),
    )
}

/// The Markdown rendering of one content node.
pub open spec fn node_markdown(node: ContentNode) -> Seq<char> {
    match node {
        ContentNode::Heading { level, text } => repeat_char('#', clamp_level(level)) + seq![' ']
            + trim(text@) + seq!['\n', '\n'],
        ContentNode::Paragraph(text) => if trim(text@).len() == 0 {
            seq!['\n']
        } else {
            trim(text@) + seq!['\n', '\n']
        },
        ContentNode::Link { text, href } => seq!['['] + text@ + "]("@ + href@ + seq![')'],
        ContentNode::Image { alt, src } => "!["@ + alt@ + "]("@ + src@ + ")\n\n"@,
        ContentNode::Bold(text) => "**"@ + text@ + "**"@,
        ContentNode::Italic(text) => seq!['*'] + text@ + seq!['*'],
        ContentNode::Code(text) => seq!['`'] + text@ + seq!['`'],
        ContentNode::CodeBlock { language, code } => "```"@ + (match language {
            Some(l) => l@,
            None => Seq::<char>::empty(),
        }) + seq!['\n'] + code@ + "\n```\n\n"@,
        ContentNode::UnorderedList(items) => unordered_list_markdown(views(items@)),
        ContentNode::OrderedList(items) => ordered_list_markdown(views(items@)),
        ContentNode::Blockquote(text) => blockquote_markdown(text@),
        ContentNode::Table { headers, rows } => table_markdown(views(headers@), rows_view(rows@))
            + seq!['\n'],
        ContentNode::HorizontalRule => "---\n\n"@,
        ContentNode::LineBreak => seq!['\n'],
        ContentNode::Strikethrough(text) => "~~"@ + text@ + "~~"@,
        ContentNode::DefinitionList(items) => definition_list_markdown(pair_views(items@)),
        ContentNode::Media { media_type, title, src } => "[Media: "@ + title@ + "]("@ + src@
            + ")\n\n"@,
        ContentNode::RawText(text) => text@,
    }
}

/// Append the lines of a list, each as `prefix(i) item\n`.
fn push_unordered(out: &mut String, items: &Vec<String>)
    ensures
        final(out)@ == old(out)@ + unordered_list_markdown(views(items@)),
{
    let ghost pieces = views(items@).map_values(|it: Seq<char>| "- "@ + it + seq!['\n']);
    let ghost start = old(out)@;
    let mut i: usize = 0;
    while i < items.len()
        invariant
            i <= items@.len(),
            pieces == views(items@).map_values(|it: Seq<char>| "- "@ + it + seq!['\n']),
            start == old(out)@,
            out@ == start + concat_all(pieces.subrange(0, i as int)),
        decreases items.len() - i,
    {
        assert(pieces.subrange(0, i + 1).drop_last() =~= pieces.subrange(0, i as int));
        push_str(out, "- ");
        push_str(out, items[i].as_str());
        push_char(out, '\n');
        assert(out@ =~= start + concat_all(pieces.subrange(0, i as int)) + pieces[i as int]);
        i = i + 1;
    }
    assert(pieces.subrange(0, items@.len() as int) =~= pieces);
    push_char(out, '\n');
}

fn push_ordered(out: &mut String, items: &Vec<String>)
    ensures
        final(out)@ == old(out)@ + ordered_list_markdown(views(items@)),
{
    let ghost pieces = views(items@).map(
        |i: int, it: Seq<char>| decimal((i + 1) as nat) + ". "@ + it + seq!['\n'],
    );
    let ghost start = old(out)@;
    let mut i: usize = 0;
    while i < items.len()
        invariant
            i <= items@.len(),
            pieces == views(items@).map(
                |i: int, it: Seq<char>| decimal((i + 1) as nat) + ". "@ + it + seq!['\n'],
            ),
            start == old(out)@,
            out@ == start + concat_all(pieces.subrange(0, i as int)),
        decreases items.len() - i,
    {
        assert(pieces.subrange(0, i + 1).drop_last() =~= pieces.subrange(0, i as int));
        let num = decimal_string((i as u64) + 1);
        push_str(out, num.as_str());
        push_str(out, ". ");
        push_str(out, items[i].as_str());
        push_char(out, '\n');
        assert(out@ =~= start + concat_all(pieces.subrange(0, i as int)) + pieces[i as int]);
        i = i + 1;
    }
    assert(pieces.subrange(0, items@.len() as int) =~= pieces);
    push_char(out, '\n');
}

fn push_blockquote(out: &mut String, text: &String)
    ensures
        final(out)@ == old(out)@ + blockquote_markdown(text@),
{
    let lines = lines_vec(text.as_str());
    let ghost pieces = lines_of(text@).map_values(|l: Seq<char>| "> "@ + l + seq!['\n']);
    let ghost start = old(out)@;
    let mut i: usize = 0;
    while i < lines.len()
        invariant
            i <= lines@.len(),
            views(lines@) == lines_of(text@),
            pieces == lines_of(text@).map_values(|l: Seq<char>| "> "@ + l + seq!['\n']),
            start == old(out)@,
            out@ == start + concat_all(pieces.subrange(0, i as int)),
        decreases lines.len() - i,
    {
        assert(pieces.subrange(0, i + 1).drop_last() =~= pieces.subrange(0, i as int));
        assert(lines@[i as int]@ == lines_of(text@)[i as int]);
        push_str(out, "> ");
        push_str(out, lines[i].as_str());
        push_char(out, '\n');
        assert(out@ =~= start + concat_all(pieces.subrange(0, i as int)) + pieces[i as int]);
        i = i + 1;
    }
    assert(pieces.subrange(0, lines@.len() as int) =~= pieces);
    push_char(out, '\n');
}

fn push_definitions(out: &mut String, items: &Vec<(String, String)>)
    ensures
        final(out)@ == old(out)@ + definition_list_markdown(pair_views(items@)),
{
    let ghost pieces = pair_views(items@).map_values(
        |p: (Seq<char>, Seq<char>)| "**"@ + p.0 + ":** "@ + p.1 + seq!['\n', '\n'],
    );
    let ghost start = old(out)@;
    let mut i: usize = 0;
    while i < items.len()
        invariant
            i <= items@.len(),
            pieces == pair_views(items@).map_values(
                |p: (Seq<char>, Seq<char>)| "**"@ + p.0 + ":** "@ + p.1 + seq!['\n', '\n'],
            ),
            start == old(out)@,
            out@ == start + concat_all(pieces.subrange(0, i as int)),
        decreases items.len() - i,
    {
        assert(pieces.subrange(0, i + 1).drop_last() =~= pieces.subrange(0, i as int));
        push_str(out, "**");
        push_str(out, items[i].0.as_str());
        push_str(out, ":** ");
        push_str(out, items[i].1.as_str());
        push_char(out, '\n');
        push_char(out, '\n');
        assert(out@ =~= start + concat_all(pieces.subrange(0, i as int)) + pieces[i as int]);
        i = i + 1;
    }
    assert(pieces.subrange(0, items@.len() as int) =~= pieces);
}

/// Render a single content node into its Markdown representation.
pub fn render_node(node: &ContentNode) -> (res: String)
    ensures
        res@ == node_markdown(*node),
{
    let mut out = String::new();
    match node {
        ContentNode::Heading { level, text } => {
            let lv: u8 = if *level < 1 {
                1
            } else if *level > 6 {
                6
            } else {
                *level
            };
            assert(lv as nat == clamp_level(*level));
            push_repeat(&mut out, '#', lv as usize);
            push_char(&mut out, ' ');
            let t = trim_str(text.as_str());
            push_str(&mut out, t.as_str());
            push_char(&mut out, '\n');
            push_char(&mut out, '\n');
            assert(out@ =~= node_markdown(*node));
        },
        ContentNode::Paragraph(text) => {
            let t = trim_str(text.as_str());
            let tv = chars_of(t.as_str());
            if tv.len() == 0 {
                push_char(&mut out, '\n');
            } else {
                push_str(&mut out, t.as_str());
                push_char(&mut out, '\n');
                push_char(&mut out, '\n');
            }
            assert(out@ =~= node_markdown(*node));
        },
        ContentNode::Link { text, href } => {
            push_char(&mut out, '[');
            push_str(&mut out, text.as_str());
            push_str(&mut out, "](");
            push_str(&mut out, href.as_str());
            push_char(&mut out, ')');
            assert(out@ =~= node_markdown(*node));
        },
        ContentNode::Image { alt, src } => {
            push_str(&mut out, "![");
            push_str(&mut out, alt.as_str());
            push_str(&mut out, "](");
            push_str(&mut out, src.as_str());
            push_str(&mut out, ")\n\n");
            assert(out@ =~= node_markdown(*node));
        },
        ContentNode::Bold(text) => {
            push_str(&mut out, "**");
            push_str(&mut out, text.as_str());
            push_str(&mut out, "**");
            assert(out@ =~= node_markdown(*node));
        },
        ContentNode::Italic(text) => {
            push_char(&mut out, '*');
            push_str(&mut out, text.as_str());
            push_char(&mut out, '*');
            assert(out@ =~= node_markdown(*node));
        },
        ContentNode::Code(text) => {
            push_char(&mut out, '`');
            push_str(&mut out, text.as_str());
            push_char(&mut out, '`');
            assert(out@ =~= node_markdown(*node));
        },
        ContentNode::CodeBlock { language, code } => {
            push_str(&mut out, "```");
            match language {
                Some(l) => push_str(&mut out, l.as_str()),
                None => {},
            }
            push_char(&mut out, '\n');
            push_str(&mut out, code.as_str());
            push_str(&mut out, "\n```\n\n");
            assert(out@ =~= node_markdown(*node));
        },
        ContentNode::UnorderedList(items) => {
            push_unordered(&mut out, items);
            assert(out@ =~= node_markdown(*node));
        },
        ContentNode::OrderedList(items) => {
            push_ordered(&mut out, items);
            assert(out@ =~= node_markdown(*node));
        },
        ContentNode::Blockquote(text) => {
            push_blockquote(&mut out, text);
            assert(out@ =~= node_markdown(*node));
        },
        ContentNode::Table { headers, rows } => {
            let t = format_table(headers.as_slice(), rows.as_slice());
            push_str(&mut out, t.as_str());
            push_char(&mut out, '\n');
            assert(out@ =~= node_markdown(*node));
        },
        ContentNode::HorizontalRule => {
            push_str(&mut out, "---\n\n");
            assert(out@ =~= node_markdown(*node));
        },
        ContentNode::LineBreak => {
            push_char(&mut out, '\n');
            assert(out@ =~= node_markdown(*node));
        },
        ContentNode::Strikethrough(text) => {
            push_str(&mut out, "~~");
            push_str(&mut out, text.as_str());
            push_str(&mut out, "~~");
            assert(out@ =~= node_markdown(*node));
        },
        ContentNode::DefinitionList(items) => {
            push_definitions(&mut out, items);
            assert(out@ =~= node_markdown(*node));
        },
        ContentNode::Media { media_type: _, title, src } => {
            push_str(&mut out, "[Media: ");
            push_str(&mut out, title.as_str());
            push_str(&mut out, "](");
            push_str(&mut out, src.as_str());
            push_str(&mut out, ")\n\n");
            assert(out@ =~= node_markdown(*node));
        },
        ContentNode::RawText(text) => {
            push_str(&mut out, text.as_str());
            assert(out@ =~= node_markdown(*node));
        },
    }
    out
}

// ---------------------------------------------------------------------------
// Frontmatter
// ---------------------------------------------------------------------------

/// Whether a YAML value must be written in double quotes: it holds one of
/// `:`, `#`, `'`, `"` or a newline, starts or ends with a space, or starts
/// with one of `{ [ * & ! % @` and backtick.
pub open spec fn yaml_needs_quotes(v: Seq<char>) -> bool {
    ||| v.contains(':')
    ||| v.contains('#')
    ||| v.contains('\'')
    ||| v.contains('"')
    ||| v.contains('\n')
    ||| (v.len() > 0 && (v[0] == ' ' || v[0] == '{' || v[0] == '[' || v[0] == '*' || v[0] == '&'
        || v[0] == '!' || v[0] == '%' || v[0] == '@' || v[0] == '`'))
    ||| (v.len() > 0 && v.last() == ' ')
}

/// `v` with backslashes doubled and double quotes backslash-escaped.
pub open spec fn yaml_quote_body(v: Seq<char>) -> Seq<char>
    decreases v.len(),
{
    if v.len() == 0 {
        Seq::<char>::empty()
    } else if v.last() == '\\' || v.last() == '"' {
        yaml_quote_body(v.drop_last()).push('\\').push(v.last())
    } else {
        yaml_quote_body(v.drop_last()).push(v.last())
    }
}

/// A YAML scalar for `v`: quoted and escaped when it needs quotes.
pub open spec fn yaml_escaped(v: Seq<char>) -> Seq<char> {
    if yaml_needs_quotes(v) {
        seq!['"'] + yaml_quote_body(v) + seq!['"']
    } else {
        v
    }
}

/// `key: value\n` when the field is present, nothing otherwise.
pub open spec fn optional_field(key: Seq<char>, value: Option<Seq<char>>) -> Seq<char> {
    match value {
        Some(v) => key + v + seq!['\n'],
        None => Seq::<char>::empty(),
    }
}

/// The view of an optional string.
pub open spec fn opt_view(o: Option<String>) -> Option<Seq<char>> {
    match o {
        Some(s) => Some(s@),
        None => None,
    }
}

/// The view of an optional string, YAML-escaped.
pub open spec fn opt_yaml(o: Option<String>) -> Option<Seq<char>> {
    match o {
        Some(s) => Some(yaml_escaped(s@)),
        None => None,
    }
}

/// YAML frontmatter: `url`, then the title, description and author
/// (escaped), the published date, language and canonical URL, each when
/// present, between `---` lines.
pub open spec fn frontmatter(url: Seq<char>, meta: PageMetadata) -> Seq<char> {
    "---\n"@ + "url: "@ + url + seq!['\n'] + optional_field("title: "@, opt_yaml(meta.title))
        + optional_field("description: "@, opt_yaml(meta.description)) + optional_field(
        "author: "@,
        opt_yaml(meta.author),
    ) + optional_field("published: "@, opt_view(meta.published_date)) + optional_field(
        "language: "@,
        opt_view(meta.language),
    ) + optional_field("canonical: "@, opt_view(meta.canonical_url)) + "---\n"@
}

/// Whether the sequence contains `c`.
fn has_char(v: &Vec<char>, c: char) -> (res: bool)
    ensures
        res == v@.contains(c),
{
    let mut i: usize = 0;
    while i < v.len()
        invariant
            i <= v.len(),
            forall|k: int| 0 <= k < i ==> v@[k] != c,
        decreases v.len() - i,
    {
        if v[i] == c {
            return true;
        }
        i = i + 1;
    }
    false
}

/// Escape a YAML value string if it contains special characters: it is then
/// wrapped in double quotes with internal backslashes and double quotes
/// escaped.
pub fn yaml_escape(value: &str) -> (res: String)
    ensures
        res@ == yaml_escaped(value@),
{
    let v = chars_of(value);
    let n = v.len();
    let needs = has_char(&v, ':') || has_char(&v, '#') || has_char(&v, '\'') || has_char(&v, '"')
        || has_char(&v, '\n') || (n > 0 && (v[0] == ' ' || v[0] == '{' || v[0] == '[' || v[0]
        == '*' || v[0] == '&' || v[0] == '!' || v[0] == '%' || v[0] == '@' || v[0] == '`')) || (n
        > 0 && v[n - 1] == ' ');
    if !needs {
        return string_of(&v);
    }
    let mut out = String::new();
    push_char(&mut out, '"');
    let ghost start = out@;
    let mut i: usize = 0;
    while i < n
        invariant
            n == v@.len(),
            i <= n,
            start == seq!['"'],
            out@ == start + yaml_quote_body(v@.subrange(0, i as int)),
        decreases n - i,
    {
        assert(v@.subrange(0, i + 1).drop_last() =~= v@.subrange(0, i as int));
        let c = v[i];
        if c == '\\' || c == '"' {
            push_char(&mut out, '\\');
        }
        push_char(&mut out, c);
        i = i + 1;
        assert(out@ =~= start + yaml_quote_body(v@.subrange(0, i as int)));
    }
    assert(v@.subrange(0, n as int) =~= v@);
    push_char(&mut out, '"');
    out
}

fn push_optional(out: &mut String, key: &str, value: &Option<String>, escape: bool)
    ensures
        final(out)@ == old(out)@ + optional_field(
            key@,
            if escape {
                opt_yaml(*value)
            } else {
                opt_view(*value)
            },
        ),
{
    match value {
        Some(v) => {
            push_str(out, key);
            if escape {
                let e = yaml_escape(v.as_str());
                push_str(out, e.as_str());
            } else {
                push_str(out, v.as_str());
            }
            push_char(out, '\n');
        },
        None => {},
    }
}

/// Build YAML frontmatter from the document URL and metadata.
pub fn build_frontmatter(url: &str, meta: &PageMetadata) -> (res: String)
    ensures
        res@ == frontmatter(url@, *meta),
{
    let mut fm = String::new();
    push_str(&mut fm, "---\n");
    push_str(&mut fm, "url: ");
    push_str(&mut fm, url);
    push_char(&mut fm, '\n');
    push_optional(&mut fm, "title: ", &meta.title, true);
    push_optional(&mut fm, "description: ", &meta.description, true);
    push_optional(&mut fm, "author: ", &meta.author, true);
    push_optional(&mut fm, "published: ", &meta.published_date, false);
    push_optional(&mut fm, "language: ", &meta.language, false);
    push_optional(&mut fm, "canonical: ", &meta.canonical_url, false);
    push_str(&mut fm, "---\n");
    assert(fm@ =~= frontmatter(url@, *meta));
    fm
}

// ---------------------------------------------------------------------------
// Feed items
// ---------------------------------------------------------------------------

/// The `*By author | date*` line of a feed item, when either is present.
pub open spec fn feed_meta_line(author: Option<Seq<char>>, date: Option<Seq<char>>) -> Seq<char> {
    match (author, date) {
        (Some(a), Some(d)) => seq!['*'] + "By "@ + a + " | "@ + d + "*\n\n"@,
        (Some(a), None) => seq!['*'] + "By "@ + a + "*\n\n"@,
        (None, Some(d)) => seq!['*'] + d + "*\n\n"@,
        (None, None) => Seq::<char>::empty(),
    }
}

/// Markdown for a feed item: a level-3 heading (linked when the item has a
/// link, `Untitled` without a title), the description, then the author and
/// date line.
pub open spec fn feed_item_markdown(item: FeedItem) -> Seq<char> {
    let title = match item.title {
        Some(t) => t@,
        None => "Untitled"@,
    };
    let heading = match item.link {
        Some(l) => "### ["@ + title + "]("@ + l@ + ")\n\n"@,
        None => "### "@ + title + "\n\n"@,
    };
    let desc = match item.description {
        Some(d) => d@ + "\n\n"@,
        None => Seq::<char>::empty(),
    };
    heading + desc + feed_meta_line(opt_view(item.author), opt_view(item.pub_date))
}

/// Render a feed item into Markdown.
#[verifier::rlimit(40)]
pub fn render_feed_item(item: &FeedItem) -> (res: String)
    ensures
        res@ == feed_item_markdown(*item),
{
    let mut out = String::new();
    let untitled = String::from_str("Untitled");
    let title: &str = match &item.title {
        Some(t) => t.as_str(),
        None => untitled.as_str(),
    };
    match &item.link {
        Some(l) => {
            push_str(&mut out, "### [");
            push_str(&mut out, title);
            push_str(&mut out, "](");
            push_str(&mut out, l.as_str());
            push_str(&mut out, ")\n\n");
        },
        None => {
            push_str(&mut out, "### ");
            push_str(&mut out, title);
            push_str(&mut out, "\n\n");
        },
    }
    match &item.description {
        Some(d) => {
            push_str(&mut out, d.as_str());
            push_str(&mut out, "\n\n");
        },
        None => {},
    }
    match (&item.author, &item.pub_date) {
        (Some(a), Some(d)) => {
            push_char(&mut out, '*');
            push_str(&mut out, "By ");
            push_str(&mut out, a.as_str());
            push_str(&mut out, " | ");
            push_str(&mut out, d.as_str());
            push_str(&mut out, "*\n\n");
        },
        (Some(a), None) => {
            push_char(&mut out, '*');
            push_str(&mut out, "By ");
            push_str(&mut out, a.as_str());
            push_str(&mut out, "*\n\n");
        },
        (None, Some(d)) => {
            push_char(&mut out, '*');
            push_str(&mut out, d.as_str());
            push_str(&mut out, "*\n\n");
        },
        (None, None) => {},
    }
    assert(out@ =~= feed_item_markdown(*item));
    out
}

// ---------------------------------------------------------------------------
// Whole documents
// ---------------------------------------------------------------------------

/// The attribution footer appended when `include_footer` is set.
pub open spec fn footer_text() -> Seq<char> {
    "\n---\n\n*Crawled by [Rehyke](https://github.com/user/rehyke)*\n"@
}

/// The Markdown of every content node, concatenated.
pub open spec fn nodes_markdown(nodes: Seq<ContentNode>) -> Seq<char> {
    concat_all(nodes.map_values(|n: ContentNode| node_markdown(n)))
}

/// The Markdown document produced for `doc`: optional frontmatter and the
/// rendered nodes, with HTML tags stripped, blank lines collapsed, trailing
/// whitespace trimmed per line, the optional footer, and exactly one final
/// newline.
pub open spec fn document_markdown(doc: ParsedDocument, url: Seq<char>, config: ConverterConfig) -> Seq<char> {
    let head = if config.include_frontmatter {
        frontmatter(url, doc.metadata) + seq!['\n']
    } else {
        Seq::<char>::empty()
    };
    let raw = head + nodes_markdown(doc.content_nodes@);
    let cleaned = trimmed_lines(
        collapsed_blank_lines(stripped_tags(raw), config.max_blank_lines as nat),
    );
    let with_footer = if config.include_footer {
        (if cleaned.len() > 0 && cleaned.last() == '\n' {
            cleaned
        } else {
            cleaned.push('\n')
        }) + footer_text()
    } else {
        cleaned
    };
    trim_end(with_footer).push('\n')
}

/// Convert a parsed document into Markdown, with an explicit URL for the
/// frontmatter.
pub fn to_markdown_with_url(doc: &ParsedDocument, url: &str, config: &ConverterConfig) -> (res: String)
    ensures
        res@ == document_markdown(*doc, url@, *config),
{
    let mut output = String::new();
    if config.include_frontmatter {
        let fm = build_frontmatter(url, &doc.metadata);
        push_str(&mut output, fm.as_str());
        push_char(&mut output, '\n');
    }
    assert(output@ =~= (if config.include_frontmatter {
        frontmatter(url@, doc.metadata) + seq!['\n']
    } else {
        Seq::<char>::empty()
    }));
    let ghost head = output@;
    let ghost pieces = doc.content_nodes@.map_values(|n: ContentNode| node_markdown(n));
    let mut i: usize = 0;
    while i < doc.content_nodes.len()
        invariant
            i <= doc.content_nodes@.len(),
            pieces == doc.content_nodes@.map_values(|n: ContentNode| node_markdown(n)),
            output@ == head + concat_all(pieces.subrange(0, i as int)),
        decreases doc.content_nodes.len() - i,
    {
        assert(pieces.subrange(0, i + 1).drop_last() =~= pieces.subrange(0, i as int));
        let rendered = render_node(&doc.content_nodes[i]);
        push_str(&mut output, rendered.as_str());
        assert(output@ =~= head + concat_all(pieces.subrange(0, i as int)) + pieces[i as int]);
        i = i + 1;
    }
    assert(pieces.subrange(0, doc.content_nodes@.len() as int) =~= pieces);
    let stripped = strip_html_tags(output.as_str());
    let collapsed = collapse_blank_lines(stripped.as_str(), config.max_blank_lines);
    let mut cleaned = trim_trailing_whitespace(collapsed.as_str());
    let ghost c0 = cleaned@;
    if config.include_footer {
        let cv = chars_of(cleaned.as_str());
        if !(cv.len() > 0 && cv[cv.len() - 1] == '\n') {
            push_char(&mut cleaned, '\n');
        }
        push_str(&mut cleaned, "\n---\n\n*Crawled by [Rehyke](https://github.com/user/rehyke)*\n");
        assert(cleaned@ =~= (if c0.len() > 0 && c0.last() == '\n' {
            c0
        } else {
            c0.push('\n')
        }) + footer_text());
    }
    let mut final_output = trim_end_str(cleaned.as_str());
    push_char(&mut final_output, '\n');
    final_output
}

/// Convert a parsed document into Markdown (empty URL in the frontmatter).
pub fn to_markdown(doc: &ParsedDocument, config: &ConverterConfig) -> (res: String)
    ensures
        res@ == document_markdown(*doc, Seq::<char>::empty(), *config),
{
    let empty = String::new();
    to_markdown_with_url(doc, empty.as_str(), config)
}

// ---------------------------------------------------------------------------
// Blank-line law
// ---------------------------------------------------------------------------

/// Some character of `s[lo .. lo + n]` is not a newline.
pub open spec fn breaks_run(s: Seq<char>, lo: int, n: nat) -> bool {
    exists|k: int| lo <= k < lo + n && #[trigger] s[k] != '\n'
}

/// No `n` newlines in a row anywhere in `s`.
pub open spec fn newline_runs_below(s: Seq<char>, n: nat) -> bool {
    forall|i: int| 0 <= i && i + n <= s.len() ==> #[trigger] breaks_run(s, i, n)
}

/// The number of newlines that end `s`.
pub open spec fn trailing_newlines(s: Seq<char>) -> nat
    decreases s.len(),
{
    if s.len() == 0 || s.last() != '\n' {
        0
    } else {
        1 + trailing_newlines(s.drop_last())
    }
}

/// A piece between separators holds no separator.
proof fn lemma_split_pieces_lack_sep(s: Seq<char>, sep: char)
    ensures
        forall|i: int, j: int|
            0 <= i < split_on(s, sep).len() && 0 <= j < split_on(s, sep)[i].len() ==> #[trigger] split_on(
                s,
                sep,
            )[i][j] != sep,
    decreases s.len(),
{
    if s.len() > 0 {
        lemma_split_pieces_lack_sep(s.drop_last(), sep);
        crate::text::lemma_split_len(s.drop_last(), sep);
        let parts = split_on(s.drop_last(), sep);
        if s.last() != sep {
            let last = parts.last().push(s.last());
            assert forall|j: int| 0 <= j < last.len() implies last[j] != sep by {
                if j < parts.last().len() {
                    assert(parts[parts.len() - 1][j] != sep);
                }
            }
        }
    }
}

/// When the last `n` characters of `s` are all newlines, `s` ends with at
/// least `n` newlines.
proof fn lemma_trailing_at_least(s: Seq<char>, n: nat)
    requires
        n <= s.len(),
        forall|k: int| s.len() - n <= k < s.len() ==> s[k] == '\n',
    ensures
        trailing_newlines(s) >= n,
    decreases n,
{
    if n > 0 {
        lemma_trailing_at_least(s.drop_last(), (n - 1) as nat);
    }
}

/// Adding one newline keeps runs below `m` while the text then ends with
/// fewer than `m` newlines.
proof fn lemma_push_newline(s: Seq<char>, m: nat)
    requires
        newline_runs_below(s, m),
        trailing_newlines(s.push('\n')) < m,
    ensures
        newline_runs_below(s.push('\n'), m),
{
    let t = s.push('\n');
    assert forall|i: int| 0 <= i && i + m <= t.len() implies #[trigger] breaks_run(t, i, m) by {
        if i + m <= s.len() {
            assert(breaks_run(s, i, m));
            let k = choose|k: int| i <= k < i + m && #[trigger] s[k] != '\n';
            assert(t[k] == s[k]);
        } else {
            if forall|k: int| i <= k < i + m ==> t[k] == '\n' {
                lemma_trailing_at_least(t, m);
            }
        }
    }
}

/// Adding a non-empty line without newlines, then a newline, keeps runs
/// below `m` (at least two).
proof fn lemma_push_line(s: Seq<char>, line: Seq<char>, m: nat)
    requires
        newline_runs_below(s, m),
        m >= 2,
        line.len() > 0,
        forall|j: int| 0 <= j < line.len() ==> line[j] != '\n',
    ensures
        newline_runs_below((s + line).push('\n'), m),
        trailing_newlines((s + line).push('\n')) == 1,
{
    let t = (s + line).push('\n');
    assert forall|i: int| 0 <= i && i + m <= t.len() implies #[trigger] breaks_run(t, i, m) by {
        if i + m <= s.len() {
            assert(breaks_run(s, i, m));
            let k = choose|k: int| i <= k < i + m && #[trigger] s[k] != '\n';
            assert(t[k] == s[k]);
        } else {
            let k = if i >= s.len() { i } else { s.len() as int };
            if k < s.len() + line.len() {
                assert(t[k] == line[k - s.len()]);
            } else {
                let k2 = s.len() + line.len() - 1;
                assert(t[k2] == line[line.len() - 1]);
                assert(i <= k2);
            }
        }
    }
    let u = s + line;
    assert(t.drop_last() =~= u);
    assert(u.last() == line[line.len() - 1]);
    assert(trailing_newlines(u) == 0);
    assert(trailing_newlines(t) == 1 + trailing_newlines(t.drop_last()));
}

proof fn lemma_collapse_state_runs(lines: Seq<Seq<char>>, max: nat)
    requires
        forall|i: int, j: int| 0 <= i < lines.len() && 0 <= j < lines[i].len() ==> #[trigger] lines[i][j] != '\n',
    ensures
        newline_runs_below(collapse_state(lines, max).0, max + 2),
        trailing_newlines(collapse_state(lines, max).0) <= collapse_state(lines, max).1 + 1,
        trailing_newlines(collapse_state(lines, max).0) <= max + 1,
    decreases lines.len(),
{
    if lines.len() > 0 {
        let prev = lines.drop_last();
        assert forall|i: int, j: int| 0 <= i < prev.len() && 0 <= j < prev[i].len() implies #[trigger] prev[i][j]
            != '\n' by {
            assert(prev[i] == lines[i]);
        }
        lemma_collapse_state_runs(prev, max);
        let (out, run) = collapse_state(prev, max);
        let line = lines.last();
        if trim(line).len() == 0 {
            if run + 1 <= max {
                assert(out.push('\n').drop_last() =~= out);
                lemma_push_newline(out, max + 2);
            }
        } else {
            if line.len() == 0 {
                assert(trim(line) =~= line) by {
                    crate::text::lemma_trim_empty_iff_all_ws(line);
                }
            }
            assert forall|j: int| 0 <= j < line.len() implies line[j] != '\n' by {
                assert(lines[lines.len() - 1][j] != '\n');
            }
            lemma_push_line(out, line, max + 2);
        }
    }
}

/// Collapsing blank lines leaves no run of more than `max` blank lines: the
/// result never holds more than `max + 1` newlines in a row.
pub proof fn lemma_collapsed_blank_runs(text: Seq<char>, max: nat)
    ensures
        newline_runs_below(collapsed_blank_lines(text, max), max + 2),
{
    lemma_split_pieces_lack_sep(text, '\n');
    crate::text::lemma_split_len(text, '\n');
    let lines = collapse_input_lines(text);
    let parts = split_on(text, '\n');
    assert forall|i: int, j: int| 0 <= i < lines.len() && 0 <= j < lines[i].len() implies #[trigger] lines[i][j]
        != '\n' by {
        assert(lines[i] == parts[i]);
    }
    lemma_collapse_state_runs(lines, max);
}

/// What `strip_tags_state` keeps holds no `<`.
proof fn lemma_strip_state_no_open(s: Seq<char>)
    ensures
        forall|i: int| 0 <= i < strip_tags_state(s).0.len() ==> #[trigger] strip_tags_state(s).0[i] != '<',
    decreases s.len(),
{
    if s.len() > 0 {
        lemma_strip_state_no_open(s.drop_last());
        let (out, inside) = strip_tags_state(s.drop_last());
        let c = s.last();
        assert forall|i: int| 0 <= i < strip_tags_state(s).0.len() implies #[trigger] strip_tags_state(s).0[i]
            != '<' by {
            if i < out.len() {
                assert(strip_tags_state(s).0[i] == out[i]);
            }
        }
    }
}

/// Stripping tags leaves no `<` in the text: every `<` opens a tag and is
/// dropped.
pub proof fn lemma_stripped_has_no_open_bracket(s: Seq<char>)
    ensures
        forall|i: int| 0 <= i < stripped_tags(s).len() ==> #[trigger] stripped_tags(s)[i] != '<',
{
    lemma_strip_state_no_open(s);
}


/// Stripping keeps every character of a text without `<` and never ends
/// inside a tag there.
proof fn lemma_strip_state_plain(s: Seq<char>)
    requires
        forall|i: int| 0 <= i < s.len() ==> #[trigger] s[i] != '<',
    ensures
        strip_tags_state(s) == (s, false),
    decreases s.len(),
{
    if s.len() > 0 {
        lemma_strip_state_plain(s.drop_last());
        assert(s.drop_last().push(s.last()) =~= s);
    }
}

/// `a` is a subsequence of `b`: `a` is what is left of `b` after some of its
/// characters are dropped, the rest kept in order.
pub open spec fn is_subsequence(a: Seq<char>, b: Seq<char>) -> bool
    decreases b.len(),
{
    if b.len() == 0 {
        a.len() == 0
    } else {
        is_subsequence(a, b.drop_last()) || (a.len() > 0 && a.last() == b.last() && is_subsequence(
            a.drop_last(),
            b.drop_last(),
        ))
    }
}

proof fn lemma_strip_state_subsequence(s: Seq<char>)
    ensures
        is_subsequence(strip_tags_state(s).0, s),
    decreases s.len(),
{
    if s.len() > 0 {
        lemma_strip_state_subsequence(s.drop_last());
        let out = strip_tags_state(s.drop_last()).0;
        let c = s.last();
        if strip_tags_state(s).0 != out {
            assert(strip_tags_state(s).0 == out.push(c));
            assert(out.push(c).drop_last() =~= out);
        }
    }
}

/// Stripping tags only drops characters: what is left is a subsequence of
/// the input. Stripping is idempotent: a second pass changes nothing, and a
/// text without `<` is left as it is.
pub proof fn lemma_strip_html_tags_laws(s: Seq<char>)
    ensures
        is_subsequence(stripped_tags(s), s),
        stripped_tags(stripped_tags(s)) == stripped_tags(s),
        (forall|i: int| 0 <= i < s.len() ==> #[trigger] s[i] != '<') ==> stripped_tags(s) == s,
{
    lemma_strip_state_subsequence(s);
    lemma_strip_state_no_open(s);
    lemma_strip_state_plain(stripped_tags(s));
    if forall|i: int| 0 <= i < s.len() ==> #[trigger] s[i] != '<' {
        lemma_strip_state_plain(s);
    }
}

/// The number of Markdown-special characters in `s`.
pub open spec fn md_special_count(s: Seq<char>) -> nat
    decreases s.len(),
{
    if s.len() == 0 {
        0
    } else {
        md_special_count(s.drop_last()) + if is_md_special(s.last()) {
            1nat
        } else {
            0nat
        }
    }
}

/// `s` read from left to right with each backslash dropped and the
/// character after it kept as it is.
pub open spec fn unescaped_md(s: Seq<char>) -> Seq<char>
    decreases s.len(),
{
    if s.len() == 0 {
        Seq::<char>::empty()
    } else if s[0] == '\\' && s.len() >= 2 {
        seq![s[1]] + unescaped_md(s.subrange(2, s.len() as int))
    } else {
        seq![s[0]] + unescaped_md(s.subrange(1, s.len() as int))
    }
}

/// Escaping a concatenation escapes each part.
proof fn lemma_escaped_md_concat(a: Seq<char>, b: Seq<char>)
    ensures
        escaped_md(a + b) == escaped_md(a) + escaped_md(b),
    decreases b.len(),
{
    if b.len() == 0 {
        assert(a + b =~= a);
        assert(escaped_md(a) + escaped_md(b) =~= escaped_md(a));
    } else {
        lemma_escaped_md_concat(a, b.drop_last());
        assert((a + b).drop_last() =~= a + b.drop_last());
        assert((a + b).last() == b.last());
        if is_md_special(b.last()) {
            assert(escaped_md(a + b) =~= escaped_md(a) + escaped_md(b));
        } else {
            assert(escaped_md(a + b) =~= escaped_md(a) + escaped_md(b));
        }
    }
}

proof fn lemma_unescape_escaped(t: Seq<char>)
    ensures
        unescaped_md(escaped_md(t)) == t,
    decreases t.len(),
{
    if t.len() > 0 {
        let c = t[0];
        let rest = t.subrange(1, t.len() as int);
        assert(t =~= seq![c] + rest);
        lemma_escaped_md_concat(seq![c], rest);
        assert(seq![c].drop_last() =~= Seq::<char>::empty());
        assert(escaped_md(seq![c].drop_last()) == Seq::<char>::empty());
        assert(seq![c].last() == c);
        lemma_unescape_escaped(rest);
        let e = escaped_md(t);
        if is_md_special(c) {
            assert(escaped_md(seq![c]) =~= seq!['\\', c]);
            assert(e[0] == '\\' && e[1] == c);
            assert(e.subrange(2, e.len() as int) =~= escaped_md(rest));
        } else {
            assert(escaped_md(seq![c]) =~= seq![c]);
            assert(e[0] == c);
            assert(e.subrange(1, e.len() as int) =~= escaped_md(rest));
        }
        assert(unescaped_md(e) =~= t);
    }
}

proof fn lemma_escaped_md_len(t: Seq<char>)
    ensures
        escaped_md(t).len() == t.len() + md_special_count(t),
        md_special_count(t) == 0 <==> (forall|i: int| 0 <= i < t.len() ==> !is_md_special(#[trigger] t[i])),
        md_special_count(t) == 0 ==> escaped_md(t) == t,
    decreases t.len(),
{
    if t.len() > 0 {
        let d = t.drop_last();
        lemma_escaped_md_len(d);
        assert(d.push(t.last()) =~= t);
        if md_special_count(t) == 0 {
            assert forall|i: int| 0 <= i < t.len() implies !is_md_special(#[trigger] t[i]) by {
                if i < d.len() {
                    assert(t[i] == d[i]);
                }
            }
        }
        if forall|i: int| 0 <= i < t.len() ==> !is_md_special(#[trigger] t[i]) {
            assert(!is_md_special(t[t.len() - 1]));
            assert forall|i: int| 0 <= i < d.len() implies !is_md_special(#[trigger] d[i]) by {
                assert(d[i] == t[i]);
            }
        }
    }
}

/// Escaping can be undone: dropping the backslash in front of each escaped
/// character, read from left to right, gives the text back. Each special
/// character costs exactly one added backslash, so the result is as long as
/// the text plus its special characters, and the text is left unchanged if
/// and only if it holds none of them.
pub proof fn lemma_escape_markdown_laws(t: Seq<char>)
    ensures
        unescaped_md(escaped_md(t)) == t,
        escaped_md(t).len() == t.len() + md_special_count(t),
        escaped_md(t) == t <==> (forall|i: int| 0 <= i < t.len() ==> !is_md_special(#[trigger] t[i])),
{
    lemma_unescape_escaped(t);
    lemma_escaped_md_len(t);
}


/// A UTF-8 encoding has at least one byte per character.
proof fn lemma_utf8_len_at_least(s: Seq<char>)
    ensures
        utf8_len(s) >= s.len(),
    decreases s.len(),
{
    if s.len() > 0 {
        lemma_utf8_len_at_least(s.drop_first());
    }
}

/// Joining two lists of pieces joins their joins.
proof fn lemma_concat_all_append(x: Seq<Seq<char>>, y: Seq<Seq<char>>)
    ensures
        concat_all(x + y) == concat_all(x) + concat_all(y),
    decreases y.len(),
{
    if y.len() == 0 {
        assert(x + y =~= x);
        assert(concat_all(x) + concat_all(y) =~= concat_all(x));
    } else {
        lemma_concat_all_append(x, y.drop_last());
        assert((x + y).drop_last() =~= x + y.drop_last());
        assert(concat_all(x + y) =~= concat_all(x) + concat_all(y));
    }
}

/// A character property that holds in every piece holds in their join.
proof fn lemma_concat_all_chars(parts: Seq<Seq<char>>, p: spec_fn(char) -> bool)
    requires
        forall|i: int, j: int| 0 <= i < parts.len() && 0 <= j < parts[i].len() ==> p(#[trigger] parts[i][j]),
    ensures
        forall|k: int| 0 <= k < concat_all(parts).len() ==> p(#[trigger] concat_all(parts)[k]),
    decreases parts.len(),
{
    if parts.len() > 0 {
        let d = parts.drop_last();
        assert forall|i: int, j: int| 0 <= i < d.len() && 0 <= j < d[i].len() implies p(#[trigger] d[i][j]) by {
            assert(d[i] == parts[i]);
        }
        lemma_concat_all_chars(d, p);
        let a = concat_all(d);
        let b = parts.last();
        assert forall|k: int| 0 <= k < concat_all(parts).len() implies p(#[trigger] concat_all(parts)[k]) by {
            if k < a.len() {
                assert(concat_all(parts)[k] == a[k]);
            } else {
                assert(concat_all(parts)[k] == b[k - a.len()]);
                assert(p(parts[parts.len() - 1][k - a.len()]));
            }
        }
    }
}

/// The length of each line of a table with these column widths, its
/// newline included: `|`, then ` cell |` per column, then the newline.
pub open spec fn table_line_len(widths: Seq<nat>) -> nat
    decreases widths.len(),
{
    if widths.len() == 0 {
        2
    } else {
        table_line_len(widths.drop_last()) + widths.last() + 3
    }
}

/// Pieces as long as the columns' widths plus three join to the length of
/// a table line, less its two end characters.
proof fn lemma_pieces_len(parts: Seq<Seq<char>>, widths: Seq<nat>)
    requires
        parts.len() == widths.len(),
        forall|i: int| 0 <= i < parts.len() ==> #[trigger] parts[i].len() == widths[i] + 3,
    ensures
        concat_all(parts).len() + 2 == table_line_len(widths),
    decreases parts.len(),
{
    if parts.len() > 0 {
        let d = parts.drop_last();
        let wd = widths.drop_last();
        assert forall|i: int| 0 <= i < d.len() implies #[trigger] d[i].len() == wd[i] + 3 by {
            assert(d[i] == parts[i] && wd[i] == widths[i]);
        }
        lemma_pieces_len(d, wd);
        assert(parts.last().len() == widths.last() + 3);
    }
}

/// The shape of one table line: as long as [`table_line_len`], opening with
/// `|`, closing with `|` and the newline, with no other newline when its
/// cells hold none and each cell fits its column.
proof fn lemma_table_line_shape(cells: Seq<Seq<char>>, widths: Seq<nat>)
    requires
        forall|i: int| 0 <= i < widths.len() ==> #[trigger] cell_at(cells, i).len() <= widths[i],
        forall|i: int, j: int| 0 <= i < cells.len() && 0 <= j < cells[i].len() ==> #[trigger] cells[i][j] != '\n',
    ensures
        table_line(cells, widths).len() == table_line_len(widths),
        table_line(cells, widths)[0] == '|',
        table_line(cells, widths)[table_line_len(widths) - 2] == '|',
        table_line(cells, widths)[table_line_len(widths) - 1] == '\n',
        forall|j: int| 0 <= j < table_line_len(widths) - 1 ==> #[trigger] table_line(cells, widths)[j] != '\n',
{
    let parts = Seq::new(
        widths.len(),
        |i: int| seq![' '] + pad_right(cell_at(cells, i), widths[i]) + seq![' ', '|'],
    );
    assert forall|i: int| 0 <= i < parts.len() implies #[trigger] parts[i].len() == widths[i] + 3 by {
        assert(cell_at(cells, i).len() <= widths[i]);
    }
    lemma_pieces_len(parts, widths);
    let p = |c: char| c != '\n';
    assert forall|i: int, j: int| 0 <= i < parts.len() && 0 <= j < parts[i].len() implies p(
        #[trigger] parts[i][j],
    ) by {
        let c = cell_at(cells, i);
        let padded = pad_right(c, widths[i]);
        if 1 <= j < 1 + c.len() {
            assert(parts[i][j] == padded[j - 1]);
            assert(padded[j - 1] == c[j - 1]);
            assert(0 <= i < cells.len());
            assert(cells[i][j - 1] != '\n');
        } else if 1 + c.len() <= j < 1 + padded.len() {
            assert(parts[i][j] == padded[j - 1]);
        }
    }
    lemma_concat_all_chars(parts, p);
    let body = concat_all(parts);
    let line = table_line(cells, widths);
    assert(line == seq!['|'] + body + seq!['\n']);
    if widths.len() > 0 {
        let lastp = parts[parts.len() - 1];
        assert(body == concat_all(parts.drop_last()) + lastp);
        assert(lastp[lastp.len() - 1] == '|');
        assert(body[body.len() - 1] == '|');
    }
    assert forall|j: int| 0 <= j < table_line_len(widths) - 1 implies #[trigger] line[j] != '\n' by {
        if j >= 1 {
            assert(line[j] == body[j - 1]);
            assert(p(body[j - 1]));
        }
    }
}

/// The shape of the separator line: as long as every table line, and only
/// `|` and `-` before its newline.
proof fn lemma_separator_shape(widths: Seq<nat>)
    ensures
        separator_line(widths).len() == table_line_len(widths),
        separator_line(widths)[table_line_len(widths) - 1] == '\n',
        forall|j: int| 0 <= j < table_line_len(widths) - 1 ==> (#[trigger] separator_line(widths)[j] == '|'
            || separator_line(widths)[j] == '-'),
{
    let parts = Seq::new(widths.len(), |i: int| seq!['-'] + repeat_char('-', widths[i]) + seq!['-', '|']);
    assert forall|i: int| 0 <= i < parts.len() implies #[trigger] parts[i].len() == widths[i] + 3 by {}
    lemma_pieces_len(parts, widths);
    let p = |c: char| c == '|' || c == '-';
    assert forall|i: int, j: int| 0 <= i < parts.len() && 0 <= j < parts[i].len() implies p(
        #[trigger] parts[i][j],
    ) by {
        if 1 <= j < 1 + widths[i] {
            assert(parts[i][j] == repeat_char('-', widths[i])[j - 1]);
        }
    }
    lemma_concat_all_chars(parts, p);
    let body = concat_all(parts);
    let line = separator_line(widths);
    assert(line == seq!['|'] + body + seq!['\n']);
    assert forall|j: int| 0 <= j < table_line_len(widths) - 1 implies (#[trigger] line[j] == '|' || line[j]
        == '-') by {
        if j >= 1 {
            assert(line[j] == body[j - 1]);
            assert(p(body[j - 1]));
        }
    }
}

/// A cell of a row is no wider than its column's widest row cell.
proof fn lemma_rows_width_bound(rows: Seq<Seq<Seq<char>>>, k: int, i: int)
    requires
        0 <= k < rows.len(),
        0 <= i < rows[k].len(),
    ensures
        utf8_len(rows[k][i]) <= rows_width(rows, i),
    decreases rows.len(),
{
    if k < rows.len() - 1 {
        lemma_rows_width_bound(rows.drop_last(), k, i);
        assert(rows.drop_last()[k] == rows[k]);
    }
}

/// The lines of a table: the header line, the separator line and one line
/// per row.
pub open spec fn table_lines(headers: Seq<Seq<char>>, rows: Seq<Seq<Seq<char>>>) -> Seq<Seq<char>> {
    let widths = table_widths(headers, rows);
    seq![table_line(headers, widths), separator_line(widths)] + rows.map_values(
        |r: Seq<Seq<char>>| table_line(r, widths),
    )
}

/// The shape of a formatted table. Without headers it is empty. Otherwise
/// it is made of two lines more than there are rows: the header line, the
/// separator line and a line per row. Every line is as long as every other,
/// opens with `|` and closes with `|` and a newline, and holds no other
/// newline when no header or cell does; the separator holds only `|` and
/// `-` before its newline.
pub proof fn lemma_format_table_shape(headers: Seq<Seq<char>>, rows: Seq<Seq<Seq<char>>>)
    requires
        forall|i: int, j: int| 0 <= i < headers.len() && 0 <= j < headers[i].len() ==> #[trigger] headers[i][j] != '\n',
        forall|k: int, i: int, j: int| 0 <= k < rows.len() && 0 <= i < rows[k].len() && 0 <= j < rows[k][i].len()
            ==> #[trigger] rows[k][i][j] != '\n',
    ensures
        headers.len() == 0 ==> table_markdown(headers, rows) == Seq::<char>::empty(),
        headers.len() > 0 ==> table_markdown(headers, rows) == concat_all(table_lines(headers, rows)),
        table_lines(headers, rows).len() == rows.len() + 2,
        forall|k: int| 0 <= k < rows.len() + 2 ==> {
            let line = #[trigger] table_lines(headers, rows)[k];
            let n = table_line_len(table_widths(headers, rows));
            &&& line.len() == n
            &&& line[0] == '|'
            &&& line[n - 2] == '|'
            &&& line[n - 1] == '\n'
            &&& forall|j: int| 0 <= j < n - 1 ==> #[trigger] line[j] != '\n'
        },
        forall|j: int| 0 <= j < table_line_len(table_widths(headers, rows)) - 1 ==> (#[trigger] table_lines(
            headers,
            rows,
        )[1][j] == '|' || table_lines(headers, rows)[1][j] == '-'),
{
    let widths = table_widths(headers, rows);
    let lines = table_lines(headers, rows);
    let n = table_line_len(widths);
    let row_lines = rows.map_values(|r: Seq<Seq<char>>| table_line(r, widths));
    assert forall|i: int| 0 <= i < widths.len() implies #[trigger] cell_at(headers, i).len() <= widths[i] by {
        lemma_utf8_len_at_least(headers[i]);
    }
    lemma_table_line_shape(headers, widths);
    lemma_separator_shape(widths);
    assert forall|k: int| 0 <= k < rows.len() implies {
        let line = #[trigger] row_lines[k];
        &&& line.len() == n
        &&& line[0] == '|'
        &&& line[n - 2] == '|'
        &&& line[n - 1] == '\n'
        &&& forall|j: int| 0 <= j < n - 1 ==> #[trigger] line[j] != '\n'
    } by {
        let r = rows[k];
        assert forall|i: int| 0 <= i < widths.len() implies #[trigger] cell_at(r, i).len() <= widths[i] by {
            if i < r.len() {
                lemma_utf8_len_at_least(r[i]);
                lemma_rows_width_bound(rows, k, i);
            }
        }
        assert forall|i: int, j: int| 0 <= i < r.len() && 0 <= j < r[i].len() implies #[trigger] r[i][j] != '\n' by {
            assert(rows[k][i][j] != '\n');
        }
        lemma_table_line_shape(r, widths);
    }
    assert forall|k: int| 0 <= k < rows.len() + 2 implies {
        let line = #[trigger] lines[k];
        &&& line.len() == n
        &&& line[0] == '|'
        &&& line[n - 2] == '|'
        &&& line[n - 1] == '\n'
        &&& forall|j: int| 0 <= j < n - 1 ==> #[trigger] line[j] != '\n'
    } by {
        if k >= 2 {
            assert(lines[k] == row_lines[k - 2]);
        } else if k == 1 {
            assert(lines[1] == separator_line(widths));
        }
    }
    if headers.len() > 0 {
        lemma_concat_all_append(seq![table_line(headers, widths), separator_line(widths)], row_lines);
        assert(seq![table_line(headers, widths), separator_line(widths)].drop_last() =~= seq![table_line(headers, widths)]);
        assert(seq![table_line(headers, widths)].drop_last() =~= Seq::<Seq<char>>::empty());
        let one = seq![table_line(headers, widths)];
        assert(one.last() == table_line(headers, widths));
        assert(concat_all(one.drop_last()) == Seq::<char>::empty());
        assert(concat_all(one) =~= table_line(headers, widths));
    }
}


/// What `trim_end` leaves is empty or ends in a non-whitespace character.
proof fn lemma_trim_end_last(s: Seq<char>)
    ensures
        trim_end(s).len() == 0 || !crate::text::is_ws(trim_end(s).last()),
    decreases s.len(),
{
    if s.len() > 0 && crate::text::is_ws(s.last()) {
        lemma_trim_end_last(s.drop_last());
    }
}

/// A converted document ends with exactly one newline: its last character
/// is a newline and, when there is anything before it, that is not
/// whitespace.
pub proof fn lemma_document_ending(doc: ParsedDocument, url: Seq<char>, config: ConverterConfig)
    ensures
        ({
            let d = document_markdown(doc, url, config);
            &&& d.len() >= 1
            &&& d.last() == '\n'
            &&& d.len() >= 2 ==> !crate::text::is_ws(d[d.len() - 2])
        }),
{
    let head = if config.include_frontmatter {
        frontmatter(url, doc.metadata) + seq!['\n']
    } else {
        Seq::<char>::empty()
    };
    let raw = head + nodes_markdown(doc.content_nodes@);
    let cleaned = trimmed_lines(collapsed_blank_lines(stripped_tags(raw), config.max_blank_lines as nat));
    let with_footer = if config.include_footer {
        (if cleaned.len() > 0 && cleaned.last() == '\n' {
            cleaned
        } else {
            cleaned.push('\n')
        }) + footer_text()
    } else {
        cleaned
    };
    lemma_trim_end_last(with_footer);
    let t = trim_end(with_footer);
    assert(document_markdown(doc, url, config) == t.push('\n'));
    if t.len() > 0 {
        assert(t.push('\n')[t.len() - 1] == t.last());
    }
}


/// The lines `collapse_state` keeps: a non-blank line as it is, an empty
/// line for each blank line while the run is at most `max`; with the length
/// of the current run of blank lines.
pub open spec fn collapse_kept(lines: Seq<Seq<char>>, max: nat) -> (Seq<Seq<char>>, nat)
    decreases lines.len(),
{
    if lines.len() == 0 {
        (Seq::<Seq<char>>::empty(), 0)
    } else {
        let (kept, run) = collapse_kept(lines.drop_last(), max);
        let line = lines.last();
        if trim(line).len() == 0 {
            if run + 1 <= max {
                (kept.push(Seq::<char>::empty()), run + 1)
            } else {
                (kept, run + 1)
            }
        } else {
            (kept.push(line), 0)
        }
    }
}

/// Lines written one after the other, each followed by a newline.
pub open spec fn lines_text(lines: Seq<Seq<char>>) -> Seq<char>
    decreases lines.len(),
{
    if lines.len() == 0 {
        Seq::<char>::empty()
    } else {
        lines_text(lines.drop_last()) + lines.last() + seq!['\n']
    }
}

/// The non-blank lines, in order.
pub open spec fn nonblank_lines(lines: Seq<Seq<char>>) -> Seq<Seq<char>>
    decreases lines.len(),
{
    if lines.len() == 0 {
        Seq::<Seq<char>>::empty()
    } else if trim(lines.last()).len() == 0 {
        nonblank_lines(lines.drop_last())
    } else {
        nonblank_lines(lines.drop_last()).push(lines.last())
    }
}

/// The number of blank lines that end `lines`.
pub open spec fn trailing_blank(lines: Seq<Seq<char>>) -> nat
    decreases lines.len(),
{
    if lines.len() == 0 || trim(lines.last()).len() != 0 {
        0
    } else {
        1 + trailing_blank(lines.drop_last())
    }
}

/// Lines as collapsing leaves them: no line holds a newline, every blank
/// line is empty, and no run of blank lines, at any point, is longer than
/// `max`.
pub open spec fn collapsed_shape(lines: Seq<Seq<char>>, max: nat) -> bool
    decreases lines.len(),
{
    lines.len() == 0 || {
        &&& collapsed_shape(lines.drop_last(), max)
        &&& trailing_blank(lines) <= max
        &&& (trim(lines.last()).len() == 0 ==> lines.last().len() == 0)
        &&& forall|j: int| 0 <= j < lines.last().len() ==> #[trigger] lines.last()[j] != '\n'
    }
}

proof fn lemma_empty_is_blank()
    ensures
        trim(Seq::<char>::empty()).len() == 0,
{
    assert(crate::text::trim_start(Seq::<char>::empty()) == Seq::<char>::empty());
    assert(trim_end(Seq::<char>::empty()) == Seq::<char>::empty());
}

/// What `collapse_state` writes is the kept lines, and what it keeps has
/// the collapsed shape, with a run of trailing blank lines no longer than
/// the current run (nor than `max`); the non-blank lines are kept in order.
proof fn lemma_collapse_kept(lines: Seq<Seq<char>>, max: nat)
    requires
        forall|i: int, j: int| 0 <= i < lines.len() && 0 <= j < lines[i].len() ==> #[trigger] lines[i][j] != '\n',
    ensures
        collapse_state(lines, max) == (lines_text(collapse_kept(lines, max).0), collapse_kept(lines, max).1),
        collapsed_shape(collapse_kept(lines, max).0, max),
        trailing_blank(collapse_kept(lines, max).0) == (if collapse_kept(lines, max).1 <= max {
            collapse_kept(lines, max).1
        } else {
            max
        }),
        nonblank_lines(collapse_kept(lines, max).0) == nonblank_lines(lines),
    decreases lines.len(),
{
    lemma_empty_is_blank();
    if lines.len() > 0 {
        let d = lines.drop_last();
        assert forall|i: int, j: int| 0 <= i < d.len() && 0 <= j < d[i].len() implies #[trigger] d[i][j] != '\n' by {
            assert(d[i] == lines[i]);
        }
        lemma_collapse_kept(d, max);
        let (kept, run) = collapse_kept(d, max);
        let line = lines.last();
        let e = Seq::<char>::empty();
        assert(lines_text(kept).push('\n') =~= lines_text(kept) + e + seq!['\n']);
        assert((lines_text(kept) + line).push('\n') =~= lines_text(kept) + line + seq!['\n']);
        assert(kept.push(e).drop_last() =~= kept);
        assert(kept.push(line).drop_last() =~= kept);
        if trim(line).len() != 0 {
            assert forall|j: int| 0 <= j < line.len() implies #[trigger] line[j] != '\n' by {
                assert(lines[lines.len() - 1][j] != '\n');
            }
        }
    }
}

/// Extending the last piece: splitting `a + l`, where `l` holds no
/// separator, extends the last piece of `a`'s split by `l`.
proof fn lemma_split_extend(a: Seq<char>, l: Seq<char>, sep: char)
    requires
        forall|j: int| 0 <= j < l.len() ==> #[trigger] l[j] != sep,
    ensures
        split_on(a + l, sep) == split_on(a, sep).update(
            split_on(a, sep).len() - 1,
            split_on(a, sep).last() + l,
        ),
    decreases l.len(),
{
    crate::text::lemma_split_len(a, sep);
    let p = split_on(a, sep);
    if l.len() == 0 {
        assert(a + l =~= a);
        assert(p.last() + l =~= p.last());
        assert(p.update(p.len() - 1, p.last() + l) =~= p);
    } else {
        let l1 = l.drop_last();
        assert forall|j: int| 0 <= j < l1.len() implies #[trigger] l1[j] != sep by {
            assert(l1[j] == l[j]);
        }
        lemma_split_extend(a, l1, sep);
        assert((a + l).drop_last() =~= a + l1);
        assert((a + l).last() == l.last());
        assert(l[l.len() - 1] != sep);
        let q = split_on(a + l1, sep);
        assert(q == p.update(p.len() - 1, p.last() + l1));
        assert(q.last() == p.last() + l1);
        assert((p.last() + l1).push(l.last()) =~= p.last() + l);
        assert(q.update(q.len() - 1, q.last().push(l.last())) =~= p.update(p.len() - 1, p.last() + l));
    }
}

/// Splitting lines written with their newlines gives the lines back, and a
/// last empty piece.
proof fn lemma_split_lines_text(k: Seq<Seq<char>>)
    requires
        forall|i: int, j: int| 0 <= i < k.len() && 0 <= j < k[i].len() ==> #[trigger] k[i][j] != '\n',
    ensures
        split_on(lines_text(k), '\n') == k.push(Seq::<char>::empty()),
    decreases k.len(),
{
    if k.len() == 0 {
        assert(split_on(Seq::<char>::empty(), '\n') =~= seq![Seq::<char>::empty()]);
        assert(k.push(Seq::<char>::empty()) =~= seq![Seq::<char>::empty()]);
    } else {
        let d = k.drop_last();
        let l = k.last();
        assert forall|i: int, j: int| 0 <= i < d.len() && 0 <= j < d[i].len() implies #[trigger] d[i][j] != '\n' by {
            assert(d[i] == k[i]);
        }
        lemma_split_lines_text(d);
        assert forall|j: int| 0 <= j < l.len() implies #[trigger] l[j] != '\n' by {
            assert(k[k.len() - 1][j] != '\n');
        }
        let a = lines_text(d);
        lemma_split_extend(a, l, '\n');
        let t = lines_text(k);
        assert(t == (a + l) + seq!['\n']);
        assert(t.drop_last() =~= a + l);
        assert(t.last() == '\n');
        let p = split_on(a, '\n');
        assert(p == d.push(Seq::<char>::empty()));
        assert(p.update(p.len() - 1, p.last() + l) =~= d.push(l));
        assert(d.push(l) =~= k);
    }
}

/// Lines with the collapsed shape collapse to themselves.
proof fn lemma_collapse_kept_fixed(k: Seq<Seq<char>>, max: nat)
    requires
        collapsed_shape(k, max),
    ensures
        collapse_kept(k, max) == (k, trailing_blank(k)),
    decreases k.len(),
{
    if k.len() > 0 {
        lemma_collapse_kept_fixed(k.drop_last(), max);
        assert(k.drop_last().push(k.last()) =~= k);
        if trim(k.last()).len() == 0 {
            assert(k.last() =~= Seq::<char>::empty());
        }
    }
}

proof fn lemma_collapsed_shape_lines(k: Seq<Seq<char>>, max: nat)
    requires
        collapsed_shape(k, max),
    ensures
        forall|i: int, j: int| 0 <= i < k.len() && 0 <= j < k[i].len() ==> #[trigger] k[i][j] != '\n',
    decreases k.len(),
{
    if k.len() > 0 {
        lemma_collapsed_shape_lines(k.drop_last(), max);
        assert forall|i: int, j: int| 0 <= i < k.len() && 0 <= j < k[i].len() implies #[trigger] k[i][j] != '\n' by {
            if i < k.len() - 1 {
                assert(k[i] == k.drop_last()[i]);
            }
        }
    }
}

/// Collapsing blank lines keeps every non-blank line, in order, and is
/// idempotent: collapsing its result again changes nothing.
pub proof fn lemma_collapse_blank_lines_laws(text: Seq<char>, max: nat)
    ensures
        nonblank_lines(collapse_input_lines(collapsed_blank_lines(text, max))) == nonblank_lines(
            collapse_input_lines(text),
        ),
        collapsed_blank_lines(collapsed_blank_lines(text, max), max) == collapsed_blank_lines(text, max),
{
    lemma_split_pieces_lack_sep(text, '\n');
    crate::text::lemma_split_len(text, '\n');
    let lines = collapse_input_lines(text);
    let parts = split_on(text, '\n');
    assert forall|i: int, j: int| 0 <= i < lines.len() && 0 <= j < lines[i].len() implies #[trigger] lines[i][j]
        != '\n' by {
        assert(lines[i] == parts[i]);
    }
    lemma_collapse_kept(lines, max);
    let k = collapse_kept(lines, max).0;
    let out = collapsed_blank_lines(text, max);
    assert(out == lines_text(k));
    lemma_collapsed_shape_lines(k, max);
    lemma_split_lines_text(k);
    assert(split_on(out, '\n').last().len() == 0);
    assert(split_on(out, '\n').drop_last() =~= k);
    assert(collapse_input_lines(out) == k);
    lemma_collapse_kept(k, max);
    lemma_collapse_kept_fixed(k, max);
}


/// `s` holds no `c`.
pub open spec fn lacks(s: Seq<char>, c: char) -> bool {
    forall|i: int| 0 <= i < s.len() ==> #[trigger] s[i] != c
}

/// The pieces of a text without `c` hold no `c` either.
proof fn lemma_split_lacks(s: Seq<char>, sep: char, c: char)
    requires
        lacks(s, c),
    ensures
        forall|i: int| 0 <= i < split_on(s, sep).len() ==> lacks(#[trigger] split_on(s, sep)[i], c),
    decreases s.len(),
{
    if s.len() > 0 {
        let d = s.drop_last();
        assert(lacks(d, c)) by {
            assert forall|i: int| 0 <= i < d.len() implies #[trigger] d[i] != c by {
                assert(d[i] == s[i]);
            }
        }
        lemma_split_lacks(d, sep, c);
        crate::text::lemma_split_len(d, sep);
        let parts = split_on(d, sep);
        assert(s[s.len() - 1] != c);
        if s.last() != sep {
            let last = parts.last().push(s.last());
            assert(lacks(parts[parts.len() - 1], c));
            assert(lacks(last, c)) by {
                assert forall|j: int| 0 <= j < last.len() implies #[trigger] last[j] != c by {
                    if j < parts.last().len() {
                        assert(parts[parts.len() - 1][j] != c);
                    }
                }
            }
        }
        let sp = split_on(s, sep);
        assert forall|i: int| 0 <= i < sp.len() implies lacks(#[trigger] sp[i], c) by {
            if i < parts.len() && (s.last() == sep || i < parts.len() - 1) {
                assert(sp[i] == parts[i]);
            }
        }
    }
}

/// Collapsing lines without `c` (not a newline) writes no `c`.
proof fn lemma_collapse_state_lacks(lines: Seq<Seq<char>>, max: nat, c: char)
    requires
        c != '\n',
        forall|i: int| 0 <= i < lines.len() ==> lacks(#[trigger] lines[i], c),
    ensures
        lacks(collapse_state(lines, max).0, c),
    decreases lines.len(),
{
    if lines.len() > 0 {
        let d = lines.drop_last();
        assert forall|i: int| 0 <= i < d.len() implies lacks(#[trigger] d[i], c) by {
            assert(d[i] == lines[i]);
        }
        lemma_collapse_state_lacks(d, max, c);
        let out = collapse_state(d, max).0;
        let line = lines.last();
        assert(lacks(lines[lines.len() - 1], c));
        let res = collapse_state(lines, max).0;
        assert forall|i: int| 0 <= i < res.len() implies #[trigger] res[i] != c by {
            if i < out.len() {
                assert(res[i] == out[i]);
            } else if i < out.len() + line.len() && trim(line).len() != 0 {
                assert(res[i] == line[i - out.len()]);
            }
        }
    }
}

proof fn lemma_trim_end_lacks(s: Seq<char>, c: char)
    requires
        lacks(s, c),
    ensures
        lacks(trim_end(s), c),
    decreases s.len(),
{
    if s.len() > 0 && crate::text::is_ws(s.last()) {
        let d = s.drop_last();
        assert forall|i: int| 0 <= i < d.len() implies #[trigger] d[i] != c by {
            assert(d[i] == s[i]);
        }
        lemma_trim_end_lacks(d, c);
    }
}

proof fn lemma_join_lacks(parts: Seq<Seq<char>>, sep: Seq<char>, c: char)
    requires
        lacks(sep, c),
        forall|i: int| 0 <= i < parts.len() ==> lacks(#[trigger] parts[i], c),
    ensures
        lacks(join_with(parts, sep), c),
    decreases parts.len(),
{
    if parts.len() == 1 {
        assert(lacks(parts[0], c));
    } else if parts.len() > 1 {
        let d = parts.drop_last();
        assert forall|i: int| 0 <= i < d.len() implies lacks(#[trigger] d[i], c) by {
            assert(d[i] == parts[i]);
        }
        lemma_join_lacks(d, sep, c);
        let a = join_with(d, sep);
        let l = parts.last();
        assert(lacks(parts[parts.len() - 1], c));
        let r = join_with(parts, sep);
        assert(r == a + sep + l);
        assert forall|i: int| 0 <= i < r.len() implies #[trigger] r[i] != c by {
            if i < a.len() {
                assert(r[i] == a[i]);
            } else if i < a.len() + sep.len() {
                assert(r[i] == sep[i - a.len()]);
            } else {
                assert(r[i] == l[i - a.len() - sep.len()]);
            }
        }
    }
}

/// Trimming trailing whitespace per line writes no `c` (not a newline)
/// into a text without one.
proof fn lemma_trimmed_lines_lacks(text: Seq<char>, c: char)
    requires
        c != '\n',
        lacks(text, c),
    ensures
        lacks(trimmed_lines(text), c),
{
    lemma_split_lacks(text, '\n', c);
    crate::text::lemma_split_len(text, '\n');
    let parts = split_on(text, '\n');
    let kept = if parts.last().len() == 0 {
        parts.drop_last()
    } else {
        parts
    };
    let ls = lines_of(text);
    let ts = ls.map_values(|l: Seq<char>| trim_end(l));
    assert forall|i: int| 0 <= i < ts.len() implies lacks(#[trigger] ts[i], c) by {
        assert(kept[i] == parts[i]);
        assert(lacks(parts[i], c));
        let k = kept[i];
        let sc = crate::text::strip_cr(k);
        assert(lacks(sc, c)) by {
            assert forall|j: int| 0 <= j < sc.len() implies #[trigger] sc[j] != c by {
                assert(sc[j] == k[j]);
            }
        }
        assert(ls[i] == sc);
        lemma_trim_end_lacks(sc, c);
    }
    assert(lacks(seq!['\n'], c));
    lemma_join_lacks(ts, seq!['\n'], c);
}

proof fn lemma_footer_lacks_open_bracket()
    ensures
        lacks(footer_text(), '<'),
{
    let f = footer_text();
    reveal_strlit("\n---\n\n*Crawled by [Rehyke](https://github.com/user/rehyke)*\n");
    assert forall|i: int| 0 <= i < f.len() implies #[trigger] f[i] != '<' by {
        assert(f[i] != '<');
    }
}

/// A converted document holds no `<`: every tag is stripped, and nothing
/// that follows writes one.
pub proof fn lemma_document_has_no_open_bracket(doc: ParsedDocument, url: Seq<char>, config: ConverterConfig)
    ensures
        lacks(document_markdown(doc, url, config), '<'),
{
    let head = if config.include_frontmatter {
        frontmatter(url, doc.metadata) + seq!['\n']
    } else {
        Seq::<char>::empty()
    };
    let raw = head + nodes_markdown(doc.content_nodes@);
    let st = stripped_tags(raw);
    lemma_stripped_has_no_open_bracket(raw);
    lemma_split_lacks(st, '\n', '<');
    crate::text::lemma_split_len(st, '\n');
    let parts = split_on(st, '\n');
    let lines = collapse_input_lines(st);
    assert forall|i: int| 0 <= i < lines.len() implies lacks(#[trigger] lines[i], '<') by {
        assert(lines[i] == parts[i]);
    }
    lemma_collapse_state_lacks(lines, config.max_blank_lines as nat, '<');
    let col = collapsed_blank_lines(st, config.max_blank_lines as nat);
    lemma_trimmed_lines_lacks(col, '<');
    let cleaned = trimmed_lines(col);
    let base = if cleaned.len() > 0 && cleaned.last() == '\n' {
        cleaned
    } else {
        cleaned.push('\n')
    };
    assert(lacks(base, '<')) by {
        assert forall|i: int| 0 <= i < base.len() implies #[trigger] base[i] != '<' by {
            if i < cleaned.len() {
                assert(base[i] == cleaned[i]);
            }
        }
    }
    lemma_footer_lacks_open_bracket();
    let with_footer = if config.include_footer {
        base + footer_text()
    } else {
        cleaned
    };
    assert(lacks(with_footer, '<')) by {
        if config.include_footer {
            let f = footer_text();
            assert forall|i: int| 0 <= i < with_footer.len() implies #[trigger] with_footer[i] != '<' by {
                if i < base.len() {
                    assert(with_footer[i] == base[i]);
                } else {
                    assert(with_footer[i] == f[i - base.len()]);
                }
            }
        }
    }
    lemma_trim_end_lacks(with_footer, '<');
    let t = trim_end(with_footer);
    let d = document_markdown(doc, url, config);
    assert(d == t.push('\n'));
    assert forall|i: int| 0 <= i < d.len() implies #[trigger] d[i] != '<' by {
        if i < t.len() {
            assert(d[i] == t[i]);
        }
    }
}


/// `trim_end` keeps a prefix, and keeps every character up to the last
/// non-whitespace one.
proof fn lemma_trim_end_prefix(s: Seq<char>, j: int)
    requires
        0 <= j < s.len(),
        !crate::text::is_ws(s[j]),
    ensures
        trim_end(s).len() > j,
        crate::text::starts_with(s, trim_end(s)),
    decreases s.len(),
{
    if crate::text::is_ws(s.last()) {
        let d = s.drop_last();
        assert(d[j] == s[j]);
        lemma_trim_end_prefix(d, j);
        assert(s.subrange(0, trim_end(s).len() as int) =~= d.subrange(0, trim_end(d).len() as int));
    } else {
        assert(s.subrange(0, s.len() as int) =~= s);
    }
}

/// Stripping tags only ever appends: stripping a prefix gives a prefix.
proof fn lemma_strip_prefix(s: Seq<char>, k: int)
    requires
        0 <= k <= s.len(),
    ensures
        crate::text::starts_with(stripped_tags(s), stripped_tags(s.subrange(0, k))),
    decreases s.len() - k,
{
    if k == s.len() {
        assert(s.subrange(0, k) =~= s);
        assert(stripped_tags(s).subrange(0, stripped_tags(s).len() as int) =~= stripped_tags(s));
    } else {
        lemma_strip_prefix(s, k + 1);
        let t = s.subrange(0, k + 1);
        assert(t.drop_last() =~= s.subrange(0, k));
        let a = stripped_tags(s.subrange(0, k));
        let b = stripped_tags(t);
        assert(crate::text::starts_with(b, a)) by {
            assert(b.subrange(0, a.len() as int) =~= a);
        }
        let c = stripped_tags(s);
        assert(c.subrange(0, b.len() as int) == b);
        assert(c.subrange(0, a.len() as int) =~= b.subrange(0, a.len() as int));
    }
}

/// Splitting only ever extends: the pieces of a prefix are the first pieces
/// of the whole, the last of them possibly extended.
proof fn lemma_split_prefix(s: Seq<char>, k: int, sep: char)
    requires
        0 <= k <= s.len(),
    ensures
        split_on(s.subrange(0, k), sep).len() <= split_on(s, sep).len(),
        forall|i: int| 0 <= i < split_on(s.subrange(0, k), sep).len() - 1 ==> #[trigger] split_on(s, sep)[i]
            == split_on(s.subrange(0, k), sep)[i],
        crate::text::starts_with(
            split_on(s, sep)[split_on(s.subrange(0, k), sep).len() - 1],
            split_on(s.subrange(0, k), sep).last(),
        ),
    decreases s.len() - k,
{
    crate::text::lemma_split_len(s.subrange(0, k), sep);
    crate::text::lemma_split_len(s, sep);
    if k == s.len() {
        assert(s.subrange(0, k) =~= s);
        let l = split_on(s, sep).last();
        assert(l.subrange(0, l.len() as int) =~= l);
    } else {
        lemma_split_prefix(s, k + 1, sep);
        let t = s.subrange(0, k + 1);
        assert(t.drop_last() =~= s.subrange(0, k));
        crate::text::lemma_split_len(t, sep);
        let a = split_on(s.subrange(0, k), sep);
        let b = split_on(t, sep);
        let c = split_on(s, sep);
        let n = a.len();
        if t.last() == sep {
            assert(b == a.push(Seq::<char>::empty()));
            assert(c[n - 1] == b[n - 1]);
            assert(a.last().subrange(0, a.last().len() as int) =~= a.last());
        } else {
            assert(b == a.update(n - 1, a.last().push(t.last())));
            assert(c[n - 1].subrange(0, b[n - 1].len() as int) == b[n - 1]);
            assert(c[n - 1].subrange(0, a.last().len() as int) =~= a.last());
        }
    }
}

/// Collapsing only ever appends: collapsing the first lines gives a prefix.
proof fn lemma_collapse_prefix(lines: Seq<Seq<char>>, k: int, max: nat)
    requires
        0 <= k <= lines.len(),
    ensures
        crate::text::starts_with(collapse_state(lines, max).0, collapse_state(lines.subrange(0, k), max).0),
    decreases lines.len() - k,
{
    let c = collapse_state(lines, max).0;
    if k == lines.len() {
        assert(lines.subrange(0, k) =~= lines);
        assert(c.subrange(0, c.len() as int) =~= c);
    } else {
        lemma_collapse_prefix(lines, k + 1, max);
        let t = lines.subrange(0, k + 1);
        assert(t.drop_last() =~= lines.subrange(0, k));
        let a = collapse_state(lines.subrange(0, k), max).0;
        let b = collapse_state(t, max).0;
        assert(b.subrange(0, a.len() as int) =~= a);
        assert(c.subrange(0, a.len() as int) =~= b.subrange(0, a.len() as int));
    }
}

/// Joining only ever appends: the join of the first two pieces starts the
/// join of all.
proof fn lemma_join_prefix(parts: Seq<Seq<char>>, sep: Seq<char>, k: int)
    requires
        1 <= k <= parts.len(),
    ensures
        crate::text::starts_with(join_with(parts, sep), join_with(parts.subrange(0, k), sep)),
    decreases parts.len() - k,
{
    let c = join_with(parts, sep);
    if k == parts.len() {
        assert(parts.subrange(0, k) =~= parts);
        assert(c.subrange(0, c.len() as int) =~= c);
    } else {
        lemma_join_prefix(parts, sep, k + 1);
        let t = parts.subrange(0, k + 1);
        assert(t.drop_last() =~= parts.subrange(0, k));
        let a = join_with(parts.subrange(0, k), sep);
        let b = join_with(t, sep);
        assert(b.subrange(0, a.len() as int) =~= a);
        assert(c.subrange(0, a.len() as int) =~= b.subrange(0, a.len() as int));
    }
}

/// With frontmatter on, a converted document opens with the frontmatter's
/// first two lines: `---`, then `url:` (followed by the page's URL).
pub proof fn lemma_document_frontmatter_start(doc: ParsedDocument, url: Seq<char>, config: ConverterConfig)
    requires
        config.include_frontmatter,
    ensures
        crate::text::starts_with(document_markdown(doc, url, config), "---\nurl:"@),
{
    reveal_strlit("---\nurl:");
    reveal_strlit("---\n");
    reveal_strlit("url: ");
    let p = "---\nurl:"@;
    let dash = seq!['-', '-', '-'];
    let ul = seq!['u', 'r', 'l', ':'];
    assert(p =~= dash + seq!['\n'] + ul);
    let head = frontmatter(url, doc.metadata) + seq!['\n'];
    let raw = head + nodes_markdown(doc.content_nodes@);
    assert(raw.subrange(0, 8) =~= p);
    // Stripping keeps the opening.
    lemma_strip_state_plain(p);
    lemma_strip_prefix(raw, 8);
    let st = stripped_tags(raw);
    assert(st.subrange(0, 8) =~= p);
    // Splitting: the first piece is `---`, the second starts with `url:`.
    assert(split_on(Seq::<char>::empty(), '\n') =~= seq![Seq::<char>::empty()]);
    lemma_split_extend(Seq::<char>::empty(), dash, '\n');
    assert(Seq::<char>::empty() + dash =~= dash);
    assert(split_on(dash, '\n') =~= seq![dash]);
    let dn = dash + seq!['\n'];
    assert(dn.drop_last() =~= dash);
    assert(split_on(dn, '\n') =~= seq![dash, Seq::<char>::empty()]);
    lemma_split_extend(dn, ul, '\n');
    assert(split_on(p, '\n') =~= seq![dash, ul]);
    lemma_split_prefix(st, 8, '\n');
    let parts = split_on(st, '\n');
    assert(parts[0] == dash);
    assert(crate::text::starts_with(parts[1], ul));
    let lines = collapse_input_lines(st);
    assert(lines.len() >= 2 && lines[0] == dash && lines[1] == parts[1]);
    // Collapsing keeps both lines.
    let l1 = lines[1];
    assert(l1[0] == 'u' && l1[3] == ':');
    crate::text::lemma_trim_start_suffix(dash);
    crate::text::lemma_trim_start_suffix(l1);
    assert(crate::text::trim_start(dash) == dash);
    assert(crate::text::trim_start(l1) == l1);
    lemma_trim_end_prefix(dash, 0);
    lemma_trim_end_prefix(l1, 3);
    let two = lines.subrange(0, 2);
    assert(two.drop_last() =~= lines.subrange(0, 1));
    assert(lines.subrange(0, 1).drop_last() =~= Seq::<Seq<char>>::empty());
    let one = lines.subrange(0, 1);
    assert(one.last() == dash);
    assert(collapse_state(one.drop_last(), config.max_blank_lines as nat) == (Seq::<char>::empty(), 0nat));
    assert(trim(dash).len() == 3);
    assert(trim(l1).len() >= 4);
    let first = collapse_state(lines.subrange(0, 1), config.max_blank_lines as nat).0;
    assert(first =~= dash.push('\n'));
    let both = collapse_state(two, config.max_blank_lines as nat).0;
    assert(both =~= (dash.push('\n') + l1).push('\n'));
    lemma_collapse_prefix(lines, 2, config.max_blank_lines as nat);
    let col = collapsed_blank_lines(st, config.max_blank_lines as nat);
    assert(col.subrange(0, both.len() as int) == both);
    assert(col.subrange(0, 8) =~= p);
    // Trimming lines keeps both lines' openings.
    lemma_split_prefix(col, 8, '\n');
    crate::text::lemma_split_len(col, '\n');
    let cparts = split_on(col, '\n');
    assert(cparts[0] == dash);
    assert(crate::text::starts_with(cparts[1], ul));
    let ls = lines_of(col);
    let c1 = cparts[1];
    assert(ls.len() >= 2);
    assert(ls[0] == crate::text::strip_cr(dash));
    assert(crate::text::strip_cr(dash) == dash);
    assert(c1.len() >= 4 && c1[3] == ':');
    let s1 = crate::text::strip_cr(c1);
    assert(ls[1] == s1);
    assert(s1.len() >= 4 && s1[3] == ':' && s1.subrange(0, 4) =~= ul);
    lemma_trim_end_prefix(s1, 3);
    let ts = ls.map_values(|l: Seq<char>| trim_end(l));
    lemma_trim_end_prefix(dash, 0);
    assert(trim_end(dash).len() == 3);
    assert(trim_end(dash) =~= dash);
    assert(ts[0] == dash);
    let t1 = trim_end(s1);
    assert(ts[1] == t1);
    assert(t1.len() >= 4);
    assert(t1.subrange(0, 4) =~= ul) by {
        assert(s1.subrange(0, t1.len() as int) == t1);
        assert forall|j: int| 0 <= j < 4 implies t1[j] == ul[j] by {
            assert(t1[j] == s1[j]);
        }
    }
    lemma_join_prefix(ts, seq!['\n'], 2);
    let tt = ts.subrange(0, 2);
    assert(tt.drop_last() =~= ts.subrange(0, 1));
    assert(join_with(ts.subrange(0, 1), seq!['\n']) == dash);
    assert(join_with(tt, seq!['\n']) == dash + seq!['\n'] + t1);
    let cleaned = trimmed_lines(col);
    assert(cleaned.subrange(0, 8) =~= p) by {
        let j2 = join_with(tt, seq!['\n']);
        assert(cleaned.subrange(0, j2.len() as int) == j2);
        assert forall|j: int| 0 <= j < 8 implies cleaned[j] == p[j] by {
            assert(cleaned[j] == j2[j]);
        }
    }
    // The footer comes after; trimming the end keeps the `:`.
    let with_footer = if config.include_footer {
        (if cleaned.len() > 0 && cleaned.last() == '\n' {
            cleaned
        } else {
            cleaned.push('\n')
        }) + footer_text()
    } else {
        cleaned
    };
    assert(with_footer.subrange(0, 8) =~= p) by {
        assert forall|j: int| 0 <= j < 8 implies with_footer[j] == p[j] by {
            assert(with_footer[j] == cleaned[j]);
        }
    }
    assert(!crate::text::is_ws(with_footer[7]));
    lemma_trim_end_prefix(with_footer, 7);
    let t = trim_end(with_footer);
    let d = document_markdown(doc, url, config);
    assert(d == t.push('\n'));
    assert(d.subrange(0, 8) =~= p) by {
        assert forall|j: int| 0 <= j < 8 implies d[j] == p[j] by {
            assert(d[j] == t[j]);
            assert(t[j] == with_footer[j]);
        }
    }
}


/// The value a YAML double-quoted body stands for, read from left to right:
/// a backslash stands for the character after it; a bare `"` (which would
/// close the quotes) or a lone backslash at the end leaves no value.
pub open spec fn yaml_body_value(s: Seq<char>) -> Option<Seq<char>>
    decreases s.len(),
{
    if s.len() == 0 {
        Some(Seq::<char>::empty())
    } else if s[0] == '"' {
        None
    } else if s[0] == '\\' {
        if s.len() < 2 {
            None
        } else {
            match yaml_body_value(s.subrange(2, s.len() as int)) {
                Some(r) => Some(seq![s[1]] + r),
                None => None,
            }
        }
    } else {
        match yaml_body_value(s.subrange(1, s.len() as int)) {
            Some(r) => Some(seq![s[0]] + r),
            None => None,
        }
    }
}

proof fn lemma_yaml_body_concat(a: Seq<char>, b: Seq<char>)
    ensures
        yaml_quote_body(a + b) == yaml_quote_body(a) + yaml_quote_body(b),
    decreases b.len(),
{
    if b.len() == 0 {
        assert(a + b =~= a);
        assert(yaml_quote_body(a) + yaml_quote_body(b) =~= yaml_quote_body(a));
    } else {
        lemma_yaml_body_concat(a, b.drop_last());
        assert((a + b).drop_last() =~= a + b.drop_last());
        assert((a + b).last() == b.last());
        assert(yaml_quote_body(a + b) =~= yaml_quote_body(a) + yaml_quote_body(b));
    }
}

/// Quoting can be read back: the body written between the double quotes
/// holds no bare `"`, and reading its backslash escapes gives the value
/// back, for every value.
pub proof fn lemma_yaml_body_reads_back(v: Seq<char>)
    ensures
        yaml_body_value(yaml_quote_body(v)) == Some(v),
    decreases v.len(),
{
    if v.len() > 0 {
        let c = v[0];
        let rest = v.subrange(1, v.len() as int);
        assert(v =~= seq![c] + rest);
        lemma_yaml_body_concat(seq![c], rest);
        assert(seq![c].drop_last() =~= Seq::<char>::empty());
        assert(yaml_quote_body(seq![c].drop_last()) == Seq::<char>::empty());
        assert(seq![c].last() == c);
        lemma_yaml_body_reads_back(rest);
        let e = yaml_quote_body(v);
        if c == '\\' || c == '"' {
            assert(yaml_quote_body(seq![c]) =~= seq!['\\', c]);
            assert(e[0] == '\\' && e[1] == c);
            assert(e.subrange(2, e.len() as int) =~= yaml_quote_body(rest));
        } else {
            assert(yaml_quote_body(seq![c]) =~= seq![c]);
            assert(e[0] == c);
            assert(e.subrange(1, e.len() as int) =~= yaml_quote_body(rest));
        }
        assert(seq![c] + rest =~= v);
    }
}

/// A frontmatter value holding a double quote is written in double quotes,
/// and what stands between them reads back as the value.
pub proof fn lemma_yaml_quoted_value(v: Seq<char>)
    requires
        v.contains('"'),
    ensures
        ({
            let y = yaml_escaped(v);
            &&& y.len() >= 2
            &&& y[0] == '"'
            &&& y.last() == '"'
            &&& yaml_body_value(y.subrange(1, y.len() - 1)) == Some(v)
        }),
{
    lemma_yaml_body_reads_back(v);
    let y = yaml_escaped(v);
    assert(y.subrange(1, y.len() - 1) =~= yaml_quote_body(v));
}


/// A heading renders as one `#` per level (levels below 1 count as 1 and
/// above 6 as 6), a space, its trimmed text and a blank line.
pub proof fn lemma_heading_markdown(level: u8, text: String)
    ensures
        ({
            let m = node_markdown(ContentNode::Heading { level, text });
            let k: int = if level < 1 {
                1
            } else if level > 6 {
                6
            } else {
                level as int
            };
            &&& m.len() == k + 1 + trim(text@).len() + 2
            &&& forall|j: int| 0 <= j < k ==> #[trigger] m[j] == '#'
            &&& m[k] == ' '
            &&& m.subrange(k + 1, k + 1 + trim(text@).len()) == trim(text@)
            &&& m[m.len() - 1] == '\n' && m[m.len() - 2] == '\n'
        }),
{
    let m = node_markdown(ContentNode::Heading { level, text });
    let k: int = clamp_level(level) as int;
    assert(m == repeat_char('#', clamp_level(level)) + seq![' '] + trim(text@) + seq!['\n', '\n']);
    assert(m.subrange(k + 1, k + 1 + trim(text@).len()) =~= trim(text@));
}

} // verus!
