//! Where and how crawl results are written: the file path of a page, and the
//! text written for it.
//!
//! Paths are strings with `/` separators, joined the way `PathBuf::push`
//! joins them on Unix.

use vstd::prelude::*;

use crate::config::FileStructure;
use crate::text::{chars_of, push_char, push_str, split_chars, split_on, string_of, views};
use crate::utils::{Url, UrlView, host_or_unknown, slug_of, url_to_slug};

verus! {

/// How a page was rendered.
#[derive(Debug, Clone, Copy, PartialEq, Eq, Structural)]
pub enum RenderMethod {
    /// Fetched as static HTML without running JavaScript.
    Static,
    /// Rendered in a headless browser with JavaScript.
    JavaScript,
}

/// `base` with `comp` pushed onto it (`PathBuf::push` on Unix): an absolute
/// component replaces the path; otherwise a `/` separates them unless the
/// path is empty or already ends with one.
pub open spec fn path_push(base: Seq<char>, comp: Seq<char>) -> Seq<char> {
    if comp.len() > 0 && comp[0] == '/' {
        comp
    } else if base.len() == 0 {
        comp
    } else if base.last() == '/' {
        base + comp
    } else {
        base + seq!['/'] + comp
    }
}

/// `base` with each non-empty component pushed in turn.
pub open spec fn push_segments(base: Seq<char>, segs: Seq<Seq<char>>) -> Seq<char>
    decreases segs.len(),
{
    if segs.len() == 0 {
        base
    } else {
        let b = push_segments(base, segs.drop_last());
        if segs.last().len() == 0 {
            b
        } else {
            path_push(b, segs.last())
        }
    }
}

/// The path without one leading `/`.
pub open spec fn without_leading_slash(path: Seq<char>) -> Seq<char> {
    if path.len() > 0 && path[0] == '/' {
        path.drop_first()
    } else {
        path
    }
}

/// The file a page is written to: flat, `<dir>/<slug>.md`; mirrored,
/// `<dir>/<host>/<path segments>/index.md` (`<dir>/<host>/index.md` for
/// the root).
pub open spec fn file_path_of(u: UrlView, dir: Seq<char>, structure: FileStructure) -> Seq<char> {
    match structure {
        FileStructure::Flat => path_push(dir, slug_of(u) + ".md"@),
        FileStructure::Mirror => {
            let trimmed = without_leading_slash(u.path);
            let base = path_push(dir, host_or_unknown(u));
            if trimmed.len() == 0 {
                path_push(base, "index.md"@)
            } else {
                path_push(push_segments(base, split_on(trimmed, '/')), "index.md"@)
            }
        },
    }
}

/// Push a component onto a path (see [`path_push`]).
fn path_push_exec(base: &mut String, comp: &str)
    ensures
        final(base)@ == path_push(old(base)@, comp@),
{
    let cv = chars_of(comp);
    if cv.len() > 0 && cv[0] == '/' {
        *base = comp.to_owned();
        return;
    }
    let bv = chars_of(base.as_str());
    if bv.len() == 0 {
        *base = comp.to_owned();
    } else if bv[bv.len() - 1] == '/' {
        push_str(base, comp);
    } else {
        push_char(base, '/');
        push_str(base, comp);
    }
}

/// The file a page is written to (see [`file_path_of`]).
pub fn url_to_file_path(url: &Url, output_dir: &str, structure: &FileStructure) -> (res: String)
    ensures
        res@ == file_path_of(url@, output_dir@, *structure),
{
    match structure {
        FileStructure::Flat => {
            let mut name = url_to_slug(url);
            push_str(&mut name, ".md");
            let mut p = output_dir.to_owned();
            path_push_exec(&mut p, name.as_str());
            p
        },
        FileStructure::Mirror => {
            let host = match url.host_str() {
                Some(h) => h,
                None => "unknown",
            };
            let pv = chars_of(url.path());
            let start: usize = if pv.len() > 0 && pv[0] == '/' {
                1
            } else {
                0
            };
            let trimmed = crate::text::string_from_range(&pv, start, pv.len());
            assert(trimmed@ == without_leading_slash(url@.path)) by {
                if start == 1 {
                    assert(pv@.subrange(1, pv@.len() as int) =~= pv@.drop_first());
                } else {
                    assert(pv@.subrange(0, pv@.len() as int) =~= pv@);
                }
            }
            let mut p = output_dir.to_owned();
            path_push_exec(&mut p, host);
            if trimmed.as_str().is_empty() {
                path_push_exec(&mut p, "index.md");
                return p;
            }
            let tv = chars_of(trimmed.as_str());
            let segs = split_chars(&tv, '/');
            let ghost sp = split_on(trimmed@, '/');
            let ghost base = p@;
            let mut i: usize = 0;
            while i < segs.len()
                invariant
                    i <= segs.len(),
                    segs@.len() == sp.len(),
                    forall|k: int| 0 <= k < segs@.len() ==> #[trigger] segs@[k]@ == sp[k],
                    p@ == push_segments(base, sp.subrange(0, i as int)),
                decreases segs.len() - i,
            {
                assert(sp.subrange(0, i + 1).drop_last() =~= sp.subrange(0, i as int));
                assert(sp.subrange(0, i + 1).last() == segs@[i as int]@);
                if segs[i].len() > 0 {
                    let seg = string_of(&segs[i]);
                    path_push_exec(&mut p, seg.as_str());
                }
                i = i + 1;
            }
            assert(sp.subrange(0, sp.len() as int) =~= sp);
            path_push_exec(&mut p, "index.md");
            p
        },
    }
}

/// The text written for a page: a heading with its title, its URL and crawl
/// time, then its Markdown.
pub open spec fn page_content(title: Seq<char>, url: Seq<char>, crawled_at: Seq<char>, markdown: Seq<char>) -> Seq<char> {
    "# "@ + title + "\n\nURL: "@ + url + "\nCrawled at: "@ + crawled_at + "\n\n"@ + markdown + "\n"@
}

/// The text written for a page (see [`page_content`]); `crawled_at` is the
/// crawl time as displayed.
pub fn format_page_content(title: &str, url: &str, crawled_at: &str, markdown: &str) -> (res: String)
    ensures
        res@ == page_content(title@, url@, crawled_at@, markdown@),
{
    let mut s = String::new();
    push_str(&mut s, "# ");
    push_str(&mut s, title);
    push_str(&mut s, "\n\nURL: ");
    push_str(&mut s, url);
    push_str(&mut s, "\nCrawled at: ");
    push_str(&mut s, crawled_at);
    push_str(&mut s, "\n\n");
    push_str(&mut s, markdown);
    push_str(&mut s, "\n");
    s
}

/// What is appended to the single output file for a page: its content,
/// after a `---` separator when the file already has content.
pub fn single_file_chunk(content: &str, needs_separator: bool) -> (res: String)
    ensures
        needs_separator ==> res@ == "\n---\n\n"@ + content@,
        !needs_separator ==> res@ == content@,
{
    if needs_separator {
        let mut s = String::new();
        push_str(&mut s, "\n---\n\n");
        push_str(&mut s, content);
        s
    } else {
        content.to_owned()
    }
}

} // verus!
