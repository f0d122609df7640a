//! Markdown post-processing: convert HTML chapter content, rewrite
//! image references to their extracted paths, and normalize whitespace.

use vstd::prelude::*;
use crate::model::{ImageMap, ImageMapEntry};
use crate::normalize::{collapse_str, rtrim_str, spec_normalize, trim_lines_str};
use crate::rels::{file_name_of, file_name_str};
use crate::replace::{contains_str, first_match, replace_all, replace_all_str};
use crate::text::push_char;

verus! {

/// The Markdown text that HTML converts to.  The conversion is a pure
/// function of the HTML text alone; its value is not modeled here.
pub uninterp spec fn md_of_html(s: Seq<char>) -> Seq<char>;

/// Relies on `html2md::parse_html`: parses an HTML document and
/// converts it to Markdown; the result depends on the input string
/// alone.
#[verifier::external_body]
fn parse_html_str(html: &str) -> (r: String)
    ensures
        r@ == md_of_html(html@),
{
    html2md::parse_html(html)
}

/// One pattern step of the image-path rewrite: where the pattern built
/// around the bare filename occurs, the filename inside it gives way
/// to the replacement.
pub open spec fn pattern_step(
    t: Seq<char>,
    fname: Seq<char>,
    replacement: Seq<char>,
    pat: Seq<char>,
) -> Seq<char> {
    if first_match(t, pat) is Some {
        replace_all(t, pat, replace_all(pat, fname, replacement))
    } else {
        t
    }
}

/// Rewrite one image reference: replace the full original reference
/// everywhere, then replace its bare filename where it stands inside
/// the two link-syntax patterns `](…)` and `"…"`.  A reference that
/// carries no file name gets only the first step.
pub open spec fn rewrite_pair(
    md: Seq<char>,
    original: Seq<char>,
    replacement: Seq<char>,
) -> Seq<char> {
    let t = replace_all(md, original, replacement);
    match file_name_of(original) {
        None => t,
        Some(fname) => {
            let p1 = "]("@ + fname + ")"@;
            let p2 = "\""@ + fname + "\""@;
            pattern_step(pattern_step(t, fname, replacement, p1), fname, replacement, p2)
        },
    }
}

/// Rewrite every image-map entry, in insertion order; later entries
/// see the text the earlier ones produced.
pub open spec fn rewrite_pairs(md: Seq<char>, entries: Seq<ImageMapEntry>) -> Seq<char>
    decreases entries.len(),
{
    if entries.len() == 0 {
        md
    } else {
        rewrite_pairs(
            rewrite_pair(md, entries[0].original@, entries[0].replacement@),
            entries.drop_first(),
        )
    }
}

/// Rewrite one image reference in a Markdown text.
pub fn rewrite_image_path(md: &str, original: &str, replacement: &str) -> (r: String)
    ensures
        r@ == rewrite_pair(md@, original@, replacement@),
{
    let t = replace_all_str(md, original, replacement);
    let fname = match file_name_str(original) {
        Some(f) => f,
        None => {
            return t;
        },
    };
    let mut p1 = String::from_str("](");
    p1.append(fname);
    p1.append(")");
    let mut p2 = String::from_str("\"");
    p2.append(fname);
    p2.append("\"");
    let mut cur = t;
    if contains_str(cur.as_str(), p1.as_str()) {
        let inner = replace_all_str(p1.as_str(), fname, replacement);
        cur = replace_all_str(cur.as_str(), p1.as_str(), inner.as_str());
    }
    if contains_str(cur.as_str(), p2.as_str()) {
        let inner = replace_all_str(p2.as_str(), fname, replacement);
        cur = replace_all_str(cur.as_str(), p2.as_str(), inner.as_str());
    }
    cur
}

/// Normalize a Markdown text: collapse runs of three or more newlines
/// to two, right-trim every line, and end a non-empty result with
/// exactly one newline.
pub fn clean_markdown(md: &str) -> (r: String)
    ensures
        r@ == spec_normalize(md@),
{
    let collapsed = collapse_str(md);
    let trimmed = trim_lines_str(collapsed.as_str());
    let t = rtrim_str(trimmed.as_str());
    if t.is_empty() {
        String::new()
    } else {
        let mut out = String::from_str(t);
        push_char(&mut out, '\n');
        out
    }
}

/// Convert one HTML chapter to normalized Markdown, rewriting every
/// image reference recorded in the image map.
pub fn html_to_markdown(html: &str, image_map: &ImageMap) -> (r: String)
    ensures
        r@ == spec_normalize(rewrite_pairs(md_of_html(html@), image_map.entries@)),
{
    let mut cur = parse_html_str(html);
    let n: usize = image_map.entries.len();
    let mut i: usize = 0;
    proof {
        assert(image_map.entries@.skip(0) =~= image_map.entries@);
    }
    while i < n
        invariant
            0 <= i <= n,
            n == image_map.entries@.len(),
            rewrite_pairs(md_of_html(html@), image_map.entries@) == rewrite_pairs(
                cur@,
                image_map.entries@.skip(i as int),
            ),
        decreases n - i,
    {
        proof {
            assert(image_map.entries@.skip(i as int).drop_first() =~= image_map.entries@.skip(
                i as int + 1,
            ));
            assert(image_map.entries@.skip(i as int)[0] == image_map.entries@[i as int]);
        }
        let entry = &image_map.entries[i];
        cur = rewrite_image_path(cur.as_str(), entry.original.as_str(), entry.replacement.as_str());
        i = i + 1;
    }
    proof {
        assert(image_map.entries@.skip(n as int) =~= Seq::<ImageMapEntry>::empty());
    }
    clean_markdown(cur.as_str())
}

} // verus!
