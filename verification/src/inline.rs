//! Rendering of inline content: run text with its formatting markers,
//! and hyperlinks.

use vstd::prelude::*;
use crate::model::{ImageMap, InlineItem, RelationshipTable, Run, RunSegment};
use crate::rels::{hyperlink_target, media_path, resolve_hyperlink, resolve_media};
use crate::text::{is_blank, blank_str, push_char};

verus! {

/// The text one segment contributes: literal text, a newline, a tab, or
/// an image reference resolved through the relationship table; an
/// unresolvable image contributes nothing.
pub open spec fn seg_text(
    seg: RunSegment,
    rels: RelationshipTable,
    imap: ImageMap,
) -> Seq<char> {
    match seg {
        RunSegment::Text(t) => t@,
        RunSegment::LineBreak => seq!['\n'],
        RunSegment::Tab => seq!['\t'],
        RunSegment::Media { embed_id, alt } => match media_path(rels, imap, embed_id@) {
            Some(p) => "!["@ + alt@ + "]("@ + p + ")"@,
            None => Seq::empty(),
        },
    }
}

/// The concatenated text of a run's segments.
pub open spec fn run_text(
    segs: Seq<RunSegment>,
    rels: RelationshipTable,
    imap: ImageMap,
) -> Seq<char>
    decreases segs.len(),
{
    if segs.len() == 0 {
        Seq::empty()
    } else {
        seg_text(segs[0], rels, imap) + run_text(segs.drop_first(), rels, imap)
    }
}

/// A run's text wrapped in its formatting markers.  Blank text is
/// returned unwrapped; otherwise the emphasis markers are applied
/// first and the strike marker wraps outermost.
pub open spec fn formatted_run(text: Seq<char>, bold: bool, italic: bool, strike: bool) -> Seq<
    char,
> {
    if is_blank(text) {
        text
    } else {
        let emphasized = if bold && italic {
            "***"@ + text + "***"@
        } else if bold {
            "**"@ + text + "**"@
        } else if italic {
            "*"@ + text + "*"@
        } else {
            text
        };
        if strike {
            "~~"@ + emphasized + "~~"@
        } else {
            emphasized
        }
    }
}

/// The fragment one inline item contributes.  A run contributes its
/// formatted text, or nothing when its text is empty.  A hyperlink
/// contributes `[display](target)`, the bare target when the display
/// text is empty, or the display text alone when no target resolves.
pub open spec fn inline_item_text(
    item: InlineItem,
    rels: RelationshipTable,
    imap: ImageMap,
) -> Seq<char> {
    match item {
        InlineItem::Run(run) => {
            let t = run_text(run.segments@, rels, imap);
            if t.len() == 0 {
                Seq::empty()
            } else {
                formatted_run(t, run.bold, run.italic, run.strike)
            }
        },
        InlineItem::Link(link) => {
            let d = match link.display {
                Some(run) => run_text(run.segments@, rels, imap),
                None => Seq::empty(),
            };
            match hyperlink_target(rels, link) {
                Some(u) => if d.len() > 0 {
                    "["@ + d + "]("@ + u + ")"@
                } else {
                    u
                },
                None => d,
            }
        },
    }
}

/// The concatenated fragments of a paragraph's inline items.
pub open spec fn inline_content(
    items: Seq<InlineItem>,
    rels: RelationshipTable,
    imap: ImageMap,
) -> Seq<char>
    decreases items.len(),
{
    if items.len() == 0 {
        Seq::empty()
    } else {
        inline_item_text(items[0], rels, imap) + inline_content(items.drop_first(), rels, imap)
    }
}

/// Render one segment.
fn seg_text_str(seg: &RunSegment, rels: &RelationshipTable, imap: &ImageMap) -> (r: String)
    ensures
        r@ == seg_text(*seg, *rels, *imap),
{
    match seg {
        RunSegment::Text(t) => t.clone(),
        RunSegment::LineBreak => {
            let mut out = String::new();
            push_char(&mut out, '\n');
            proof {
                assert(Seq::<char>::empty().push('\n') =~= seq!['\n']);
            }
            out
        },
        RunSegment::Tab => {
            let mut out = String::new();
            push_char(&mut out, '\t');
            proof {
                assert(Seq::<char>::empty().push('\t') =~= seq!['\t']);
            }
            out
        },
        RunSegment::Media { embed_id, alt } => {
            match resolve_media(rels, imap, embed_id.as_str()) {
                Some(p) => {
                    let mut out = String::from_str("![");
                    out.append(alt.as_str());
                    out.append("](");
                    out.append(p.as_str());
                    out.append(")");
                    out
                },
                None => String::new(),
            }
        },
    }
}

/// Concatenate the segments of a run from index `i` on.
fn run_text_from(
    segs: &Vec<RunSegment>,
    i: usize,
    rels: &RelationshipTable,
    imap: &ImageMap,
) -> (r: String)
    requires
        i <= segs@.len(),
    ensures
        r@ == run_text(segs@.skip(i as int), *rels, *imap),
    decreases segs@.len() - i,
{
    if i == segs.len() {
        proof {
            assert(segs@.skip(i as int) =~= Seq::<RunSegment>::empty());
        }
        String::new()
    } else {
        let mut out = seg_text_str(&segs[i], rels, imap);
        let rest = run_text_from(segs, i + 1, rels, imap);
        out.append(rest.as_str());
        proof {
            assert(segs@.skip(i as int).drop_first() =~= segs@.skip(i as int + 1));
            assert(segs@.skip(i as int)[0] == segs@[i as int]);
        }
        out
    }
}

/// Concatenate a run's segments into its raw text.
pub fn collect_run_text(run: &Run, rels: &RelationshipTable, imap: &ImageMap) -> (r: String)
    ensures
        r@ == run_text(run.segments@, *rels, *imap),
{
    let out = run_text_from(&run.segments, 0, rels, imap);
    proof {
        assert(run.segments@.skip(0) =~= run.segments@);
    }
    out
}

/// Wrap run text in its Markdown formatting markers.
pub fn format_run_text(text: &str, bold: bool, italic: bool, strike: bool) -> (r: String)
    ensures
        r@ == formatted_run(text@, bold, italic, strike),
{
    if blank_str(text) {
        return String::from_str(text);
    }
    let mut emphasized = String::new();
    if bold && italic {
        emphasized.append("***");
        emphasized.append(text);
        emphasized.append("***");
    } else if bold {
        emphasized.append("**");
        emphasized.append(text);
        emphasized.append("**");
    } else if italic {
        emphasized.append("*");
        emphasized.append(text);
        emphasized.append("*");
    } else {
        emphasized.append(text);
    }
    let mut out = String::new();
    if strike {
        out.append("~~");
        out.append(emphasized.as_str());
        out.append("~~");
    } else {
        out = emphasized;
    }
    out
}

/// Render one inline item.
fn inline_item_str(item: &InlineItem, rels: &RelationshipTable, imap: &ImageMap) -> (r: String)
    ensures
        r@ == inline_item_text(*item, *rels, *imap),
{
    match item {
        InlineItem::Run(run) => {
            let t = collect_run_text(run, rels, imap);
            if t.as_str().is_empty() {
                String::new()
            } else {
                format_run_text(t.as_str(), run.bold, run.italic, run.strike)
            }
        },
        InlineItem::Link(link) => {
            let d = match &link.display {
                Some(run) => collect_run_text(run, rels, imap),
                None => String::new(),
            };
            match resolve_hyperlink(rels, link) {
                Some(u) => {
                    if !d.as_str().is_empty() {
                        let mut out = String::from_str("[");
                        out.append(d.as_str());
                        out.append("](");
                        out.append(u.as_str());
                        out.append(")");
                        out
                    } else {
                        u
                    }
                },
                None => d,
            }
        },
    }
}

/// Concatenate inline items from index `i` on.
fn inline_content_from(
    items: &Vec<InlineItem>,
    i: usize,
    rels: &RelationshipTable,
    imap: &ImageMap,
) -> (r: String)
    requires
        i <= items@.len(),
    ensures
        r@ == inline_content(items@.skip(i as int), *rels, *imap),
    decreases items@.len() - i,
{
    if i == items.len() {
        proof {
            assert(items@.skip(i as int) =~= Seq::<InlineItem>::empty());
        }
        String::new()
    } else {
        let mut out = inline_item_str(&items[i], rels, imap);
        let rest = inline_content_from(items, i + 1, rels, imap);
        out.append(rest.as_str());
        proof {
            assert(items@.skip(i as int).drop_first() =~= items@.skip(i as int + 1));
            assert(items@.skip(i as int)[0] == items@[i as int]);
        }
        out
    }
}

/// Render a paragraph's inline items as one Markdown fragment.
pub fn collect_inline_content(
    items: &Vec<InlineItem>,
    rels: &RelationshipTable,
    imap: &ImageMap,
) -> (r: String)
    ensures
        r@ == inline_content(items@, *rels, *imap),
{
    let out = inline_content_from(items, 0, rels, imap);
    proof {
        assert(items@.skip(0) =~= items@);
    }
    out
}

/// Blank run text is never wrapped: for whitespace-only text the
/// formatter returns the text unchanged, whatever the flags say.
pub proof fn lemma_blank_run_unwrapped(text: Seq<char>, bold: bool, italic: bool, strike: bool)
    requires
        is_blank(text),
    ensures
        formatted_run(text, bold, italic, strike) == text,
{
}

} // verus!
