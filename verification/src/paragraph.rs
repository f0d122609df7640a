//! Paragraph rendering: classify a paragraph as heading, list item or
//! plain text and emit the matching Markdown block.

use vstd::prelude::*;
use crate::model::{ImageMap, NumberingTable, Paragraph, RelationshipTable};
use crate::inline::{collect_inline_content, inline_content};
use crate::numbering::{
    marker_spec, next_count, resolve_list_bullet, resolves_ordinal, ListCounters,
};
use crate::text::{blank_str, is_blank, push_char, repeat_char, trim, trim_str};

verus! {

/// The heading level a style id maps to, if any.
pub open spec fn heading_level_of(s: Seq<char>) -> Option<nat> {
    if s == "Heading1"@ || s == "heading1"@ || s == "heading 1"@ {
        Some(1 as nat)
    } else if s == "Heading2"@ || s == "heading2"@ || s == "heading 2"@ {
        Some(2 as nat)
    } else if s == "Heading3"@ || s == "heading3"@ || s == "heading 3"@ {
        Some(3 as nat)
    } else if s == "Heading4"@ || s == "heading4"@ || s == "heading 4"@ {
        Some(4 as nat)
    } else if s == "Heading5"@ || s == "heading5"@ || s == "heading 5"@ {
        Some(5 as nat)
    } else if s == "Heading6"@ || s == "heading6"@ || s == "heading 6"@ {
        Some(6 as nat)
    } else if s == "Title"@ || s == "title"@ {
        Some(1 as nat)
    } else if s == "Subtitle"@ || s == "subtitle"@ {
        Some(2 as nat)
    } else {
        None
    }
}

/// The heading level of a paragraph's style id, if any.
pub open spec fn paragraph_heading(p: Paragraph) -> Option<nat> {
    match p.style_id {
        Some(s) => heading_level_of(s@),
        None => None,
    }
}

/// Whether rendering this paragraph consults the numbering tables: it
/// carries a numbering reference and no heading style wins over it.
pub open spec fn takes_numbering(p: Paragraph) -> bool {
    p.numbering is Some && paragraph_heading(p) is None
}

/// The count recorded for the paragraph's numbering key, zero when the
/// paragraph has none.
pub open spec fn para_pre_count(p: Paragraph, counters: ListCounters) -> nat {
    match p.numbering {
        Some(nr) => counters.count_of(nr.list_id, nr.level),
        None => 0,
    }
}

/// The Markdown block a paragraph renders to, given the count its
/// numbering key held before the call.  A heading style takes
/// precedence over any numbering reference; a paragraph with blank
/// inline content and neither becomes a single blank line; a list item
/// is indented two spaces per level; a plain paragraph is followed by a
/// blank line.
pub open spec fn paragraph_text(
    p: Paragraph,
    rels: RelationshipTable,
    imap: ImageMap,
    table: NumberingTable,
    pre_count: nat,
) -> Seq<char> {
    let inline = inline_content(p.content@, rels, imap);
    if is_blank(inline) && paragraph_heading(p) is None && p.numbering is None {
        seq!['\n']
    } else if paragraph_heading(p) is Some {
        let level = paragraph_heading(p)->Some_0;
        repeat_char('#', level).push(' ') + trim(inline) + "\n\n"@
    } else if p.numbering is Some {
        let nr = p.numbering->Some_0;
        repeat_char(' ', 2 * (nr.level as nat)) + marker_spec(
            table,
            nr.list_id,
            nr.level,
            pre_count,
        ).push(' ') + trim(inline) + seq!['\n']
    } else {
        trim(inline) + "\n\n"@
    }
}

/// Map a style id to a heading level.
pub fn heading_level_str(s: &str) -> (r: Option<usize>)
    ensures
        match r {
            Some(l) => heading_level_of(s@) == Some(l as nat),
            None => heading_level_of(s@) is None,
        },
{
    if crate::text::str_eq(s, "Heading1") || crate::text::str_eq(s, "heading1")
        || crate::text::str_eq(s, "heading 1") {
        Some(1)
    } else if crate::text::str_eq(s, "Heading2") || crate::text::str_eq(s, "heading2")
        || crate::text::str_eq(s, "heading 2") {
        Some(2)
    } else if crate::text::str_eq(s, "Heading3") || crate::text::str_eq(s, "heading3")
        || crate::text::str_eq(s, "heading 3") {
        Some(3)
    } else if crate::text::str_eq(s, "Heading4") || crate::text::str_eq(s, "heading4")
        || crate::text::str_eq(s, "heading 4") {
        Some(4)
    } else if crate::text::str_eq(s, "Heading5") || crate::text::str_eq(s, "heading5")
        || crate::text::str_eq(s, "heading 5") {
        Some(5)
    } else if crate::text::str_eq(s, "Heading6") || crate::text::str_eq(s, "heading6")
        || crate::text::str_eq(s, "heading 6") {
        Some(6)
    } else if crate::text::str_eq(s, "Title") || crate::text::str_eq(s, "title") {
        Some(1)
    } else if crate::text::str_eq(s, "Subtitle") || crate::text::str_eq(s, "subtitle") {
        Some(2)
    } else {
        None
    }
}

/// Two spaces of indent per list level.
fn indent_str(level: usize) -> (r: String)
    ensures
        r@ == repeat_char(' ', 2 * (level as nat)),
{
    let mut out = String::new();
    let mut i: usize = 0;
    while i < level
        invariant
            0 <= i <= level,
            out@ == repeat_char(' ', 2 * (i as nat)),
        decreases level - i,
    {
        push_char(&mut out, ' ');
        push_char(&mut out, ' ');
        proof {
            assert(repeat_char(' ', 2 * (i as nat)).push(' ').push(' ') =~= repeat_char(
                ' ',
                2 * ((i + 1) as nat),
            ));
        }
        i = i + 1;
    }
    out
}

/// Render one paragraph, counting it when it is an ordinal list item.
pub fn render_paragraph(
    p: &Paragraph,
    rels: &RelationshipTable,
    imap: &ImageMap,
    table: &NumberingTable,
    counters: &mut ListCounters,
) -> (r: String)
    ensures
        r@ == paragraph_text(*p, *rels, *imap, *table, para_pre_count(*p, *old(counters))),
        takes_numbering(*p) && p.numbering is Some && resolves_ordinal(
            *table,
            p.numbering->Some_0.list_id,
            p.numbering->Some_0.level,
        ) ==> {
            let nr = p.numbering->Some_0;
            final(counters).count_of(nr.list_id, nr.level) == next_count(
                old(counters).count_of(nr.list_id, nr.level),
            ) && forall|i2: usize, l2: usize|
                !(i2 == nr.list_id && l2 == nr.level) ==> final(counters).count_of(i2, l2)
                    == old(counters).count_of(i2, l2)
        },
        !(takes_numbering(*p) && p.numbering is Some && resolves_ordinal(
            *table,
            p.numbering->Some_0.list_id,
            p.numbering->Some_0.level,
        )) ==> *final(counters) == *old(counters),
{
    let inline = collect_inline_content(&p.content, rels, imap);
    let heading = match &p.style_id {
        Some(s) => heading_level_str(s.as_str()),
        None => None,
    };
    let blank = blank_str(inline.as_str());
    if blank && heading.is_none() && p.numbering.is_none() {
        let mut out = String::new();
        push_char(&mut out, '\n');
        proof {
            assert(Seq::<char>::empty().push('\n') =~= seq!['\n']);
        }
        return out;
    }
    if let Some(level) = heading {
        let mut out = crate::text::repeat_char_str('#', level);
        push_char(&mut out, ' ');
        out.append(trim_str(inline.as_str()));
        out.append("\n\n");
        return out;
    }
    if let Some(nr) = &p.numbering {
        let mut out = indent_str(nr.level);
        let marker = resolve_list_bullet(table, counters, nr.list_id, nr.level);
        out.append(marker.as_str());
        push_char(&mut out, ' ');
        out.append(trim_str(inline.as_str()));
        push_char(&mut out, '\n');
        proof {
            let nrv = p.numbering->Some_0;
            let pre = para_pre_count(*p, *old(counters));
            assert(out@ =~= repeat_char(' ', 2 * (nrv.level as nat)) + marker_spec(
                *table,
                nrv.list_id,
                nrv.level,
                pre,
            ).push(' ') + trim(inline@) + seq!['\n']);
        }
        return out;
    }
    let mut out = String::from_str(trim_str(inline.as_str()));
    out.append("\n\n");
    out
}

/// Heading precedence: a paragraph carrying both a heading style and a
/// numbering reference renders as a heading, never as a list item, and
/// its rendering never consults the numbering tables or counters.
pub proof fn lemma_heading_precedence(
    p: Paragraph,
    rels: RelationshipTable,
    imap: ImageMap,
    table: NumberingTable,
    pre_count: nat,
)
    requires
        paragraph_heading(p) is Some,
        p.numbering is Some,
    ensures
        !takes_numbering(p),
        paragraph_text(p, rels, imap, table, pre_count) == repeat_char(
            '#',
            paragraph_heading(p)->Some_0,
        ).push(' ') + trim(inline_content(p.content@, rels, imap)) + "\n\n"@,
{
}

} // verus!
