//! Formatting of document metadata as a Markdown header block.

use vstd::prelude::*;
use crate::reader::Metadata;
use crate::text::{blank_str, is_blank, join_sep, join_sep_strs, push_char, strs_view};

verus! {

/// The authors that are not blank, in order.
pub open spec fn nonblank_authors(authors: Seq<String>) -> Seq<Seq<char>>
    decreases authors.len(),
{
    if authors.len() == 0 {
        Seq::empty()
    } else {
        let head: Seq<Seq<char>> = if is_blank(authors[0]@) {
            Seq::empty()
        } else {
            seq![authors[0]@]
        };
        head + nonblank_authors(authors.drop_first())
    }
}

/// The lines contributed by the title: a heading and a blank line.
pub open spec fn title_lines(meta: Metadata) -> Seq<Seq<char>> {
    match meta.title {
        Some(t) => if !is_blank(t@) {
            seq!["# "@ + t@, Seq::empty()]
        } else {
            Seq::empty()
        },
        None => Seq::empty(),
    }
}

/// The line naming the authors, when any is not blank.
pub open spec fn author_lines(meta: Metadata) -> Seq<Seq<char>> {
    let authors = nonblank_authors(meta.authors@);
    if authors.len() > 0 {
        seq!["**Author:** "@ + join_sep(authors, ", "@)]
    } else {
        Seq::empty()
    }
}

/// The line naming an optional labelled field.
pub open spec fn labelled_line(label: Seq<char>, field: Option<String>) -> Seq<Seq<char>> {
    match field {
        Some(v) => if !is_blank(v@) {
            seq![label + v@]
        } else {
            Seq::empty()
        },
        None => Seq::empty(),
    }
}

/// The lines contributed by the description: a blank line and a block
/// quote.
pub open spec fn description_lines(meta: Metadata) -> Seq<Seq<char>> {
    match meta.description {
        Some(d) => if !is_blank(d@) {
            seq![Seq::empty(), "> "@ + d@]
        } else {
            Seq::empty()
        },
        None => Seq::empty(),
    }
}

/// All lines of the metadata block: the fields that are present, then
/// a horizontal rule when anything was written at all.
pub open spec fn metadata_lines(meta: Metadata) -> Seq<Seq<char>> {
    let body = title_lines(meta) + author_lines(meta) + labelled_line(
        "**Publisher:** "@,
        meta.publisher,
    ) + labelled_line("**Language:** "@, meta.language) + description_lines(meta);
    if body.len() > 0 {
        body + seq![Seq::<char>::empty(), "---"@, Seq::<char>::empty()]
    } else {
        body
    }
}

/// The whole metadata block: its lines joined with newlines, ending
/// with one trailing newline unless nothing was written.
pub open spec fn format_metadata_spec(meta: Metadata) -> Seq<char> {
    let joined = join_sep(metadata_lines(meta), seq!['\n']);
    if joined.len() == 0 {
        joined
    } else {
        joined.push('\n')
    }
}

/// Format a document's metadata as a Markdown header block.
pub fn format_metadata(meta: &Metadata) -> (r: String)
    ensures
        r@ == format_metadata_spec(*meta),
{
    let mut lines: Vec<String> = Vec::new();
    if let Some(title) = &meta.title {
        if !blank_str(title.as_str()) {
            let mut l = String::from_str("# ");
            l.append(title.as_str());
            lines.push(l);
            lines.push(String::new());
        }
    }
    proof {
        assert(strs_view(lines@) =~= title_lines(*meta));
    }
    let ghost done1 = title_lines(*meta);
    let n: usize = meta.authors.len();
    let mut authors: Vec<String> = Vec::new();
    let mut i: usize = 0;
    proof {
        assert(meta.authors@.skip(0) =~= meta.authors@);
        assert(nonblank_authors(meta.authors@) =~= strs_view(authors@) + nonblank_authors(
            meta.authors@,
        ));
    }
    while i < n
        invariant
            0 <= i <= n,
            n == meta.authors@.len(),
            nonblank_authors(meta.authors@) =~= strs_view(authors@) + nonblank_authors(
                meta.authors@.skip(i as int),
            ),
        decreases n - i,
    {
        proof {
            assert(meta.authors@.skip(i as int).drop_first() =~= meta.authors@.skip(i as int + 1));
            assert(meta.authors@.skip(i as int)[0] == meta.authors@[i as int]);
        }
        if !blank_str(meta.authors[i].as_str()) {
            let a = meta.authors[i].clone();
            proof {
                assert(strs_view(authors@.push(a)) =~= strs_view(authors@).push(a@));
            }
            authors.push(a);
        }
        i = i + 1;
    }
    proof {
        assert(meta.authors@.skip(n as int) =~= Seq::<String>::empty());
        assert(strs_view(authors@) =~= nonblank_authors(meta.authors@));
    }
    if authors.len() > 0 {
        let joined = join_sep_strs(&authors, ", ");
        let mut l = String::from_str("**Author:** ");
        l.append(joined.as_str());
        lines.push(l);
    }
    proof {
        assert(strs_view(lines@) =~= done1 + author_lines(*meta));
    }
    let ghost done2 = done1 + author_lines(*meta);
    if let Some(publisher) = &meta.publisher {
        if !blank_str(publisher.as_str()) {
            let mut l = String::from_str("**Publisher:** ");
            l.append(publisher.as_str());
            lines.push(l);
        }
    }
    proof {
        assert(strs_view(lines@) =~= done2 + labelled_line("**Publisher:** "@, meta.publisher));
    }
    let ghost done3 = done2 + labelled_line("**Publisher:** "@, meta.publisher);
    if let Some(language) = &meta.language {
        if !blank_str(language.as_str()) {
            let mut l = String::from_str("**Language:** ");
            l.append(language.as_str());
            lines.push(l);
        }
    }
    proof {
        assert(strs_view(lines@) =~= done3 + labelled_line("**Language:** "@, meta.language));
    }
    let ghost done4 = done3 + labelled_line("**Language:** "@, meta.language);
    if let Some(description) = &meta.description {
        if !blank_str(description.as_str()) {
            let mut l = String::from_str("> ");
            l.append(description.as_str());
            lines.push(String::new());
            lines.push(l);
        }
    }
    proof {
        assert(strs_view(lines@) =~= done4 + description_lines(*meta));
    }
    let ghost body = done4 + description_lines(*meta);
    if lines.len() > 0 {
        lines.push(String::new());
        lines.push(String::from_str("---"));
        lines.push(String::new());
        proof {
            assert(strs_view(lines@) =~= body + seq![
                Seq::<char>::empty(),
                "---"@,
                Seq::<char>::empty(),
            ]);
        }
    }
    proof {
        assert(strs_view(lines@) =~= metadata_lines(*meta));
    }
    let mut sep = String::new();
    push_char(&mut sep, '\n');
    proof {
        assert(sep@ =~= seq!['\n']);
    }
    let joined = join_sep_strs(&lines, sep.as_str());
    if joined.as_str().is_empty() {
        joined
    } else {
        let mut out = joined;
        push_char(&mut out, '\n');
        out
    }
}

} // verus!
