//! The document model: the plain datatypes that the renderers walk.
//!
//! A parsed word-processing document is handed to this crate as a tree
//! of these values, together with the read-only relationship and
//! numbering tables of the document part they came from.

use vstd::prelude::*;

verus! {

/// One piece of a text run.
pub enum RunSegment {
    /// Literal text.
    Text(String),
    /// An explicit line break inside the run.
    LineBreak,
    /// A tab character inside the run.
    Tab,
    /// An embedded image: the relationship id it is stored under, and
    /// its alternative text.
    Media { embed_id: String, alt: String },
}

/// A maximal span of inline text sharing one set of formatting flags.
pub struct Run {
    pub bold: bool,
    pub italic: bool,
    pub strike: bool,
    pub segments: Vec<RunSegment>,
}

/// An inline hyperlink: optional display run, and either an internal
/// anchor name or an external relationship id.
pub struct Hyperlink {
    pub display: Option<Run>,
    pub anchor: Option<String>,
    pub rel_id: Option<String>,
}

/// One inline item of a paragraph.
pub enum InlineItem {
    Run(Run),
    Link(Hyperlink),
}

/// A numbering reference carried by a list-item paragraph.
pub struct NumberingRef {
    pub list_id: usize,
    pub level: usize,
}

/// A paragraph: optional style id, optional numbering reference, and
/// its inline content in order.
pub struct Paragraph {
    pub style_id: Option<String>,
    pub numbering: Option<NumberingRef>,
    pub content: Vec<InlineItem>,
}

/// A table cell holds whole paragraphs; their texts are joined when the
/// table is rendered.
pub struct TableCell {
    pub paragraphs: Vec<Paragraph>,
}

/// One table row.
pub struct TableRow {
    pub cells: Vec<TableCell>,
}

/// A grid of cells.
pub struct TableNode {
    pub rows: Vec<TableRow>,
}

/// One node of the document body tree.
pub enum DocumentNode {
    Paragraph(Paragraph),
    Table(TableNode),
    /// A transparent wrapper around further nodes; it contributes no
    /// markup of its own.
    Container(Vec<DocumentNode>),
    /// A node kind outside this model; it renders to nothing.
    Other,
}

/// One entry of the relationship table: a short identifier mapped to a
/// target path, URL or anchor.
pub struct RelEntry {
    pub id: String,
    pub target: String,
}

/// The read-only relationship table of one document part.
pub struct RelationshipTable {
    pub entries: Vec<RelEntry>,
}

/// One entry of the image map: an original in-document asset reference
/// and the final output-relative path it was extracted to.
pub struct ImageMapEntry {
    pub original: String,
    pub replacement: String,
}

/// The image map, in insertion order.
pub struct ImageMap {
    pub entries: Vec<ImageMapEntry>,
}

/// The marker style of one indent level of an abstract numbering
/// definition.
#[derive(Clone, Copy)]
pub enum NumberFormat {
    Bullet,
    Decimal,
    UpperRoman,
    LowerRoman,
    UpperLetter,
    LowerLetter,
    NoFormat,
    /// A style outside this model; it renders as a plain bullet.
    Other,
}

/// One level entry of an abstract numbering definition.
pub struct LevelEntry {
    pub level: Option<usize>,
    pub format: Option<NumberFormat>,
}

/// An abstract numbering definition: marker style per indent level.
pub struct AbstractNumbering {
    pub abstract_id: usize,
    pub levels: Vec<LevelEntry>,
}

/// One concrete numbering definition, pointing at an abstract one.
pub struct NumberingEntry {
    pub num_id: Option<usize>,
    pub abstract_id: Option<usize>,
}

/// The read-only numbering tables of one document: concrete definitions
/// and the abstract definitions they reference.
pub struct NumberingTable {
    pub numberings: Vec<NumberingEntry>,
    pub abstracts: Vec<AbstractNumbering>,
}

impl RelationshipTable {
    /// The target of the first entry carrying `id`, if any.
    pub open spec fn spec_lookup(self, id: Seq<char>) -> Option<Seq<char>> {
        Self::lookup_entries(self.entries@, id)
    }

    /// First-match lookup over a sequence of entries.
    pub open spec fn lookup_entries(entries: Seq<RelEntry>, id: Seq<char>) -> Option<Seq<char>>
        decreases entries.len(),
    {
        if entries.len() == 0 {
            None
        } else if entries[0].id@ == id {
            Some(entries[0].target@)
        } else {
            Self::lookup_entries(entries.drop_first(), id)
        }
    }

    /// Find the target recorded for `id`.
    pub fn lookup(&self, id: &str) -> (r: Option<&String>)
        ensures
            match r {
                Some(t) => self.spec_lookup(id@) == Some(t@),
                None => self.spec_lookup(id@) is None,
            },
    {
        let n: usize = self.entries.len();
        let mut i: usize = 0;
        proof {
            assert(self.entries@.skip(0) =~= self.entries@);
        }
        while i < n
            invariant
                0 <= i <= n,
                n == self.entries@.len(),
                Self::lookup_entries(self.entries@.skip(i as int), id@) == self.spec_lookup(
                    id@,
                ),
            decreases n - i,
        {
            proof {
                assert(self.entries@.skip(i as int).drop_first() =~= self.entries@.skip(
                    i as int + 1,
                ));
            }
            if crate::text::str_eq(self.entries[i].id.as_str(), id) {
                return Some(&self.entries[i].target);
            }
            i = i + 1;
        }
        None
    }
}

impl ImageMap {
    /// The replacement recorded for `key`, if any (first match).
    pub open spec fn spec_get(self, key: Seq<char>) -> Option<Seq<char>> {
        Self::get_entries(self.entries@, key)
    }

    /// First-match lookup over the entries.
    pub open spec fn get_entries(entries: Seq<ImageMapEntry>, key: Seq<char>) -> Option<
        Seq<char>,
    >
        decreases entries.len(),
    {
        if entries.len() == 0 {
            None
        } else if entries[0].original@ == key {
            Some(entries[0].replacement@)
        } else {
            Self::get_entries(entries.drop_first(), key)
        }
    }

    /// Find the replacement recorded for `key`.
    pub fn get(&self, key: &str) -> (r: Option<&String>)
        ensures
            match r {
                Some(t) => self.spec_get(key@) == Some(t@),
                None => self.spec_get(key@) is None,
            },
    {
        let n: usize = self.entries.len();
        let mut i: usize = 0;
        proof {
            assert(self.entries@.skip(0) =~= self.entries@);
        }
        while i < n
            invariant
                0 <= i <= n,
                n == self.entries@.len(),
                Self::get_entries(self.entries@.skip(i as int), key@) == self.spec_get(key@),
            decreases n - i,
        {
            proof {
                assert(self.entries@.skip(i as int).drop_first() =~= self.entries@.skip(
                    i as int + 1,
                ));
            }
            if crate::text::str_eq(self.entries[i].original.as_str(), key) {
                return Some(&self.entries[i].replacement);
            }
            i = i + 1;
        }
        None
    }

    /// An image map with no entries.
    pub fn new() -> (r: ImageMap)
        ensures
            r.entries@.len() == 0,
    {
        ImageMap { entries: Vec::new() }
    }
}

} // verus!
