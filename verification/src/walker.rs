//! The document walker: traverse the body tree in document order,
//! dispatching paragraphs and tables to their renderers, expanding
//! containers transparently, and skipping unrecognized nodes.

use vstd::prelude::*;
use crate::model::{DocumentNode, ImageMap, NumberingTable, Paragraph, RelationshipTable};
use crate::numbering::{next_count, resolves_ordinal, ListCounters};
use crate::paragraph::{para_pre_count, paragraph_text, render_paragraph, takes_numbering};
use crate::table::{render_table, table_text};

verus! {

broadcast use vstd::std_specs::vec::group_vec_axioms;

/// The abstract counter state: the running count of every
/// `(list id, level)` pair.
pub open spec fn counts_view(c: ListCounters) -> Map<(usize, usize), nat> {
    Map::new(|k: (usize, usize)| true, |k: (usize, usize)| c.count_of(k.0, k.1))
}

/// Fresh counter state: every count is zero.
pub open spec fn fresh_counts() -> Map<(usize, usize), nat> {
    Map::new(|k: (usize, usize)| true, |k: (usize, usize)| 0 as nat)
}

/// The count a paragraph's numbering key holds in the abstract state.
pub open spec fn para_pre_in(p: Paragraph, counts: Map<(usize, usize), nat>) -> nat {
    match p.numbering {
        Some(nr) => counts[(nr.list_id, nr.level)],
        None => 0,
    }
}

/// The counter state after rendering one paragraph: an ordinal list
/// item moves its own key's count up; everything else changes nothing.
pub open spec fn para_counts(
    p: Paragraph,
    table: NumberingTable,
    counts: Map<(usize, usize), nat>,
) -> Map<(usize, usize), nat> {
    if takes_numbering(p) && p.numbering is Some && resolves_ordinal(
        table,
        p.numbering->Some_0.list_id,
        p.numbering->Some_0.level,
    ) {
        let nr = p.numbering->Some_0;
        counts.insert((nr.list_id, nr.level), next_count(counts[(nr.list_id, nr.level)]))
    } else {
        counts
    }
}

/// The Markdown one node renders to, together with the counter state
/// it leaves behind.
pub open spec fn render_node_spec(
    n: DocumentNode,
    rels: RelationshipTable,
    imap: ImageMap,
    table: NumberingTable,
    counts: Map<(usize, usize), nat>,
) -> (Seq<char>, Map<(usize, usize), nat>)
    decreases n, 0int,
{
    match n {
        DocumentNode::Paragraph(p) => (
            paragraph_text(p, rels, imap, table, para_pre_in(p, counts)),
            para_counts(p, table, counts),
        ),
        DocumentNode::Table(t) => (table_text(t.rows@, rels, imap), counts),
        DocumentNode::Container(children) => render_nodes_spec(
            children@,
            rels,
            imap,
            table,
            counts,
        ),
        DocumentNode::Other => (Seq::empty(), counts),
    }
}

/// The Markdown a sequence of nodes renders to, in document order.
pub open spec fn render_nodes_spec(
    nodes: Seq<DocumentNode>,
    rels: RelationshipTable,
    imap: ImageMap,
    table: NumberingTable,
    counts: Map<(usize, usize), nat>,
) -> (Seq<char>, Map<(usize, usize), nat>)
    decreases nodes, 1int,
{
    if nodes.len() == 0 {
        (Seq::empty(), counts)
    } else {
        let head = render_node_spec(nodes[0], rels, imap, table, counts);
        let rest = render_nodes_spec(nodes.drop_first(), rels, imap, table, head.1);
        (head.0 + rest.0, rest.1)
    }
}

/// Render one node.
fn render_node(
    n: &DocumentNode,
    rels: &RelationshipTable,
    imap: &ImageMap,
    table: &NumberingTable,
    counters: &mut ListCounters,
) -> (r: String)
    ensures
        r@ == render_node_spec(*n, *rels, *imap, *table, counts_view(*old(counters))).0,
        counts_view(*final(counters)) == render_node_spec(
            *n,
            *rels,
            *imap,
            *table,
            counts_view(*old(counters)),
        ).1,
    decreases *n, 0int,
{
    match n {
        DocumentNode::Paragraph(p) => {
            let out = render_paragraph(p, rels, imap, table, counters);
            proof {
                assert(*n == DocumentNode::Paragraph(*p));
                assert(render_node_spec(*n, *rels, *imap, *table, counts_view(*old(counters)))
                    == (
                    paragraph_text(
                        *p,
                        *rels,
                        *imap,
                        *table,
                        para_pre_in(*p, counts_view(*old(counters))),
                    ),
                    para_counts(*p, *table, counts_view(*old(counters))),
                ));
                assert(para_pre_count(*p, *old(counters)) == para_pre_in(
                    *p,
                    counts_view(*old(counters)),
                ));
                if takes_numbering(*p) && p.numbering is Some && resolves_ordinal(
                    *table,
                    p.numbering->Some_0.list_id,
                    p.numbering->Some_0.level,
                ) {
                    assert(counts_view(*counters) =~= para_counts(
                        *p,
                        *table,
                        counts_view(*old(counters)),
                    ));
                } else {
                    assert(counts_view(*counters) =~= para_counts(
                        *p,
                        *table,
                        counts_view(*old(counters)),
                    ));
                }
            }
            out
        },
        DocumentNode::Table(t) => render_table(t, rels, imap),
        DocumentNode::Container(children) => {
            let out = render_nodes_from(children, 0, rels, imap, table, counters);
            proof {
                assert(children@.skip(0) =~= children@);
            }
            out
        },
        DocumentNode::Other => String::new(),
    }
}

/// Render the nodes from index `i` on.
fn render_nodes_from(
    nodes: &Vec<DocumentNode>,
    i: usize,
    rels: &RelationshipTable,
    imap: &ImageMap,
    table: &NumberingTable,
    counters: &mut ListCounters,
) -> (r: String)
    requires
        i <= nodes@.len(),
    ensures
        r@ == render_nodes_spec(
            nodes@.skip(i as int),
            *rels,
            *imap,
            *table,
            counts_view(*old(counters)),
        ).0,
        counts_view(*final(counters)) == render_nodes_spec(
            nodes@.skip(i as int),
            *rels,
            *imap,
            *table,
            counts_view(*old(counters)),
        ).1,
    decreases *nodes, (nodes@.len() - i + 1) as int,
{
    if i == nodes.len() {
        proof {
            assert(nodes@.skip(i as int) =~= Seq::<DocumentNode>::empty());
        }
        String::new()
    } else {
        let mut out = render_node(&nodes[i], rels, imap, table, counters);
        let rest = render_nodes_from(nodes, i + 1, rels, imap, table, counters);
        out.append(rest.as_str());
        proof {
            assert(nodes@.skip(i as int).drop_first() =~= nodes@.skip(i as int + 1));
            assert(nodes@.skip(i as int)[0] == nodes@[i as int]);
        }
        out
    }
}

/// Render a whole document body from one root node, with fresh counter
/// state for this render pass.
pub fn render(
    root: &DocumentNode,
    rels: &RelationshipTable,
    imap: &ImageMap,
    table: &NumberingTable,
) -> (r: String)
    ensures
        r@ == render_node_spec(*root, *rels, *imap, *table, fresh_counts()).0,
{
    let mut counters = ListCounters::new();
    proof {
        assert(counts_view(counters) =~= fresh_counts());
    }
    render_node(root, rels, imap, table, &mut counters)
}

/// Render a body given as a list of top-level nodes, with fresh
/// counter state for this render pass.
pub fn render_body(
    nodes: &Vec<DocumentNode>,
    rels: &RelationshipTable,
    imap: &ImageMap,
    table: &NumberingTable,
) -> (r: String)
    ensures
        r@ == render_nodes_spec(nodes@, *rels, *imap, *table, fresh_counts()).0,
{
    let mut counters = ListCounters::new();
    proof {
        assert(counts_view(counters) =~= fresh_counts());
        assert(nodes@.skip(0) =~= nodes@);
    }
    render_nodes_from(nodes, 0, rels, imap, table, &mut counters)
}

} // verus!
