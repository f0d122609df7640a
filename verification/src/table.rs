//! Table rendering: a grid of cell texts becomes a GitHub-flavored
//! Markdown pipe table with one header-separator row.

use vstd::prelude::*;
use crate::model::{ImageMap, Paragraph, RelationshipTable, TableCell, TableNode, TableRow};
use crate::inline::{collect_inline_content, inline_content};
use crate::text::{push_char, strs_view, trim, trim_str};

verus! {

/// The non-blank trimmed paragraph texts of one cell, in order.
pub open spec fn cell_parts(
    paras: Seq<Paragraph>,
    rels: RelationshipTable,
    imap: ImageMap,
) -> Seq<Seq<char>>
    decreases paras.len(),
{
    if paras.len() == 0 {
        Seq::empty()
    } else {
        let t = trim(inline_content(paras[0].content@, rels, imap));
        let head: Seq<Seq<char>> = if t.len() == 0 {
            Seq::empty()
        } else {
            seq![t]
        };
        head + cell_parts(paras.drop_first(), rels, imap)
    }
}

/// Cell paragraphs joined with a literal `<br>`, since Markdown tables
/// forbid raw newlines inside cells.
pub open spec fn join_br(parts: Seq<Seq<char>>) -> Seq<char>
    decreases parts.len(),
{
    if parts.len() == 0 {
        Seq::empty()
    } else if parts.len() == 1 {
        parts[0]
    } else {
        parts[0] + "<br>"@ + join_br(parts.drop_first())
    }
}

/// The rendered text of one cell.
pub open spec fn cell_text(cell: TableCell, rels: RelationshipTable, imap: ImageMap) -> Seq<
    char,
> {
    join_br(cell_parts(cell.paragraphs@, rels, imap))
}

/// The texts of one row's cells.
pub open spec fn cells_texts(
    cells: Seq<TableCell>,
    rels: RelationshipTable,
    imap: ImageMap,
) -> Seq<Seq<char>>
    decreases cells.len(),
{
    if cells.len() == 0 {
        Seq::empty()
    } else {
        seq![cell_text(cells[0], rels, imap)] + cells_texts(cells.drop_first(), rels, imap)
    }
}

/// The body rows that survive filtering: rows with no cells are
/// dropped before the column count is computed.
pub open spec fn filtered_rows(
    rows: Seq<TableRow>,
    rels: RelationshipTable,
    imap: ImageMap,
) -> Seq<Seq<Seq<char>>>
    decreases rows.len(),
{
    if rows.len() == 0 {
        Seq::empty()
    } else {
        let cells = cells_texts(rows[0].cells@, rels, imap);
        let head: Seq<Seq<Seq<char>>> = if cells.len() == 0 {
            Seq::empty()
        } else {
            seq![cells]
        };
        head + filtered_rows(rows.drop_first(), rels, imap)
    }
}

/// The column count: the widest surviving row.
pub open spec fn max_cols(rows: Seq<Seq<Seq<char>>>) -> nat
    decreases rows.len(),
{
    if rows.len() == 0 {
        0
    } else {
        let rest = max_cols(rows.drop_first());
        if rows[0].len() > rest {
            rows[0].len()
        } else {
            rest
        }
    }
}

/// The cell fields of one body line from column `j` on; absent cells
/// render empty.
pub open spec fn row_fields(cells: Seq<Seq<char>>, j: nat, cols: nat) -> Seq<char>
    decreases cols - j,
{
    if j >= cols {
        Seq::empty()
    } else {
        let cell: Seq<char> = if j < cells.len() {
            cells[j as int]
        } else {
            Seq::empty()
        };
        seq![' '] + cell + " |"@ + row_fields(cells, j + 1, cols)
    }
}

/// One body line.
pub open spec fn row_line(cells: Seq<Seq<char>>, cols: nat) -> Seq<char> {
    seq!['|'] + row_fields(cells, 0, cols) + seq!['\n']
}

/// The fields of the header-separator line.
pub open spec fn sep_fields(n: nat) -> Seq<char>
    decreases n,
{
    if n == 0 {
        Seq::empty()
    } else {
        " --- |"@ + sep_fields((n - 1) as nat)
    }
}

/// The header-separator line.
pub open spec fn sep_line(cols: nat) -> Seq<char> {
    seq!['|'] + sep_fields(cols) + seq!['\n']
}

/// The body lines after the first row.
pub open spec fn tail_lines(rows: Seq<Seq<Seq<char>>>, cols: nat) -> Seq<char>
    decreases rows.len(),
{
    if rows.len() == 0 {
        Seq::empty()
    } else {
        row_line(rows[0], cols) + tail_lines(rows.drop_first(), cols)
    }
}

/// The whole table: the first body line, the separator line, the
/// remaining body lines, and a closing blank line; nothing at all when
/// every row was dropped.
pub open spec fn table_text(rows: Seq<TableRow>, rels: RelationshipTable, imap: ImageMap) -> Seq<
    char,
> {
    let frows = filtered_rows(rows, rels, imap);
    if frows.len() == 0 {
        Seq::empty()
    } else {
        let cols = max_cols(frows);
        row_line(frows[0], cols) + sep_line(cols) + tail_lines(frows.drop_first(), cols) + seq![
            '\n',
        ]
    }
}

/// Render one cell: its paragraph texts joined with `<br>`.
pub fn collect_cell_text(cell: &TableCell, rels: &RelationshipTable, imap: &ImageMap) -> (r:
    String)
    ensures
        r@ == cell_text(*cell, *rels, *imap),
{
    let n: usize = cell.paragraphs.len();
    let mut parts: Vec<String> = Vec::new();
    let mut i: usize = 0;
    proof {
        assert(cell.paragraphs@.skip(0) =~= cell.paragraphs@);
        assert(strs_view(parts@) + cell_parts(cell.paragraphs@, *rels, *imap) =~= cell_parts(
            cell.paragraphs@,
            *rels,
            *imap,
        ));
    }
    while i < n
        invariant
            0 <= i <= n,
            n == cell.paragraphs@.len(),
            cell_parts(cell.paragraphs@, *rels, *imap) =~= strs_view(parts@) + cell_parts(
                cell.paragraphs@.skip(i as int),
                *rels,
                *imap,
            ),
        decreases n - i,
    {
        proof {
            assert(cell.paragraphs@.skip(i as int).drop_first() =~= cell.paragraphs@.skip(
                i as int + 1,
            ));
            assert(cell.paragraphs@.skip(i as int)[0] == cell.paragraphs@[i as int]);
        }
        let inline = collect_inline_content(&cell.paragraphs[i].content, rels, imap);
        let trimmed = trim_str(inline.as_str());
        if !trimmed.is_empty() {
            let t = String::from_str(trimmed);
            proof {
                assert(strs_view(parts@.push(t)) =~= strs_view(parts@).push(t@));
            }
            parts.push(t);
        }
        i = i + 1;
    }
    proof {
        assert(cell.paragraphs@.skip(n as int) =~= Seq::<Paragraph>::empty());
        assert(cell_parts(cell.paragraphs@, *rels, *imap) =~= strs_view(parts@));
        assert(strs_view(parts@).skip(0) =~= strs_view(parts@));
    }
    join_br_from(&parts, 0)
}

/// Join string parts with `<br>` from index `i` on.
fn join_br_from(parts: &Vec<String>, i: usize) -> (r: String)
    requires
        i <= parts@.len(),
    ensures
        r@ == join_br(strs_view(parts@).skip(i as int)),
    decreases parts@.len() - i,
{
    if i == parts.len() {
        proof {
            assert(strs_view(parts@).skip(i as int) =~= Seq::<Seq<char>>::empty());
        }
        String::new()
    } else if i + 1 == parts.len() {
        proof {
            assert(strs_view(parts@).skip(i as int).len() == 1);
            assert(strs_view(parts@).skip(i as int)[0] == parts@[i as int]@);
        }
        parts[i].clone()
    } else {
        let mut out = parts[i].clone();
        out.append("<br>");
        let rest = join_br_from(parts, i + 1);
        out.append(rest.as_str());
        proof {
            assert(strs_view(parts@).skip(i as int).drop_first() =~= strs_view(parts@).skip(
                i as int + 1,
            ));
            assert(strs_view(parts@).skip(i as int)[0] == parts@[i as int]@);
            assert(strs_view(parts@).skip(i as int).len() != 1);
        }
        out
    }
}

/// The widest row from index `i` on.
fn max_cols_from(rows: &Vec<Vec<String>>, i: usize, Ghost(frows): Ghost<Seq<Seq<Seq<char>>>>) -> (r:
    usize)
    requires
        i <= rows@.len(),
        frows.len() == rows@.len(),
        forall|k: int| 0 <= k < rows@.len() ==> frows[k] == strs_view(rows@[k]@),
    ensures
        r as nat == max_cols(frows.skip(i as int)),
    decreases rows@.len() - i,
{
    if i == rows.len() {
        proof {
            assert(frows.skip(i as int) =~= Seq::<Seq<Seq<char>>>::empty());
        }
        0
    } else {
        let rest = max_cols_from(rows, i + 1, Ghost(frows));
        let here: usize = rows[i].len();
        proof {
            assert(frows.skip(i as int).drop_first() =~= frows.skip(i as int + 1));
            assert(frows.skip(i as int)[0] == frows[i as int]);
            assert(frows[i as int].len() == rows@[i as int]@.len());
        }
        if here > rest {
            here
        } else {
            rest
        }
    }
}

/// One body line for a row.
fn render_row_line(cells: &Vec<String>, cols: usize) -> (r: String)
    ensures
        r@ == row_line(strs_view(cells@), cols as nat),
{
    let mut out = String::new();
    push_char(&mut out, '|');
    let fields = render_row_fields(cells, 0, cols);
    out.append(fields.as_str());
    push_char(&mut out, '\n');
    proof {
        assert(Seq::<char>::empty().push('|') =~= seq!['|']);
        assert((seq!['|'] + row_fields(strs_view(cells@), 0, cols as nat)).push('\n') =~= row_line(
            strs_view(cells@),
            cols as nat,
        ));
    }
    out
}

/// The cell fields of one body line from column `j` on.
fn render_row_fields(cells: &Vec<String>, j: usize, cols: usize) -> (r: String)
    ensures
        r@ == row_fields(strs_view(cells@), j as nat, cols as nat),
    decreases cols - j,
{
    if j >= cols {
        String::new()
    } else {
        let mut out = String::new();
        push_char(&mut out, ' ');
        if j < cells.len() {
            out.append(cells[j].as_str());
        }
        out.append(" |");
        let rest = render_row_fields(cells, j + 1, cols);
        out.append(rest.as_str());
        proof {
            let cs = strs_view(cells@);
            let cell: Seq<char> = if (j as nat) < cs.len() {
                cs[j as int]
            } else {
                Seq::empty()
            };
            assert(Seq::<char>::empty().push(' ') =~= seq![' ']);
            if j < cells.len() {
                assert(cs[j as int] == cells@[j as int]@);
            } else {
                assert(cell =~= Seq::<char>::empty());
            }
            assert(out@ =~= seq![' '] + cell + " |"@ + row_fields(cs, j as nat + 1, cols as nat));
        }
        out
    }
}

/// The separator fields for `n` columns.
fn render_sep_fields(n: usize) -> (r: String)
    ensures
        r@ == sep_fields(n as nat),
    decreases n,
{
    if n == 0 {
        String::new()
    } else {
        let mut out = String::from_str(" --- |");
        let rest = render_sep_fields(n - 1);
        out.append(rest.as_str());
        out
    }
}

/// Render a whole table.
pub fn render_table(table: &TableNode, rels: &RelationshipTable, imap: &ImageMap) -> (r: String)
    ensures
        r@ == table_text(table.rows@, *rels, *imap),
{
    let n: usize = table.rows.len();
    let mut rows_vec: Vec<Vec<String>> = Vec::new();
    let mut i: usize = 0;
    proof {
        assert(table.rows@.skip(0) =~= table.rows@);
        assert(filtered_rows(table.rows@, *rels, *imap) =~= rows_frows(rows_vec@)
            + filtered_rows(table.rows@, *rels, *imap));
    }
    while i < n
        invariant
            0 <= i <= n,
            n == table.rows@.len(),
            filtered_rows(table.rows@, *rels, *imap) =~= rows_frows(rows_vec@) + filtered_rows(
                table.rows@.skip(i as int),
                *rels,
                *imap,
            ),
        decreases n - i,
    {
        proof {
            assert(table.rows@.skip(i as int).drop_first() =~= table.rows@.skip(i as int + 1));
            assert(table.rows@.skip(i as int)[0] == table.rows@[i as int]);
        }
        let row = &table.rows[i];
        let m: usize = row.cells.len();
        let mut cells_vec: Vec<String> = Vec::new();
        let mut j: usize = 0;
        proof {
            assert(row.cells@.skip(0) =~= row.cells@);
            assert(cells_texts(row.cells@, *rels, *imap) =~= strs_view(cells_vec@) + cells_texts(
                row.cells@,
                *rels,
                *imap,
            ));
        }
        while j < m
            invariant
                0 <= j <= m,
                m == row.cells@.len(),
                cells_texts(row.cells@, *rels, *imap) =~= strs_view(cells_vec@) + cells_texts(
                    row.cells@.skip(j as int),
                    *rels,
                    *imap,
                ),
            decreases m - j,
        {
            proof {
                assert(row.cells@.skip(j as int).drop_first() =~= row.cells@.skip(j as int + 1));
                assert(row.cells@.skip(j as int)[0] == row.cells@[j as int]);
            }
            let t = collect_cell_text(&row.cells[j], rels, imap);
            proof {
                assert(strs_view(cells_vec@.push(t)) =~= strs_view(cells_vec@).push(t@));
            }
            cells_vec.push(t);
            j = j + 1;
        }
        proof {
            assert(row.cells@.skip(m as int) =~= Seq::<TableCell>::empty());
            assert(cells_texts(row.cells@, *rels, *imap) =~= strs_view(cells_vec@));
        }
        if cells_vec.len() > 0 {
            proof {
                assert(rows_frows(rows_vec@.push(cells_vec)) =~= rows_frows(rows_vec@).push(
                    strs_view(cells_vec@),
                ));
            }
            rows_vec.push(cells_vec);
        }
        i = i + 1;
    }
    proof {
        assert(table.rows@.skip(n as int) =~= Seq::<TableRow>::empty());
        assert(filtered_rows(table.rows@, *rels, *imap) =~= rows_frows(rows_vec@));
    }
    if rows_vec.len() == 0 {
        return String::new();
    }
    let ghost frows = rows_frows(rows_vec@);
    proof {
        assert(forall|k: int|
            0 <= k < rows_vec@.len() ==> frows[k] == strs_view(rows_vec@[k]@));
    }
    let cols = max_cols_from(&rows_vec, 0, Ghost(frows));
    proof {
        assert(frows.skip(0) =~= frows);
    }
    let mut out = render_row_line(&rows_vec[0], cols);
    let sep_fields_str = render_sep_fields(cols);
    push_char(&mut out, '|');
    out.append(sep_fields_str.as_str());
    push_char(&mut out, '\n');
    let ghost after_sep = row_line(frows[0], cols as nat) + sep_line(cols as nat);
    proof {
        assert(out@ =~= after_sep);
    }
    let k: usize = rows_vec.len();
    let mut i2: usize = 1;
    proof {
        assert(tail_lines(frows.skip(1), cols as nat) + Seq::<char>::empty() =~= tail_lines(
            frows.skip(1),
            cols as nat,
        ));
    }
    while i2 < k
        invariant
            1 <= i2 <= k,
            k == rows_vec@.len(),
            frows == rows_frows(rows_vec@),
            frows.len() == k,
            forall|k2: int| 0 <= k2 < rows_vec@.len() ==> frows[k2] == strs_view(rows_vec@[k2]@),
            out@ + tail_lines(frows.skip(i2 as int), cols as nat) =~= after_sep + tail_lines(
                frows.skip(1),
                cols as nat,
            ),
        decreases k - i2,
    {
        proof {
            assert(frows.skip(i2 as int).drop_first() =~= frows.skip(i2 as int + 1));
            assert(frows.skip(i2 as int)[0] == frows[i2 as int]);
        }
        let line = render_row_line(&rows_vec[i2], cols);
        out.append(line.as_str());
        i2 = i2 + 1;
    }
    proof {
        assert(frows.skip(k as int) =~= Seq::<Seq<Seq<char>>>::empty());
    }
    push_char(&mut out, '\n');
    proof {
        assert(out@ =~= table_text(table.rows@, *rels, *imap));
    }
    out
}

/// The filtered-row views of the intermediate representation.
pub open spec fn rows_frows(rows: Seq<Vec<String>>) -> Seq<Seq<Seq<char>>> {
    rows.map(|i: int, r: Vec<String>| strs_view(r@))
}

} // verus!
