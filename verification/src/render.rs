//! Rendering one `INSERT ... VALUES` statement as aligned text: every cell is
//! right-padded with spaces to its column's width.

use vstd::prelude::*;
use crate::model::{Insert, InsertView, wf_insert};
use crate::widths::{col_max, get_max_char_length_vec, lemma_col_max_is_max, spec_widths};

verus! {

/// A run of `n` ASCII spaces.
pub open spec fn spaces(n: nat) -> Seq<char> {
    Seq::new(n, |i: int| ' ')
}

/// `s` right-padded with spaces to width `w`; unchanged when already as wide.
pub open spec fn spec_pad(s: Seq<char>, w: int) -> Seq<char> {
    if s.len() as int >= w {
        s
    } else {
        s + spaces((w - s.len()) as nat)
    }
}

/// Widths vector as mathematical integers.
pub open spec fn ws_of(ws: Seq<usize>) -> Seq<int> {
    Seq::new(ws.len(), |i: int| ws[i] as int)
}

/// The first `i` cells of one parenthesized line: each cell padded to its
/// column's width, with a comma before every cell but the first.
pub open spec fn spec_cells_upto(cells: Seq<Seq<char>>, ws: Seq<int>, i: int) -> Seq<char>
    decreases i,
{
    if i <= 0 {
        Seq::empty()
    } else {
        spec_cells_upto(cells, ws, i - 1) + (if i - 1 > 0 {
            ","@
        } else {
            Seq::<char>::empty()
        }) + spec_pad(cells[i - 1], ws[i - 1])
    }
}

/// One full line of padded, comma-separated cells.
pub open spec fn spec_row_cells(cells: Seq<Seq<char>>, ws: Seq<int>) -> Seq<char> {
    spec_cells_upto(cells, ws, cells.len() as int)
}

/// The first `r` value rows, each parenthesized; every row ends with `,` and a
/// newline except the last of the whole statement, which ends with `;` and a
/// blank line.
pub open spec fn spec_rows_upto(rows: Seq<Seq<Seq<char>>>, ws: Seq<int>, r: int) -> Seq<char>
    decreases r,
{
    if r <= 0 {
        Seq::empty()
    } else {
        spec_rows_upto(rows, ws, r - 1) + "("@ + spec_row_cells(rows[r - 1], ws) + (if r
            == rows.len() {
            ");\n\n"@
        } else {
            "),\n"@
        })
    }
}

/// The whole rendered statement for a given widths vector.
pub open spec fn spec_render_with(
    table: Seq<char>,
    cols: Seq<Seq<char>>,
    rows: Seq<Seq<Seq<char>>>,
    ws: Seq<int>,
) -> Seq<char> {
    "INSERT INTO "@ + table + "\n"@ + "("@ + spec_row_cells(cols, ws) + ")\n"@ + "VALUES\n"@
        + spec_rows_upto(rows, ws, rows.len() as int)
}

/// The rendered statement, with the widths the formatter derives from it.
pub open spec fn spec_render_stmt(iv: InsertView) -> Seq<char> {
    spec_render_with(iv.table, iv.columns, iv.rows, spec_widths(iv.columns, iv.rows))
}

/// Column alignment invariant: in a well-formed statement, the header cell and
/// every value cell of column `c`, once padded, have exactly the column's
/// width, and that width is the greatest raw length in the column (attained by
/// the header or by some value).
pub proof fn lemma_column_alignment(iv: InsertView)
    requires
        wf_insert(iv),
    ensures
        forall|c: int|
            0 <= c < iv.columns.len() ==> spec_pad(
                iv.columns[c],
                #[trigger] col_max(iv.columns, iv.rows, c),
            ).len() == col_max(iv.columns, iv.rows, c),
        forall|r: int, c: int|
            0 <= r < iv.rows.len() && 0 <= c < iv.columns.len() ==> spec_pad(
                #[trigger] iv.rows[r][c],
                col_max(iv.columns, iv.rows, c),
            ).len() == col_max(iv.columns, iv.rows, c),
        forall|c: int|
            0 <= c < iv.columns.len() ==> #[trigger] col_max(iv.columns, iv.rows, c)
                >= iv.columns[c].len(),
        forall|r: int, c: int|
            0 <= r < iv.rows.len() && 0 <= c < iv.columns.len() ==> col_max(iv.columns, iv.rows, c)
                >= (#[trigger] iv.rows[r][c]).len(),
        forall|c: int|
            0 <= c < iv.columns.len() ==> #[trigger] col_max(iv.columns, iv.rows, c)
                == iv.columns[c].len() || exists|r: int|
                0 <= r < iv.rows.len() && col_max(iv.columns, iv.rows, c) == (#[trigger] iv.rows[r])[c].len(),
{
    assert forall|c: int| 0 <= c < iv.columns.len() implies {
        &&& spec_pad(iv.columns[c], #[trigger] col_max(iv.columns, iv.rows, c)).len() == col_max(
            iv.columns,
            iv.rows,
            c,
        )
        &&& col_max(iv.columns, iv.rows, c) >= iv.columns[c].len()
        &&& (col_max(iv.columns, iv.rows, c) == iv.columns[c].len() || exists|r: int|
            0 <= r < iv.rows.len() && col_max(iv.columns, iv.rows, c) == (#[trigger] iv.rows[r])[c].len())
    } by {
        lemma_col_max_is_max(iv.columns, iv.rows, c);
    }
    assert forall|r: int, c: int|
        0 <= r < iv.rows.len() && 0 <= c < iv.columns.len() implies spec_pad(
        #[trigger] iv.rows[r][c],
        col_max(iv.columns, iv.rows, c),
    ).len() == col_max(iv.columns, iv.rows, c) by {
        lemma_col_max_is_max(iv.columns, iv.rows, c);
    }
}

/// Appends `n` spaces to `out`.
fn push_spaces(out: &mut String, n: usize)
    ensures
        final(out)@ == old(out)@ + spaces(n as nat),
{
    proof {
        assert(old(out)@ + spaces(0) =~= old(out)@);
    }
    let mut k: usize = 0;
    while k < n
        invariant
            k <= n,
            out@ == old(out)@ + spaces(k as nat),
        decreases n - k,
    {
        out.append(" ");
        proof {
            reveal_strlit(" ");
            assert(old(out)@ + spaces(k as nat) + " "@ =~= old(out)@ + spaces((k + 1) as nat));
        }
        k += 1;
    }
}

/// Appends one line of padded, comma-separated cells to `out`.
fn push_cells(out: &mut String, cells: &Vec<String>, ws: &Vec<usize>)
    requires
        cells@.len() <= ws@.len(),
        forall|c: int| 0 <= c < cells@.len() ==> (#[trigger] cells@[c]@).len() <= ws@[c],
    ensures
        final(out)@ == old(out)@ + spec_row_cells(cells.deep_view(), ws_of(ws@)),
{
    let ghost cv = cells.deep_view();
    let ghost wv = ws_of(ws@);
    proof {
        assert(old(out)@ + spec_cells_upto(cv, wv, 0) =~= old(out)@);
    }
    let mut c: usize = 0;
    while c < cells.len()
        invariant
            c <= cells@.len(),
            cells@.len() <= ws@.len(),
            forall|j: int| 0 <= j < cells@.len() ==> (#[trigger] cells@[j]@).len() <= ws@[j],
            cv == cells.deep_view(),
            wv == ws_of(ws@),
            out@ == old(out)@ + spec_cells_upto(cv, wv, c as int),
        decreases cells@.len() - c,
    {
        if c > 0 {
            out.append(",");
        }
        out.append(cells[c].as_str());
        let len = cells[c].as_str().unicode_len();
        proof {
            assert(cv[c as int] == cells@[c as int].deep_view());
        }
        push_spaces(out, ws[c] - len);
        proof {
            assert(cv[c as int] + spaces((ws@[c as int] - len) as nat) =~= spec_pad(
                cv[c as int],
                wv[c as int],
            ));
            assert(out@ =~= old(out)@ + spec_cells_upto(cv, wv, c as int + 1));
        }
        c += 1;
    }
}

/// Builds the aligned text of one statement from its parts and the padding
/// widths of its columns.
pub fn generate_formatted_query(
    table_name: &String,
    columns: &Vec<String>,
    values: &Vec<Vec<String>>,
    max_char_length_vec: &Vec<usize>,
) -> (r: String)
    requires
        max_char_length_vec@.len() == columns@.len(),
        forall|i: int| 0 <= i < values@.len() ==> (#[trigger] values@[i]@).len() == columns@.len(),
        forall|c: int|
            0 <= c < columns@.len() ==> (#[trigger] columns@[c]@).len() <= max_char_length_vec@[c],
        forall|i: int, c: int|
            0 <= i < values@.len() && 0 <= c < columns@.len() ==> (#[trigger] values@[i]@[c]@).len()
                <= max_char_length_vec@[c],
    ensures
        r@ == spec_render_with(
            table_name@,
            columns.deep_view(),
            values.deep_view(),
            ws_of(max_char_length_vec@),
        ),
{
    let ghost colsv = columns.deep_view();
    let ghost rowsv = values.deep_view();
    let ghost wv = ws_of(max_char_length_vec@);
    let mut out = String::new();
    out.append("INSERT INTO ");
    out.append(table_name.as_str());
    out.append("\n");
    out.append("(");
    let ghost head = "INSERT INTO "@ + table_name@ + "\n"@ + "("@;
    proof {
        assert(out@ =~= head);
    }
    push_cells(&mut out, columns, max_char_length_vec);
    out.append(")\n");
    out.append("VALUES\n");
    let ghost pre_rows = "INSERT INTO "@ + table_name@ + "\n"@ + "("@ + spec_row_cells(colsv, wv)
        + ")\n"@ + "VALUES\n"@;
    proof {
        assert(out@ =~= pre_rows);
        assert(pre_rows + spec_rows_upto(rowsv, wv, 0) =~= pre_rows);
    }
    let mut i: usize = 0;
    while i < values.len()
        invariant
            i <= values@.len(),
            max_char_length_vec@.len() == columns@.len(),
            forall|j: int| 0 <= j < values@.len() ==> (#[trigger] values@[j]@).len()
                == columns@.len(),
            forall|j: int, c: int|
                0 <= j < values@.len() && 0 <= c < columns@.len() ==> (
                #[trigger] values@[j]@[c]@).len() <= max_char_length_vec@[c],
            colsv == columns.deep_view(),
            rowsv == values.deep_view(),
            wv == ws_of(max_char_length_vec@),
            out@ == pre_rows + spec_rows_upto(rowsv, wv, i as int),
        decreases values@.len() - i,
    {
        out.append("(");
        proof {
            assert(rowsv[i as int] == values@[i as int].deep_view());
            assert forall|c: int| 0 <= c < values@[i as int]@.len() implies (
            #[trigger] values@[i as int]@[c]@).len() <= max_char_length_vec@[c] by {}
        }
        push_cells(&mut out, &values[i], max_char_length_vec);
        if i + 1 == values.len() {
            out.append(");\n\n");
        } else {
            out.append("),\n");
        }
        proof {
            assert(out@ =~= pre_rows + spec_rows_upto(rowsv, wv, i as int + 1));
        }
        i += 1;
    }
    proof {
        assert(out@ =~= spec_render_with(table_name@, colsv, rowsv, wv));
    }
    out
}

/// Formats one well-formed statement: the `INSERT INTO` line, the aligned
/// column line, the `VALUES` line, and one aligned line per value row.
pub fn format_statement(ins: &Insert) -> (r: String)
    requires
        wf_insert(ins@),
    ensures
        r@ == spec_render_stmt(ins@),
{
    let ghost colsv = ins.columns.deep_view();
    let ghost rowsv = ins.rows.deep_view();
    proof {
        assert forall|i: int| 0 <= i < ins.rows@.len() implies (#[trigger] ins.rows@[i]@).len()
            == ins.columns@.len() by {
            assert(ins@.rows[i] == ins.rows@[i].deep_view());
        }
    }
    let ws = get_max_char_length_vec(&ins.columns, &ins.rows);
    proof {
        assert forall|c: int| 0 <= c < ins.columns@.len() implies (#[trigger] ins.columns@[c]@).len()
            <= ws@[c] by {
            lemma_col_max_is_max(colsv, rowsv, c);
            assert(colsv[c] == ins.columns@[c].deep_view());
        }
        assert forall|i: int, c: int|
            0 <= i < ins.rows@.len() && 0 <= c < ins.columns@.len() implies (
        #[trigger] ins.rows@[i]@[c]@).len() <= ws@[c] by {
            lemma_col_max_is_max(colsv, rowsv, c);
            assert(rowsv[i] == ins.rows@[i].deep_view());
            assert(rowsv[i][c] == ins.rows@[i]@[c]@);
        }
    }
    let r = generate_formatted_query(&ins.table, &ins.columns, &ins.rows, &ws);
    proof {
        assert(ws_of(ws@) =~= spec_widths(colsv, rowsv));
    }
    r
}

} // verus!
