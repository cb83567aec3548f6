//! Per-column padding widths: the character-length matrix of a statement and
//! the per-column maximum that every cell is padded to.

use vstd::prelude::*;

verus! {

/// Greatest value length found in column `c` over the first `r` value rows.
pub open spec fn rows_max_upto(rows: Seq<Seq<Seq<char>>>, c: int, r: int) -> int
    decreases r,
{
    if r <= 0 {
        0
    } else {
        let prev = rows_max_upto(rows, c, r - 1);
        let cur = rows[r - 1][c].len() as int;
        if cur > prev {
            cur
        } else {
            prev
        }
    }
}

/// Padding width of column `c`: the greatest character length among the column
/// identifier and every value standing in that column.
pub open spec fn col_max(cols: Seq<Seq<char>>, rows: Seq<Seq<Seq<char>>>, c: int) -> int {
    let m = rows_max_upto(rows, c, rows.len() as int);
    if cols[c].len() as int > m {
        cols[c].len() as int
    } else {
        m
    }
}

/// All padding widths of a statement, one per column.
pub open spec fn spec_widths(cols: Seq<Seq<char>>, rows: Seq<Seq<Seq<char>>>) -> Seq<int> {
    Seq::new(cols.len(), |c: int| col_max(cols, rows, c))
}

/// The partial maximum bounds every value seen so far and is attained by one
/// of them (or is zero when none was seen).
proof fn lemma_rows_max_upto_is_max(rows: Seq<Seq<Seq<char>>>, c: int, r: int)
    requires
        0 <= r <= rows.len(),
    ensures
        forall|k: int| 0 <= k < r ==> rows_max_upto(rows, c, r) >= (#[trigger] rows[k])[c].len(),
        r > 0 ==> exists|k: int|
            0 <= k < r && rows_max_upto(rows, c, r) == (#[trigger] rows[k])[c].len(),
        r == 0 ==> rows_max_upto(rows, c, r) == 0,
    decreases r,
{
    if r > 0 {
        lemma_rows_max_upto_is_max(rows, c, r - 1);
        let prev = rows_max_upto(rows, c, r - 1);
        let cur = rows[r - 1][c].len() as int;
        if cur > prev {
            assert(rows_max_upto(rows, c, r) == rows[r - 1][c].len());
        } else {
            if r - 1 > 0 {
                let k = choose|k: int|
                    0 <= k < r - 1 && prev == (#[trigger] rows[k])[c].len();
                assert(rows_max_upto(rows, c, r) == rows[k][c].len());
            } else {
                assert(prev == 0 && cur >= 0);
                assert(rows_max_upto(rows, c, r) == rows[r - 1][c].len());
            }
        }
    }
}

/// The padding width of a column is at least the length of its header and of
/// every value in it, and equals the length of the header or of some value.
pub proof fn lemma_col_max_is_max(cols: Seq<Seq<char>>, rows: Seq<Seq<Seq<char>>>, c: int)
    ensures
        col_max(cols, rows, c) >= cols[c].len(),
        forall|r: int| 0 <= r < rows.len() ==> col_max(cols, rows, c) >= (#[trigger] rows[r])[c].len(),
        col_max(cols, rows, c) == cols[c].len() || exists|r: int|
            0 <= r < rows.len() && col_max(cols, rows, c) == (#[trigger] rows[r])[c].len(),
{
    lemma_rows_max_upto_is_max(rows, c, rows.len() as int);
}

/// Character lengths of the column identifiers (row 0 of the result) and of
/// every value, row by row, as the formatter measures them.
pub fn get_char_length_matrix(columns: &Vec<String>, values: &Vec<Vec<String>>) -> (r: Vec<
    Vec<usize>,
>)
    ensures
        r@.len() == values@.len() + 1,
        r@[0]@.len() == columns@.len(),
        forall|c: int| 0 <= c < columns@.len() ==> #[trigger] r@[0]@[c] == columns@[c]@.len(),
        forall|i: int| 0 <= i < values@.len() ==> (#[trigger] r@[i + 1]@).len() == values@[i]@.len(),
        forall|i: int, c: int|
            0 <= i < values@.len() && 0 <= c < values@[i]@.len() ==> #[trigger] r@[i + 1]@[c]
                == values@[i]@[c]@.len(),
{
    let mut matrix: Vec<Vec<usize>> = Vec::new();
    let mut head: Vec<usize> = Vec::new();
    let mut c: usize = 0;
    while c < columns.len()
        invariant
            0 <= c <= columns.len(),
            head@.len() == c,
            forall|j: int| 0 <= j < c ==> #[trigger] head@[j] == columns@[j]@.len(),
        decreases columns.len() - c,
    {
        head.push(columns[c].as_str().unicode_len());
        c += 1;
    }
    matrix.push(head);
    let mut i: usize = 0;
    while i < values.len()
        invariant
            0 <= i <= values.len(),
            matrix@.len() == i + 1,
            matrix@[0]@.len() == columns@.len(),
            forall|j: int| 0 <= j < columns@.len() ==> #[trigger] matrix@[0]@[j] == columns@[j]@.len(),
            forall|j: int| 0 <= j < i ==> (#[trigger] matrix@[j + 1]@).len() == values@[j]@.len(),
            forall|j: int, k: int|
                0 <= j < i && 0 <= k < values@[j]@.len() ==> #[trigger] matrix@[j + 1]@[k]
                    == values@[j]@[k]@.len(),
        decreases values.len() - i,
    {
        let row = &values[i];
        let mut rowlens: Vec<usize> = Vec::new();
        let mut k: usize = 0;
        while k < row.len()
            invariant
                0 <= k <= row@.len(),
                rowlens@.len() == k,
                forall|j: int| 0 <= j < k ==> #[trigger] rowlens@[j] == row@[j]@.len(),
            decreases row@.len() - k,
        {
            rowlens.push(row[k].as_str().unicode_len());
            k += 1;
        }
        matrix.push(rowlens);
        i += 1;
    }
    matrix
}

/// One padding width per column: the per-column maximum of the length matrix,
/// header row included.
pub fn get_max_char_length_vec(columns: &Vec<String>, values: &Vec<Vec<String>>) -> (r: Vec<usize>)
    requires
        forall|i: int| 0 <= i < values@.len() ==> (#[trigger] values@[i]@).len() == columns@.len(),
    ensures
        r@.len() == columns@.len(),
        forall|c: int|
            0 <= c < columns@.len() ==> #[trigger] r@[c] as int == col_max(
                columns.deep_view(),
                values.deep_view(),
                c,
            ),
{
    let matrix = get_char_length_matrix(columns, values);
    let ghost colsv = columns.deep_view();
    let ghost rowsv = values.deep_view();
    let mut max_vec: Vec<usize> = Vec::new();
    let ncols = matrix[0].len();
    let mut c: usize = 0;
    while c < ncols
        invariant
            0 <= c <= ncols,
            ncols == colsv.len(),
            colsv == columns.deep_view(),
            rowsv == values.deep_view(),
            rowsv.len() == values@.len(),
            matrix@.len() == values@.len() + 1,
            matrix@[0]@.len() == colsv.len(),
            forall|j: int| 0 <= j < colsv.len() ==> #[trigger] matrix@[0]@[j] == colsv[j].len(),
            forall|j: int| 0 <= j < rowsv.len() ==> (#[trigger] matrix@[j + 1]@).len()
                == rowsv[j].len(),
            forall|j: int, k: int|
                0 <= j < rowsv.len() && 0 <= k < rowsv[j].len() ==> #[trigger] matrix@[j + 1]@[k]
                    == rowsv[j][k].len(),
            forall|j: int| 0 <= j < rowsv.len() ==> (#[trigger] rowsv[j]).len() == colsv.len(),
            max_vec@.len() == c,
            forall|j: int| 0 <= j < c ==> #[trigger] max_vec@[j] as int == col_max(colsv, rowsv, j),
        decreases ncols - c,
    {
        let mut max_len: usize = 0;
        let mut row: usize = 0;
        while row < matrix.len()
            invariant
                0 <= row <= matrix@.len(),
                0 <= c < colsv.len(),
                colsv == columns.deep_view(),
                rowsv == values.deep_view(),
                matrix@.len() == rowsv.len() + 1,
                matrix@[0]@.len() == colsv.len(),
                forall|j: int| 0 <= j < colsv.len() ==> #[trigger] matrix@[0]@[j] == colsv[j].len(),
                forall|j: int| 0 <= j < rowsv.len() ==> (#[trigger] matrix@[j + 1]@).len()
                    == rowsv[j].len(),
                forall|j: int, k: int|
                    0 <= j < rowsv.len() && 0 <= k < rowsv[j].len() ==> #[trigger] matrix@[j
                        + 1]@[k] == rowsv[j][k].len(),
                forall|j: int| 0 <= j < rowsv.len() ==> (#[trigger] rowsv[j]).len() == colsv.len(),
                row == 0 ==> max_len == 0,
                row > 0 ==> max_len as int == ({
                    let m = rows_max_upto(rowsv, c as int, row - 1);
                    if colsv[c as int].len() as int > m {
                        colsv[c as int].len() as int
                    } else {
                        m
                    }
                }),
            decreases matrix@.len() - row,
        {
            proof {
                if row > 0 {
                    assert((matrix@[(row - 1) + 1]@).len() == rowsv[row - 1].len());
                    assert(rowsv[row - 1].len() == colsv.len());
                }
            }
            if max_len < matrix[row][c] {
                max_len = matrix[row][c];
            }
            row += 1;
        }
        max_vec.push(max_len);
        c += 1;
    }
    max_vec
}

} // verus!
