//! The comment grouper: a single lexical scan over the raw source that
//! partitions every `--` line comment into groups keyed by the `INSERT INTO`
//! markers separating statements. The scan is purely textual: a marker or a
//! `--` standing inside a string literal is matched like a real one.

use vstd::prelude::*;

verus! {

/// True when a `--` line comment starts at position `i` of `t`.
pub open spec fn is_comment_start(t: Seq<char>, i: int) -> bool {
    i + 2 <= t.len() && t[i] == '-' && t[i + 1] == '-'
}

/// True when the literal statement marker `INSERT INTO` stands at `i`.
pub open spec fn is_marker_at(t: Seq<char>, i: int) -> bool {
    &&& i + 11 <= t.len()
    &&& t[i] == 'I'
    &&& t[i + 1] == 'N'
    &&& t[i + 2] == 'S'
    &&& t[i + 3] == 'E'
    &&& t[i + 4] == 'R'
    &&& t[i + 5] == 'T'
    &&& t[i + 6] == ' '
    &&& t[i + 7] == 'I'
    &&& t[i + 8] == 'N'
    &&& t[i + 9] == 'T'
    &&& t[i + 10] == 'O'
}

/// Index of the first newline at or after `i`, or the text's end.
pub open spec fn line_end(t: Seq<char>, i: int) -> int
    decreases t.len() - i
        when 0 <= i
{
    if i >= t.len() {
        t.len() as int
    } else if t[i] == '\n' {
        i
    } else {
        line_end(t, i + 1)
    }
}

/// Bounds of [`line_end`]: it lies between `i` and the text's end, no newline
/// stands strictly before it, and it points at a newline unless it is the end.
pub proof fn lemma_line_end(t: Seq<char>, i: int)
    requires
        0 <= i <= t.len(),
    ensures
        i <= line_end(t, i) <= t.len(),
        forall|k: int| i <= k < line_end(t, i) ==> t[k] != '\n',
        line_end(t, i) < t.len() ==> t[line_end(t, i)] == '\n',
        i < t.len() && t[i] != '\n' ==> line_end(t, i) > i,
    decreases t.len() - i,
{
    if i < t.len() && t[i] != '\n' {
        lemma_line_end(t, i + 1);
    }
}

/// Comment groups of the text from position `i` on. Group 0 holds the
/// comments seen before the next statement marker; each marker opens a fresh
/// group; a comment runs from its `--` to the end of its line.
pub open spec fn scan_from(t: Seq<char>, i: int) -> Seq<Seq<Seq<char>>>
    decreases t.len() - i
        when 0 <= i
        via scan_from_decreases
{
    if i < 0 || i >= t.len() {
        seq![Seq::<Seq<char>>::empty()]
    } else if is_comment_start(t, i) {
        let j = line_end(t, i);
        let rest = scan_from(t, j);
        rest.update(0, seq![t.subrange(i, j)] + rest[0])
    } else if is_marker_at(t, i) {
        seq![Seq::<Seq<char>>::empty()] + scan_from(t, i + 11)
    } else {
        scan_from(t, i + 1)
    }
}

#[via_fn]
proof fn scan_from_decreases(t: Seq<char>, i: int) {
    if 0 <= i && i < t.len() && is_comment_start(t, i) {
        lemma_line_end(t, i);
    }
}

/// The whole text's comment groups.
pub open spec fn spec_scan(t: Seq<char>) -> Seq<Seq<Seq<char>>> {
    scan_from(t, 0)
}

/// A scan always yields at least one group.
pub proof fn lemma_scan_len(t: Seq<char>, i: int)
    requires
        0 <= i,
    ensures
        scan_from(t, i).len() >= 1,
    decreases t.len() - i,
{
    if i < t.len() {
        if is_comment_start(t, i) {
            lemma_line_end(t, i);
            lemma_scan_len(t, line_end(t, i));
        } else if is_marker_at(t, i) {
            lemma_scan_len(t, i + 11);
        } else {
            lemma_scan_len(t, i + 1);
        }
    }
}

/// `c` is a verbatim comment line of `t` beginning at or after `lo`: it runs
/// from some `--` to the end of that line.
pub open spec fn comment_line_of(t: Seq<char>, c: Seq<char>, lo: int) -> bool {
    exists|p: int|
        #![auto]
        lo <= p && is_comment_start(t, p) && c == t.subrange(p, line_end(t, p))
}

/// A comment line found at or after `lo1` is also one at or after any
/// earlier bound.
pub proof fn lemma_comment_line_weaken(t: Seq<char>, c: Seq<char>, lo1: int, lo2: int)
    requires
        comment_line_of(t, c, lo1),
        lo2 <= lo1,
    ensures
        comment_line_of(t, c, lo2),
{
    let p = choose|p: int|
        #![auto]
        lo1 <= p && is_comment_start(t, p) && c == t.subrange(p, line_end(t, p));
    assert(lo2 <= p && is_comment_start(t, p) && c == t.subrange(p, line_end(t, p)));
}

/// Each grouped comment is a verbatim `--` line of the source: it starts at
/// some `--` within the scanned region and runs to the end of its line.
pub proof fn lemma_scan_comments_verbatim(t: Seq<char>, i: int)
    requires
        0 <= i,
    ensures
        forall|g: int, k: int|
            #![trigger scan_from(t, i)[g][k]]
            0 <= g < scan_from(t, i).len() && 0 <= k < scan_from(t, i)[g].len()
                ==> comment_line_of(t, scan_from(t, i)[g][k], i),
    decreases t.len() - i,
{
    if i >= t.len() {
        assert forall|g: int, k: int|
            #![trigger scan_from(t, i)[g][k]]
            0 <= g < scan_from(t, i).len() && 0 <= k < scan_from(t, i)[g].len()
                implies comment_line_of(t, scan_from(t, i)[g][k], i) by {
            assert(scan_from(t, i) == seq![Seq::<Seq<char>>::empty()]);
            assert(scan_from(t, i)[g].len() == 0);
        }
    } else if is_comment_start(t, i) {
        let j = line_end(t, i);
        lemma_line_end(t, i);
        lemma_scan_comments_verbatim(t, j);
        lemma_scan_len(t, j);
        assert(scan_from(t, i) == scan_from(t, j).update(
            0,
            seq![t.subrange(i, j)] + scan_from(t, j)[0],
        ));
        assert forall|g: int, k: int|
            #![trigger scan_from(t, i)[g][k]]
            0 <= g < scan_from(t, i).len() && 0 <= k < scan_from(t, i)[g].len()
                implies comment_line_of(t, scan_from(t, i)[g][k], i) by {
            if g == 0 && k == 0 {
                assert(scan_from(t, i)[0][0] == t.subrange(i, line_end(t, i)));
                assert(i <= i && is_comment_start(t, i) && scan_from(t, i)[0][0] == t.subrange(
                    i,
                    line_end(t, i),
                ));
            } else if g == 0 {
                assert(scan_from(t, i)[0][k] == scan_from(t, j)[0][k - 1]);
                assert(comment_line_of(t, scan_from(t, j)[0][k - 1], j));
                lemma_comment_line_weaken(t, scan_from(t, i)[0][k], j, i);
            } else {
                assert(scan_from(t, i)[g] == scan_from(t, j)[g]);
                assert(comment_line_of(t, scan_from(t, j)[g][k], j));
                lemma_comment_line_weaken(t, scan_from(t, i)[g][k], j, i);
            }
        }
    } else if is_marker_at(t, i) {
        lemma_scan_comments_verbatim(t, i + 11);
        assert(scan_from(t, i) == seq![Seq::<Seq<char>>::empty()] + scan_from(t, i + 11));
        assert forall|g: int, k: int|
            #![trigger scan_from(t, i)[g][k]]
            0 <= g < scan_from(t, i).len() && 0 <= k < scan_from(t, i)[g].len()
                implies comment_line_of(t, scan_from(t, i)[g][k], i) by {
            assert(scan_from(t, i)[0].len() == 0);
            assert(g >= 1);
            assert(scan_from(t, i)[g] == scan_from(t, i + 11)[g - 1]);
            assert(comment_line_of(t, scan_from(t, i + 11)[g - 1][k], i + 11));
            lemma_comment_line_weaken(t, scan_from(t, i)[g][k], i + 11, i);
        }
    } else {
        lemma_scan_comments_verbatim(t, i + 1);
        assert(scan_from(t, i) == scan_from(t, i + 1));
        assert forall|g: int, k: int|
            #![trigger scan_from(t, i)[g][k]]
            0 <= g < scan_from(t, i).len() && 0 <= k < scan_from(t, i)[g].len()
                implies comment_line_of(t, scan_from(t, i)[g][k], i) by {
            assert(scan_from(t, i)[g][k] == scan_from(t, i + 1)[g][k]);
            assert(comment_line_of(t, scan_from(t, i + 1)[g][k], i + 1));
            lemma_comment_line_weaken(t, scan_from(t, i)[g][k], i + 1, i);
        }
    }
}

/// Decides [`is_comment_start`] at position `i`.
fn comment_at(sql: &str, i: usize) -> (r: bool)
    ensures
        r == is_comment_start(sql@, i as int),
{
    let n = sql.unicode_len();
    i < n && n - i >= 2 && sql.get_char(i) == '-' && sql.get_char(i + 1) == '-'
}

/// Decides [`is_marker_at`] at position `i`.
fn marker_at(sql: &str, i: usize) -> (r: bool)
    ensures
        r == is_marker_at(sql@, i as int),
{
    let n = sql.unicode_len();
    if i >= n || n - i < 11 {
        return false;
    }
    sql.get_char(i) == 'I' && sql.get_char(i + 1) == 'N' && sql.get_char(i + 2) == 'S'
        && sql.get_char(i + 3) == 'E' && sql.get_char(i + 4) == 'R' && sql.get_char(i + 5) == 'T'
        && sql.get_char(i + 6) == ' ' && sql.get_char(i + 7) == 'I' && sql.get_char(i + 8) == 'N'
        && sql.get_char(i + 9) == 'T' && sql.get_char(i + 10) == 'O'
}

/// Finds [`line_end`] from position `i`.
fn find_line_end(sql: &str, i: usize) -> (r: usize)
    requires
        i <= sql@.len(),
    ensures
        r as int == line_end(sql@, i as int),
        i <= r <= sql@.len(),
{
    let n = sql.unicode_len();
    let mut j = i;
    while j < n && sql.get_char(j) != '\n'
        invariant
            i <= j <= n,
            n == sql@.len(),
            line_end(sql@, i as int) == line_end(sql@, j as int),
        decreases n - j,
    {
        proof {
            assert(line_end(sql@, j as int) == line_end(sql@, j as int + 1));
        }
        j += 1;
    }
    proof {
        assert(line_end(sql@, j as int) == j as int);
    }
    j
}

/// Scans the text from `i` on, building the groups of [`scan_from`].
fn scan_groups(sql: &str, i: usize) -> (r: Vec<Vec<String>>)
    requires
        i <= sql@.len(),
    ensures
        r.deep_view() == scan_from(sql@, i as int),
        r@.len() >= 1,
    decreases sql@.len() - i,
{
    let n = sql.unicode_len();
    let mut k = i;
    while k < n && !comment_at(sql, k) && !marker_at(sql, k)
        invariant
            i <= k <= n,
            n == sql@.len(),
            scan_from(sql@, i as int) == scan_from(sql@, k as int),
        decreases n - k,
    {
        proof {
            assert(scan_from(sql@, k as int) == scan_from(sql@, k as int + 1));
        }
        k += 1;
    }
    if k >= n {
        let mut r: Vec<Vec<String>> = Vec::new();
        let g: Vec<String> = Vec::new();
        r.push(g);
        proof {
            assert(r.deep_view() =~~= scan_from(sql@, k as int));
        }
        r
    } else if comment_at(sql, k) {
        proof {
            lemma_line_end(sql@, k as int);
        }
        let j = find_line_end(sql, k);
        let line = sql.substring_char(k, j).to_owned();
        let mut rest = scan_groups(sql, j);
        let ghost restv = rest.deep_view();
        let mut g0 = rest.remove(0);
        g0.insert(0, line);
        rest.insert(0, g0);
        proof {
            assert(rest.deep_view() =~~= restv.update(
                0,
                seq![sql@.subrange(k as int, j as int)] + restv[0],
            ));
        }
        rest
    } else {
        let mut rest = scan_groups(sql, k + 11);
        let ghost restv = rest.deep_view();
        let mut r: Vec<Vec<String>> = Vec::new();
        let g: Vec<String> = Vec::new();
        r.push(g);
        r.append(&mut rest);
        proof {
            assert(r.deep_view() =~~= seq![Seq::<Seq<char>>::empty()] + restv);
        }
        r
    }
}

/// Groups the `--` line comments of `sql` by the `INSERT INTO` markers that
/// separate statements: group `i` holds the comments standing immediately
/// before statement `i`, and the last group those after the last statement.
pub fn extract_comments(sql: &str) -> (r: Vec<Vec<String>>)
    ensures
        r.deep_view() == spec_scan(sql@),
        r@.len() == spec_scan(sql@).len(),
        r@.len() >= 1,
{
    scan_groups(sql, 0)
}

} // verus!
