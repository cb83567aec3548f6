//! The orchestrator: validates that every parsed statement is an
//! `INSERT ... VALUES`, groups the comments of the raw text, formats every
//! statement, and concatenates the two in statement order.

use vstd::prelude::*;
use crate::comments::{extract_comments, spec_scan};
use crate::interleave::{
    all_pieces, comment_ending, concat_upto, group_pieces, interleave, lemma_concat_occurrence,
    lemma_piece_off_mono, lemma_pieces_index, lemma_pieces_upto_prefix, piece_off, pieces_upto,
    spec_concat,
};
use crate::model::{FmtError, InsertView, ParsedStatement, wf_insert};
use crate::parse::{mysql_statements, parse_and_classify};
use crate::render::{format_statement, spec_render_stmt, spec_row_cells};
use crate::widths::spec_widths;

verus! {

/// The insert inside a classified statement; an empty placeholder for
/// `None`, which [`all_some`] rules out wherever this is used.
pub open spec fn iv_of(o: Option<InsertView>) -> InsertView {
    match o {
        Some(iv) => iv,
        None => InsertView { table: Seq::empty(), columns: Seq::empty(), rows: Seq::empty() },
    }
}

/// The insert carried by a statement; an empty placeholder for other
/// statements, which [`spec_all_inserts`] rules out wherever this is used.
pub open spec fn stmt_iv(s: ParsedStatement) -> InsertView {
    iv_of(s@)
}

/// Every statement is an `INSERT ... VALUES`.
pub open spec fn spec_all_inserts(ss: Seq<ParsedStatement>) -> bool {
    forall|i: int| 0 <= i < ss.len() ==> (#[trigger] ss[i])@ is Some
}

/// The insert views of all statements, in order.
pub open spec fn insert_views(ss: Seq<ParsedStatement>) -> Seq<InsertView> {
    Seq::new(ss.len(), |i: int| stmt_iv(ss[i]))
}

/// Every classified statement is an `INSERT ... VALUES`.
pub open spec fn all_some(vs: Seq<Option<InsertView>>) -> bool {
    forall|i: int| 0 <= i < vs.len() ==> (#[trigger] vs[i]) is Some
}

/// The insert views of the classified statements, in order.
pub open spec fn views_of(vs: Seq<Option<InsertView>>) -> Seq<InsertView> {
    Seq::new(vs.len(), |i: int| iv_of(vs[i]))
}

/// Every insert view is well formed.
pub open spec fn all_wf(ins: Seq<InsertView>) -> bool {
    forall|i: int| 0 <= i < ins.len() ==> wf_insert(#[trigger] ins[i])
}

/// The statement texts of the output: every rendered statement in order,
/// then one empty sentinel piece for the trailing comment group.
pub open spec fn output_queries(ins: Seq<InsertView>) -> Seq<Seq<char>> {
    ins.map_values(|iv: InsertView| spec_render_stmt(iv)).push(Seq::empty())
}

/// The output text for the given statements and raw source: the comment
/// groups of the source interleaved with the rendered statements and
/// concatenated — each comment on its own line, a blank line after the last
/// comment of each group, and each rendered statement (which ends with its
/// own blank line) directly after its group.
pub open spec fn spec_output(ins: Seq<InsertView>, text: Seq<char>) -> Seq<char> {
    spec_concat(all_pieces(spec_scan(text), output_queries(ins)))
}

/// The input is accepted: the parser takes it, every statement is an
/// `INSERT ... VALUES`, the lexical statement boundaries match the statement
/// count, and every statement is well formed.
pub open spec fn spec_accepts(s: Seq<char>) -> bool {
    mysql_statements(s) matches Ok(vs) && all_some(vs) && spec_scan(s).len() == vs.len() + 1
        && all_wf(views_of(vs))
}

/// The output owed for an accepted input: [`spec_output`] of what the parser
/// makes of the text and of the text itself.
pub open spec fn spec_result(s: Seq<char>) -> Seq<char> {
    match mysql_statements(s) {
        Ok(vs) => spec_output(views_of(vs), s),
        Err(_) => Seq::empty(),
    }
}

/// True exactly when every statement is an `INSERT ... VALUES`.
pub fn is_insert_only(ast: &Vec<ParsedStatement>) -> (r: bool)
    ensures
        r == spec_all_inserts(ast@),
{
    let mut i: usize = 0;
    while i < ast.len()
        invariant
            i <= ast@.len(),
            forall|j: int| 0 <= j < i ==> (#[trigger] ast@[j])@ is Some,
        decreases ast@.len() - i,
    {
        match &ast[i] {
            ParsedStatement::Other => {
                return false;
            },
            ParsedStatement::InsertValues(_) => {},
        }
        i += 1;
    }
    true
}

/// Formats already-classified statements against the raw text they came
/// from. Any non-`INSERT ... VALUES` statement rejects the whole input with
/// `UnsupportedStatement`. A statement without columns, a value row that does
/// not match the column count, or a lexical statement-boundary count that
/// does not match the parsed statement count is a `StructuralMismatch`.
/// Otherwise the result is exactly [`spec_output`] of the statements' views
/// and of the raw text.
pub fn format_parsed(stmts: &Vec<ParsedStatement>, sql: &str) -> (r: Result<String, FmtError>)
    ensures
        (r matches Err(e) && e is UnsupportedStatement) <==> !spec_all_inserts(stmts@),
        (r matches Err(e) && e is StructuralMismatch) <==> (spec_all_inserts(stmts@) && (spec_scan(
            sql@,
        ).len() != stmts@.len() + 1 || !all_wf(insert_views(stmts@)))),
        r is Ok <==> (spec_all_inserts(stmts@) && spec_scan(sql@).len() == stmts@.len() + 1
            && all_wf(insert_views(stmts@))),
        r matches Ok(out) ==> out@ == spec_output(insert_views(stmts@), sql@),
{
    if !is_insert_only(stmts) {
        return Err(FmtError::UnsupportedStatement);
    }
    let groups = extract_comments(sql);
    if groups.len() - 1 != stmts.len() {
        return Err(FmtError::StructuralMismatch);
    }
    let ghost ins = insert_views(stmts@);
    let mut queries: Vec<String> = Vec::new();
    let mut i: usize = 0;
    while i < stmts.len()
        invariant
            i <= stmts@.len(),
            spec_all_inserts(stmts@),
            ins == insert_views(stmts@),
            forall|j: int| 0 <= j < i ==> wf_insert(#[trigger] ins[j]),
            queries@.len() == i,
            forall|j: int| 0 <= j < i ==> (#[trigger] queries@[j])@ == spec_render_stmt(ins[j]),
        decreases stmts@.len() - i,
    {
        match &stmts[i] {
            ParsedStatement::InsertValues(one) => {
                proof {
                    assert(stmt_iv(stmts@[i as int]) == one@);
                }
                if !one.check_wf() {
                    proof {
                        assert(insert_views(stmts@)[i as int] == stmt_iv(stmts@[i as int]));
                        assert(!wf_insert(insert_views(stmts@)[i as int]));
                    }
                    return Err(FmtError::StructuralMismatch);
                }
                queries.push(format_statement(one));
            },
            ParsedStatement::Other => {
                proof {
                    assert((stmts@[i as int])@ is Some);
                    assert(false);
                }
                return Err(FmtError::StructuralMismatch);
            },
        }
        i += 1;
    }
    queries.push(String::new());
    let out = interleave(&groups, &queries);
    proof {
        assert(queries.deep_view() =~~= ins.map_values(|iv: InsertView| spec_render_stmt(iv)).push(
            Seq::empty(),
        ));
        assert(out@ == spec_output(ins, sql@));
    }
    Ok(out)
}

/// Parses `sql` with the external MySQL-dialect SQL parser, rejects any
/// statement that is not an `INSERT ... VALUES`, and renders the statements
/// with aligned columns, interleaved with the `--` comments of the raw text.
///
/// The result is pinned down over [`mysql_statements`], the name for what
/// the parser makes of the text: `Ok` exactly on accepted inputs (see
/// [`spec_accepts`]), with the output [`spec_result`]; a parser rejection
/// comes back as `ParseError` carrying the parser's message unchanged; a
/// non-`INSERT ... VALUES` statement as `UnsupportedStatement`; a boundary
/// or row mismatch as `StructuralMismatch`.
///
/// The lexical comment scan also matches `--` or `INSERT INTO` inside string
/// literals, so formatting is not idempotent on inputs whose values contain
/// such text: a second pass can duplicate the matched pseudo-comment.
pub fn format_insert_queries(sql: &str) -> (r: Result<String, FmtError>)
    ensures
        r is Ok <==> spec_accepts(sql@),
        r matches Ok(out) ==> out@ == spec_result(sql@),
        r matches Err(e) ==> match e {
            FmtError::ParseError(msg) => mysql_statements(sql@) matches Err(me) && msg@ == me,
            FmtError::UnsupportedStatement => mysql_statements(sql@) matches Ok(vs) && !all_some(
                vs,
            ),
            FmtError::StructuralMismatch => mysql_statements(sql@) matches Ok(vs) && all_some(vs)
                && (spec_scan(sql@).len() != vs.len() + 1 || !all_wf(views_of(vs))),
        },
{
    match parse_and_classify(sql) {
        Err(msg) => Err(FmtError::ParseError(msg)),
        Ok(ast) => {
            let r = format_parsed(&ast, sql);
            proof {
                let m = mysql_statements(sql@);
                match m {
                    Ok(vs) => {
                        assert forall|i: int| 0 <= i < vs.len() implies (#[trigger] vs[i])
                            == ast@[i]@ by {
                            assert(ast@[i]@ == vs[i]);
                        }
                        if spec_all_inserts(ast@) {
                            assert forall|i: int| 0 <= i < vs.len() implies (#[trigger] vs[i])
                                is Some by {
                                assert(ast@[i]@ is Some);
                            }
                            assert(all_some(vs));
                        }
                        if all_some(vs) {
                            assert forall|i: int| 0 <= i < ast@.len() implies (#[trigger] ast@[i])@
                                is Some by {
                                assert(vs[i] is Some);
                            }
                            assert(spec_all_inserts(ast@));
                        }
                        assert(insert_views(ast@) =~= views_of(vs));
                    },
                    Err(_) => {
                        assert(false);
                    },
                }
            }
            r
        },
    }
}

/// Index of statement `i`'s piece among all output pieces: it follows the
/// comment pieces of group `i`.
pub open spec fn stmt_piece_index(ins: Seq<InsertView>, text: Seq<char>, i: int) -> int {
    pieces_upto(spec_scan(text), output_queries(ins), i).len() + spec_scan(text)[i].len() as int
}

/// Offset of statement `i`'s rendered text in the output.
pub open spec fn stmt_off(ins: Seq<InsertView>, text: Seq<char>, i: int) -> int {
    piece_off(all_pieces(spec_scan(text), output_queries(ins)), stmt_piece_index(ins, text, i))
}

/// Statement `i`'s rendered text stands verbatim at [`stmt_off`]; it begins
/// with `INSERT INTO ` followed by the statement's table name.
pub open spec fn stmt_occurrence(ins: Seq<InsertView>, text: Seq<char>, i: int) -> bool {
    let out = spec_output(ins, text);
    let off = stmt_off(ins, text, i);
    let rendered = spec_render_stmt(ins[i]);
    &&& 0 <= off
    &&& off + rendered.len() <= out.len()
    &&& out.subrange(off, off + rendered.len() as int) == rendered
    &&& off + 12 + ins[i].table.len() <= out.len()
    &&& out.subrange(off, off + 12) == "INSERT INTO "@
    &&& out.subrange(off + 12, off + 12 + ins[i].table.len() as int) == ins[i].table
}

/// Order preservation: when the comment groups match the statement count,
/// every statement's rendered text — beginning with `INSERT INTO` and its
/// table name — appears verbatim in the output, and a later statement's text
/// starts at or after the end of an earlier one's, so the sequence of table
/// names in the output matches the sequence in the input exactly.
pub proof fn lemma_order_preservation(ins: Seq<InsertView>, text: Seq<char>)
    requires
        spec_scan(text).len() == ins.len() + 1,
    ensures
        forall|i: int| 0 <= i < ins.len() ==> #[trigger] stmt_occurrence(ins, text, i),
        forall|i: int, j: int|
            0 <= i < j < ins.len() ==> #[trigger] stmt_off(ins, text, i) + spec_render_stmt(
                ins[i],
            ).len() <= #[trigger] stmt_off(ins, text, j),
{
    let groups = spec_scan(text);
    let qs = output_queries(ins);
    let ps = all_pieces(groups, qs);
    assert forall|i: int| 0 <= i < ins.len() implies #[trigger] stmt_occurrence(
        ins,
        text,
        i,
    ) by {
        lemma_pieces_index(groups, qs, i);
        let qidx = stmt_piece_index(ins, text, i);
        let rendered = spec_render_stmt(ins[i]);
        assert(qs[i] == rendered);
        assert(ps[qidx] == rendered);
        lemma_concat_occurrence(ps, qidx);
        let off = stmt_off(ins, text, i);
        let out = spec_output(ins, text);
        assert(out.subrange(off, off + rendered.len() as int) == rendered);
        reveal_strlit("INSERT INTO ");
        assert(rendered == "INSERT INTO "@ + ins[i].table + "\n"@ + "("@ + spec_row_cells(
            ins[i].columns,
            spec_widths(ins[i].columns, ins[i].rows),
        ) + ")\n"@ + "VALUES\n"@ + crate::render::spec_rows_upto(
            ins[i].rows,
            spec_widths(ins[i].columns, ins[i].rows),
            ins[i].rows.len() as int,
        ));
        assert(rendered.len() >= 12 + ins[i].table.len());
        assert forall|x: int| 0 <= x < rendered.len() implies out[off + x] == rendered[x] by {
            assert(out.subrange(off, off + rendered.len() as int)[x] == rendered[x]);
        }
        assert(out.subrange(off, off + 12) =~= "INSERT INTO "@);
        assert forall|y: int| 0 <= y < ins[i].table.len() implies out.subrange(
            off + 12,
            off + 12 + ins[i].table.len() as int,
        )[y] == ins[i].table[y] by {
            assert(out.subrange(off, off + rendered.len() as int)[12 + y] == rendered[12 + y]);
        }
        assert(out.subrange(off + 12, off + 12 + ins[i].table.len() as int) =~= ins[i].table);
    }
    assert forall|i: int, j: int| 0 <= i < j < ins.len() implies #[trigger] stmt_off(ins, text, i)
        + spec_render_stmt(ins[i]).len() <= #[trigger] stmt_off(ins, text, j) by {
        lemma_pieces_index(groups, qs, i);
        lemma_pieces_index(groups, qs, j);
        lemma_pieces_upto_prefix(groups, qs, i + 1, j);
        assert(qs[i] == spec_render_stmt(ins[i]));
        assert(ps[stmt_piece_index(ins, text, i)] == spec_render_stmt(ins[i]));
        lemma_piece_off_mono(ps, stmt_piece_index(ins, text, i), stmt_piece_index(ins, text, j));
    }
}

/// Index of comment `k` of group `i` among all output pieces.
pub open spec fn comment_piece_index(ins: Seq<InsertView>, text: Seq<char>, i: int, k: int) -> int {
    pieces_upto(spec_scan(text), output_queries(ins), i).len() as int + k
}

/// Offset of comment `k` of group `i` in the output.
pub open spec fn comment_off(ins: Seq<InsertView>, text: Seq<char>, i: int, k: int) -> int {
    piece_off(
        all_pieces(spec_scan(text), output_queries(ins)),
        comment_piece_index(ins, text, i, k),
    )
}

/// Comment `k` of group `i` stands verbatim at [`comment_off`].
pub open spec fn comment_occurrence(ins: Seq<InsertView>, text: Seq<char>, i: int, k: int) -> bool {
    let out = spec_output(ins, text);
    let off = comment_off(ins, text, i, k);
    let c = spec_scan(text)[i][k];
    &&& 0 <= off
    &&& off + c.len() <= out.len()
    &&& out.subrange(off, off + c.len() as int) == c
}

/// Comment round-trip: when the comment groups match the statement count,
/// every grouped `--` comment of the source appears verbatim in the output;
/// the comments of one group keep their order, every comment of group `i`
/// ends before statement `i`'s text begins, and every comment of a later
/// group begins at or after the end of that text.
pub proof fn lemma_comment_round_trip(ins: Seq<InsertView>, text: Seq<char>)
    requires
        spec_scan(text).len() == ins.len() + 1,
    ensures
        forall|i: int, k: int|
            0 <= i < spec_scan(text).len() && 0 <= k < spec_scan(text)[i].len()
                ==> #[trigger] comment_occurrence(ins, text, i, k),
        forall|i: int, k: int, k2: int|
            0 <= i < spec_scan(text).len() && 0 <= k < k2 < spec_scan(text)[i].len()
                ==> #[trigger] comment_off(ins, text, i, k) + spec_scan(text)[i][k].len()
                < #[trigger] comment_off(ins, text, i, k2),
        forall|i: int, k: int|
            0 <= i < ins.len() && 0 <= k < spec_scan(text)[i].len() ==> #[trigger] comment_off(
                ins,
                text,
                i,
                k,
            ) + spec_scan(text)[i][k].len() < stmt_off(ins, text, i),
        forall|i: int, k: int|
            1 <= i < spec_scan(text).len() && 0 <= k < spec_scan(text)[i].len() ==> stmt_off(
                ins,
                text,
                i - 1,
            ) + spec_render_stmt(ins[i - 1]).len() <= #[trigger] comment_off(ins, text, i, k),
{
    let groups = spec_scan(text);
    let qs = output_queries(ins);
    let ps = all_pieces(groups, qs);
    assert forall|i: int, k: int|
        0 <= i < groups.len() && 0 <= k < groups[i].len() implies #[trigger] comment_occurrence(
        ins,
        text,
        i,
        k,
    ) by {
        lemma_pieces_index(groups, qs, i);
        let cidx = comment_piece_index(ins, text, i, k);
        let c = groups[i][k];
        let piece = c + comment_ending(groups[i], k);
        assert(ps[cidx] == piece);
        lemma_concat_occurrence(ps, cidx);
        let off = comment_off(ins, text, i, k);
        let out = spec_output(ins, text);
        assert forall|x: int| 0 <= x < piece.len() implies out[off + x] == piece[x] by {
            assert(out.subrange(off, off + piece.len() as int)[x] == piece[x]);
        }
        assert(out.subrange(off, off + c.len() as int) =~= c);
    }
    assert forall|i: int, k: int, k2: int|
        0 <= i < groups.len() && 0 <= k < k2 < groups[i].len() implies #[trigger] comment_off(
        ins,
        text,
        i,
        k,
    ) + groups[i][k].len() < #[trigger] comment_off(ins, text, i, k2) by {
        reveal_strlit("\n");
        reveal_strlit("\n\n");
        lemma_pieces_index(groups, qs, i);
        let cidx = comment_piece_index(ins, text, i, k);
        let cidx2 = comment_piece_index(ins, text, i, k2);
        assert(ps[cidx] == groups[i][k] + comment_ending(groups[i], k));
        assert(comment_ending(groups[i], k).len() >= 1);
        lemma_piece_off_mono(ps, cidx, cidx2);
    }
    assert forall|i: int, k: int|
        0 <= i < ins.len() && 0 <= k < groups[i].len() implies #[trigger] comment_off(
        ins,
        text,
        i,
        k,
    ) + groups[i][k].len() < stmt_off(ins, text, i) by {
        reveal_strlit("\n");
        reveal_strlit("\n\n");
        lemma_pieces_index(groups, qs, i);
        let cidx = comment_piece_index(ins, text, i, k);
        assert(ps[cidx] == groups[i][k] + comment_ending(groups[i], k));
        assert(comment_ending(groups[i], k).len() >= 1);
        lemma_piece_off_mono(ps, cidx, stmt_piece_index(ins, text, i));
    }
    assert forall|i: int, k: int|
        1 <= i < groups.len() && 0 <= k < groups[i].len() implies stmt_off(ins, text, i - 1)
        + spec_render_stmt(ins[i - 1]).len() <= #[trigger] comment_off(ins, text, i, k) by {
        lemma_pieces_index(groups, qs, i - 1);
        lemma_pieces_index(groups, qs, i);
        let qidx = stmt_piece_index(ins, text, i - 1);
        assert(qs[i - 1] == spec_render_stmt(ins[i - 1]));
        assert(ps[qidx] == spec_render_stmt(ins[i - 1]));
        let cidx = comment_piece_index(ins, text, i, k);
        lemma_piece_off_mono(ps, qidx, cidx);
    }
}

/// Two statements and no comments: the output is exactly the two rendered
/// statements, one after the other, and nothing else — each rendering ends
/// with its own blank line, which is the blank line between the statements
/// and the trailing one.
pub proof fn lemma_two_statements_no_comments(ins: Seq<InsertView>, text: Seq<char>)
    requires
        ins.len() == 2,
        spec_scan(text).len() == 3,
        forall|g: int| 0 <= g < 3 ==> (#[trigger] spec_scan(text)[g]).len() == 0,
    ensures
        spec_output(ins, text) == spec_render_stmt(ins[0]) + spec_render_stmt(ins[1]),
{
    let groups = spec_scan(text);
    let qs = output_queries(ins);
    let ps = all_pieces(groups, qs);
    assert(group_pieces(groups[0]) =~= Seq::<Seq<char>>::empty());
    assert(group_pieces(groups[1]) =~= Seq::<Seq<char>>::empty());
    assert(group_pieces(groups[2]) =~= Seq::<Seq<char>>::empty());
    assert(qs[0] == spec_render_stmt(ins[0]));
    assert(qs[1] == spec_render_stmt(ins[1]));
    assert(qs[2] == Seq::<char>::empty());
    assert(pieces_upto(groups, qs, 0) == Seq::<Seq<char>>::empty());
    assert(pieces_upto(groups, qs, 1) =~= seq![qs[0]]);
    assert(pieces_upto(groups, qs, 2) =~= seq![qs[0], qs[1]]);
    assert(ps =~= seq![qs[0], qs[1], qs[2]]);
    assert(concat_upto(ps, 0) == Seq::<char>::empty());
    assert(concat_upto(ps, 1) =~= spec_render_stmt(ins[0]));
    assert(concat_upto(ps, 2) =~= spec_render_stmt(ins[0]) + spec_render_stmt(ins[1]));
    assert(spec_concat(ps) =~= spec_render_stmt(ins[0]) + spec_render_stmt(ins[1]));
}

} // verus!
