//! Interleaving comment groups with formatted statements: every comment
//! stands on its own line, a blank line follows the last comment of each
//! group, each statement (whose rendering already ends with a blank line)
//! follows its group directly, and every piece reappears verbatim in the
//! concatenated output at a known offset.

use vstd::prelude::*;

verus! {

/// The trailing newline(s) of a comment piece: a blank line after the last
/// comment of its group, a plain newline otherwise.
pub open spec fn comment_ending(g: Seq<Seq<char>>, k: int) -> Seq<char> {
    if k == g.len() - 1 {
        "\n\n"@
    } else {
        "\n"@
    }
}

/// The first `k` text pieces of one comment group.
pub open spec fn group_pieces_upto(g: Seq<Seq<char>>, k: int) -> Seq<Seq<char>>
    decreases k,
{
    if k <= 0 {
        Seq::empty()
    } else {
        group_pieces_upto(g, k - 1).push(g[k - 1] + comment_ending(g, k - 1))
    }
}

/// All text pieces of one comment group.
pub open spec fn group_pieces(g: Seq<Seq<char>>) -> Seq<Seq<char>> {
    group_pieces_upto(g, g.len() as int)
}

/// The pieces of the first `i` blocks: for each block its group's comment
/// pieces, then the statement text that follows the group.
pub open spec fn pieces_upto(
    groups: Seq<Seq<Seq<char>>>,
    queries: Seq<Seq<char>>,
    i: int,
) -> Seq<Seq<char>>
    decreases i,
{
    if i <= 0 {
        Seq::empty()
    } else {
        pieces_upto(groups, queries, i - 1) + group_pieces(groups[i - 1]).push(queries[i - 1])
    }
}

/// Every piece of the output, in order.
pub open spec fn all_pieces(groups: Seq<Seq<Seq<char>>>, queries: Seq<Seq<char>>) -> Seq<
    Seq<char>,
> {
    pieces_upto(groups, queries, groups.len() as int)
}

/// The first `j` pieces concatenated.
pub open spec fn concat_upto(ps: Seq<Seq<char>>, j: int) -> Seq<char>
    decreases j,
{
    if j <= 0 {
        Seq::empty()
    } else {
        concat_upto(ps, j - 1) + ps[j - 1]
    }
}

/// All pieces concatenated: the output text.
pub open spec fn spec_concat(ps: Seq<Seq<char>>) -> Seq<char> {
    concat_upto(ps, ps.len() as int)
}

/// Offset at which piece `j` stands in the concatenated text.
pub open spec fn piece_off(ps: Seq<Seq<char>>, j: int) -> int {
    concat_upto(ps, j).len() as int
}

/// A shorter concatenation is a prefix of a longer one.
pub proof fn lemma_concat_upto_prefix(ps: Seq<Seq<char>>, j1: int, j2: int)
    requires
        0 <= j1 <= j2,
    ensures
        concat_upto(ps, j1).len() <= concat_upto(ps, j2).len(),
        forall|x: int|
            0 <= x < concat_upto(ps, j1).len() ==> concat_upto(ps, j2)[x] == concat_upto(ps, j1)[x],
    decreases j2 - j1,
{
    if j2 > j1 {
        lemma_concat_upto_prefix(ps, j1, j2 - 1);
    }
}

/// Piece `j` occurs verbatim in the concatenated text at offset [`piece_off`].
pub proof fn lemma_concat_occurrence(ps: Seq<Seq<char>>, j: int)
    requires
        0 <= j < ps.len(),
    ensures
        0 <= piece_off(ps, j),
        piece_off(ps, j) + ps[j].len() <= spec_concat(ps).len(),
        spec_concat(ps).subrange(piece_off(ps, j), piece_off(ps, j) + ps[j].len() as int) == ps[j],
{
    lemma_concat_upto_prefix(ps, j + 1, ps.len() as int);
    assert(concat_upto(ps, j + 1).len() == piece_off(ps, j) + ps[j].len());
    let pj = ps[j];
    assert(spec_concat(ps).subrange(piece_off(ps, j), piece_off(ps, j) + pj.len() as int) =~= pj);
}

/// Pieces do not overlap and keep their order: a later piece starts at or
/// after the end of an earlier one.
pub proof fn lemma_piece_off_mono(ps: Seq<Seq<char>>, j1: int, j2: int)
    requires
        0 <= j1 < j2 <= ps.len(),
    ensures
        piece_off(ps, j1) + ps[j1].len() <= piece_off(ps, j2),
{
    lemma_concat_upto_prefix(ps, j1 + 1, j2);
}

/// How block `i` lays its pieces out: the comment pieces of group `i` first,
/// the statement text of block `i` after them, and the next block right after.
pub proof fn lemma_pieces_index(groups: Seq<Seq<Seq<char>>>, queries: Seq<Seq<char>>, i: int)
    requires
        0 <= i < groups.len(),
        groups.len() == queries.len(),
    ensures
        pieces_upto(groups, queries, i + 1).len() == pieces_upto(groups, queries, i).len()
            + groups[i].len() + 1,
        forall|k: int|
            0 <= k < groups[i].len() ==> all_pieces(groups, queries)[pieces_upto(
                groups,
                queries,
                i,
            ).len() + k] == (#[trigger] groups[i][k]) + comment_ending(groups[i], k),
        all_pieces(groups, queries)[pieces_upto(groups, queries, i).len() + groups[i].len() as int]
            == queries[i],
        pieces_upto(groups, queries, i).len() + groups[i].len() < all_pieces(
            groups,
            queries,
        ).len(),
{
    lemma_group_pieces_len(groups[i], groups[i].len() as int);
    lemma_pieces_upto_prefix(groups, queries, i + 1, groups.len() as int);
    assert forall|k: int| 0 <= k < groups[i].len() implies pieces_upto(groups, queries, i + 1)[
        pieces_upto(groups, queries, i).len() + k] == (#[trigger] groups[i][k]) + comment_ending(
        groups[i],
        k,
    ) by {
        lemma_group_pieces_index(groups[i], groups[i].len() as int, k);
    }
}

/// The group-piece list has one piece per comment.
proof fn lemma_group_pieces_len(g: Seq<Seq<char>>, k: int)
    requires
        0 <= k,
    ensures
        group_pieces_upto(g, k).len() == k,
    decreases k,
{
    if k > 0 {
        lemma_group_pieces_len(g, k - 1);
    }
}

/// Piece `x` of a group is its comment `x` with its trailing newline(s).
proof fn lemma_group_pieces_index(g: Seq<Seq<char>>, k: int, x: int)
    requires
        0 <= x < k,
    ensures
        group_pieces_upto(g, k).len() == k,
        group_pieces_upto(g, k)[x] == g[x] + comment_ending(g, x),
    decreases k,
{
    lemma_group_pieces_len(g, k);
    if x < k - 1 {
        lemma_group_pieces_index(g, k - 1, x);
    } else {
        lemma_group_pieces_len(g, k - 1);
    }
}

/// A shorter piece list is a prefix of a longer one.
pub proof fn lemma_pieces_upto_prefix(
    groups: Seq<Seq<Seq<char>>>,
    queries: Seq<Seq<char>>,
    i1: int,
    i2: int,
)
    requires
        0 <= i1 <= i2,
    ensures
        pieces_upto(groups, queries, i1).len() <= pieces_upto(groups, queries, i2).len(),
        forall|x: int|
            0 <= x < pieces_upto(groups, queries, i1).len() ==> pieces_upto(groups, queries, i2)[x]
                == pieces_upto(groups, queries, i1)[x],
    decreases i2 - i1,
{
    if i2 > i1 {
        lemma_pieces_upto_prefix(groups, queries, i1, i2 - 1);
    }
}

/// Concatenates comment groups and formatted statements: every comment on
/// its own line, a blank line after the last comment of each group, and each
/// statement directly after its group (a rendered statement already ends
/// with its own blank line).
pub fn interleave(groups: &Vec<Vec<String>>, queries: &Vec<String>) -> (r: String)
    requires
        groups@.len() == queries@.len(),
    ensures
        r@ == spec_concat(all_pieces(groups.deep_view(), queries.deep_view())),
{
    let ghost gv = groups.deep_view();
    let ghost qv = queries.deep_view();
    let mut pieces: Vec<String> = Vec::new();
    let mut i: usize = 0;
    while i < groups.len()
        invariant
            i <= groups@.len(),
            groups@.len() == queries@.len(),
            gv == groups.deep_view(),
            qv == queries.deep_view(),
            pieces.deep_view() == pieces_upto(gv, qv, i as int),
        decreases groups@.len() - i,
    {
        let g = &groups[i];
        proof {
            assert(gv[i as int] == groups@[i as int].deep_view());
            assert(pieces.deep_view() =~~= pieces_upto(gv, qv, i as int) + group_pieces_upto(
                gv[i as int],
                0,
            ));
        }
        let mut k: usize = 0;
        while k < g.len()
            invariant
                k <= g@.len(),
                0 <= i < groups@.len(),
                gv == groups.deep_view(),
                qv == queries.deep_view(),
                gv[i as int] == g.deep_view(),
                pieces.deep_view() == pieces_upto(gv, qv, i as int) + group_pieces_upto(
                    gv[i as int],
                    k as int,
                ),
            decreases g@.len() - k,
        {
            let mut piece = g[k].clone();
            if k + 1 == g.len() {
                piece.append("\n\n");
            } else {
                piece.append("\n");
            }
            let ghost prevpv = pieces.deep_view();
            pieces.push(piece);
            proof {
                assert(g.deep_view()[k as int] == g@[k as int]@);
                assert(gv[i as int].len() == g@.len());
                assert(piece@ == gv[i as int][k as int] + comment_ending(gv[i as int], k as int));
                assert(group_pieces_upto(gv[i as int], k as int + 1) == group_pieces_upto(
                    gv[i as int],
                    k as int,
                ).push(gv[i as int][k as int] + comment_ending(gv[i as int], k as int)));
                assert(pieces.deep_view() =~~= prevpv.push(piece@));
                assert(pieces.deep_view() =~~= pieces_upto(gv, qv, i as int) + group_pieces_upto(
                    gv[i as int],
                    k as int + 1,
                ));
            }
            k += 1;
        }
        let q = queries[i].clone();
        let ghost prevpv = pieces.deep_view();
        pieces.push(q);
        proof {
            assert(qv[i as int] == queries@[i as int]@);
            assert(gv[i as int].len() == g@.len());
            assert(pieces_upto(gv, qv, i as int + 1) == pieces_upto(gv, qv, i as int)
                + group_pieces(gv[i as int]).push(qv[i as int]));
            assert(pieces.deep_view() =~~= prevpv.push(qv[i as int]));
            assert(pieces.deep_view() =~~= pieces_upto(gv, qv, i as int + 1));
        }
        i += 1;
    }
    let ghost pv = pieces.deep_view();
    let mut out = String::new();
    proof {
        assert(out@ =~= concat_upto(pv, 0));
    }
    let mut j: usize = 0;
    while j < pieces.len()
        invariant
            j <= pieces@.len(),
            pv == pieces.deep_view(),
            out@ == concat_upto(pv, j as int),
        decreases pieces@.len() - j,
    {
        out.append(pieces[j].as_str());
        proof {
            assert(pv[j as int] == pieces@[j as int]@);
            assert(out@ =~= concat_upto(pv, j as int + 1));
        }
        j += 1;
    }
    proof {
        assert(pieces_upto(gv, qv, groups@.len() as int) == all_pieces(gv, qv));
    }
    out
}

} // verus!
