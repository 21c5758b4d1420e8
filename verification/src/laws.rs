//! General laws of the search functions, stated over the spec-level models
//! that their contracts use and proved once for all inputs.

use vstd::prelude::*;

use crate::lines::lines_of;
use crate::matching::contains_seq;
use crate::matching::lemma_empty_contained;
use crate::matching::lower_of;
use crate::search::lemma_filter_push;
use crate::search::match_pred;
use crate::search::match_pred_ci;
use crate::search::search_ci_spec;
use crate::search::search_spec;

verus! {

/// An element that satisfies the predicate appears in the filtered sequence,
/// at the position given by the number of earlier satisfying elements.
proof fn lemma_filter_position(ls: Seq<Seq<char>>, pred: spec_fn(Seq<char>) -> bool, i: int)
    requires
        0 <= i < ls.len(),
        pred(ls[i]),
    ensures
        ls.take(i).filter(pred).len() < ls.filter(pred).len(),
        ls.filter(pred)[ls.take(i).filter(pred).len() as int] == ls[i],
    decreases ls.len(),
{
    if i == ls.len() - 1 {
        assert(ls.drop_last() =~= ls.take(i));
        lemma_filter_push(ls.take(i), pred, ls[i]);
        assert(ls.take(i).push(ls[i]) =~= ls);
    } else {
        lemma_filter_position(ls.drop_last(), pred, i);
        assert(ls.drop_last().take(i) =~= ls.take(i));
        lemma_filter_push(ls.drop_last(), pred, ls.last());
        assert(ls.drop_last().push(ls.last()) =~= ls);
    }
}

/// Every element of the filtered sequence is an element of the original
/// sequence and satisfies the predicate.
proof fn lemma_filter_element_of(ls: Seq<Seq<char>>, pred: spec_fn(Seq<char>) -> bool, j: int)
    requires
        0 <= j < ls.filter(pred).len(),
    ensures
        ls.contains(ls.filter(pred)[j]),
        pred(ls.filter(pred)[j]),
    decreases ls.len(),
{
    reveal(Seq::filter);
    if ls.len() > 0 {
        let rest = ls.drop_last();
        lemma_filter_push(rest, pred, ls.last());
        assert(rest.push(ls.last()) =~= ls);
        if j < rest.filter(pred).len() {
            lemma_filter_element_of(rest, pred, j);
            let k = choose|k: int| 0 <= k < rest.len() && rest[k] == rest.filter(pred)[j];
            assert(ls[k] == ls.filter(pred)[j]);
        } else {
            assert(ls.filter(pred)[j] == ls.last());
            assert(ls[ls.len() - 1] == ls.last());
        }
    }
}

/// Filtering with a predicate that holds of every element returns the
/// sequence unchanged.
proof fn lemma_filter_all_pos(ls: Seq<Seq<char>>, pred: spec_fn(Seq<char>) -> bool)
    requires
        forall|i: int| 0 <= i < ls.len() ==> pred(#[trigger] ls[i]),
    ensures
        ls.filter(pred) == ls,
    decreases ls.len(),
{
    reveal(Seq::filter);
    if ls.len() > 0 {
        let rest = ls.drop_last();
        lemma_filter_all_pos(rest, pred);
        lemma_filter_push(rest, pred, ls.last());
        assert(rest.push(ls.last()) =~= ls);
    }
}

/// Filtering with a predicate that holds of no element returns the empty
/// sequence.
proof fn lemma_filter_all_neg(ls: Seq<Seq<char>>, pred: spec_fn(Seq<char>) -> bool)
    requires
        forall|i: int| 0 <= i < ls.len() ==> !pred(#[trigger] ls[i]),
    ensures
        ls.filter(pred).len() == 0,
    decreases ls.len(),
{
    reveal(Seq::filter);
    if ls.len() > 0 {
        let rest = ls.drop_last();
        lemma_filter_all_neg(rest, pred);
        lemma_filter_push(rest, pred, ls.last());
        assert(rest.push(ls.last()) =~= ls);
    }
}

/// Every line of `t` that contains `q` appears in the case-sensitive search
/// result, at the position given by the number of earlier matching lines.
pub proof fn lemma_search_finds_line(q: Seq<char>, t: Seq<char>, i: int)
    requires
        0 <= i < lines_of(t).len(),
        contains_seq(q, lines_of(t)[i]),
    ensures
        lines_of(t).take(i).filter(match_pred(q)).len() < search_spec(q, t).len(),
        search_spec(q, t)[lines_of(t).take(i).filter(match_pred(q)).len() as int] == lines_of(
            t,
        )[i],
{
    lemma_filter_position(lines_of(t), match_pred(q), i);
}

/// Matching lines keep their relative order: a matching line earlier in `t`
/// stands at an earlier position of the search result.
pub proof fn lemma_search_preserves_order(q: Seq<char>, t: Seq<char>, i: int, j: int)
    requires
        0 <= i < j < lines_of(t).len(),
        contains_seq(q, lines_of(t)[i]),
        contains_seq(q, lines_of(t)[j]),
    ensures
        lines_of(t).take(i).filter(match_pred(q)).len() < lines_of(t).take(j).filter(
            match_pred(q),
        ).len(),
{
    let ls = lines_of(t);
    let pred = match_pred(q);
    assert(ls.take(j) =~= ls.take(i).push(ls[i]) + ls.subrange(i + 1, j));
    Seq::filter_distributes_over_add(ls.take(i).push(ls[i]), ls.subrange(i + 1, j), pred);
    lemma_filter_push(ls.take(i), pred, ls[i]);
}

/// When `q` occurs in no line of `t`, the search result is empty.
pub proof fn lemma_search_unmatched_empty(q: Seq<char>, t: Seq<char>)
    requires
        forall|i: int| 0 <= i < lines_of(t).len() ==> !contains_seq(q, #[trigger] lines_of(t)[i]),
    ensures
        search_spec(q, t).len() == 0,
{
    lemma_filter_all_neg(lines_of(t), match_pred(q));
}

/// An empty query matches every line: searching for it returns every line of
/// `t`, in order.
pub proof fn lemma_search_empty_query(q: Seq<char>, t: Seq<char>)
    requires
        q.len() == 0,
    ensures
        search_spec(q, t) == lines_of(t),
{
    assert forall|i: int| 0 <= i < lines_of(t).len() implies match_pred(q)(
        #[trigger] lines_of(t)[i],
    ) by {
        lemma_empty_contained(q, lines_of(t)[i]);
    }
    lemma_filter_all_pos(lines_of(t), match_pred(q));
}

/// The case-insensitive search returns lines of `t` verbatim: matching
/// ignores case, but every result is one of the original lines, with its
/// original casing, and its lowercase form contains the lowercase query.
pub proof fn lemma_ci_search_returns_original_lines(q: Seq<char>, t: Seq<char>, j: int)
    requires
        0 <= j < search_ci_spec(q, t).len(),
    ensures
        lines_of(t).contains(search_ci_spec(q, t)[j]),
        contains_seq(lower_of(q), lower_of(search_ci_spec(q, t)[j])),
{
    lemma_filter_element_of(lines_of(t), match_pred_ci(q), j);
}

/// Every line of `t` whose lowercase form contains the lowercase form of `q`
/// appears in the case-insensitive search result, at the position given by
/// the number of earlier such lines.
pub proof fn lemma_ci_search_finds_line(q: Seq<char>, t: Seq<char>, i: int)
    requires
        0 <= i < lines_of(t).len(),
        contains_seq(lower_of(q), lower_of(lines_of(t)[i])),
    ensures
        lines_of(t).take(i).filter(match_pred_ci(q)).len() < search_ci_spec(q, t).len(),
        search_ci_spec(q, t)[lines_of(t).take(i).filter(match_pred_ci(q)).len() as int]
            == lines_of(t)[i],
{
    lemma_filter_position(lines_of(t), match_pred_ci(q), i);
}

} // verus!
