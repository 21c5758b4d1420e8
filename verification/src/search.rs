//! The search engine: the lines of a text that contain a query, either by
//! literal containment or after lowercasing both sides.

use vstd::prelude::*;

use crate::config::Config;
use crate::lines::lines_of;
use crate::lines::split_lines;
use crate::matching::contains_seq;
use crate::matching::lower_of;
use crate::matching::str_contains;
use crate::matching::to_lowercase;

verus! {

/// Whether a line matches `q` by literal substring containment.
pub open spec fn match_pred(q: Seq<char>) -> spec_fn(Seq<char>) -> bool {
    |l: Seq<char>| contains_seq(q, l)
}

/// Whether a line matches `q` once both are lowercased.
pub open spec fn match_pred_ci(q: Seq<char>) -> spec_fn(Seq<char>) -> bool {
    |l: Seq<char>| contains_seq(lower_of(q), lower_of(l))
}

/// The lines of `t` that contain `q`, in order of appearance.
pub open spec fn search_spec(q: Seq<char>, t: Seq<char>) -> Seq<Seq<char>> {
    lines_of(t).filter(match_pred(q))
}

/// The lines of `t` whose lowercase form contains the lowercase form of `q`,
/// in order of appearance and in their original casing.
pub open spec fn search_ci_spec(q: Seq<char>, t: Seq<char>) -> Seq<Seq<char>> {
    lines_of(t).filter(match_pred_ci(q))
}

/// Filtering a sequence extended by one element keeps the filtered prefix and
/// appends the element exactly when it satisfies the predicate.
pub(crate) proof fn lemma_filter_push(s: Seq<Seq<char>>, pred: spec_fn(Seq<char>) -> bool, x: Seq<char>)
    ensures
        s.push(x).filter(pred) == (if pred(x) {
            s.filter(pred).push(x)
        } else {
            s.filter(pred)
        }),
{
    reveal(Seq::filter);
    assert(s.push(x).drop_last() =~= s);
}

/// Returns every line of `contents` that contains `query` as a contiguous
/// substring (character-literal match, no normalization; an empty query
/// matches every line), as views into `contents`, in order of appearance.
pub fn search<'a>(query: &str, contents: &'a str) -> (r: Vec<&'a str>)
    ensures
        r.deep_view() == search_spec(query@, contents@),
{
    let lines = split_lines(contents);
    let mut matched: Vec<&'a str> = Vec::new();
    let mut i: usize = 0;
    proof {
        assert(lines.deep_view().take(0) =~= Seq::<Seq<char>>::empty());
        reveal(Seq::filter);
    }
    while i < lines.len()
        invariant
            lines.deep_view() == lines_of(contents@),
            i <= lines@.len(),
            matched.deep_view() == lines.deep_view().take(i as int).filter(match_pred(query@)),
        decreases lines@.len() - i,
    {
        let line = lines[i];
        let ghost prefix = lines.deep_view().take(i as int);
        let ghost before = matched.deep_view();
        proof {
            assert(line@ == lines.deep_view()[i as int]);
            assert(lines.deep_view().take(i + 1) =~= prefix.push(line@));
            lemma_filter_push(prefix, match_pred(query@), line@);
        }
        if str_contains(line, query) {
            matched.push(line);
            proof {
                assert(matched.deep_view() =~= before.push(line@));
            }
        }
        i += 1;
    }
    proof {
        assert(lines.deep_view().take(lines@.len() as int) =~= lines.deep_view());
    }
    matched
}

/// Returns every line of `contents` whose lowercase form contains the
/// lowercase form of `query`, as views into `contents`: matching ignores
/// case, but the returned lines keep their original casing and order.
pub fn search_case_insensitive<'a>(query: &str, contents: &'a str) -> (r: Vec<&'a str>)
    ensures
        r.deep_view() == search_ci_spec(query@, contents@),
{
    let query_lower = to_lowercase(query);
    let lines = split_lines(contents);
    let mut matched: Vec<&'a str> = Vec::new();
    let mut i: usize = 0;
    proof {
        assert(lines.deep_view().take(0) =~= Seq::<Seq<char>>::empty());
        reveal(Seq::filter);
    }
    while i < lines.len()
        invariant
            query_lower@ == lower_of(query@),
            lines.deep_view() == lines_of(contents@),
            i <= lines@.len(),
            matched.deep_view() == lines.deep_view().take(i as int).filter(match_pred_ci(query@)),
        decreases lines@.len() - i,
    {
        let line = lines[i];
        let ghost prefix = lines.deep_view().take(i as int);
        let ghost before = matched.deep_view();
        proof {
            assert(line@ == lines.deep_view()[i as int]);
            assert(lines.deep_view().take(i + 1) =~= prefix.push(line@));
            lemma_filter_push(prefix, match_pred_ci(query@), line@);
        }
        let line_lower = to_lowercase(line);
        if str_contains(line_lower.as_str(), query_lower.as_str()) {
            matched.push(line);
            proof {
                assert(matched.deep_view() =~= before.push(line@));
            }
        }
        i += 1;
    }
    proof {
        assert(lines.deep_view().take(lines@.len() as int) =~= lines.deep_view());
    }
    matched
}

/// Dispatches to the case-insensitive search when the configuration asks for
/// it, and to the case-sensitive search otherwise.
pub fn run_search<'a>(config: &Config, contents: &'a str) -> (r: Vec<&'a str>)
    ensures
        config.ignore_case ==> r.deep_view() == search_ci_spec(config.query@, contents@),
        !config.ignore_case ==> r.deep_view() == search_spec(config.query@, contents@),
{
    if config.ignore_case {
        search_case_insensitive(config.query.as_str(), contents)
    } else {
        search(config.query.as_str(), contents)
    }
}

} // verus!
