//! Facts that relate the searches to the lines of a text and to each other.
use vstd::prelude::*;

use crate::lines::{line_views, lines_of};
use crate::search::{
    contains_query, contains_query_folded, exact_matches, folded_matches, has_substring, lower_of,
    mode_matches,
};

verus! {

broadcast use vstd::seq_lib::group_filter_ensures;

/// Exact search keeps exactly the lines that contain the query: every line it
/// returns is a line of the text that contains the query, and every line of
/// the text that contains the query is among those it returns.
pub proof fn lemma_exact_matches_are_the_matching_lines(query: Seq<char>, contents: Seq<char>)
    ensures
        forall|k: int|
            0 <= k < exact_matches(query, contents).len() ==> {
                let line = #[trigger] exact_matches(query, contents)[k];
                lines_of(contents).contains(line) && has_substring(line, query)
            },
        forall|j: int|
            0 <= j < lines_of(contents).len() && has_substring(#[trigger] lines_of(contents)[j], query)
                ==> exact_matches(query, contents).contains(lines_of(contents)[j]),
{
    let all = lines_of(contents);
    let pred = contains_query(query);
    assert forall|k: int| 0 <= k < all.filter(pred).len() implies {
        let line = #[trigger] all.filter(pred)[k];
        all.contains(line) && has_substring(line, query)
    } by {
        assert(all.filter(pred).contains(all.filter(pred)[k]));
        all.lemma_filter_contains_rev(pred, all.filter(pred)[k]);
        assert(pred(all.filter(pred)[k]));
    }
    assert forall|j: int| 0 <= j < all.len() && has_substring(#[trigger] all[j], query) implies all.filter(
        pred,
    ).contains(all[j]) by {
        assert(pred(all[j]));
    }
}

/// Case-insensitive search returns every line that exact search returns,
/// provided lower-casing keeps the query inside each line of the text that
/// contains it.
pub proof fn lemma_folded_matches_cover_exact_matches(query: Seq<char>, contents: Seq<char>)
    requires
        forall|line: Seq<char>|
            lines_of(contents).contains(line) && has_substring(line, query) ==> has_substring(
                #[trigger] lower_of(line),
                lower_of(query),
            ),
    ensures
        forall|k: int|
            0 <= k < exact_matches(query, contents).len() ==> folded_matches(query, contents).contains(
                #[trigger] exact_matches(query, contents)[k],
            ),
{
    lemma_exact_matches_are_the_matching_lines(query, contents);
    let all = lines_of(contents);
    let folded = contains_query_folded(query);
    assert forall|k: int| 0 <= k < exact_matches(query, contents).len() implies all.filter(
        folded,
    ).contains(#[trigger] exact_matches(query, contents)[k]) by {
        let line = exact_matches(query, contents)[k];
        let j = choose|j: int| 0 <= j < all.len() && all[j] == line;
        assert(has_substring(lower_of(line), lower_of(query)));
        assert(folded(all[j]));
    }
}

/// Searching twice with the same query, text and mode gives the same lines.
pub proof fn lemma_search_repeatable(
    ignore_case: bool,
    query: Seq<char>,
    contents: Seq<char>,
    first: Seq<&str>,
    second: Seq<&str>,
)
    requires
        line_views(first) == mode_matches(ignore_case, query, contents),
        line_views(second) == mode_matches(ignore_case, query, contents),
    ensures
        line_views(first) == line_views(second),
{
}

} // verus!
