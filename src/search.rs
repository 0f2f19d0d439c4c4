//! Picking the lines of a text that contain a query.
use vstd::prelude::*;

use crate::config::Config;
use crate::lines::{line_views, lines, lines_of};

verus! {

/// Whether `needle` occurs in `hay` as a contiguous run of characters.
pub open spec fn has_substring(hay: Seq<char>, needle: Seq<char>) -> bool {
    exists|i: int|
        0 <= i && i + needle.len() <= hay.len() && #[trigger] hay.subrange(i, i + needle.len())
            == needle
}

/// The result of lower-casing `s` with the standard library's Unicode rules.
pub uninterp spec fn lower_of(s: Seq<char>) -> Seq<char>;

/// Whether a line contains `query` exactly.
pub open spec fn contains_query(query: Seq<char>) -> spec_fn(Seq<char>) -> bool {
    |line: Seq<char>| has_substring(line, query)
}

/// Whether the lower-cased line contains the lower-cased `query`.
pub open spec fn contains_query_folded(query: Seq<char>) -> spec_fn(Seq<char>) -> bool {
    |line: Seq<char>| has_substring(lower_of(line), lower_of(query))
}

/// The lines of `contents` that contain `query`, in order.
pub open spec fn exact_matches(query: Seq<char>, contents: Seq<char>) -> Seq<Seq<char>> {
    lines_of(contents).filter(contains_query(query))
}

/// The lines of `contents` that contain `query` once both are lower-cased, in order.
pub open spec fn folded_matches(query: Seq<char>, contents: Seq<char>) -> Seq<Seq<char>> {
    lines_of(contents).filter(contains_query_folded(query))
}

/// The lines of `contents` that match `query` in the mode that `ignore_case` selects.
pub open spec fn mode_matches(ignore_case: bool, query: Seq<char>, contents: Seq<char>) -> Seq<
    Seq<char>,
> {
    if ignore_case {
        folded_matches(query, contents)
    } else {
        exact_matches(query, contents)
    }
}

/// The characters of each string in `s`.
pub open spec fn string_views(s: Seq<String>) -> Seq<Seq<char>> {
    s.map_values(|t: String| t@)
}

/// The elements of `lines` whose counterpart at the same position in
/// `folded` contains `folded_query`, in order.
pub open spec fn pick_folded(
    lines: Seq<Seq<char>>,
    folded: Seq<Seq<char>>,
    folded_query: Seq<char>,
) -> Seq<Seq<char>>
    decreases lines.len(),
{
    if lines.len() == 0 {
        seq![]
    } else {
        let n = lines.len() - 1;
        let before = pick_folded(lines.take(n), folded, folded_query);
        if has_substring(folded[n], folded_query) {
            before.push(lines[n])
        } else {
            before
        }
    }
}

/// Relies on `str::contains` with a `&str` pattern: whether `needle` is a
/// contiguous part of `hay`.
#[verifier::external_body]
fn contains_str(hay: &str, needle: &str) -> (r: bool)
    ensures
        r == has_substring(hay@, needle@),
{
    hay.contains(needle)
}

/// Relies on `str::to_lowercase`: the result depends on the characters of `s`
/// alone, and the empty string stays empty.
#[verifier::external_body]
fn lowercase(s: &str) -> (r: String)
    ensures
        r@ == lower_of(s@),
        s@.len() == 0 ==> r@.len() == 0,
{
    s.to_lowercase()
}

/// The empty sequence occurs in every sequence.
proof fn lemma_empty_is_substring(hay: Seq<char>, needle: Seq<char>)
    requires
        needle.len() == 0,
    ensures
        has_substring(hay, needle),
{
    let i: int = 0;
    assert(hay.subrange(i, i + needle.len()) =~= needle);
}

/// Filtering keeps a sequence whole when every element passes.
proof fn lemma_filter_keeps_all(s: Seq<Seq<char>>, pred: spec_fn(Seq<char>) -> bool)
    requires
        forall|i: int| 0 <= i < s.len() ==> #[trigger] pred(s[i]),
    ensures
        s.filter(pred) == s,
    decreases s.len(),
{
    reveal_with_fuel(Seq::filter, 1);
    if s.len() > 0 {
        assert(pred(s[s.len() - 1]));
        lemma_filter_keeps_all(s.drop_last(), pred);
        assert(s.drop_last().push(s.last()) =~= s);
    }
}

/// With `filter` over a growing prefix: one more element is kept exactly when it passes.
proof fn lemma_filter_take_step(s: Seq<Seq<char>>, pred: spec_fn(Seq<char>) -> bool, i: int)
    requires
        0 <= i < s.len(),
    ensures
        s.take(i + 1).filter(pred) == (if pred(s[i]) {
            s.take(i).filter(pred).push(s[i])
        } else {
            s.take(i).filter(pred)
        }),
{
    reveal_with_fuel(Seq::filter, 1);
    assert(s.take(i + 1).drop_last() =~= s.take(i));
}

/// Picking by folded forms that are the lower-cased lines is the folded filter.
proof fn lemma_pick_folded_is_filter(lines: Seq<Seq<char>>, folded: Seq<Seq<char>>, query: Seq<char>)
    requires
        folded.len() >= lines.len(),
        forall|j: int| 0 <= j < lines.len() ==> folded[j] == lower_of(#[trigger] lines[j]),
    ensures
        pick_folded(lines, folded, lower_of(query)) == lines.filter(contains_query_folded(query)),
    decreases lines.len(),
{
    reveal_with_fuel(Seq::filter, 1);
    if lines.len() > 0 {
        let n = lines.len() - 1;
        assert(lines.take(n) =~= lines.drop_last());
        assert forall|j: int| 0 <= j < lines.take(n).len() implies folded[j] == lower_of(
            #[trigger] lines.take(n)[j],
        ) by {
            assert(lines.take(n)[j] == lines[j]);
        }
        lemma_pick_folded_is_filter(lines.take(n), folded, query);
        assert(folded[n] == lower_of(lines[n]));
    }
}

/// The lines of `contents` that contain `query`, as slices of `contents`, in
/// original order.
pub fn search<'a>(query: &str, contents: &'a str) -> (r: Vec<&'a str>)
    ensures
        line_views(r@) == exact_matches(query@, contents@),
        query@.len() == 0 ==> line_views(r@) == lines_of(contents@),
        contents@.len() == 0 ==> r@.len() == 0,
{
    let all = lines(contents);
    let ghost pred = contains_query(query@);
    let mut out: Vec<&'a str> = Vec::new();
    let mut i: usize = 0;
    while i < all.len()
        invariant
            i <= all@.len(),
            line_views(all@) == lines_of(contents@),
            line_views(out@) == line_views(all@).take(i as int).filter(pred),
            pred == contains_query(query@),
        decreases all@.len() - i,
    {
        let line = all[i];
        let ghost before = out@;
        proof {
            lemma_filter_take_step(line_views(all@), pred, i as int);
        }
        if contains_str(line, query) {
            out.push(line);
            assert(line_views(out@) =~= line_views(before).push(line@));
        }
        i += 1;
    }
    assert(line_views(all@).take(all@.len() as int) =~= line_views(all@));
    proof {
        if query@.len() == 0 {
            assert forall|k: int| 0 <= k < lines_of(contents@).len() implies #[trigger] pred(
                lines_of(contents@)[k],
            ) by {
                lemma_empty_is_substring(lines_of(contents@)[k], query@);
            }
            lemma_filter_keeps_all(lines_of(contents@), pred);
        }
        if contents@.len() == 0 {
            assert(lines_of(contents@) =~= Seq::<Seq<char>>::empty());
        }
    }
    out
}

/// The elements of `lines` whose lower-cased form, given at the same position
/// in `folded`, contains the lower-cased query `folded_query`, in order.
pub fn select_folded<'a>(lines: &Vec<&'a str>, folded: &Vec<String>, folded_query: &str) -> (r:
    Vec<&'a str>)
    requires
        lines@.len() == folded@.len(),
    ensures
        line_views(r@) == pick_folded(line_views(lines@), string_views(folded@), folded_query@),
{
    let ghost all = line_views(lines@);
    let mut out: Vec<&'a str> = Vec::new();
    let mut i: usize = 0;
    while i < lines.len()
        invariant
            i <= lines@.len(),
            lines@.len() == folded@.len(),
            all == line_views(lines@),
            line_views(out@) == pick_folded(all.take(i as int), string_views(folded@), folded_query@),
        decreases lines@.len() - i,
    {
        let ghost before = out@;
        assert(all.take(i + 1).take(i as int) =~= all.take(i as int));
        if contains_str(folded[i].as_str(), folded_query) {
            out.push(lines[i]);
            assert(line_views(out@) =~= line_views(before).push(lines@[i as int]@));
        }
        i += 1;
    }
    assert(all.take(lines@.len() as int) =~= all);
    out
}

/// The lines of `contents` that contain `query` when both are lower-cased, as
/// slices of `contents`, in original order.
pub fn search_case_insensitive<'a>(query: &str, contents: &'a str) -> (r: Vec<&'a str>)
    ensures
        line_views(r@) == folded_matches(query@, contents@),
        query@.len() == 0 ==> line_views(r@) == lines_of(contents@),
        contents@.len() == 0 ==> r@.len() == 0,
{
    let folded_query = lowercase(query);
    let all = lines(contents);
    let mut folded: Vec<String> = Vec::new();
    let mut i: usize = 0;
    while i < all.len()
        invariant
            i <= all@.len(),
            folded@.len() == i,
            forall|j: int| 0 <= j < i ==> folded@[j]@ == lower_of(#[trigger] all@[j]@),
        decreases all@.len() - i,
    {
        folded.push(lowercase(all[i]));
        i += 1;
    }
    let r = select_folded(&all, &folded, folded_query.as_str());
    proof {
        let views = line_views(all@);
        lemma_pick_folded_is_filter(views, string_views(folded@), query@);
        if query@.len() == 0 {
            let pred = contains_query_folded(query@);
            assert forall|k: int| 0 <= k < views.len() implies #[trigger] pred(views[k]) by {
                lemma_empty_is_substring(lower_of(views[k]), lower_of(query@));
            }
            lemma_filter_keeps_all(views, pred);
        }
        if contents@.len() == 0 {
            assert(lines_of(contents@) =~= Seq::<Seq<char>>::empty());
        }
    }
    r
}

/// The lines of `contents` that match the request's query, in the mode that
/// the request asks for.
pub fn matching_lines<'a>(config: &Config, contents: &'a str) -> (r: Vec<&'a str>)
    ensures
        line_views(r@) == mode_matches(config.ignore_case, config.query@, contents@),
{
    if config.ignore_case {
        search_case_insensitive(config.query.as_str(), contents)
    } else {
        search(config.query.as_str(), contents)
    }
}

} // verus!
