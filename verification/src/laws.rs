//! What holds of every search.

use vstd::prelude::*;
use crate::lines::lines_of;
use crate::lowercase::lowercase;
use crate::pattern::{contains, occurs_at};
use crate::search::{
    found_lines, is_match, lemma_matches_among_push, matches_among, matching, trimming,
};
use crate::slicing::texts;
use crate::trim::trimmed;

verus! {

/// `at` lists, in rising order, the places in `all` of exactly the lines that
/// match `query`, and `found` holds the trimmed form of each, in that order.
pub open spec fn picks_the_matches(
    at: Seq<int>,
    all: Seq<Seq<char>>,
    query: Seq<char>,
    ignore_case: bool,
    found: Seq<Seq<char>>,
) -> bool {
    &&& at.len() == found.len()
    &&& forall|k: int| 0 <= k < at.len() ==> 0 <= #[trigger] at[k] < all.len()
    &&& forall|k: int|
        0 <= k < at.len() ==> is_match(query, all[#[trigger] at[k]], ignore_case) && found[k]
            == trimmed(all[at[k]])
    &&& forall|j: int, k: int| 0 <= j < k < at.len() ==> #[trigger] at[j] < #[trigger] at[k]
    &&& forall|i: int|
        0 <= i < all.len() && is_match(query, #[trigger] all[i], ignore_case) ==> at.contains(i)
}

/// The places in `all` of the lines that match `query`, in rising order.
pub closed spec fn places_of_matches(all: Seq<Seq<char>>, query: Seq<char>, ignore_case: bool) -> Seq<
    int,
>
    decreases all.len(),
{
    if all.len() == 0 {
        Seq::empty()
    } else {
        let before = places_of_matches(all.drop_last(), query, ignore_case);
        if is_match(query, all.last(), ignore_case) {
            before.push(all.len() - 1)
        } else {
            before
        }
    }
}

proof fn lemma_places_of_matches(all: Seq<Seq<char>>, query: Seq<char>, ignore_case: bool)
    ensures
        picks_the_matches(
            places_of_matches(all, query, ignore_case),
            all,
            query,
            ignore_case,
            matches_among(all, query, ignore_case),
        ),
    decreases all.len(),
{
    let at = places_of_matches(all, query, ignore_case);
    let found = matches_among(all, query, ignore_case);
    if all.len() == 0 {
        assert(found.len() == 0) by {
            all.lemma_filter_len(matching(query, ignore_case));
        }
    } else {
        let front = all.drop_last();
        let at_front = places_of_matches(front, query, ignore_case);
        lemma_places_of_matches(front, query, ignore_case);
        assert(front.push(all.last()) =~= all);
        lemma_matches_among_push(front, all.last(), query, ignore_case);
        assert forall|i: int|
            0 <= i < all.len() && is_match(query, #[trigger] all[i], ignore_case) implies at.contains(
            i,
        ) by {
            if i < front.len() {
                let k = choose|k: int| 0 <= k < at_front.len() && at_front[k] == i;
                assert(at[k] == i);
            } else {
                assert(at[at.len() - 1] == i);
            }
        }
    }
}

/// A search in either mode finds exactly the lines that match, keeps their
/// order, and hands each out trimmed.
///
/// Where case counts, a line matches when it holds the query as it stands;
/// where case is ignored, when its lowercase form holds the lowercase form of
/// the query.
pub proof fn law_found_lines_are_the_matches(
    query: Seq<char>,
    contents: Seq<char>,
    ignore_case: bool,
)
    ensures
        exists|at: Seq<int>|
            picks_the_matches(
                at,
                lines_of(contents),
                query,
                ignore_case,
                found_lines(query, contents, ignore_case),
            ),
{
    let all = lines_of(contents);
    lemma_places_of_matches(all, query, ignore_case);
    assert(picks_the_matches(
        places_of_matches(all, query, ignore_case),
        all,
        query,
        ignore_case,
        found_lines(query, contents, ignore_case),
    ));
}

/// Two searches with the same query, text and mode find the same lines.
pub proof fn law_search_is_repeatable(
    query: Seq<char>,
    contents: Seq<char>,
    ignore_case: bool,
    first: Seq<&str>,
    second: Seq<&str>,
)
    requires
        texts(first) == found_lines(query, contents, ignore_case),
        texts(second) == found_lines(query, contents, ignore_case),
    ensures
        first.len() == second.len(),
        forall|k: int| 0 <= k < first.len() ==> first[k]@ == second[k]@,
{
    assert(texts(first).len() == first.len());
    assert(texts(second).len() == second.len());
    assert forall|k: int| 0 <= k < first.len() implies first[k]@ == second[k]@ by {
        assert(texts(first)[k] == first[k]@);
        assert(texts(second)[k] == second[k]@);
    }
}

/// `sure` holds each item of `few` at least as often as `few` holds it.
pub open spec fn holds_all_of(sure: Seq<Seq<char>>, few: Seq<Seq<char>>) -> bool {
    few.to_multiset().subset_of(sure.to_multiset())
}

proof fn lemma_ignoring_case_finds_no_less(all: Seq<Seq<char>>, query: Seq<char>)
    requires
        forall|i: int|
            0 <= i < all.len() && contains(#[trigger] all[i], query) ==> contains(
                lowercase(all[i]),
                lowercase(query),
            ),
    ensures
        holds_all_of(matches_among(all, query, true), matches_among(all, query, false)),
        matches_among(all, query, false).len() <= matches_among(all, query, true).len(),
    decreases all.len(),
{
    broadcast use vstd::multiset::group_multiset_axioms;
    broadcast use vstd::seq_lib::to_multiset_build;

    if all.len() == 0 {
        all.lemma_filter_len(matching(query, true));
        all.lemma_filter_len(matching(query, false));
        assert(matches_among(all, query, false) =~= Seq::empty());
        assert(Seq::<Seq<char>>::empty().to_multiset() =~= vstd::multiset::Multiset::empty()) by {
            Seq::<Seq<char>>::empty().to_multiset_ensures();
        }
    } else {
        let front = all.drop_last();
        assert forall|i: int|
            0 <= i < front.len() && contains(#[trigger] front[i], query) implies contains(
            lowercase(front[i]),
            lowercase(query),
        ) by {
            assert(front[i] == all[i]);
        }
        lemma_ignoring_case_finds_no_less(front, query);
        assert(front.push(all.last()) =~= all);
        lemma_matches_among_push(front, all.last(), query, true);
        lemma_matches_among_push(front, all.last(), query, false);
    }
}

/// A search that ignores case finds every line that a search minding case
/// finds, and as often, for every query and text in which each line that
/// holds the query still holds it once both are put in lowercase.
///
/// Lowercasing goes by the context of a letter, so that it can part a query
/// from a line that held it: the condition leaves such pairs out.
pub proof fn law_ignoring_case_finds_no_less(query: Seq<char>, contents: Seq<char>)
    requires
        forall|i: int|
            0 <= i < lines_of(contents).len() && contains(#[trigger] lines_of(contents)[i], query)
                ==> contains(lowercase(lines_of(contents)[i]), lowercase(query)),
    ensures
        holds_all_of(found_lines(query, contents, true), found_lines(query, contents, false)),
        forall|line: Seq<char>|
            found_lines(query, contents, false).contains(line) ==> found_lines(
                query,
                contents,
                true,
            ).contains(line),
        found_lines(query, contents, false).len() <= found_lines(query, contents, true).len(),
{
    let few = found_lines(query, contents, false);
    let sure = found_lines(query, contents, true);
    lemma_ignoring_case_finds_no_less(lines_of(contents), query);
    few.to_multiset_ensures();
    sure.to_multiset_ensures();
    assert forall|line: Seq<char>| few.contains(line) implies sure.contains(line) by {
        assert(few.to_multiset().count(line) <= sure.to_multiset().count(line));
    }
}

/// The empty query matches every line, in either mode.
pub proof fn law_empty_query_matches_every_line(line: Seq<char>, ignore_case: bool)
    ensures
        is_match(Seq::empty(), line, ignore_case),
{
    let empty = Seq::<char>::empty();
    let hay = if ignore_case { lowercase(line) } else { line };
    assert(hay.subrange(0, 0) =~= empty);
    assert(occurs_at(hay, empty, 0));
}

/// A search for the empty query finds every line of the text, trimmed.
pub proof fn law_empty_query_finds_every_line(contents: Seq<char>, ignore_case: bool)
    ensures
        found_lines(Seq::empty(), contents, ignore_case) == lines_of(contents).map_values(
            trimming(),
        ),
{
    let all = lines_of(contents);
    let test = matching(Seq::empty(), ignore_case);
    assert forall|i: int| 0 <= i < all.len() implies test(#[trigger] all[i]) by {
        law_empty_query_matches_every_line(all[i], ignore_case);
    }
    lemma_filter_keeps_all(all, test);
}

/// A test that every item passes filters nothing out.
proof fn lemma_filter_keeps_all(all: Seq<Seq<char>>, test: spec_fn(Seq<char>) -> bool)
    requires
        forall|i: int| 0 <= i < all.len() ==> test(#[trigger] all[i]),
    ensures
        all.filter(test) == all,
    decreases all.len(),
{
    reveal(Seq::filter);
    if all.len() > 0 {
        lemma_filter_keeps_all(all.drop_last(), test);
    }
}

} // verus!
