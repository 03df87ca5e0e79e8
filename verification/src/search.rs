//! Searching the index.
//!
//! A query is split into words at white space. A comic answers the query when
//! at least one of the words stands somewhere in its title, alt text or
//! transcript, whatever the case of the letters. A query without words is
//! answered by no comic.

use vstd::prelude::*;
use crate::item::{comic_views, Comic, ComicView};
use crate::text::{chars_of, contains, find, lowercase, split_words, to_lowercase, views, words};

verus! {

/// One of `needles` stands somewhere in `hay`.
pub open spec fn contains_any(hay: Seq<char>, needles: Seq<Seq<char>>) -> bool {
    exists|k: int| 0 <= k < needles.len() && contains(hay, #[trigger] needles[k])
}

/// The words of a query as they are looked for: each in lower case.
pub open spec fn needles_of(query: Seq<char>) -> Seq<Seq<char>> {
    words(query).map_values(|word: Seq<char>| lowercase(word))
}

/// The comic answers the query.
pub open spec fn answers(comic: ComicView, query: Seq<char>) -> bool {
    contains_any(lowercase(comic.blob()), needles_of(query))
}

/// The comics of `index` that answer `query`, in the order of the index.
pub open spec fn results_of(index: Seq<ComicView>, query: Seq<char>) -> Seq<ComicView> {
    index.filter(|comic: ComicView| answers(comic, query))
}

/// The characters of each vector.
pub open spec fn char_views(texts: Seq<Vec<char>>) -> Seq<Seq<char>> {
    texts.map_values(|text: Vec<char>| text@)
}

/// Tells whether one of `needles` stands somewhere in `hay`.
pub fn matches_any(hay: &Vec<char>, needles: &Vec<Vec<char>>) -> (found: bool)
    ensures
        found == contains_any(hay@, char_views(needles@)),
{
    let mut k: usize = 0;
    while k < needles.len()
        invariant
            k <= needles.len(),
            forall|j: int| 0 <= j < k ==> !contains(hay@, #[trigger] char_views(needles@)[j]),
        decreases needles.len() - k,
    {
        if find(hay, &needles[k]).is_some() {
            assert(contains(hay@, char_views(needles@)[k as int]));
            return true;
        }
        k += 1;
    }
    false
}

/// The words of a query in lower case, ready to be looked for.
fn needles(query: &str) -> (needles: Vec<Vec<char>>)
    ensures
        char_views(needles@) == needles_of(query@),
{
    let found = split_words(query);
    let mut needles: Vec<Vec<char>> = Vec::new();
    let mut k: usize = 0;
    while k < found.len()
        invariant
            k <= found.len(),
            views(found@) == words(query@),
            char_views(needles@) == needles_of(query@).take(k as int),
        decreases found.len() - k,
    {
        let lower = to_lowercase(found[k].as_str());
        let ghost before = needles@;
        needles.push(chars_of(lower.as_str()));
        proof {
            let target = needles_of(query@).take(k + 1);
            assert(char_views(before).len() == k);
            assert forall|j: int| 0 <= j < k + 1 implies char_views(needles@)[j] == target[j] by {}
        }
        k += 1;
    }
    needles
}

/// Finds the comics of `index` that answer the query `search`, in the order
/// of the index.
pub fn get_results(index: &Vec<Comic>, search: &str) -> (results: Vec<Comic>)
    ensures
        comic_views(results@) == results_of(comic_views(index@), search@),
{
    let needles = needles(search);
    let mut results: Vec<Comic> = Vec::new();
    let mut k: usize = 0;
    proof {
        reveal(Seq::filter);
    }
    while k < index.len()
        invariant
            k <= index.len(),
            char_views(needles@) == needles_of(search@),
            comic_views(results@) == results_of(comic_views(index@).take(k as int), search@),
        decreases index.len() - k,
    {
        let blob = to_lowercase(index[k].blob().as_str());
        let hay = chars_of(blob.as_str());
        proof {
            reveal(Seq::filter);
            assert(comic_views(index@).take(k + 1).drop_last() =~= comic_views(index@).take(
                k as int,
            ));
        }
        if matches_any(&hay, &needles) {
            results.push(index[k].clone());
        }
        k += 1;
    }
    assert(comic_views(index@).take(k as int) =~= comic_views(index@));
    results
}

/// A query without words is answered by no comic.
pub proof fn empty_query_finds_nothing(index: Seq<ComicView>, query: Seq<char>)
    requires
        words(query).len() == 0,
    ensures
        results_of(index, query) == Seq::<ComicView>::empty(),
{
    let answering = |comic: ComicView| answers(comic, query);
    index.lemma_all_neg_filter_empty(answering);
}

/// Every result is a comic of the index that answers the query, and the
/// results stand in the order of the index.
pub proof fn results_are_answers(index: Seq<ComicView>, query: Seq<char>, k: int)
    requires
        0 <= k < results_of(index, query).len(),
    ensures
        answers(results_of(index, query)[k], query),
        index.contains(results_of(index, query)[k]),
{
    let answering = |comic: ComicView| answers(comic, query);
    index.lemma_filter_pred(answering, k);
    index.lemma_filter_contains_rev(answering, index.filter(answering)[k]);
}

/// Every comic of the index that answers the query is among the results.
pub proof fn answers_are_results(index: Seq<ComicView>, query: Seq<char>, k: int)
    requires
        0 <= k < index.len(),
        answers(index[k], query),
    ensures
        results_of(index, query).contains(index[k]),
{
    let answering = |comic: ComicView| answers(comic, query);
    index.lemma_filter_contains(answering, k);
}

} // verus!
