//! The filters through which every listing and every search goes.

use vstd::prelude::*;
use crate::models::{snippet_views, texts, Snippet, SnippetStore, SnippetView};
use crate::search::fuzzy::{search_results, FuzzySearcher};
use crate::search::{scored_views, searchable, ScoredSnippet, ScoredView, Searcher};
use crate::text::{lowercase, to_lowercase};

verus! {

/// How the snippets of a listing are chosen.
pub enum Filter {
    /// Every snippet.
    All,
    /// The snippets whose name holds the text, whatever the case.
    Name(String),
    /// The snippets that carry the tag, whatever the case.
    Tag(String),
    /// The snippets that match the query, best first.
    FuzzySearch(String),
}

/// A [`Filter`] as a mathematical value.
pub ghost enum FilterView {
    All,
    Name(Seq<char>),
    Tag(Seq<char>),
    FuzzySearch(Seq<char>),
}

impl View for Filter {
    type V = FilterView;

    open spec fn view(&self) -> FilterView {
        match self {
            Filter::All => FilterView::All,
            Filter::Name(name) => FilterView::Name(name@),
            Filter::Tag(tag) => FilterView::Tag(tag@),
            Filter::FuzzySearch(query) => FilterView::FuzzySearch(query@),
        }
    }
}

/// `needle` stands somewhere in `text`, character for character.
pub open spec fn occurs_in(needle: Seq<char>, text: Seq<char>) -> bool {
    exists|at: int|
        0 <= at <= text.len() - needle.len() && #[trigger] text.subrange(at, at + needle.len())
            == needle
}

/// `str::contains` with a string as the pattern: whether the pattern matches
/// a part of the text.
#[verifier::external_body]
fn contains(text: &str, needle: &str) -> (found: bool)
    ensures
        found == occurs_in(needle@, text@),
{
    text.contains(needle)
}

/// The name of the snippet holds `name`, whatever the case.
pub open spec fn name_holds(snippet: SnippetView, name: Seq<char>) -> bool {
    occurs_in(lowercase(name), lowercase(snippet.name))
}

/// One of the texts is `wanted`.
pub open spec fn one_is(texts: Seq<Seq<char>>, wanted: Seq<char>) -> bool {
    exists|t: int| 0 <= t < texts.len() && #[trigger] texts[t] == wanted
}

/// The snippet carries `tag`, whatever the case.
pub open spec fn carries_tag(snippet: SnippetView, tag: Seq<char>) -> bool {
    one_is(snippet.tags.map_values(|t: Seq<char>| lowercase(t)), lowercase(tag))
}

/// The snippets of a ranked search, without their scores.
pub open spec fn bare(results: Seq<ScoredView>) -> Seq<SnippetView> {
    results.map_values(|scored: ScoredView| scored.snippet)
}

/// The snippets that the filter chooses from the store, in the order in which
/// it returns them.
pub open spec fn chosen(store: Seq<SnippetView>, filter: FilterView) -> Seq<SnippetView> {
    match filter {
        FilterView::All => store,
        FilterView::Name(name) => store.filter(|s: SnippetView| name_holds(s, name)),
        FilterView::Tag(tag) => store.filter(|s: SnippetView| carries_tag(s, tag)),
        FilterView::FuzzySearch(query) => bare(search_results(query, store)),
    }
}

/// The snippets that the filter chooses: in the order of the store, but for a
/// fuzzy search, which ranks them.
pub fn apply_filter(store: &SnippetStore, filter: Filter) -> (snippets: Vec<Snippet>)
    requires
        filter matches Filter::FuzzySearch(query) ==> searchable(query@, store@),
    ensures
        snippet_views(snippets@) == chosen(store@, filter@),
{
    match filter {
        Filter::All => {
            let snippets = store.snippets.clone();
            assert(snippet_views(snippets@) =~= store@);
            snippets
        },
        Filter::Name(name) => get_by_name(store, &name),
        Filter::Tag(tag) => get_by_tag(store, &tag),
        Filter::FuzzySearch(query) => {
            let searcher = FuzzySearcher::new();
            let results = searcher.search(&query, &store.snippets);
            strip_scores(results)
        },
    }
}

/// The snippets of the results, in their order.
pub fn strip_scores(results: Vec<ScoredSnippet>) -> (snippets: Vec<Snippet>)
    ensures
        snippet_views(snippets@) == bare(scored_views(results@)),
{
    let mut results = results;
    let ghost ranked = scored_views(results@);
    let mut reversed: Vec<Snippet> = Vec::new();
    while results.len() > 0
        invariant
            results.len() + reversed.len() == ranked.len(),
            scored_views(results@) == ranked.take(results.len() as int),
            forall|k: int|
                0 <= k < reversed.len() ==> reversed[k]@ == ranked[ranked.len() - 1 - k].snippet,
        decreases results.len(),
    {
        let ghost before = scored_views(results@);
        let scored = results.pop().unwrap();
        assert(scored@ == before[before.len() - 1]);
        assert(scored_views(results@) =~= ranked.take(results.len() as int));
        reversed.push(scored.snippet);
    }
    let mut snippets: Vec<Snippet> = Vec::new();
    while reversed.len() > 0
        invariant
            snippets.len() + reversed.len() == ranked.len(),
            forall|k: int|
                0 <= k < reversed.len() ==> reversed[k]@ == ranked[ranked.len() - 1 - k].snippet,
            forall|k: int| 0 <= k < snippets.len() ==> snippets[k]@ == ranked[k].snippet,
        decreases reversed.len(),
    {
        let snippet = reversed.pop().unwrap();
        snippets.push(snippet);
    }
    assert(snippet_views(snippets@) =~= bare(ranked));
    snippets
}

/// The snippets whose name holds `name`, whatever the case, in the order of
/// the store.
pub fn get_by_name(store: &SnippetStore, name: &str) -> (snippets: Vec<Snippet>)
    ensures
        snippet_views(snippets@) == store@.filter(|s: SnippetView| name_holds(s, name@)),
{
    let ghost wanted = |s: SnippetView| name_holds(s, name@);
    let needle = to_lowercase(name);
    let mut snippets: Vec<Snippet> = Vec::new();
    let mut i: usize = 0;
    proof {
        reveal(Seq::filter);
        assert(store@.take(0) =~= Seq::<SnippetView>::empty());
    }
    while i < store.snippets.len()
        invariant
            i <= store.snippets.len(),
            needle@ == lowercase(name@),
            wanted == |s: SnippetView| name_holds(s, name@),
            snippet_views(snippets@) == store@.take(i as int).filter(wanted),
        decreases store.snippets.len() - i,
    {
        proof {
            reveal(Seq::filter);
            assert(store@.take(i + 1).drop_last() =~= store@.take(i as int));
            assert(store@.take(i + 1).last() == store.snippets[i as int]@);
        }
        let ghost before = snippet_views(snippets@);
        let lowered = to_lowercase(&store.snippets[i].name);
        if contains(&lowered, &needle) {
            snippets.push(store.snippets[i].clone());
            assert(snippet_views(snippets@) =~= before.push(store.snippets[i as int]@));
        }
        i += 1;
    }
    assert(store@.take(i as int) =~= store@);
    snippets
}

/// The strings in lower case, in their order.
pub fn lower_all(strings: &Vec<String>) -> (lowered: Vec<String>)
    ensures
        texts(lowered@) == texts(strings@).map_values(|t: Seq<char>| lowercase(t)),
{
    let mut lowered: Vec<String> = Vec::new();
    let mut i: usize = 0;
    while i < strings.len()
        invariant
            i <= strings.len(),
            lowered.len() == i,
            forall|k: int| 0 <= k < i ==> lowered[k]@ == lowercase(strings[k]@),
        decreases strings.len() - i,
    {
        lowered.push(to_lowercase(&strings[i]));
        i += 1;
    }
    assert(texts(lowered@) =~= texts(strings@).map_values(|t: Seq<char>| lowercase(t)));
    lowered
}

/// Whether one of the strings is `wanted`, character for character.
pub fn any_is(strings: &Vec<String>, wanted: &str) -> (found: bool)
    ensures
        found == one_is(texts(strings@), wanted@),
{
    let sought = wanted.to_owned();
    let mut i: usize = 0;
    while i < strings.len()
        invariant
            i <= strings.len(),
            sought@ == wanted@,
            forall|t: int| 0 <= t < i ==> texts(strings@)[t] != wanted@,
        decreases strings.len() - i,
    {
        assert(texts(strings@)[i as int] == strings[i as int]@);
        if strings[i] == sought {
            return true;
        }
        i += 1;
    }
    false
}

/// The snippets that carry `tag`, whatever the case, in the order of the
/// store.
pub fn get_by_tag(store: &SnippetStore, tag: &str) -> (snippets: Vec<Snippet>)
    ensures
        snippet_views(snippets@) == store@.filter(|s: SnippetView| carries_tag(s, tag@)),
{
    let ghost wanted = |s: SnippetView| carries_tag(s, tag@);
    let lowered = to_lowercase(tag);
    let mut snippets: Vec<Snippet> = Vec::new();
    let mut i: usize = 0;
    proof {
        reveal(Seq::filter);
        assert(store@.take(0) =~= Seq::<SnippetView>::empty());
    }
    while i < store.snippets.len()
        invariant
            i <= store.snippets.len(),
            lowered@ == lowercase(tag@),
            wanted == |s: SnippetView| carries_tag(s, tag@),
            snippet_views(snippets@) == store@.take(i as int).filter(wanted),
        decreases store.snippets.len() - i,
    {
        proof {
            reveal(Seq::filter);
            assert(store@.take(i + 1).drop_last() =~= store@.take(i as int));
            assert(store@.take(i + 1).last() == store.snippets[i as int]@);
        }
        let ghost before = snippet_views(snippets@);
        let tags = lower_all(&store.snippets[i].tags);
        if any_is(&tags, &lowered) {
            snippets.push(store.snippets[i].clone());
            assert(snippet_views(snippets@) =~= before.push(store.snippets[i as int]@));
        }
        i += 1;
    }
    assert(store@.take(i as int) =~= store@);
    snippets
}

} // verus!
