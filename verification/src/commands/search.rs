//! Searching from the command line: a blank query is turned away, any other
//! goes to the fuzzy search.

use vstd::prelude::*;
use crate::models::{snippet_views, Snippet, SnippetStore, SnippetView};
use crate::search::{is_searchable, searchable};
use crate::storage::filter::{apply_filter, chosen, Filter, FilterView};

verus! {

/// What a search has to show.
#[derive(Debug)]
pub enum SearchOutcome {
    /// The store could not be read.
    NothingSaved,
    /// The query holds nothing but white space.
    EmptyQuery,
    /// The query or a snippet is beyond the limits of the searcher, so that
    /// no search was made.
    BeyondLimits,
    /// No snippet matches the query.
    NothingMatching,
    /// The snippets that match, best first.
    Found(Vec<Snippet>),
}

/// A [`SearchOutcome`] as a mathematical value.
pub ghost enum SearchOutcomeView {
    NothingSaved,
    EmptyQuery,
    BeyondLimits,
    NothingMatching,
    Found(Seq<SnippetView>),
}

impl View for SearchOutcome {
    type V = SearchOutcomeView;

    open spec fn view(&self) -> SearchOutcomeView {
        match self {
            SearchOutcome::NothingSaved => SearchOutcomeView::NothingSaved,
            SearchOutcome::EmptyQuery => SearchOutcomeView::EmptyQuery,
            SearchOutcome::BeyondLimits => SearchOutcomeView::BeyondLimits,
            SearchOutcome::NothingMatching => SearchOutcomeView::NothingMatching,
            SearchOutcome::Found(snippets) => SearchOutcomeView::Found(snippet_views(snippets@)),
        }
    }
}

/// The text that `str::trim` leaves of `text`.
pub uninterp spec fn trimmed(text: Seq<char>) -> Seq<char>;

/// `str::trim`: the text without the white space at its two ends.
#[verifier::external_body]
fn trim(text: &str) -> (inner: &str)
    ensures
        inner@ == trimmed(text@),
{
    text.trim()
}

/// What a search shows for a store that was read: a blank query is turned
/// away first, then one that cannot be searched for.
pub open spec fn sought(store: Seq<SnippetView>, query: Seq<char>) -> SearchOutcomeView {
    let snippets = chosen(store, FilterView::FuzzySearch(query));
    if trimmed(query).len() == 0 {
        SearchOutcomeView::EmptyQuery
    } else if !searchable(query, store) {
        SearchOutcomeView::BeyondLimits
    } else if snippets.len() == 0 {
        SearchOutcomeView::NothingMatching
    } else {
        SearchOutcomeView::Found(snippets)
    }
}

/// Decides what a search shows. `loaded` is the store, or `None` where it
/// could not be read. The query is matched as it was given, white space at
/// its ends included.
pub fn search_outcome(loaded: Option<&SnippetStore>, query: &str) -> (outcome: SearchOutcome)
    ensures
        outcome@ == match loaded {
            Some(store) => sought(store@, query@),
            None => SearchOutcomeView::NothingSaved,
        },
{
    let store = match loaded {
        Some(store) => store,
        None => {
            return SearchOutcome::NothingSaved;
        },
    };
    if trim(query).is_empty() {
        return SearchOutcome::EmptyQuery;
    }
    if !is_searchable(query, store.snippets.as_slice()) {
        return SearchOutcome::BeyondLimits;
    }
    let snippets = apply_filter(store, Filter::FuzzySearch(query.to_owned()));
    if snippets.len() == 0 {
        SearchOutcome::NothingMatching
    } else {
        SearchOutcome::Found(snippets)
    }
}

} // verus!
