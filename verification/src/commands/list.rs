//! Listing: which filter goes with the flags of the command, and what there
//! is to show.

use vstd::prelude::*;
use crate::models::{snippet_views, Snippet, SnippetStore, SnippetView};
use crate::search::{is_searchable, searchable};
use crate::storage::filter::{apply_filter, chosen, Filter, FilterView};

verus! {

/// What a listing has to show.
#[derive(Debug)]
pub enum ListOutcome {
    /// The store could not be read, or nothing was asked for and nothing is
    /// saved.
    NothingSaved,
    /// No snippet carries the tag that was asked for.
    NothingTagged(String),
    /// No snippet matches the query that was asked for.
    NothingMatching(String),
    /// The query or a snippet is beyond the limits of the searcher, so that
    /// no search was made.
    BeyondLimits,
    /// The snippets to show, in their order.
    Table(Vec<Snippet>),
}

/// A [`ListOutcome`] as a mathematical value.
pub ghost enum ListOutcomeView {
    NothingSaved,
    NothingTagged(Seq<char>),
    NothingMatching(Seq<char>),
    BeyondLimits,
    Table(Seq<SnippetView>),
}

impl View for ListOutcome {
    type V = ListOutcomeView;

    open spec fn view(&self) -> ListOutcomeView {
        match self {
            ListOutcome::NothingSaved => ListOutcomeView::NothingSaved,
            ListOutcome::NothingTagged(tag) => ListOutcomeView::NothingTagged(tag@),
            ListOutcome::NothingMatching(query) => ListOutcomeView::NothingMatching(query@),
            ListOutcome::BeyondLimits => ListOutcomeView::BeyondLimits,
            ListOutcome::Table(snippets) => ListOutcomeView::Table(snippet_views(snippets@)),
        }
    }
}

/// The outcome of a listing, and whether a tag was given and set aside
/// because a query was given too.
#[derive(Debug)]
pub struct Listing {
    pub tag_ignored: bool,
    pub outcome: ListOutcome,
}

/// The text of an optional string.
pub open spec fn text_of(flag: Option<String>) -> Option<Seq<char>> {
    match flag {
        Some(text) => Some(text@),
        None => None,
    }
}

/// The filter that goes with the flags: a query wins over a tag.
pub open spec fn filter_for(tag: Option<Seq<char>>, search: Option<Seq<char>>) -> FilterView {
    match (tag, search) {
        (_, Some(query)) => FilterView::FuzzySearch(query),
        (Some(tag), None) => FilterView::Tag(tag),
        (None, None) => FilterView::All,
    }
}

/// A query is given, and it cannot be searched for in the store.
pub open spec fn out_of_reach(store: Seq<SnippetView>, search: Option<Seq<char>>) -> bool {
    search matches Some(query) && !searchable(query, store)
}

/// What a listing shows for a store that was read: the chosen snippets, or,
/// where none is chosen, what was asked for in vain; the tag first. A query
/// that cannot be searched for is not searched for.
pub open spec fn shown(
    store: Seq<SnippetView>,
    tag: Option<Seq<char>>,
    search: Option<Seq<char>>,
) -> ListOutcomeView {
    let snippets = chosen(store, filter_for(tag, search));
    if out_of_reach(store, search) {
        ListOutcomeView::BeyondLimits
    } else if snippets.len() > 0 {
        ListOutcomeView::Table(snippets)
    } else {
        match (tag, search) {
            (Some(tag), _) => ListOutcomeView::NothingTagged(tag),
            (None, Some(query)) => ListOutcomeView::NothingMatching(query),
            (None, None) => ListOutcomeView::NothingSaved,
        }
    }
}

/// The filter that goes with the flags of a listing.
pub fn choose_filter(tag: &Option<String>, search: &Option<String>) -> (filter: Filter)
    ensures
        filter@ == filter_for(text_of(*tag), text_of(*search)),
{
    match search {
        Some(query) => Filter::FuzzySearch(query.clone()),
        None => match tag {
            Some(tag) => Filter::Tag(tag.clone()),
            None => Filter::All,
        },
    }
}

/// Decides what a listing shows. `loaded` is the store, or `None` where it
/// could not be read, which counts as nothing saved.
pub fn list_outcome(
    loaded: Option<&SnippetStore>,
    tag: Option<String>,
    search: Option<String>,
) -> (listing: Listing)
    ensures
        listing.tag_ignored == (loaded is Some && tag is Some && search is Some),
        listing.outcome@ == match loaded {
            Some(store) => shown(store@, text_of(tag), text_of(search)),
            None => ListOutcomeView::NothingSaved,
        },
{
    let store = match loaded {
        Some(store) => store,
        None => {
            return Listing { tag_ignored: false, outcome: ListOutcome::NothingSaved };
        },
    };
    let tag_ignored = tag.is_some() && search.is_some();
    if let Some(query) = &search {
        if !is_searchable(query.as_str(), store.snippets.as_slice()) {
            return Listing { tag_ignored, outcome: ListOutcome::BeyondLimits };
        }
    }
    let snippets = apply_filter(store, choose_filter(&tag, &search));
    let outcome = if snippets.len() > 0 {
        ListOutcome::Table(snippets)
    } else {
        match tag {
            Some(tag) => ListOutcome::NothingTagged(tag),
            None => match search {
                Some(query) => ListOutcome::NothingMatching(query),
                None => ListOutcome::NothingSaved,
            },
        }
    };
    Listing { tag_ignored, outcome }
}

} // verus!
