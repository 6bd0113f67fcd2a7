//! Ranked search: the result types and the interface of a searcher.

use vstd::prelude::*;
use crate::models::{snippet_views, Snippet, SnippetView};
use crate::text::{lowercase, to_lowercase};

pub mod fuzzy;
pub mod ranking;
pub mod scoring;

verus! {

/// A field of a snippet in which the query was found.
#[derive(Debug, Clone, PartialEq, Eq)]
pub enum MatchedField {
    Name,
    Description,
    Content,
    /// The tag that matched.
    Tag(String),
}

/// A [`MatchedField`] as a mathematical value.
pub ghost enum MatchedFieldView {
    Name,
    Description,
    Content,
    Tag(Seq<char>),
}

impl View for MatchedField {
    type V = MatchedFieldView;

    open spec fn view(&self) -> MatchedFieldView {
        match self {
            MatchedField::Name => MatchedFieldView::Name,
            MatchedField::Description => MatchedFieldView::Description,
            MatchedField::Content => MatchedFieldView::Content,
            MatchedField::Tag(tag) => MatchedFieldView::Tag(tag@),
        }
    }
}

/// The views of a sequence of matched fields.
pub open spec fn field_views(fields: Seq<MatchedField>) -> Seq<MatchedFieldView> {
    fields.map_values(|f: MatchedField| f@)
}

/// A snippet that matched a query, with its aggregate score and the fields
/// that contributed to it.
#[derive(Debug, Clone)]
pub struct ScoredSnippet {
    pub snippet: Snippet,
    pub score: u32,
    pub matched_fields: Vec<MatchedField>,
}

/// A [`ScoredSnippet`] as a mathematical value.
pub ghost struct ScoredView {
    pub snippet: SnippetView,
    pub score: nat,
    pub matched_fields: Seq<MatchedFieldView>,
}

impl View for ScoredSnippet {
    type V = ScoredView;

    open spec fn view(&self) -> ScoredView {
        ScoredView {
            snippet: self.snippet@,
            score: self.score as nat,
            matched_fields: field_views(self.matched_fields@),
        }
    }
}

/// The views of a sequence of scored snippets.
pub open spec fn scored_views(hits: Seq<ScoredSnippet>) -> Seq<ScoredView> {
    hits.map_values(|h: ScoredSnippet| h@)
}

/// The longest query that a searcher is asked to match, in characters of its
/// lower-case form. A match scores at most 36 for the first character of the query and 26 for
/// each further one; with 2520 characters that is 65530, the last such sum
/// that 16 bits hold.
pub const MAX_QUERY_CHARS: usize = 2520;

/// The longest text that a searcher is asked to match against, in
/// characters: what 32 bits can index.
pub const MAX_TEXT_CHARS: usize = 0xffff_ffff;

/// The most tags of one snippet that a searcher is asked to look at. With
/// scores of 16 bits the weights of the name, the description, the content
/// and 21843 tags add up to at most 65536 times 65535, which 32 bits hold.
pub const MAX_TAGS: usize = 21843;

/// The snippet is within the limits of a searcher: every searchable text has
/// at most [`MAX_TEXT_CHARS`] characters, and there are at most [`MAX_TAGS`]
/// tags.
pub open spec fn snippet_in_reach(snippet: SnippetView) -> bool {
    &&& snippet.name.len() <= MAX_TEXT_CHARS
    &&& snippet.description.len() <= MAX_TEXT_CHARS
    &&& snippet.content.len() <= MAX_TEXT_CHARS
    &&& snippet.tags.len() <= MAX_TAGS
    &&& forall|t: int|
        0 <= t < snippet.tags.len() ==> #[trigger] snippet.tags[t].len() <= MAX_TEXT_CHARS
}

/// The query, in lower case, is within the limit of a searcher.
pub open spec fn query_in_reach(query: Seq<char>) -> bool {
    lowercase(query).len() <= MAX_QUERY_CHARS
}

/// Where there is anything to match, the query and every snippet are within
/// the limits of a searcher. An empty query and an empty store are always
/// searchable.
pub open spec fn searchable(query: Seq<char>, snippets: Seq<SnippetView>) -> bool {
    query.len() > 0 && snippets.len() > 0 ==> {
        &&& query_in_reach(query)
        &&& forall|i: int| 0 <= i < snippets.len() ==> snippet_in_reach(#[trigger] snippets[i])
    }
}

/// Whether the snippet is within the limits of a searcher.
pub fn is_in_reach(snippet: &Snippet) -> (ok: bool)
    ensures
        ok == snippet_in_reach(snippet@),
{
    if snippet.name.as_str().unicode_len() > MAX_TEXT_CHARS
        || snippet.description.as_str().unicode_len() > MAX_TEXT_CHARS
        || snippet.content.as_str().unicode_len() > MAX_TEXT_CHARS
        || snippet.tags.len() > MAX_TAGS {
        return false;
    }
    let mut t: usize = 0;
    while t < snippet.tags.len()
        invariant
            t <= snippet.tags.len(),
            forall|k: int| 0 <= k < t ==> #[trigger] snippet@.tags[k].len() <= MAX_TEXT_CHARS,
        decreases snippet.tags.len() - t,
    {
        assert(snippet@.tags[t as int] == snippet.tags[t as int]@);
        if snippet.tags[t].as_str().unicode_len() > MAX_TEXT_CHARS {
            return false;
        }
        t += 1;
    }
    true
}

/// Whether the query and the snippets are searchable.
pub fn is_searchable(query: &str, snippets: &[Snippet]) -> (ok: bool)
    ensures
        ok == searchable(query@, snippet_views(snippets@)),
{
    if query.is_empty() || snippets.len() == 0 {
        return true;
    }
    if to_lowercase(query).as_str().unicode_len() > MAX_QUERY_CHARS {
        return false;
    }
    let mut i: usize = 0;
    while i < snippets.len()
        invariant
            i <= snippets.len(),
            query@.len() > 0,
            query_in_reach(query@),
            snippet_views(snippets@).len() == snippets.len(),
            forall|k: int|
                0 <= k < i ==> snippet_in_reach(#[trigger] snippet_views(snippets@)[k]),
        decreases snippets.len() - i,
    {
        assert(snippet_views(snippets@)[i as int] == snippets[i as int]@);
        if !is_in_reach(&snippets[i]) {
            return false;
        }
        i += 1;
    }
    true
}

/// Something that finds the snippets that match a query.
pub trait Searcher {
    fn search(&self, query: &str, snippets: &[Snippet]) -> (results: Vec<ScoredSnippet>)
        requires
            searchable(query@, snippet_views(snippets@)),
    ;
}

impl ScoredSnippet {
    pub fn new(snippet: Snippet, score: u32, matched_fields: Vec<MatchedField>) -> (scored: Self)
        ensures
            scored.snippet == snippet,
            scored.score == score,
            scored.matched_fields == matched_fields,
    {
        Self { snippet, score, matched_fields }
    }
}

} // verus!
