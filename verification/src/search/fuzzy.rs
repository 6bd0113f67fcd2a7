//! Fuzzy search over the name, the description, the content and the tags of
//! each snippet, with a fixed weight for each field.

use vstd::prelude::*;
use nucleo_matcher::{Config, Matcher, Utf32String};
use crate::models::{snippet_views, Snippet, SnippetView};
use crate::search::ranking::{is_ranked, lemma_rank_is_stable, rank, rank_hits, rank_order};
use crate::search::scoring::{
    aggregate_score, assemble, hit, lemma_matched_tags, matched_tags, tags_contribution,
    FieldScores, FieldScoresView,
};
use crate::search::{
    is_searchable, query_in_reach, scored_views, searchable, snippet_in_reach, ScoredSnippet,
    ScoredView, Searcher, MAX_QUERY_CHARS, MAX_TAGS, MAX_TEXT_CHARS,
};
use crate::text::{has_no_ascii_capital, lowercase, to_lowercase};

verus! {

/// `nucleo_matcher::Matcher`: carried through, never looked into.
#[verifier::external_type_specification]
#[verifier::external_body]
pub struct ExMatcher(Matcher);

/// The score that `nucleo_matcher::Matcher::fuzzy_match` gives to `needle` in
/// `haystack` under the default configuration, for a needle in lower case:
/// `None` where the needle is not found.
pub uninterp spec fn fuzzy_score(haystack: Seq<char>, needle: Seq<char>) -> Option<u16>;

/// The matcher has the default configuration of `nucleo_matcher`.
pub uninterp spec fn has_default_config(matcher: Matcher) -> bool;

/// `nucleo_matcher::Matcher::new` with `Config::DEFAULT`: the matcher that
/// comes back has that configuration.
#[verifier::external_body]
fn default_matcher() -> (matcher: Matcher)
    ensures
        has_default_config(matcher),
{
    Matcher::new(Config::DEFAULT)
}

/// `nucleo_matcher::Matcher::fuzzy_match` on the two texts, each converted
/// with `Utf32String::from`. The matcher keeps its configuration and only
/// uses its scratch memory, so under the default configuration the score
/// depends on the two texts alone. Three kinds of input are left out. The
/// call panics on a haystack of more than `u32::MAX` characters. It adds the
/// score up in 16 bits, at most 36 for the first and 26 for each further
/// character of the needle. And it folds the case of the haystack only, and
/// expects a needle that is folded already: on a needle with one of the
/// letters `A` to `Z` it can fail an assertion of its own.
#[verifier::external_body]
fn fuzzy_match(matcher: &mut Matcher, haystack: &str, needle: &str) -> (score: Option<u16>)
    requires
        has_default_config(*old(matcher)),
        haystack@.len() <= MAX_TEXT_CHARS,
        needle@.len() <= MAX_QUERY_CHARS,
        has_no_ascii_capital(needle@),
    ensures
        has_default_config(*final(matcher)),
        score == fuzzy_score(haystack@, needle@),
{
    let haystack = Utf32String::from(haystack);
    let needle = Utf32String::from(needle);
    matcher.fuzzy_match(haystack.slice(..), needle.slice(..))
}

/// How well the query matches one text, whatever the case of either: `None`
/// where either is empty or the query, in lower case, is not found in the
/// text.
pub open spec fn match_score(query: Seq<char>, text: Seq<char>) -> Option<u32> {
    if text.len() == 0 || query.len() == 0 || lowercase(query).len() == 0 {
        None
    } else {
        match fuzzy_score(text, lowercase(query)) {
            Some(score) => Some(score as u32),
            None => None,
        }
    }
}

/// The matcher can be asked for the query in the text: one of them is empty,
/// or both are within its limits.
pub open spec fn matchable(query: Seq<char>, text: Seq<char>) -> bool {
    query.len() > 0 && text.len() > 0 ==> query_in_reach(query) && text.len() <= MAX_TEXT_CHARS
}

/// The score of the query in each field of the snippet.
pub open spec fn field_scores(query: Seq<char>, snippet: SnippetView) -> FieldScoresView {
    FieldScoresView {
        name: match_score(query, snippet.name),
        description: match_score(query, snippet.description),
        content: match_score(query, snippet.content),
        tags: snippet.tags.map_values(|tag: Seq<char>| match_score(query, tag)),
    }
}

/// The hit that the query makes in the snippet, if it makes one.
pub open spec fn snippet_hit(query: Seq<char>, snippet: SnippetView) -> Option<ScoredView> {
    hit(snippet, field_scores(query, snippet))
}

/// The hits of the query, in the order of the snippets.
pub open spec fn hits(query: Seq<char>, snippets: Seq<SnippetView>) -> Seq<ScoredView>
    decreases snippets.len(),
{
    if snippets.len() == 0 {
        Seq::empty()
    } else {
        let earlier = hits(query, snippets.drop_last());
        match snippet_hit(query, snippets.last()) {
            Some(found) => earlier.push(found),
            None => earlier,
        }
    }
}

/// For each hit, the index of the snippet that made it.
pub open spec fn hit_sources(query: Seq<char>, snippets: Seq<SnippetView>) -> Seq<int>
    decreases snippets.len(),
{
    if snippets.len() == 0 {
        Seq::empty()
    } else {
        let earlier = hit_sources(query, snippets.drop_last());
        if snippet_hit(query, snippets.last()) is Some {
            earlier.push(snippets.len() - 1)
        } else {
            earlier
        }
    }
}

/// For each result of a search, the index of the snippet that it holds.
pub open spec fn search_sources(query: Seq<char>, snippets: Seq<SnippetView>) -> Seq<int> {
    rank_order(hits(query, snippets)).map_values(|k: int| hit_sources(query, snippets)[k])
}

/// The query matches the name, the description, the content or a tag of the
/// snippet.
pub open spec fn matches_some_field(query: Seq<char>, snippet: SnippetView) -> bool {
    ||| match_score(query, snippet.name) is Some
    ||| match_score(query, snippet.description) is Some
    ||| match_score(query, snippet.content) is Some
    ||| exists|t: int|
        0 <= t < snippet.tags.len() && match_score(query, #[trigger] snippet.tags[t]) is Some
}

/// Each result holds the snippet at its source, the sources differ, and
/// results of equal score stand in the order of their sources.
pub open spec fn in_order_of(
    results: Seq<ScoredView>,
    snippets: Seq<SnippetView>,
    sources: Seq<int>,
) -> bool {
    &&& sources.len() == results.len()
    &&& forall|k: int|
        0 <= k < results.len() ==> 0 <= #[trigger] sources[k] < snippets.len()
            && results[k].snippet == snippets[sources[k]]
    &&& forall|i: int, j: int|
        0 <= i < j < results.len() ==> sources[i] != sources[j] && (results[i].score
            == results[j].score ==> sources[i] < sources[j])
}

/// What a search returns: the hits of the query, ranked.
pub open spec fn search_results(query: Seq<char>, snippets: Seq<SnippetView>) -> Seq<ScoredView> {
    rank(hits(query, snippets))
}

/// Scores of at most 16 bits in each tag contribute at most three times that
/// for each tag.
proof fn lemma_tags_contribution_bound(scores: Seq<Option<u32>>)
    requires
        forall|k: int| 0 <= k < scores.len() && scores[k] is Some ==> scores[k]->0 <= u16::MAX,
    ensures
        tags_contribution(scores) <= scores.len() * (3 * u16::MAX),
    decreases scores.len(),
{
    if scores.len() > 0 {
        let front = scores.drop_last();
        assert forall|k: int| 0 <= k < front.len() && front[k] is Some implies front[k]->0
            <= u16::MAX by {
            assert(front[k] == scores[k]);
        }
        lemma_tags_contribution_bound(front);
        assert(scores.len() * (3 * u16::MAX) == front.len() * (3 * u16::MAX) + 3 * u16::MAX)
            by (nonlinear_arith)
            requires
                scores.len() == front.len() + 1,
        ;
    }
}

/// The aggregate score of a snippet within the limits fits in 32 bits.
proof fn lemma_aggregate_fits(query: Seq<char>, snippet: SnippetView)
    requires
        snippet.tags.len() <= MAX_TAGS,
    ensures
        aggregate_score(field_scores(query, snippet)) <= u32::MAX,
{
    let scores = field_scores(query, snippet);
    lemma_tags_contribution_bound(scores.tags);
    assert(scores.tags.len() * (3 * u16::MAX) <= MAX_TAGS * (3 * u16::MAX)) by (nonlinear_arith)
        requires
            scores.tags.len() <= MAX_TAGS,
    ;
}

/// A fuzzy searcher, which weighs a match by the field in which it is found.
pub struct FuzzySearcher {
    matcher: Matcher,
}

impl FuzzySearcher {
    /// The searcher is as [`FuzzySearcher::new`] makes it.
    pub closed spec fn ready(&self) -> bool {
        has_default_config(self.matcher)
    }

    pub fn new() -> (searcher: Self)
        ensures
            searcher.ready(),
    {
        let matcher = default_matcher();
        Self { matcher }
    }

    /// The score of the query in one text. The query is put in lower case
    /// first, as the matcher expects it.
    pub fn match_text(&mut self, query: &str, text: &str) -> (score: Option<u32>)
        requires
            old(self).ready(),
            matchable(query@, text@),
        ensures
            final(self).ready(),
            score == match_score(query@, text@),
    {
        if text.is_empty() || query.is_empty() {
            return None;
        }
        let folded = to_lowercase(query);
        if folded.as_str().is_empty() {
            return None;
        }
        match fuzzy_match(&mut self.matcher, text, folded.as_str()) {
            Some(score) => Some(score as u32),
            None => None,
        }
    }

    /// Matches the query against every field of the snippet and puts the
    /// scores together.
    pub fn search_in_snippet(&mut self, query: &str, snippet: &Snippet) -> (result: Option<
        ScoredSnippet,
    >)
        requires
            old(self).ready(),
            query@.len() > 0 ==> query_in_reach(query@) && snippet_in_reach(snippet@),
        ensures
            final(self).ready(),
            match result {
                Some(scored) => snippet_hit(query@, snippet@) == Some(scored@),
                None => snippet_hit(query@, snippet@) is None,
            },
            result is Some <==> matches_some_field(query@, snippet@),
    {
        proof {
            lemma_hit_needs_a_field(query@, snippet@);
        }
        if query.is_empty() {
            return None;
        }
        let name = self.match_text(query, &snippet.name);
        let description = self.match_text(query, &snippet.description);
        let content = self.match_text(query, &snippet.content);
        let mut tags: Vec<Option<u32>> = Vec::new();
        let mut i: usize = 0;
        while i < snippet.tags.len()
            invariant
                self.ready(),
                query_in_reach(query@),
                snippet_in_reach(snippet@),
                i <= snippet.tags.len(),
                tags.len() == i,
                forall|k: int| 0 <= k < i ==> tags[k] == match_score(query@, snippet@.tags[k]),
            decreases snippet.tags.len() - i,
        {
            assert(snippet@.tags[i as int] == snippet.tags[i as int]@);
            let score = self.match_text(query, &snippet.tags[i]);
            tags.push(score);
            i += 1;
        }
        let scores = FieldScores { name, description, content, tags };
        proof {
            assert(scores@.tags =~= field_scores(query@, snippet@).tags);
            assert(scores@ == field_scores(query@, snippet@));
            lemma_aggregate_fits(query@, snippet@);
        }
        assemble(snippet, &scores)
    }
}

impl Default for FuzzySearcher {
    fn default() -> (searcher: Self)
        ensures
            searcher.ready(),
    {
        Self::new()
    }
}

impl Searcher for FuzzySearcher {
    /// Searches with a matcher of its own, so that a search depends on
    /// nothing that an earlier one left behind.
    fn search(&self, query: &str, snippets: &[Snippet]) -> (results: Vec<ScoredSnippet>)
        ensures
            scored_views(results@) == search_results(query@, snippet_views(snippets@)),
            is_ranked(scored_views(results@)),
            query@.len() == 0 ==> results.len() == 0,
            forall|k: int|
                0 <= k < results.len() ==> matches_some_field(
                    query@,
                    (#[trigger] results[k])@.snippet,
                ),
            in_order_of(
                scored_views(results@),
                snippet_views(snippets@),
                search_sources(query@, snippet_views(snippets@)),
            ),
    {
        let mut searcher = FuzzySearcher::new();
        let mut results: Vec<ScoredSnippet> = Vec::new();
        let ghost views = snippet_views(snippets@);
        let mut i: usize = 0;
        assert(views.take(0) =~= Seq::<SnippetView>::empty());
        while i < snippets.len()
            invariant
                searcher.ready(),
                searchable(query@, views),
                views == snippet_views(snippets@),
                i <= snippets.len(),
                scored_views(results@) == hits(query@, views.take(i as int)),
            decreases snippets.len() - i,
        {
            proof {
                assert(views.take(i + 1).drop_last() =~= views.take(i as int));
                assert(views.take(i + 1).last() == snippets[i as int]@);
                assert(query@.len() > 0 ==> snippet_in_reach(views[i as int]));
            }
            let ghost before = scored_views(results@);
            if let Some(found) = searcher.search_in_snippet(query, &snippets[i]) {
                results.push(found);
                assert(scored_views(results@) =~= before.push(found@));
            }
            i += 1;
        }
        proof {
            assert(views.take(i as int) =~= views);
            lemma_rank_is_stable(hits(query@, views));
            lemma_search_is_ranked(query@, views);
            if query@.len() == 0 {
                lemma_empty_query_finds_nothing(query@, views);
            }
        }
        rank_hits(&mut results);
        proof {
            let ranked = scored_views(results@);
            let sources = search_sources(query@, views);
            assert forall|k: int| 0 <= k < results.len() implies matches_some_field(
                query@,
                (#[trigger] results[k])@.snippet,
            ) by {
                assert(ranked[k] == results[k]@);
                assert(sources.contains(sources[k]));
            }
        }
        results
    }
}

impl FuzzySearcher {
    /// Searches where the query and the snippets are searchable, and says
    /// where they are not: then nothing is matched.
    pub fn try_search(&self, query: &str, snippets: &[Snippet]) -> (outcome: Option<
        Vec<ScoredSnippet>,
    >)
        ensures
            outcome is Some <==> searchable(query@, snippet_views(snippets@)),
            outcome matches Some(results) ==> {
                &&& scored_views(results@) == search_results(query@, snippet_views(snippets@))
                &&& is_ranked(scored_views(results@))
                &&& in_order_of(
                    scored_views(results@),
                    snippet_views(snippets@),
                    search_sources(query@, snippet_views(snippets@)),
                )
                &&& forall|k: int|
                    0 <= k < results.len() ==> matches_some_field(
                        query@,
                        (#[trigger] results[k])@.snippet,
                    )
            },
    {
        if is_searchable(query, snippets) {
            Some(self.search(query, snippets))
        } else {
            None
        }
    }
}

/// A snippet makes a hit exactly where the query matches one of its fields.
pub proof fn lemma_hit_needs_a_field(query: Seq<char>, snippet: SnippetView)
    ensures
        snippet_hit(query, snippet) is Some <==> matches_some_field(query, snippet),
{
    let scores = field_scores(query, snippet);
    lemma_matched_tags(snippet.tags, scores.tags);
    if matches_some_field(query, snippet) {
        if exists|t: int|
            0 <= t < snippet.tags.len() && match_score(query, #[trigger] snippet.tags[t]) is Some {
            let t = choose|t: int|
                0 <= t < snippet.tags.len() && match_score(query, #[trigger] snippet.tags[t])
                    is Some;
            assert(scores.tags[t] is Some);
        }
    }
    if matched_tags(snippet.tags, scores.tags).len() > 0 {
        let k = choose|k: int| 0 <= k < scores.tags.len() && #[trigger] scores.tags[k] is Some;
        assert(match_score(query, snippet.tags[k]) is Some);
    }
}

/// The hits stand in the order of the snippets that made them, one for each
/// snippet that the query matches.
pub proof fn lemma_hits_follow_snippets(query: Seq<char>, snippets: Seq<SnippetView>)
    ensures
        hit_sources(query, snippets).len() == hits(query, snippets).len(),
        forall|k: int|
            0 <= k < hits(query, snippets).len() ==> 0 <= #[trigger] hit_sources(
                query,
                snippets,
            )[k] < snippets.len() && snippet_hit(
                query,
                snippets[hit_sources(query, snippets)[k]],
            ) == Some(hits(query, snippets)[k]),
        forall|a: int, b: int|
            0 <= a < b < hits(query, snippets).len() ==> hit_sources(query, snippets)[a]
                < hit_sources(query, snippets)[b],
        forall|n: int|
            0 <= n < snippets.len() && snippet_hit(query, snippets[n]) is Some
                ==> #[trigger] hit_sources(query, snippets).contains(n),
    decreases snippets.len(),
{
    if snippets.len() > 0 {
        let front = snippets.drop_last();
        lemma_hits_follow_snippets(query, front);
        let sources = hit_sources(query, snippets);
        let earlier = hit_sources(query, front);
        assert forall|k: int| 0 <= k < hits(query, snippets).len() implies 0
            <= #[trigger] sources[k] < snippets.len() && snippet_hit(query, snippets[sources[k]])
            == Some(hits(query, snippets)[k]) by {
            if k < earlier.len() {
                assert(sources[k] == earlier[k]);
                assert(front[earlier[k]] == snippets[earlier[k]]);
            }
        }
        assert forall|n: int|
            0 <= n < snippets.len() && snippet_hit(query, snippets[n])
                is Some implies #[trigger] sources.contains(n) by {
            if n < front.len() {
                assert(front[n] == snippets[n]);
                assert(earlier.contains(n));
                let k = choose|k: int| 0 <= k < earlier.len() && earlier[k] == n;
                assert(sources[k] == n);
            } else {
                assert(sources[sources.len() - 1] == n);
            }
        }
    }
}

/// The results of a search never rise in score, and results of equal score
/// stand in the order of their snippets. Each result is the hit of one
/// snippet and names at least one field, and each snippet that the query
/// matches in some field has exactly one result.
pub proof fn lemma_search_is_ranked(query: Seq<char>, snippets: Seq<SnippetView>)
    ensures
        search_sources(query, snippets).len() == search_results(query, snippets).len(),
        forall|k: int|
            0 <= k < search_results(query, snippets).len() ==> 0 <= #[trigger] search_sources(
                query,
                snippets,
            )[k] < snippets.len() && snippet_hit(
                query,
                snippets[search_sources(query, snippets)[k]],
            ) == Some(search_results(query, snippets)[k]) && search_results(
                query,
                snippets,
            )[k].snippet == snippets[search_sources(query, snippets)[k]],
        forall|i: int, j: int|
            0 <= i < j < search_results(query, snippets).len() ==> search_results(
                query,
                snippets,
            )[i].score > search_results(query, snippets)[j].score || (search_results(
                query,
                snippets,
            )[i].score == search_results(query, snippets)[j].score && search_sources(
                query,
                snippets,
            )[i] < search_sources(query, snippets)[j]),
        forall|n: int|
            0 <= n < snippets.len() ==> (#[trigger] search_sources(query, snippets).contains(n)
                <==> matches_some_field(query, snippets[n])),
        forall|k: int|
            0 <= k < search_results(query, snippets).len() ==> (#[trigger] search_results(
                query,
                snippets,
            )[k]).matched_fields.len() > 0,
{
    let found = hits(query, snippets);
    let origin = hit_sources(query, snippets);
    let order = rank_order(found);
    let results = search_results(query, snippets);
    let sources = search_sources(query, snippets);
    lemma_hits_follow_snippets(query, snippets);
    lemma_rank_is_stable(found);
    assert forall|k: int| 0 <= k < results.len() implies 0 <= #[trigger] sources[k]
        < snippets.len() && snippet_hit(query, snippets[sources[k]]) == Some(results[k])
        && results[k].snippet == snippets[sources[k]] by {
        assert(sources[k] == origin[order[k]]);
    }
    assert forall|i: int, j: int| 0 <= i < j < results.len() implies results[i].score
        > results[j].score || (results[i].score == results[j].score && sources[i]
        < sources[j]) by {
        assert(sources[i] == origin[order[i]]);
        assert(sources[j] == origin[order[j]]);
    }
    assert forall|n: int| 0 <= n < snippets.len() implies (#[trigger] sources.contains(n)
        <==> matches_some_field(query, snippets[n])) by {
        lemma_hit_needs_a_field(query, snippets[n]);
        if sources.contains(n) {
            let k = choose|k: int| 0 <= k < sources.len() && sources[k] == n;
            assert(snippet_hit(query, snippets[sources[k]]) == Some(results[k]));
        }
        if snippet_hit(query, snippets[n]) is Some {
            assert(origin.contains(n));
            let h = choose|h: int| 0 <= h < origin.len() && origin[h] == n;
            assert(order.contains(h));
            let k = choose|k: int| 0 <= k < order.len() && order[k] == h;
            assert(sources[k] == n);
        }
    }
}

/// A snippet in which the query matches no field is in no result.
pub proof fn lemma_unmatched_snippet_is_absent(
    query: Seq<char>,
    snippets: Seq<SnippetView>,
    n: int,
)
    requires
        0 <= n < snippets.len(),
        !matches_some_field(query, snippets[n]),
    ensures
        !search_sources(query, snippets).contains(n),
{
    lemma_search_is_ranked(query, snippets);
}

/// An empty query matches no text.
pub proof fn lemma_empty_query_finds_nothing(query: Seq<char>, snippets: Seq<SnippetView>)
    requires
        query.len() == 0,
    ensures
        search_results(query, snippets).len() == 0,
    decreases snippets.len(),
{
    if snippets.len() > 0 {
        lemma_empty_query_finds_nothing(query, snippets.drop_last());
        lemma_hit_needs_a_field(query, snippets.last());
    }
    lemma_rank_is_stable(hits(query, snippets));
    assert(hits(query, snippets).len() == 0);
}

} // verus!
