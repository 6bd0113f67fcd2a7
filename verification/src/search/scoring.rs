//! How the scores of the single fields of a snippet add up to one hit.

use vstd::prelude::*;
use crate::models::{Snippet, SnippetView};
use crate::search::{field_views, MatchedField, MatchedFieldView, ScoredSnippet, ScoredView};

verus! {

/// Weight of a match in the name.
pub const NAME_WEIGHT: u32 = 4;

/// Weight of a match in one tag.
pub const TAG_WEIGHT: u32 = 3;

/// Weight of a match in the description.
pub const DESCRIPTION_WEIGHT: u32 = 2;

/// Weight of a match in the content.
pub const CONTENT_WEIGHT: u32 = 1;

/// The scores that the match primitive gave to the fields of one snippet:
/// `None` where a field did not match.
#[derive(Debug, Clone)]
pub struct FieldScores {
    pub name: Option<u32>,
    pub description: Option<u32>,
    pub content: Option<u32>,
    /// One entry per tag, in the order of the snippet's tags.
    pub tags: Vec<Option<u32>>,
}

/// [`FieldScores`] as a mathematical value.
pub ghost struct FieldScoresView {
    pub name: Option<u32>,
    pub description: Option<u32>,
    pub content: Option<u32>,
    pub tags: Seq<Option<u32>>,
}

impl View for FieldScores {
    type V = FieldScoresView;

    open spec fn view(&self) -> FieldScoresView {
        FieldScoresView {
            name: self.name,
            description: self.description,
            content: self.content,
            tags: self.tags@,
        }
    }
}

/// What a field contributes to the aggregate score.
pub open spec fn contribution(score: Option<u32>, weight: nat) -> nat {
    match score {
        Some(s) => s as nat * weight,
        None => 0,
    }
}

/// What the tags contribute together.
pub open spec fn tags_contribution(scores: Seq<Option<u32>>) -> nat
    decreases scores.len(),
{
    if scores.len() == 0 {
        0
    } else {
        tags_contribution(scores.drop_last()) + contribution(scores.last(), TAG_WEIGHT as nat)
    }
}

/// The aggregate score: each field's score times the field's weight.
pub open spec fn aggregate_score(scores: FieldScoresView) -> nat {
    contribution(scores.name, NAME_WEIGHT as nat)
        + contribution(scores.description, DESCRIPTION_WEIGHT as nat)
        + contribution(scores.content, CONTENT_WEIGHT as nat)
        + tags_contribution(scores.tags)
}

/// The tags that matched, in the order of the snippet's tags.
pub open spec fn matched_tags(tags: Seq<Seq<char>>, scores: Seq<Option<u32>>) -> Seq<
    MatchedFieldView,
>
    decreases scores.len(),
{
    if scores.len() == 0 {
        Seq::empty()
    } else {
        let earlier = matched_tags(tags.drop_last(), scores.drop_last());
        if scores.last() is Some {
            earlier.push(MatchedFieldView::Tag(tags.last()))
        } else {
            earlier
        }
    }
}

/// The field that is listed for a score, if it is one.
pub open spec fn listed(score: Option<u32>, field: MatchedFieldView) -> Seq<MatchedFieldView> {
    if score is Some {
        seq![field]
    } else {
        Seq::empty()
    }
}

/// The fields that matched: name, description, content, then the tags.
pub open spec fn matched_fields(tags: Seq<Seq<char>>, scores: FieldScoresView) -> Seq<
    MatchedFieldView,
> {
    listed(scores.name, MatchedFieldView::Name)
        + listed(scores.description, MatchedFieldView::Description)
        + listed(scores.content, MatchedFieldView::Content)
        + matched_tags(tags, scores.tags)
}

/// The hit that a snippet makes with the given field scores: none where no
/// field matched.
pub open spec fn hit(snippet: SnippetView, scores: FieldScoresView) -> Option<ScoredView> {
    let fields = matched_fields(snippet.tags, scores);
    if fields.len() == 0 {
        None
    } else {
        Some(ScoredView { snippet, score: aggregate_score(scores), matched_fields: fields })
    }
}

/// A tag is listed exactly where some tag has a score.
pub proof fn lemma_matched_tags(tags: Seq<Seq<char>>, scores: Seq<Option<u32>>)
    ensures
        matched_tags(tags, scores).len() <= scores.len(),
        matched_tags(tags, scores).len() > 0 <==> exists|k: int|
            0 <= k < scores.len() && #[trigger] scores[k] is Some,
    decreases scores.len(),
{
    if scores.len() > 0 {
        let front = scores.drop_last();
        lemma_matched_tags(tags.drop_last(), front);
        if matched_tags(tags.drop_last(), front).len() > 0 {
            let k = choose|k: int| 0 <= k < front.len() && #[trigger] front[k] is Some;
            assert(scores[k] is Some);
        }
        if exists|k: int| 0 <= k < scores.len() && #[trigger] scores[k] is Some {
            let k = choose|k: int| 0 <= k < scores.len() && #[trigger] scores[k] is Some;
            if k < front.len() {
                assert(front[k] is Some);
            }
        }
    }
}

/// The tags' contribution grows with every further tag.
pub proof fn lemma_tags_contribution_grows(scores: Seq<Option<u32>>, n: int)
    requires
        0 <= n <= scores.len(),
    ensures
        tags_contribution(scores.take(n)) <= tags_contribution(scores),
    decreases scores.len(),
{
    if n == scores.len() {
        assert(scores.take(n) =~= scores);
    } else {
        assert(scores.drop_last().take(n) =~= scores.take(n));
        lemma_tags_contribution_grows(scores.drop_last(), n);
    }
}

/// Puts the field scores of a snippet together: the weighted sum and the list
/// of the fields that matched, or nothing where no field matched.
pub fn assemble(snippet: &Snippet, scores: &FieldScores) -> (result: Option<ScoredSnippet>)
    requires
        scores.tags.len() == snippet.tags.len(),
        aggregate_score(scores@) <= u32::MAX,
    ensures
        match result {
            Some(scored) => hit(snippet@, scores@) == Some(scored@),
            None => hit(snippet@, scores@) is None,
        },
{
    let mut total: u32 = 0;
    let mut fields: Vec<MatchedField> = Vec::new();
    proof {
        lemma_tags_contribution_grows(scores.tags@, 0);
    }
    if let Some(score) = scores.name {
        total = total + score * NAME_WEIGHT;
        fields.push(MatchedField::Name);
    }
    if let Some(score) = scores.description {
        total = total + score * DESCRIPTION_WEIGHT;
        fields.push(MatchedField::Description);
    }
    if let Some(score) = scores.content {
        total = total + score;
        fields.push(MatchedField::Content);
    }
    let ghost head = field_views(fields@);
    let ghost base = total as nat;
    assert(head =~= listed(scores.name, MatchedFieldView::Name) + listed(
        scores.description,
        MatchedFieldView::Description,
    ) + listed(scores.content, MatchedFieldView::Content));
    let mut i: usize = 0;
    assert(scores.tags@.take(0) =~= Seq::<Option<u32>>::empty());
    assert(snippet@.tags.take(0) =~= Seq::<Seq<char>>::empty());
    while i < snippet.tags.len()
        invariant
            i <= snippet.tags.len(),
            scores.tags.len() == snippet.tags.len(),
            aggregate_score(scores@) == base + tags_contribution(scores.tags@),
            aggregate_score(scores@) <= u32::MAX,
            total == base + tags_contribution(scores.tags@.take(i as int)),
            field_views(fields@) =~= head + matched_tags(
                snippet@.tags.take(i as int),
                scores.tags@.take(i as int),
            ),
        decreases snippet.tags.len() - i,
    {
        proof {
            lemma_tags_contribution_grows(scores.tags@, i + 1);
            assert(scores.tags@.take(i + 1).drop_last() =~= scores.tags@.take(i as int));
            assert(snippet@.tags.take(i + 1).drop_last() =~= snippet@.tags.take(i as int));
        }
        let ghost listed_before = field_views(fields@);
        if let Some(score) = scores.tags[i] {
            total = total + score * TAG_WEIGHT;
            fields.push(MatchedField::Tag(snippet.tags[i].clone()));
            assert(field_views(fields@) =~= listed_before.push(
                MatchedFieldView::Tag(snippet@.tags[i as int]),
            ));
        }
        i += 1;
    }
    proof {
        assert(scores.tags@.take(i as int) =~= scores.tags@);
        assert(snippet@.tags.take(i as int) =~= snippet@.tags);
    }
    if fields.len() > 0 {
        Some(ScoredSnippet::new(snippet.clone(), total, fields))
    } else {
        None
    }
}

} // verus!
