use markit::models::Snippet;
use markit::search::ranking::rank_hits;
use markit::search::scoring::{assemble, FieldScores};
use markit::search::{MatchedField, ScoredSnippet};

fn snippet(name: &str, tags: Vec<&str>) -> Snippet {
    Snippet {
        name: name.to_string(),
        description: String::new(),
        content: String::new(),
        executable: false,
        tags: tags.iter().map(|s| s.to_string()).collect(),
        created_at: 0,
        updated_at: 0,
    }
}

fn scored(name: &str, score: u32) -> ScoredSnippet {
    ScoredSnippet::new(snippet(name, vec![]), score, vec![MatchedField::Name])
}

fn names(hits: &[ScoredSnippet]) -> Vec<&str> {
    hits.iter().map(|h| h.snippet.name.as_str()).collect()
}

#[test]
fn scored_snippet_new_keeps_its_parts() {
    let made = ScoredSnippet::new(snippet("a", vec!["x"]), 7, vec![MatchedField::Content]);
    assert_eq!(made.snippet.name, "a");
    assert_eq!(made.snippet.tags, vec!["x".to_string()]);
    assert_eq!(made.score, 7);
    assert_eq!(made.matched_fields, vec![MatchedField::Content]);
}

#[test]
fn assemble_weighs_name_four_description_two_content_one_tag_three() {
    let subject = snippet("a", vec!["x", "y", "z"]);
    let scores = FieldScores {
        name: Some(10),
        description: Some(100),
        content: Some(1000),
        tags: vec![Some(2), None, Some(1)],
    };
    let hit = assemble(&subject, &scores).unwrap();
    assert_eq!(hit.score, 4 * 10 + 2 * 100 + 1000 + 3 * 2 + 3 * 1);
    assert_eq!(hit.score, 1249);
    assert_eq!(
        hit.matched_fields,
        vec![
            MatchedField::Name,
            MatchedField::Description,
            MatchedField::Content,
            MatchedField::Tag("x".to_string()),
            MatchedField::Tag("z".to_string()),
        ]
    );
    assert_eq!(hit.snippet.name, "a");
    assert_eq!(hit.snippet.tags.len(), 3);
}

#[test]
fn assemble_counts_each_matching_tag() {
    let subject = snippet("a", vec!["x", "x"]);
    let scores =
        FieldScores { name: None, description: None, content: None, tags: vec![Some(5), Some(5)] };
    let hit = assemble(&subject, &scores).unwrap();
    assert_eq!(hit.score, 30);
    assert_eq!(
        hit.matched_fields,
        vec![MatchedField::Tag("x".to_string()), MatchedField::Tag("x".to_string())]
    );
}

#[test]
fn assemble_gives_nothing_without_a_match() {
    let subject = snippet("a", vec!["x"]);
    let scores = FieldScores { name: None, description: None, content: None, tags: vec![None] };
    assert!(assemble(&subject, &scores).is_none());
}

#[test]
fn assemble_keeps_a_match_that_scores_zero() {
    let subject = snippet("a", vec![]);
    let scores = FieldScores { name: None, description: Some(0), content: None, tags: vec![] };
    let hit = assemble(&subject, &scores).unwrap();
    assert_eq!(hit.score, 0);
    assert_eq!(hit.matched_fields, vec![MatchedField::Description]);
}

#[test]
fn assemble_reaches_the_largest_score() {
    let subject = snippet("a", vec![]);
    let scores =
        FieldScores { name: None, description: None, content: Some(u32::MAX), tags: vec![] };
    assert_eq!(assemble(&subject, &scores).unwrap().score, u32::MAX);
}

#[test]
fn rank_hits_sorts_by_descending_score() {
    let mut hits = vec![scored("low", 1), scored("high", 9), scored("mid", 5)];
    rank_hits(&mut hits);
    assert_eq!(names(&hits), vec!["high", "mid", "low"]);
}

#[test]
fn rank_hits_keeps_equal_scores_in_their_order() {
    let mut hits = vec![
        scored("a", 3),
        scored("b", 7),
        scored("c", 3),
        scored("d", 7),
        scored("e", 3),
        scored("f", 8),
    ];
    rank_hits(&mut hits);
    assert_eq!(names(&hits), vec!["f", "b", "d", "a", "c", "e"]);
}

#[test]
fn rank_hits_leaves_an_empty_and_a_single_list() {
    let mut none: Vec<ScoredSnippet> = vec![];
    rank_hits(&mut none);
    assert!(none.is_empty());
    let mut one = vec![scored("only", 4)];
    rank_hits(&mut one);
    assert_eq!(names(&one), vec!["only"]);
}
