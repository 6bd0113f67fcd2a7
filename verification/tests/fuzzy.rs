use markit::models::Snippet;
use markit::search::fuzzy::FuzzySearcher;
use markit::search::{is_searchable, MatchedField, Searcher};

fn create_test_snippet(name: &str, description: &str, content: &str, tags: Vec<&str>) -> Snippet {
    Snippet {
        name: name.to_string(),
        description: description.to_string(),
        content: content.to_string(),
        executable: true,
        tags: tags.iter().map(|s| s.to_string()).collect(),
        created_at: 1_700_000_000,
        updated_at: 1_700_000_000,
    }
}

#[test]
fn test_search_by_name() {
    let snippets = vec![
        create_test_snippet("docker-clean", "Clean docker", "docker system prune", vec!["docker"]),
        create_test_snippet("git-commit", "Git commit", "git commit -m", vec!["git"]),
    ];

    let searcher = FuzzySearcher::new();
    assert!(is_searchable("docker", &snippets));
    let results = searcher.search("docker", &snippets);

    assert_eq!(results.len(), 1);
    assert_eq!(results[0].snippet.name, "docker-clean");
    assert!(results[0].matched_fields.contains(&MatchedField::Name));
}

#[test]
fn test_search_by_tag() {
    let snippets = vec![
        create_test_snippet("cmd1", "Desc1", "content1", vec!["docker", "cleanup"]),
        create_test_snippet("cmd2", "Desc2", "content2", vec!["git"]),
    ];

    let searcher = FuzzySearcher::new();
    let results = searcher.search("docker", &snippets);

    assert_eq!(results.len(), 1);
    assert_eq!(results[0].snippet.name, "cmd1");
    assert!(results[0]
        .matched_fields
        .iter()
        .any(|f| matches!(f, MatchedField::Tag(t) if t == "docker")));
}

#[test]
fn test_search_multiple_matches() {
    let snippets = vec![
        create_test_snippet("docker-clean", "Clean docker", "docker system prune", vec!["docker"]),
        create_test_snippet("docker-build", "Build docker", "docker build", vec!["docker"]),
        create_test_snippet("git-commit", "Git commit", "git commit", vec!["git"]),
    ];

    let searcher = FuzzySearcher::new();
    let results = searcher.search("docker", &snippets);

    assert_eq!(results.len(), 2);
    assert!(results[0].score >= results[1].score);
}

#[test]
fn test_search_no_matches() {
    let snippets = vec![create_test_snippet("test", "test", "test", vec!["test"])];

    let searcher = FuzzySearcher::new();
    let results = searcher.search("nonexistent", &snippets);

    assert_eq!(results.len(), 0);
}

#[test]
fn test_search_empty_query() {
    let snippets = vec![create_test_snippet("test", "test", "test", vec![])];

    let searcher = FuzzySearcher::new();
    let results = searcher.search("", &snippets);

    assert_eq!(results.len(), 0);
}

#[test]
fn test_search_case_insensitive() {
    let snippets = vec![create_test_snippet("Docker-Clean", "Clean", "docker prune", vec![])];

    let searcher = FuzzySearcher::new();
    let results = searcher.search("docker", &snippets);

    assert_eq!(results.len(), 1);
}

#[test]
fn test_search_partial_match() {
    let snippets = vec![create_test_snippet("docker-cleanup-system", "Clean", "prune", vec![])];

    let searcher = FuzzySearcher::new();
    let results = searcher.search("clean", &snippets);

    assert_eq!(results.len(), 1);
    assert_eq!(results[0].snippet.name, "docker-cleanup-system");
}

#[test]
fn match_text_is_none_for_an_empty_query_or_text() {
    let mut searcher = FuzzySearcher::new();
    assert_eq!(searcher.match_text("", "docker"), None);
    assert_eq!(searcher.match_text("docker", ""), None);
    assert_eq!(searcher.match_text("", ""), None);
}

#[test]
fn match_text_looks_for_the_query_in_the_text() {
    let mut searcher = FuzzySearcher::new();
    assert!(searcher.match_text("dock", "docker").is_some());
    assert_eq!(searcher.match_text("docker", "dock"), None);
    assert!(searcher.match_text("dkr", "docker").is_some());
    assert_eq!(searcher.match_text("rkd", "docker"), None);
}

#[test]
fn match_text_gives_the_same_score_each_time() {
    let mut searcher = FuzzySearcher::new();
    let first = searcher.match_text("clean", "docker-cleanup-system");
    let _ = searcher.match_text("system", "some other text about a system");
    let second = searcher.match_text("clean", "docker-cleanup-system");
    let mut fresh = FuzzySearcher::new();
    assert!(first.is_some());
    assert_eq!(first, second);
    assert_eq!(first, fresh.match_text("clean", "docker-cleanup-system"));
}

#[test]
fn match_text_scores_a_whole_word() {
    let mut searcher = FuzzySearcher::new();
    assert_eq!(searcher.match_text("docker", "docker"), Some(166));
}

#[test]
fn match_text_prefers_the_closer_match() {
    let mut searcher = FuzzySearcher::new();
    let close = searcher.match_text("git", "git-commit").unwrap();
    let spread = searcher.match_text("git", "go into it").unwrap();
    assert!(close > spread);
}

#[test]
fn search_weighs_each_field() {
    let snippet = create_test_snippet(
        "docker-clean",
        "Clean docker",
        "docker system prune",
        vec!["docker", "ops", "dockerfile"],
    );
    let mut searcher = FuzzySearcher::new();
    let name = searcher.match_text("docker", &snippet.name).unwrap();
    let description = searcher.match_text("docker", &snippet.description).unwrap();
    let content = searcher.match_text("docker", &snippet.content).unwrap();
    let first_tag = searcher.match_text("docker", "docker").unwrap();
    let third_tag = searcher.match_text("docker", "dockerfile").unwrap();
    assert_eq!(searcher.match_text("docker", "ops"), None);

    let results = searcher.search("docker", std::slice::from_ref(&snippet));
    assert_eq!(results.len(), 1);
    assert_eq!(
        results[0].score,
        4 * name + 2 * description + content + 3 * first_tag + 3 * third_tag
    );
    assert_eq!(
        results[0].matched_fields,
        vec![
            MatchedField::Name,
            MatchedField::Description,
            MatchedField::Content,
            MatchedField::Tag("docker".to_string()),
            MatchedField::Tag("dockerfile".to_string()),
        ]
    );
}

#[test]
fn search_in_snippet_drops_a_snippet_without_a_match() {
    let snippet = create_test_snippet("git-commit", "Git commit", "git commit -m", vec!["git"]);
    let mut searcher = FuzzySearcher::new();
    assert!(searcher.search_in_snippet("docker", &snippet).is_none());
    let found = searcher.search_in_snippet("commit", &snippet).unwrap();
    assert_eq!(found.snippet.name, "git-commit");
    assert!(found.score > 0);
    assert_eq!(
        found.matched_fields,
        vec![MatchedField::Name, MatchedField::Description, MatchedField::Content]
    );
}

#[test]
fn search_of_an_empty_query_is_empty_for_any_store() {
    let searcher = FuzzySearcher::new();
    assert!(searcher.search("", &[]).is_empty());
    let snippets = vec![
        create_test_snippet("", "", "", vec![""]),
        create_test_snippet("docker-clean", "Clean docker", "docker system prune", vec!["docker"]),
    ];
    assert!(searcher.search("", &snippets).is_empty());
}

#[test]
fn search_ranks_by_score_and_keeps_the_order_of_equals() {
    let snippets = vec![
        create_test_snippet("first", "has docker inside", "", vec![]),
        create_test_snippet("docker", "", "", vec![]),
        create_test_snippet("second", "has docker inside", "", vec![]),
        create_test_snippet("third", "has docker inside", "", vec![]),
        create_test_snippet("none", "nothing", "", vec![]),
    ];
    let searcher = FuzzySearcher::new();
    let results = searcher.search("docker", &snippets);
    let names: Vec<&str> = results.iter().map(|r| r.snippet.name.as_str()).collect();
    assert_eq!(names, vec!["docker", "first", "second", "third"]);
    assert!(results[0].score > results[1].score);
    assert_eq!(results[1].score, results[2].score);
    assert_eq!(results[2].score, results[3].score);
}

#[test]
fn search_results_name_both_the_name_and_the_tag() {
    let snippets = vec![
        create_test_snippet("docker-clean", "", "", vec!["docker"]),
        create_test_snippet("git-commit", "", "", vec!["git"]),
    ];
    let searcher = FuzzySearcher::default();
    let results = searcher.search("docker", &snippets);
    assert_eq!(results.len(), 1);
    assert_eq!(results[0].snippet.name, "docker-clean");
    assert!(results[0].matched_fields.contains(&MatchedField::Name));
    assert!(results[0].matched_fields.contains(&MatchedField::Tag("docker".to_string())));
}

#[test]
fn search_finds_both_docker_snippets_best_first() {
    let snippets = vec![
        create_test_snippet("docker-clean", "", "", vec![]),
        create_test_snippet("docker-build", "", "", vec![]),
        create_test_snippet("git-commit", "", "", vec![]),
    ];
    let searcher = FuzzySearcher::new();
    let results = searcher.search("docker", &snippets);
    assert_eq!(results.len(), 2);
    assert!(results.iter().all(|r| r.snippet.name.starts_with("docker")));
    assert!(results[0].score >= results[1].score);
}

#[test]
fn match_text_takes_a_query_in_capitals() {
    let mut searcher = FuzzySearcher::new();
    let lower = searcher.match_text("docker", "docker-clean");
    assert!(lower.is_some());
    assert_eq!(searcher.match_text("DOCKER", "docker-clean"), lower);
    assert_eq!(searcher.match_text("Docker", "docker-clean"), lower);
    assert_eq!(searcher.match_text("DOCKER", "docker"), Some(166));
    assert!(searcher.match_text("DC", "Docker-Clean").is_some());
    assert_eq!(
        searcher.match_text("DC", "Docker-Clean"),
        searcher.match_text("dc", "Docker-Clean")
    );
    assert_eq!(searcher.match_text("DC", "clean-up"), None);
    let capitals = "ABCDEFGHIJKLMNOPQRSTUVWXY";
    let inside = format!("x{}z", capitals);
    assert!(searcher.match_text(capitals, &inside).unwrap() > 0);
}

#[test]
fn search_takes_a_query_in_capitals() {
    let snippets = vec![
        create_test_snippet("docker-clean", "Clean docker", "docker system prune", vec!["docker"]),
        create_test_snippet("git-commit", "Git commit", "git commit -m", vec!["git"]),
    ];
    let searcher = FuzzySearcher::new();
    let lower = searcher.search("docker", &snippets);
    let upper = searcher.search("DOCKER", &snippets);
    assert_eq!(upper.len(), 1);
    assert_eq!(upper[0].snippet.name, "docker-clean");
    assert_eq!(upper[0].score, lower[0].score);
    assert_eq!(upper[0].matched_fields, lower[0].matched_fields);
}

#[test]
fn is_searchable_accepts_ordinary_input_and_refuses_a_long_query() {
    let snippets = vec![create_test_snippet("test", "test", "test", vec!["test"])];
    assert!(is_searchable("docker", &snippets));
    assert!(is_searchable(&"q".repeat(2520), &snippets));
    assert!(!is_searchable(&"q".repeat(2521), &snippets));
    assert!(is_searchable(&"Q".repeat(2520), &snippets));
    assert!(!is_searchable(&"Q".repeat(2521), &snippets));
    assert!(is_searchable(&"q".repeat(2521), &[]));
    assert!(is_searchable("", &snippets));
    let crowded = create_test_snippet("many", "", "", vec!["t"; 21844]);
    assert!(!is_searchable("docker", std::slice::from_ref(&crowded)));
    assert!(is_searchable("", std::slice::from_ref(&crowded)));
    assert!(FuzzySearcher::new().search("", std::slice::from_ref(&crowded)).is_empty());
    assert!(FuzzySearcher::new().search(&"q".repeat(3000), &[]).is_empty());
    let full = create_test_snippet("many", "", "", vec!["t"; 21843]);
    assert!(is_searchable("docker", std::slice::from_ref(&full)));
}

#[test]
fn try_search_searches_within_the_limits_only() {
    let snippets = vec![
        create_test_snippet("docker-clean", "Clean docker", "docker system prune", vec!["docker"]),
        create_test_snippet("git-commit", "Git commit", "git commit -m", vec!["git"]),
    ];
    let searcher = FuzzySearcher::new();
    let found = searcher.try_search("Docker", &snippets).unwrap();
    assert_eq!(found.len(), 1);
    assert_eq!(found[0].snippet.name, "docker-clean");
    assert_eq!(found[0].score, searcher.search("docker", &snippets)[0].score);
    assert_eq!(searcher.try_search("", &snippets).unwrap().len(), 0);
    assert_eq!(searcher.try_search("nonexistent", &snippets).unwrap().len(), 0);
    assert!(searcher.try_search(&"q".repeat(2521), &snippets).is_none());
    assert_eq!(searcher.try_search(&"q".repeat(2521), &[]).unwrap().len(), 0);
    assert_eq!(searcher.try_search(&"q".repeat(2520), &snippets).unwrap().len(), 0);
}
