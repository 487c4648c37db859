use fdnix_search::error::SearchError;
use fdnix_search::fulltext::{
    assign_fallback_scores, full_text_step, goes_before, is_name_match, is_substring_match,
    rank_fallback, start_full_text, synthetic_score, FullTextAction, FullTextEvent, FullTextState,
};
use fdnix_search::fusion::insert_by_score;
use fdnix_search::package::{Package, SearchResults};
use fdnix_search::score::Score;

fn record(id: &str, num: i64) -> Package {
    Package::new(id.to_string(), id.to_string()).with_score(Score { num, den: 10 })
}

fn returned(action: FullTextAction) -> SearchResults {
    match action {
        FullTextAction::Return(results) => results,
        other => panic!("expected results, got {:?}", other),
    }
}

#[test]
fn fallback_scores_fall_by_a_tenth_per_rank() {
    assert_eq!(synthetic_score(0), Score { num: 10, den: 10 });
    assert_eq!(synthetic_score(1), Score { num: 9, den: 10 });
    assert_eq!(synthetic_score(10), Score { num: 0, den: 10 });
    assert_eq!(synthetic_score(25), Score { num: -15, den: 10 });
}

#[test]
fn fallback_scores_are_strictly_descending() {
    let rows: Vec<Package> = (0..40).map(|i| record(&format!("pkg-{}", i), 5)).collect();
    let scored = assign_fallback_scores(&rows);
    assert_eq!(scored.len(), 40);
    for (i, p) in scored.iter().enumerate() {
        assert_eq!(p.package_id, format!("pkg-{}", i));
        let expected = 1.0 - 0.1 * i as f64;
        let got = p.relevance_score.num as f64 / p.relevance_score.den as f64;
        assert!((got - expected).abs() < 1e-12);
    }
    for pair in scored.windows(2) {
        assert!(pair[1].relevance_score.less_than(&pair[0].relevance_score));
        assert!(!pair[1].relevance_score.same_value(&pair[0].relevance_score));
    }
}

#[test]
fn fallback_order_survives_a_sort_by_score() {
    let rows: Vec<Package> = (0..15).map(|i| record(&format!("pkg-{}", i), 7)).collect();
    let scored = assign_fallback_scores(&rows);
    let mut ranked: Vec<Package> = Vec::new();
    for p in scored.iter().rev() {
        insert_by_score(&mut ranked, p.clone());
    }
    assert_eq!(ranked, scored);
}

#[test]
fn adapter_empty_query_returns_no_rows() {
    let (state, action) = full_text_step(FullTextState::Ready, FullTextEvent::Query(String::new()));
    assert_eq!(state, FullTextState::Finished);
    let results = returned(action);
    assert!(results.packages.is_empty());
    assert_eq!(results.total_count, 0);
    assert_eq!(results.search_type, "fts");
}

#[test]
fn adapter_index_answer_is_returned_as_it_is() {
    let (state, action) =
        full_text_step(FullTextState::Ready, FullTextEvent::Query("nodejs".to_string()));
    assert_eq!(state, FullTextState::AwaitingIndex { query: "nodejs".to_string() });
    assert_eq!(action, FullTextAction::SearchIndex { query: "nodejs".to_string() });
    let rows = vec![record("nodejs-18", 93), record("nodejs-20", 71)];
    let (state, action) = full_text_step(state, FullTextEvent::Rows(rows.clone()));
    assert_eq!(state, FullTextState::Finished);
    let results = returned(action);
    assert_eq!(results.packages, rows);
    assert_eq!(results.total_count, 2);
    assert_eq!(results.query_time_ms, 0);
    assert_eq!(results.search_type, "fts");
}

fn described(name: &str, description: &str) -> Package {
    let mut package = Package::new(format!("id-{}", name), name.to_string());
    package.description = description.to_string();
    package
}

#[test]
fn adapter_falls_back_when_the_index_fails() {
    let (state, _) = full_text_step(FullTextState::Ready, FullTextEvent::Query("Node".to_string()));
    let (state, action) =
        full_text_step(state, FullTextEvent::Failure("syntax error near OR".to_string()));
    assert_eq!(state, FullTextState::AwaitingSubstring { query: "Node".to_string() });
    assert_eq!(action, FullTextAction::SearchSubstring { query: "Node".to_string() });
    let rows = vec![
        described("zeta", "bindings for NODE"),
        described("nodejs", "a runtime"),
        described("unrelated", "nothing to see"),
        described("node-gyp", "build tool"),
        described("anode", "an electrode"),
    ];
    let (state, action) = full_text_step(state, FullTextEvent::Rows(rows));
    assert_eq!(state, FullTextState::Finished);
    let results = returned(action);
    assert_eq!(results.search_type, "fallback");
    assert_eq!(results.total_count, 4);
    let got: Vec<(String, Score)> =
        results.packages.iter().map(|p| (p.package_name.clone(), p.relevance_score)).collect();
    assert_eq!(
        got,
        vec![
            ("anode".to_string(), Score { num: 10, den: 10 }),
            ("node-gyp".to_string(), Score { num: 9, den: 10 }),
            ("nodejs".to_string(), Score { num: 8, den: 10 }),
            ("zeta".to_string(), Score { num: 7, den: 10 }),
        ]
    );
}

#[test]
fn fallback_puts_name_matches_first_then_orders_by_name() {
    let rows = vec![
        described("b-tool", "uses rust"),
        described("rustc", "compiler"),
        described("a-tool", "written in Rust"),
        described("Rust-analyzer", "language server"),
        described("cargo", "package manager"),
        described("rustc", "compiler, again"),
    ];
    let answer = rank_fallback(rows, "rust");
    let got: Vec<(&str, &str)> =
        answer.iter().map(|p| (p.package_name.as_str(), p.description.as_str())).collect();
    assert_eq!(
        got,
        vec![
            ("Rust-analyzer", "language server"),
            ("rustc", "compiler"),
            ("rustc", "compiler, again"),
            ("a-tool", "written in Rust"),
            ("b-tool", "uses rust"),
        ]
    );
    for pair in answer.windows(2) {
        assert!(pair[1].relevance_score.less_than(&pair[0].relevance_score));
    }
    for record in &answer {
        assert!(is_substring_match(record, "rust"));
    }
    assert!(is_name_match(&answer[0], "rust"));
    assert!(!is_name_match(&answer[3], "rust"));
    assert!(goes_before(&answer[0], &answer[1], "rust"));
    assert!(!goes_before(&answer[1], &answer[2], "rust"));
    assert!(!goes_before(&answer[2], &answer[1], "rust"));
    assert!(goes_before(&answer[2], &answer[3], "rust"));
}

#[test]
fn fallback_with_the_rows_in_order_keeps_them() {
    let rows = vec![described("alpha", "x"), described("alphabet", "x"), described("beta", "alpha")];
    let answer = rank_fallback(rows.clone(), "alpha");
    let names: Vec<&str> = answer.iter().map(|p| p.package_name.as_str()).collect();
    assert_eq!(names, vec!["alpha", "alphabet", "beta"]);
    assert!(rank_fallback(rows, "gamma").is_empty());
    assert!(rank_fallback(Vec::new(), "alpha").is_empty());
}

#[test]
fn index_rows_are_ranked_by_score() {
    let state = FullTextState::AwaitingIndex { query: "q".to_string() };
    let rows = vec![record("low", 10), record("high", 90), record("mid", 50), record("also-mid", 50)];
    let (_, action) = full_text_step(state, FullTextEvent::Rows(rows));
    let results = returned(action);
    let ids: Vec<&str> = results.packages.iter().map(|p| p.package_id.as_str()).collect();
    assert_eq!(ids, vec!["high", "mid", "also-mid", "low"]);
    assert_eq!(results.total_count, 4);
}

#[test]
fn adapter_fails_only_when_the_fallback_fails_too() {
    let state = FullTextState::AwaitingSubstring { query: "q".to_string() };
    let (state, action) = full_text_step(state, FullTextEvent::Failure("disk gone".to_string()));
    assert_eq!(state, FullTextState::Finished);
    assert_eq!(action, FullTextAction::Fail(SearchError::QueryFailed("disk gone".to_string())));
}

#[test]
fn adapter_fallback_with_no_matches_is_empty_not_an_error() {
    let state = FullTextState::AwaitingSubstring { query: "q".to_string() };
    let (_, action) = full_text_step(state, FullTextEvent::Rows(Vec::new()));
    let results = returned(action);
    assert!(results.packages.is_empty());
    assert_eq!(results.search_type, "fallback");
}

#[test]
fn adapter_refuses_events_it_does_not_wait_for() {
    let unexpected = FullTextAction::Fail(SearchError::QueryFailed("unexpected event".to_string()));
    let cases = vec![
        (FullTextState::Ready, FullTextEvent::Rows(Vec::new())),
        (FullTextState::Ready, FullTextEvent::Failure("x".to_string())),
        (FullTextState::Finished, FullTextEvent::Query("q".to_string())),
        (FullTextState::Finished, FullTextEvent::Rows(Vec::new())),
        (FullTextState::AwaitingIndex { query: "q".to_string() }, FullTextEvent::Query("r".to_string())),
        (FullTextState::AwaitingSubstring { query: "q".to_string() }, FullTextEvent::Query("r".to_string())),
    ];
    for (state, event) in cases {
        let (next, action) = full_text_step(state, event);
        assert_eq!(next, FullTextState::Finished);
        assert_eq!(action, unexpected);
    }
}

#[test]
fn adapter_needs_a_connection() {
    let (state, action) = start_full_text(false, "nodejs".to_string());
    assert_eq!(state, FullTextState::Finished);
    assert_eq!(action, FullTextAction::Fail(SearchError::NotInitialized));
    let (state, action) = start_full_text(true, "nodejs".to_string());
    assert_eq!(state, FullTextState::AwaitingIndex { query: "nodejs".to_string() });
    assert_eq!(action, FullTextAction::SearchIndex { query: "nodejs".to_string() });
    let (state, action) = start_full_text(true, String::new());
    assert_eq!(state, FullTextState::Finished);
    assert!(returned(action).packages.is_empty());
}
