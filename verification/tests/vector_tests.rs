use fdnix_search::error::SearchError;
use fdnix_search::score::Score;
use fdnix_search::vector::{
    all_hold_distances, batches_to_packages, choose_score_column, finish_vector_search,
    similarity_from_distance, vector_search_applies, ColumnWidth, RowBatch, ScoreColumn,
    ScoreKind, ScoreSource,
};

fn texts(items: &[&str]) -> Option<Vec<String>> {
    Some(items.iter().map(|s| s.to_string()).collect())
}

fn empty_batch(num_rows: usize) -> RowBatch {
    RowBatch {
        num_rows,
        package_id: None,
        package_name: None,
        version: None,
        description: None,
        homepage: None,
        license: None,
        attribute_path: None,
        category: None,
        broken: None,
        unfree: None,
        available: None,
        scores: None,
    }
}

#[test]
fn similarity_is_one_over_one_plus_distance() {
    // distance 0.25 → 1 / 1.25 = 0.8
    assert_eq!(similarity_from_distance(250, 1000), Score { num: 1000, den: 1250 });
    assert!(similarity_from_distance(250, 1000).same_value(&Score { num: 4, den: 5 }));
    // distance 1 → 1/2
    assert!(similarity_from_distance(7, 7).same_value(&Score { num: 1, den: 2 }));
    // no distance, or a negative one → 1
    assert_eq!(similarity_from_distance(0, 1000), Score { num: 1, den: 1 });
    assert_eq!(similarity_from_distance(-5, 1000), Score { num: 1, den: 1 });
    // the largest distance there is
    assert_eq!(
        similarity_from_distance(i64::MAX, u32::MAX),
        Score { num: u32::MAX as i64, den: u32::MAX as u64 + i64::MAX as u64 }
    );
}

#[test]
fn similarity_falls_as_distance_grows() {
    let mut last = similarity_from_distance(0, 100);
    for value in 1..200 {
        let next = similarity_from_distance(value, 100);
        assert!(next.less_than(&last));
        assert!(Score::zero().less_than(&next));
        assert!(next.at_most(&Score::one()));
        last = next;
    }
}

#[test]
fn vector_search_applies_only_with_embeddings() {
    assert!(vector_search_applies(true, Some(256)));
    assert!(!vector_search_applies(true, Some(0)));
    assert!(!vector_search_applies(true, None));
    assert!(!vector_search_applies(false, Some(256)));
}

#[test]
fn vector_search_that_does_not_apply_is_empty_not_an_error() {
    let results = finish_vector_search(false, Err("never asked".to_string())).unwrap();
    assert!(results.packages.is_empty());
    assert_eq!(results.total_count, 0);
    assert_eq!(results.search_type, "vector");
}

fn distances(values: &[Option<i64>]) -> Option<ScoreColumn> {
    Some(ScoreColumn { kind: ScoreKind::Distance, scale: 1000, values: values.to_vec() })
}

#[test]
fn vector_search_scores_rows_by_distance_in_engine_order() {
    // Distances 0.25, 1, 3, none, 0 and a negative one, in the engine's order.
    let batch = RowBatch {
        package_id: texts(&["a", "b", "c", "d", "e", "f"]),
        scores: distances(&[Some(250), Some(1000), Some(3000), None, Some(0), Some(-5)]),
        ..empty_batch(6)
    };
    let results = finish_vector_search(true, Ok(vec![batch])).unwrap();
    let got: Vec<(&str, Score)> =
        results.packages.iter().map(|p| (p.package_id.as_str(), p.relevance_score)).collect();
    assert_eq!(
        got,
        vec![
            ("a", Score { num: 1000, den: 1250 }),
            ("b", Score { num: 1000, den: 2000 }),
            ("c", Score { num: 1000, den: 4000 }),
            ("d", Score { num: 1, den: 1 }),
            ("e", Score { num: 1, den: 1 }),
            ("f", Score { num: 1, den: 1 }),
        ]
    );
    assert_eq!(results.total_count, 6);
    assert_eq!(results.query_time_ms, 0);
    assert_eq!(results.search_type, "vector");
    for p in &results.packages {
        let value = p.relevance_score.num as f64 / p.relevance_score.den as f64;
        assert!(value > 0.0 && value <= 1.0);
    }
    assert!((0.8 - 1000.0 / 1250.0_f64).abs() < 1e-12);
}

#[test]
fn vector_search_joins_batches() {
    let first = RowBatch { package_id: texts(&["a"]), scores: distances(&[Some(1)]), ..empty_batch(1) };
    let second =
        RowBatch { package_id: texts(&["b", "c"]), scores: distances(&[Some(2), Some(3)]), ..empty_batch(2) };
    let results = finish_vector_search(true, Ok(vec![first, second])).unwrap();
    let ids: Vec<&str> = results.packages.iter().map(|p| p.package_id.as_str()).collect();
    assert_eq!(ids, vec!["a", "b", "c"]);
    assert!(finish_vector_search(true, Ok(Vec::new())).unwrap().packages.is_empty());
}

#[test]
fn vector_search_failure_is_a_query_failure() {
    assert_eq!(
        finish_vector_search(true, Err("index missing".to_string())),
        Err(SearchError::QueryFailed("index missing".to_string()))
    );
}

#[test]
fn vector_search_refuses_malformed_rows() {
    let malformed = Err(SearchError::QueryFailed("malformed rows".to_string()));
    let fine = RowBatch { scores: distances(&[Some(1)]), ..empty_batch(1) };
    let short =
        RowBatch { package_id: texts(&["only-one"]), scores: distances(&[None, None]), ..empty_batch(2) };
    let scored = RowBatch {
        scores: Some(ScoreColumn { kind: ScoreKind::Score, scale: 1000, values: vec![Some(1)] }),
        ..empty_batch(1)
    };
    assert!(all_hold_distances(&vec![fine.clone(), fine.clone()]));
    assert!(all_hold_distances(&Vec::new()));
    assert!(!all_hold_distances(&vec![fine.clone(), short.clone()]));
    assert!(!all_hold_distances(&vec![scored.clone()]));
    assert!(!all_hold_distances(&vec![empty_batch(1)]));
    assert_eq!(finish_vector_search(true, Ok(vec![short])), malformed);
    assert_eq!(finish_vector_search(true, Ok(vec![fine.clone(), scored])), malformed);
    assert_eq!(finish_vector_search(true, Ok(vec![empty_batch(1)])), malformed);
    assert!(finish_vector_search(true, Ok(vec![fine])).is_ok());
}

#[test]
fn score_column_is_chosen_by_name_and_width() {
    let single = Some(ColumnWidth::Single);
    let double = Some(ColumnWidth::Double);
    assert_eq!(choose_score_column(None, None, None, None), None);
    assert_eq!(
        choose_score_column(single, single, single, single),
        Some((ScoreSource::Distance, ColumnWidth::Single))
    );
    assert_eq!(
        choose_score_column(None, single, double, None),
        Some((ScoreSource::EngineScore, ColumnWidth::Single))
    );
    // A narrow column goes before a wide one, whatever its name.
    assert_eq!(
        choose_score_column(double, None, None, single),
        Some((ScoreSource::Relevance, ColumnWidth::Single))
    );
    assert_eq!(
        choose_score_column(double, double, None, None),
        Some((ScoreSource::Distance, ColumnWidth::Double))
    );
    assert_eq!(
        choose_score_column(None, None, double, double),
        Some((ScoreSource::PlainScore, ColumnWidth::Double))
    );
    assert_eq!(
        choose_score_column(None, None, None, double),
        Some((ScoreSource::Relevance, ColumnWidth::Double))
    );
}

#[test]
fn score_sources() {
    assert_eq!(ScoreSource::Distance.column_name(), "_distance");
    assert_eq!(ScoreSource::EngineScore.column_name(), "_score");
    assert_eq!(ScoreSource::PlainScore.column_name(), "score");
    assert_eq!(ScoreSource::Relevance.column_name(), "_relevance");
    assert_eq!(ScoreSource::Distance.kind(), ScoreKind::Distance);
    assert_eq!(ScoreSource::EngineScore.kind(), ScoreKind::Score);
    assert_eq!(ScoreSource::PlainScore.kind(), ScoreKind::Score);
    assert_eq!(ScoreSource::Relevance.kind(), ScoreKind::Score);
}

#[test]
fn scores_are_taken_as_they_are() {
    let batch = RowBatch {
        package_id: texts(&["best", "worse", "none"]),
        scores: Some(ScoreColumn {
            kind: ScoreKind::Score,
            scale: 1000,
            values: vec![Some(12500), Some(-300), None],
        }),
        ..empty_batch(3)
    };
    let records = batch.to_packages();
    assert_eq!(records[0].relevance_score, Score { num: 12500, den: 1000 });
    assert_eq!(records[1].relevance_score, Score { num: -300, den: 1000 });
    assert_eq!(records[2].relevance_score, Score { num: 1, den: 1 });
    assert!(records[1].relevance_score.less_than(&records[0].relevance_score));
}

#[test]
fn batch_rows_become_records() {
    let batch = RowBatch {
        package_id: texts(&["nodejs-18", "deno-1"]),
        package_name: texts(&["nodejs", "deno"]),
        version: texts(&["18.17.1", "1.40"]),
        license: texts(&["MIT", "MIT"]),
        category: texts(&["development", "runtime"]),
        broken: Some(vec![Some(true), None]),
        unfree: Some(vec![None, Some(false)]),
        available: Some(vec![Some(false), None]),
        scores: distances(&[Some(250), None]),
        ..empty_batch(2)
    };
    assert!(batch.is_well_formed());
    let records = batch.to_packages();
    assert_eq!(records.len(), 2);
    assert_eq!(records[0].package_id, "nodejs-18");
    assert_eq!(records[0].package_name, "nodejs");
    assert_eq!(records[0].version, "18.17.1");
    assert_eq!(records[0].description, "");
    assert_eq!(records[0].category, "development");
    assert!(records[0].broken);
    assert!(!records[0].unfree);
    assert!(!records[0].available);
    assert_eq!(records[0].relevance_score, Score { num: 1000, den: 1250 });
    assert_eq!(records[0].maintainers, None);
    assert_eq!(records[1].package_id, "deno-1");
    assert!(!records[1].broken);
    assert!(!records[1].unfree);
    assert!(records[1].available);
    assert_eq!(records[1].relevance_score, Score { num: 1, den: 1 });
}

#[test]
fn batch_without_columns_gives_defaults() {
    let batch = empty_batch(3);
    assert!(batch.is_well_formed());
    let records = batch.to_packages();
    assert_eq!(records.len(), 3);
    for (i, record) in records.iter().enumerate() {
        assert_eq!(record.package_id, "");
        assert_eq!(record.category, "misc");
        assert!(!record.broken);
        assert!(!record.unfree);
        assert!(record.available);
        assert_eq!(record.relevance_score, Score { num: 1000 - i as i64, den: 1000 });
    }
}

#[test]
fn batch_well_formedness() {
    let mut batch = empty_batch(2);
    batch.package_id = texts(&["only-one"]);
    assert!(!batch.is_well_formed());
    let mut batch = empty_batch(1);
    batch.scores = Some(ScoreColumn { kind: ScoreKind::Distance, scale: 0, values: vec![Some(1)] });
    assert!(!batch.is_well_formed());
    let mut batch = empty_batch(1);
    batch.scores = Some(ScoreColumn { kind: ScoreKind::Score, scale: 1, values: vec![] });
    assert!(!batch.is_well_formed());
    let mut batch = empty_batch(1);
    batch.broken = Some(vec![None, None]);
    assert!(!batch.is_well_formed());
    assert!(empty_batch(0).is_well_formed());
}

#[test]
fn batches_are_joined_in_order() {
    let first = RowBatch { package_id: texts(&["a", "b"]), ..empty_batch(2) };
    let second = RowBatch { package_id: texts(&["c"]), ..empty_batch(1) };
    let records = batches_to_packages(&vec![first, empty_batch(0), second]);
    let ids: Vec<&str> = records.iter().map(|p| p.package_id.as_str()).collect();
    assert_eq!(ids, vec!["a", "b", "c"]);
    // Unscored rows are scored by their rank in their own batch.
    assert_eq!(records[1].relevance_score, Score { num: 999, den: 1000 });
    assert_eq!(records[2].relevance_score, Score { num: 1000, den: 1000 });
    assert!(batches_to_packages(&Vec::new()).is_empty());
}
