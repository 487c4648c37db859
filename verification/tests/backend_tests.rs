use fdnix_search::backend::{
    check_minified_store, embeddings_available, embeddings_enabled, embeddings_in_use, has_table,
    has_minified_schema, require_packages_table, select_table,
};
use fdnix_search::error::SearchError;

fn names(list: &[&str]) -> Vec<String> {
    list.iter().map(|s| s.to_string()).collect()
}

#[test]
fn embeddings_setting() {
    assert!(!embeddings_enabled(&None));
    for value in ["1", "true", "TRUE", "yes", "YES"] {
        assert!(embeddings_enabled(&Some(value.to_string())));
    }
    for value in ["0", "false", "FALSE", "no", "random", ""] {
        assert!(!embeddings_enabled(&Some(value.to_string())));
    }
    assert!(embeddings_in_use(true, true));
    assert!(!embeddings_in_use(true, false));
    assert!(!embeddings_in_use(false, true));
}

#[test]
fn embeddings_probe() {
    assert!(embeddings_available(Some(true), Some(1)));
    assert!(!embeddings_available(Some(true), Some(0)));
    assert!(!embeddings_available(Some(true), None));
    assert!(!embeddings_available(Some(false), Some(5)));
    assert!(!embeddings_available(None, Some(5)));
}

#[test]
fn tables() {
    assert!(has_table(&names(&["a", "packages"]), "packages"));
    assert!(!has_table(&names(&["a", "Packages"]), "packages"));
    assert!(!has_table(&Vec::new(), "packages"));
    assert_eq!(require_packages_table(&names(&["packages"])), Ok(()));
    assert_eq!(
        require_packages_table(&names(&["other"])),
        Err(SearchError::TableNotFound("packages".to_string()))
    );
    assert_eq!(select_table(&names(&["x", "packages", "y"])), Ok("packages".to_string()));
    assert_eq!(select_table(&names(&["x", "y"])), Ok("x".to_string()));
    assert_eq!(
        select_table(&Vec::new()),
        Err(SearchError::TableNotFound("no tables found in database".to_string()))
    );
}

#[test]
fn minified_schema() {
    assert!(has_minified_schema(&names(&["packages_fts", "packages_kv"])));
    assert!(!has_minified_schema(&names(&["packages_fts"])));
    assert!(!has_minified_schema(&names(&["packages_kv", "packages"])));
    assert_eq!(check_minified_store(&names(&["packages_fts", "packages_kv"]), true), Ok(true));
    assert_eq!(
        check_minified_store(&names(&["packages_fts", "packages_kv"]), false),
        Err(SearchError::DatabaseError("Failed to load compression dictionary".to_string()))
    );
    assert_eq!(
        check_minified_store(&Vec::new(), true),
        Err(SearchError::DatabaseError("Minified schema required but not found".to_string()))
    );
}

#[test]
fn hit_errors_read_well() {
    assert_eq!(SearchError::RecordNotFound("x".to_string()).message(), "Record not found: x");
    assert_eq!(SearchError::DecompressionFailed("x".to_string()).message(), "Decompression failed: x");
}
