use fdnix_search::query_text::{
    decimal_text, escape_quotes, lexical_query_text, limit_clause_text, minified_query_text,
    substring_filter_text, substring_query_text,
};

#[test]
fn quotes_are_doubled() {
    assert_eq!(escape_quotes(""), "");
    assert_eq!(escape_quotes("nodejs"), "nodejs");
    assert_eq!(escape_quotes("it's"), "it''s");
    assert_eq!(escape_quotes("'"), "''");
    assert_eq!(escape_quotes("''"), "''''");
    assert_eq!(escape_quotes("a'b'c"), "a''b''c");
    assert_eq!(escape_quotes("naïve 'ünï' 🐍"), "naïve ''ünï'' 🐍");
    assert_eq!(escape_quotes("x'; DROP TABLE packages; --"), "x''; DROP TABLE packages; --");
}

#[test]
fn escape_agrees_with_replace() {
    for text in ["", "'", "a'b", "''''", "no quotes", "python 编程语言 '🐍' русский"] {
        assert_eq!(escape_quotes(text), text.replace('\'', "''"));
    }
}

#[test]
fn decimal_numbers() {
    assert_eq!(decimal_text(0), "0");
    assert_eq!(decimal_text(7), "7");
    assert_eq!(decimal_text(10), "10");
    assert_eq!(decimal_text(100), "100");
    assert_eq!(decimal_text(-1), "-1");
    assert_eq!(decimal_text(-20), "-20");
    assert_eq!(decimal_text(1234567890), "1234567890");
    assert_eq!(decimal_text(i64::MAX), i64::MAX.to_string());
    assert_eq!(decimal_text(i64::MIN), i64::MIN.to_string());
    for n in [-4294967294i64, -99, 9, 99, 101, 4294967294] {
        assert_eq!(decimal_text(n), n.to_string());
    }
}

#[test]
fn lexical_query() {
    assert_eq!(
        lexical_query_text("it's", Some(20)),
        "SELECT p.package_id, p.packageName, p.version, p.description, p.homepage, p.license, \
         p.attributePath, fts.score FROM (SELECT package_id, \
         fts_main_packages_fts_source.match_bm25(package_id, 'it''s') AS score FROM \
         packages_fts_source) fts JOIN packages p ON p.package_id = fts.package_id WHERE \
         fts.score IS NOT NULL ORDER BY fts.score DESC LIMIT 20;"
    );
}

#[test]
fn substring_query() {
    assert_eq!(
        substring_query_text("o'x", Some(7)),
        "SELECT package_id, packageName, version, description, homepage, license, attributePath, \
         1.0 as score FROM packages WHERE packageName ILIKE '%o''x%' OR description ILIKE \
         '%o''x%' ORDER BY CASE WHEN packageName ILIKE '%o''x%' THEN 1 ELSE 2 END, packageName \
         LIMIT 7;"
    );
    assert_eq!(
        substring_filter_text("node's"),
        "package_name LIKE '%node''s%' OR description LIKE '%node''s%'"
    );
}

#[test]
fn queries_without_a_limit_have_no_limit_clause() {
    assert!(lexical_query_text("a", None).ends_with("ORDER BY fts.score DESC;"));
    assert!(substring_query_text("a", None).ends_with("THEN 1 ELSE 2 END, packageName;"));
    assert_eq!(limit_clause_text(None), "");
    assert_eq!(limit_clause_text(Some(40)), " LIMIT 40");
}

#[test]
fn minified_query() {
    let head = "SELECT id, name, description, bm25(packages_fts) as relevance_score FROM \
                packages_fts WHERE packages_fts MATCH ?";
    let tail = " ORDER BY relevance_score DESC LIMIT ? OFFSET ?";
    let broken = " AND json_extract(data, '$.broken') = 0";
    let unfree = " AND json_extract(data, '$.unfree') = 0";
    assert_eq!(minified_query_text(true, true), format!("{}{}", head, tail));
    assert_eq!(minified_query_text(false, true), format!("{}{}{}", head, broken, tail));
    assert_eq!(minified_query_text(true, false), format!("{}{}{}", head, unfree, tail));
    assert_eq!(minified_query_text(false, false), format!("{}{}{}{}", head, broken, unfree, tail));
}
