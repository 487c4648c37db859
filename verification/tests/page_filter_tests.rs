use fdnix_search::filter::{is_retained, passes_filter, post_filter};
use fdnix_search::package::{Package, SearchParams};
use fdnix_search::page::paginate;

fn record(id: &str) -> Package {
    Package::new(id.to_string(), id.to_string())
}

fn records(n: usize) -> Vec<Package> {
    (0..n).map(|i| record(&format!("pkg-{}", i))).collect()
}

fn ids(list: &[Package]) -> Vec<String> {
    list.iter().map(|p| p.package_id.clone()).collect()
}

fn params() -> SearchParams {
    SearchParams {
        query: "nodejs".to_string(),
        limit: 10,
        offset: 0,
        license_filter: None,
        category_filter: None,
        include_broken: false,
        include_unfree: false,
    }
}

#[test]
fn paginate_drops_offset_then_cuts_to_limit() {
    let page = paginate(records(10), 3, 4);
    assert_eq!(ids(&page), vec!["pkg-3", "pkg-4", "pkg-5", "pkg-6"]);
}

#[test]
fn paginate_without_limit_is_no_cut() {
    assert_eq!(paginate(records(5), 0, 0).len(), 5);
    assert_eq!(paginate(records(5), 0, -1).len(), 5);
    assert_eq!(ids(&paginate(records(5), 2, 0)), vec!["pkg-2", "pkg-3", "pkg-4"]);
    assert_eq!(paginate(records(5), -3, -3), records(5));
}

#[test]
fn paginate_limit_is_idempotent() {
    let once = paginate(records(9), 0, 4);
    let twice = paginate(once.clone(), 0, 4);
    assert_eq!(once, twice);
    assert_eq!(once.len(), 4);
}

#[test]
fn paginate_limit_beyond_length_keeps_all() {
    assert_eq!(paginate(records(3), 0, 10).len(), 3);
    assert_eq!(paginate(records(3), 0, 3).len(), 3);
}

#[test]
fn paginate_offset_at_or_past_the_end_drops_nothing() {
    // An offset that reaches the end of the list is no offset at all.
    let page = paginate(records(5), 100, 10);
    assert_eq!(ids(&page), vec!["pkg-0", "pkg-1", "pkg-2", "pkg-3", "pkg-4"]);
    assert_eq!(paginate(records(5), 5, 10).len(), 5);
    assert_eq!(paginate(records(5), 4, 10).len(), 1);
    assert_eq!(paginate(records(5), 100, 2).len(), 2);
}

#[test]
fn paginate_empty_list_is_empty() {
    assert!(paginate(Vec::new(), 0, 10).is_empty());
    assert!(paginate(Vec::new(), 100, 10).is_empty());
    assert!(paginate(Vec::new(), 7, 0).is_empty());
}

#[test]
fn filter_drops_broken_record_even_if_ranked_first() {
    let mut first = record("broken-one");
    first.broken = true;
    let list = vec![first, record("fine")];
    let kept = post_filter(&list, &params());
    assert_eq!(ids(&kept), vec!["fine"]);
    let mut all = params();
    all.include_broken = true;
    assert_eq!(post_filter(&list, &all).len(), 2);
}

#[test]
fn filter_drops_unfree_unless_asked_for() {
    let mut unfree = record("unfree-one");
    unfree.unfree = true;
    let list = vec![record("free"), unfree];
    assert_eq!(ids(&post_filter(&list, &params())), vec!["free"]);
    let mut all = params();
    all.include_unfree = true;
    assert_eq!(post_filter(&list, &all).len(), 2);
}

#[test]
fn filter_license_is_substring() {
    let mut mit = record("a");
    mit.license = "MIT License".to_string();
    let mut gpl = record("b");
    gpl.license = "GPL-3.0".to_string();
    let list = vec![mit, gpl];
    let mut p = params();
    p.license_filter = Some("MIT".to_string());
    assert_eq!(ids(&post_filter(&list, &p)), vec!["a"]);
    p.license_filter = Some("L".to_string());
    assert_eq!(post_filter(&list, &p).len(), 2);
    p.license_filter = Some("Apache".to_string());
    assert!(post_filter(&list, &p).is_empty());
    p.license_filter = Some(String::new());
    assert_eq!(post_filter(&list, &p).len(), 2);
}

#[test]
fn filter_tells_upper_case_from_lower_case() {
    let mut mit = record("a");
    mit.license = "MIT".to_string();
    mit.category = "Development".to_string();
    let list = vec![mit];
    let mut p = params();
    p.license_filter = Some("mit".to_string());
    assert!(post_filter(&list, &p).is_empty());
    p.license_filter = Some("MIT".to_string());
    assert_eq!(post_filter(&list, &p).len(), 1);
    p.category_filter = Some("development".to_string());
    assert!(post_filter(&list, &p).is_empty());
    p.category_filter = Some("Develop".to_string());
    assert_eq!(post_filter(&list, &p).len(), 1);
    assert!(!passes_filter(&"ÄPFEL".to_string(), &Some("äpfel".to_string())));
    assert!(passes_filter(&"straße".to_string(), &Some("raß".to_string())));
    assert!(!passes_filter(&"abc".to_string(), &Some("abd".to_string())));
    assert!(passes_filter(&"abc".to_string(), &None));
}

#[test]
fn filter_category_is_substring() {
    let mut dev = record("a");
    dev.category = "development".to_string();
    let mut games = record("b");
    games.category = "games".to_string();
    let list = vec![dev, games];
    let mut p = params();
    p.category_filter = Some("develop".to_string());
    assert_eq!(ids(&post_filter(&list, &p)), vec!["a"]);
    p.license_filter = Some("x".to_string());
    assert!(post_filter(&list, &p).is_empty());
}

#[test]
fn filter_keeps_order_and_fields() {
    let mut a = record("a");
    a.version = "1".to_string();
    let mut b = record("b");
    b.broken = true;
    let mut c = record("c");
    c.version = "3".to_string();
    let list = vec![a.clone(), b, c.clone()];
    assert_eq!(post_filter(&list, &params()), vec![a.clone(), c]);
    assert!(is_retained(&a, &params()));
}
