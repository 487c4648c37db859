use fdnix_search::score::Score;
use fdnix_search::text::{
    comes_before, contains_bytes, contains_ignoring_case, contains_text, lower_byte, same_bytes,
    same_bytes_ignoring_case, same_text,
};

#[test]
fn score_new_rejects_zero_denominator() {
    assert_eq!(Score::new(1, 0), None);
    assert_eq!(Score::new(-3, 7), Some(Score { num: -3, den: 7 }));
}

#[test]
fn score_order_is_by_value() {
    let half = Score { num: 1, den: 2 };
    let two_quarters = Score { num: 2, den: 4 };
    let third = Score { num: 1, den: 3 };
    let minus = Score { num: -1, den: 2 };
    assert!(third.less_than(&half));
    assert!(!half.less_than(&third));
    assert!(!half.less_than(&two_quarters));
    assert!(half.at_most(&two_quarters));
    assert!(half.same_value(&two_quarters));
    assert!(!half.same_value(&third));
    assert!(minus.less_than(&third));
    assert!(minus.less_than(&Score::zero()));
}

#[test]
fn score_order_survives_extreme_values() {
    let big = Score { num: i64::MAX, den: 1 };
    let small = Score { num: i64::MIN, den: u64::MAX };
    let tiny = Score { num: 1, den: u64::MAX };
    assert!(small.less_than(&big));
    assert!(tiny.less_than(&big));
    assert!(small.less_than(&tiny));
    assert!(big.same_value(&big));
}

#[test]
fn score_checked_add() {
    let a = Score { num: 1, den: 61 };
    let b = Score { num: 1, den: 63 };
    assert_eq!(a.checked_add(&b), Some(Score { num: 124, den: 3843 }));
    let huge = Score { num: i64::MAX, den: 1 };
    assert_eq!(huge.checked_add(&huge), None);
    let fine = Score { num: 1, den: u64::MAX };
    assert_eq!(fine.checked_add(&fine), None);
}

#[test]
fn byte_strings_are_ordered_like_a_dictionary() {
    let cases: [(&str, &str); 9] = [
        ("", "a"),
        ("a", "b"),
        ("a", "ab"),
        ("ab", "b"),
        ("Z", "a"),
        ("abc", "abd"),
        ("node", "nodejs"),
        ("z", "ä"),
        ("nodejs-18", "nodejs-20"),
    ];
    for (first, second) in cases {
        assert!(comes_before(first.as_bytes(), second.as_bytes()), "{:?} {:?}", first, second);
        assert!(!comes_before(second.as_bytes(), first.as_bytes()), "{:?} {:?}", second, first);
        assert!(first < second);
    }
    assert!(!comes_before(b"same", b"same"));
    assert!(!comes_before(b"", b""));
}

#[test]
fn texts_contain_their_parts() {
    assert!(contains_text("nodejs", "node"));
    assert!(contains_text("nodejs", "js"));
    assert!(contains_text("nodejs", ""));
    assert!(contains_text("", ""));
    assert!(!contains_text("", "a"));
    assert!(!contains_text("nodejs", "Node"));
    assert!(!contains_text("nodejs", "nodejss"));
    assert!(contains_text("python 编程语言 🐍", "语言"));
    assert!(contains_ignoring_case("NodeJS", "nODE"));
    assert!(same_text("abc", "abc"));
    assert!(!same_text("abc", "abd"));
    assert!(!same_text("abc", "ab"));
    assert!(same_bytes_ignoring_case(b"TrUe", b"true"));
    assert!(!same_bytes_ignoring_case(b"tru", b"true"));
    assert!(!same_bytes_ignoring_case(b"[", b"{"));
    assert_eq!(lower_byte(b'A'), b'a');
    assert_eq!(lower_byte(b'Z'), b'z');
    assert_eq!(lower_byte(b'@'), b'@');
    assert_eq!(lower_byte(b'['), b'[');
    assert_eq!(lower_byte(0xc4), 0xc4);
    assert!(contains_bytes(b"abc", b"bc"));
    assert!(same_bytes(b"", b""));
}

#[test]
fn score_constants() {
    assert_eq!(Score::zero(), Score { num: 0, den: 1 });
    assert_eq!(Score::one(), Score { num: 1, den: 1 });
    assert_eq!(Score::whole(-7), Score { num: -7, den: 1 });
}
