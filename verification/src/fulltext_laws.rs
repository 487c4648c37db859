//! What holds of every fallback answer: what it holds, and in which order.

use crate::fulltext::{
    fallback_ranking, insert_match, lemma_fallback_order_is_kept, matches_of, name_matches,
    order_matches, precedes, substring_match,
};
use crate::package::PackageView;
use crate::text::{lemma_bytes_not_before_is_transitive, lemma_bytes_order_is_total};
use vstd::prelude::*;
use vstd::utf8::encode_utf8;

verus! {

/// No record of `list` goes before a record that stands before it.
pub open spec fn in_order(list: Seq<PackageView>, query: Seq<char>) -> bool {
    forall|i: int, j: int|
        0 <= i < j < list.len() ==> !precedes(#[trigger] list[j], #[trigger] list[i], query)
}

/// Of two records at most one goes before the other.
pub proof fn lemma_precedes_is_asymmetric(a: PackageView, b: PackageView, query: Seq<char>)
    ensures
        !(precedes(a, b, query) && precedes(b, a, query)),
{
    lemma_bytes_order_is_total(encode_utf8(a.package_name), encode_utf8(b.package_name));
}

/// Where `a` does not go before `b`, nor `b` before `c`, `a` does not go
/// before `c`.
pub proof fn lemma_not_precedes_is_transitive(
    a: PackageView,
    b: PackageView,
    c: PackageView,
    query: Seq<char>,
)
    requires
        !precedes(a, b, query),
        !precedes(b, c, query),
    ensures
        !precedes(a, c, query),
{
    if name_matches(a, query) == name_matches(b, query) && name_matches(b, query) == name_matches(
        c,
        query,
    ) {
        lemma_bytes_not_before_is_transitive(
            encode_utf8(a.package_name),
            encode_utf8(b.package_name),
            encode_utf8(c.package_name),
        );
    }
}

/// A record is put at one index of an ordered list: before the records that
/// it goes before, which close the list.
pub proof fn lemma_insert_match_index(ordered: Seq<PackageView>, p: PackageView, query: Seq<char>) -> (pos:
    int)
    ensures
        0 <= pos <= ordered.len(),
        insert_match(ordered, p, query) == ordered.insert(pos, p),
        forall|i: int| pos <= i < ordered.len() ==> precedes(p, #[trigger] ordered[i], query),
        pos > 0 ==> !precedes(p, ordered[pos - 1], query),
    decreases ordered.len(),
{
    if ordered.len() > 0 && precedes(p, ordered.last(), query) {
        let rest = ordered.drop_last();
        let pos = lemma_insert_match_index(rest, p, query);
        assert(rest.insert(pos, p).push(ordered.last()) =~= ordered.insert(pos, p));
        assert forall|i: int| pos <= i < ordered.len() implies precedes(
            p,
            #[trigger] ordered[i],
            query,
        ) by {
            if i < rest.len() {
                assert(rest[i] == ordered[i]);
            }
        }
        if pos > 0 {
            assert(rest[pos - 1] == ordered[pos - 1]);
        }
        pos
    } else {
        assert(ordered.push(p) =~= ordered.insert(ordered.len() as int, p));
        ordered.len() as int
    }
}

/// Putting a record into an ordered list leaves the list in order.
pub proof fn lemma_insert_keeps_order(ordered: Seq<PackageView>, p: PackageView, query: Seq<char>)
    requires
        in_order(ordered, query),
    ensures
        in_order(insert_match(ordered, p, query), query),
        insert_match(ordered, p, query).len() == ordered.len() + 1,
{
    let pos = lemma_insert_match_index(ordered, p, query);
    let out = ordered.insert(pos, p);
    assert forall|i: int, j: int| 0 <= i < j < out.len() implies !precedes(
        #[trigger] out[j],
        #[trigger] out[i],
        query,
    ) by {
        if j == pos {
            if i < pos - 1 {
                assert(!precedes(ordered[pos - 1], ordered[i], query));
                lemma_not_precedes_is_transitive(p, ordered[pos - 1], ordered[i], query);
            }
        } else if i == pos {
            assert(out[j] == ordered[j - 1]);
            lemma_precedes_is_asymmetric(p, ordered[j - 1], query);
        } else {
            let si = if i < pos {
                i
            } else {
                i - 1
            };
            let sj = if j < pos {
                j
            } else {
                j - 1
            };
            assert(out[i] == ordered[si]);
            assert(out[j] == ordered[sj]);
        }
    }
}

/// An ordered list is in order, and holds the records of the list it was
/// made from, each as often as that list holds it.
pub proof fn lemma_order_matches_orders(list: Seq<PackageView>, query: Seq<char>)
    ensures
        in_order(order_matches(list, query), query),
        order_matches(list, query).len() == list.len(),
        order_matches(list, query).to_multiset() == list.to_multiset(),
    decreases list.len(),
{
    if list.len() == 0 {
        assert(order_matches(list, query) =~= list);
    } else {
        let rest = list.drop_last();
        lemma_order_matches_orders(rest, query);
        lemma_insert_keeps_order(order_matches(rest, query), list.last(), query);
        let pos = lemma_insert_match_index(order_matches(rest, query), list.last(), query);
        vstd::seq_lib::to_multiset_insert(order_matches(rest, query), pos, list.last());
        vstd::seq_lib::to_multiset_build(rest, list.last());
        assert(rest.push(list.last()) =~= list);
    }
}

/// In a list in order, the records that match by name stand before the
/// others, and of two records of one kind the one whose name comes later
/// does not stand first.
pub proof fn lemma_name_matches_stand_first(list: Seq<PackageView>, query: Seq<char>, i: int, j: int)
    requires
        in_order(list, query),
        0 <= i < j < list.len(),
    ensures
        name_matches(list[j], query) ==> name_matches(list[i], query),
        name_matches(list[i], query) == name_matches(list[j], query) ==> !crate::text::bytes_before(
            encode_utf8(list[j].package_name),
            encode_utf8(list[i].package_name),
        ),
{
    assert(!precedes(list[j], list[i], query));
}

/// A fallback answer holds only rows that match the query, as many as match
/// it; it is in fallback order; and its scores fall strictly from rank to
/// rank.
pub proof fn lemma_fallback_answer(rows: Seq<PackageView>, query: Seq<char>)
    ensures
        fallback_ranking(rows, query).len() == matches_of(rows, query).len(),
        fallback_ranking(rows, query).len() <= rows.len(),
        forall|i: int|
            0 <= i < fallback_ranking(rows, query).len() ==> substring_match(
                #[trigger] fallback_ranking(rows, query)[i],
                query,
            ),
        in_order(fallback_ranking(rows, query), query),
        forall|i: int, j: int|
            0 <= i < j < fallback_ranking(rows, query).len() ==> (#[trigger] fallback_ranking(
                rows,
                query,
            )[j]).relevance_score.lt((#[trigger] fallback_ranking(rows, query)[i]).relevance_score),
{
    let matching = matches_of(rows, query);
    let ordered = order_matches(matching, query);
    let answer = fallback_ranking(rows, query);
    lemma_order_matches_orders(matching, query);
    rows.lemma_filter_len(|p: PackageView| substring_match(p, query));
    assert forall|i: int| 0 <= i < answer.len() implies substring_match(
        #[trigger] answer[i],
        query,
    ) by {
        // The record at rank `i` is a matching row with another score.
        assert(ordered.contains(ordered[i]));
        vstd::seq_lib::to_multiset_contains(ordered, ordered[i]);
        vstd::seq_lib::to_multiset_contains(matching, ordered[i]);
        let w = choose|w: int| 0 <= w < matching.len() && matching[w] == ordered[i];
        rows.lemma_filter_pred(|p: PackageView| substring_match(p, query), w);
    }
    assert forall|i: int, j: int| 0 <= i < j < answer.len() implies !precedes(
        #[trigger] answer[j],
        #[trigger] answer[i],
        query,
    ) by {
        assert(!precedes(ordered[j], ordered[i], query));
    }
    lemma_fallback_order_is_kept(ordered);
}

} // verus!
