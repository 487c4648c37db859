//! What holds of every fusion: the order of the fused list, what it holds,
//! and the score of a record that both lists rank.

use crate::fusion::{
    candidates, fused, has_id, insert_ranked, lemma_rank_unique, only_in_second, rank_by_score,
    rank_of, ranks_at, reciprocal, rescored, rrf_score,
};
use crate::package::PackageView;
use crate::score::{lemma_le_transitive, lemma_plus_positive_grows, Ratio};
use vstd::prelude::*;

verus! {

/// No record of `list` has a score below that of a record behind it.
pub open spec fn descending(list: Seq<PackageView>) -> bool {
    forall|i: int, j: int|
        0 <= i < j < list.len() ==> !(#[trigger] list[i]).relevance_score.lt(
            (#[trigger] list[j]).relevance_score,
        )
}

/// Every record of `list` has a score with a positive denominator.
pub open spec fn scores_wf(list: Seq<PackageView>) -> bool {
    forall|i: int| 0 <= i < list.len() ==> (#[trigger] list[i]).relevance_score.wf()
}

/// No two records of `list` share an identifier.
pub open spec fn distinct_ids(list: Seq<PackageView>) -> bool {
    forall|i: int, j: int|
        0 <= i < j < list.len() ==> (#[trigger] list[i]).package_id != (
        #[trigger] list[j]).package_id
}

/// Ranking a record puts it at one index of the list: behind the last record
/// whose score is not below its own, before every record whose score is.
pub proof fn lemma_insert_ranked_index(ranked: Seq<PackageView>, p: PackageView) -> (pos: int)
    ensures
        0 <= pos <= ranked.len(),
        insert_ranked(ranked, p) == ranked.insert(pos, p),
        forall|i: int|
            pos <= i < ranked.len() ==> (#[trigger] ranked[i]).relevance_score.lt(
                p.relevance_score,
            ),
        pos > 0 ==> !ranked[pos - 1].relevance_score.lt(p.relevance_score),
    decreases ranked.len(),
{
    if ranked.len() > 0 && ranked.last().relevance_score.lt(p.relevance_score) {
        let rest = ranked.drop_last();
        let pos = lemma_insert_ranked_index(rest, p);
        assert(rest.insert(pos, p).push(ranked.last()) =~= ranked.insert(pos, p));
        assert forall|i: int| pos <= i < ranked.len() implies (#[trigger] ranked[i]).relevance_score.lt(
            p.relevance_score,
        ) by {
            if i < rest.len() {
                assert(rest[i] == ranked[i]);
            }
        }
        if pos > 0 {
            assert(rest[pos - 1] == ranked[pos - 1]);
        }
        pos
    } else {
        assert(ranked.push(p) =~= ranked.insert(ranked.len() as int, p));
        ranked.len() as int
    }
}

/// Ranking a record into a descending list leaves the list descending.
pub proof fn lemma_insert_keeps_descending(ranked: Seq<PackageView>, p: PackageView)
    requires
        descending(ranked),
        scores_wf(ranked),
        p.relevance_score.wf(),
    ensures
        descending(insert_ranked(ranked, p)),
        scores_wf(insert_ranked(ranked, p)),
        insert_ranked(ranked, p).len() == ranked.len() + 1,
{
    let pos = lemma_insert_ranked_index(ranked, p);
    let out = ranked.insert(pos, p);
    assert forall|i: int, j: int| 0 <= i < j < out.len() implies !(#[trigger] out[i]).relevance_score.lt(
        (#[trigger] out[j]).relevance_score,
    ) by {
        if j == pos {
            // out[i] is ranked[i] with i < pos: at least ranked[pos - 1], which is at least p.
            if i < pos - 1 {
                assert(!ranked[i].relevance_score.lt(ranked[pos - 1].relevance_score));
                lemma_le_transitive(
                    p.relevance_score,
                    ranked[pos - 1].relevance_score,
                    ranked[i].relevance_score,
                );
            }
        } else if i == pos {
            assert(out[j] == ranked[j - 1]);
            assert(ranked[j - 1].relevance_score.lt(p.relevance_score));
        } else {
            let si = if i < pos { i } else { i - 1 };
            let sj = if j < pos { j } else { j - 1 };
            assert(out[i] == ranked[si]);
            assert(out[j] == ranked[sj]);
        }
    }
    assert forall|i: int| 0 <= i < out.len() implies (#[trigger] out[i]).relevance_score.wf() by {
        if i < pos {
            assert(out[i] == ranked[i]);
        } else if i > pos {
            assert(out[i] == ranked[i - 1]);
        }
    }
}

/// A ranked list is in descending order of score.
pub proof fn lemma_ranked_is_descending(list: Seq<PackageView>)
    requires
        scores_wf(list),
    ensures
        descending(rank_by_score(list)),
        scores_wf(rank_by_score(list)),
        rank_by_score(list).len() == list.len(),
    decreases list.len(),
{
    if list.len() > 0 {
        let rest = list.drop_last();
        assert forall|i: int| 0 <= i < rest.len() implies (#[trigger] rest[i]).relevance_score.wf() by {
            assert(rest[i] == list[i]);
        }
        lemma_ranked_is_descending(rest);
        lemma_insert_keeps_descending(rank_by_score(rest), list.last());
    }
}

/// A ranked list holds the records of the list it was made from, each as
/// often as that list holds it.
pub proof fn lemma_ranked_is_permutation(list: Seq<PackageView>)
    ensures
        rank_by_score(list).to_multiset() == list.to_multiset(),
    decreases list.len(),
{
    if list.len() == 0 {
        assert(rank_by_score(list) =~= list);
    } else {
        let rest = list.drop_last();
        lemma_ranked_is_permutation(rest);
        let pos = lemma_insert_ranked_index(rank_by_score(rest), list.last());
        vstd::seq_lib::to_multiset_insert(rank_by_score(rest), pos, list.last());
        vstd::seq_lib::to_multiset_build(rest, list.last());
        assert(rest.push(list.last()) =~= list);
    }
}

/// A ranked list holds a record exactly where the list it was made from
/// holds it.
pub proof fn lemma_ranked_holds_the_same(list: Seq<PackageView>, p: PackageView)
    ensures
        rank_by_score(list).contains(p) <==> list.contains(p),
{
    lemma_ranked_is_permutation(list);
    vstd::seq_lib::to_multiset_contains(list, p);
    vstd::seq_lib::to_multiset_contains(rank_by_score(list), p);
}

/// Ranking is stable: of two records of a list with distinct identifiers,
/// the one that the list holds first stays ahead of the other unless its
/// score is below the other's.
pub proof fn lemma_ranking_is_stable(list: Seq<PackageView>, i: int, j: int, p: int, q: int)
    requires
        distinct_ids(list),
        0 <= i < j < list.len(),
        !list[i].relevance_score.lt(list[j].relevance_score),
        0 <= p < rank_by_score(list).len(),
        0 <= q < rank_by_score(list).len(),
        rank_by_score(list)[p] == list[i],
        rank_by_score(list)[q] == list[j],
    ensures
        p < q,
    decreases list.len(),
{
    let rest = list.drop_last();
    let x = list.last();
    let before = rank_by_score(rest);
    let pos = lemma_insert_ranked_index(before, x);
    let after = before.insert(pos, x);
    assert(after == rank_by_score(list));
    assert forall|a: int, b: int| 0 <= a < b < rest.len() implies (#[trigger] rest[a]).package_id
        != (#[trigger] rest[b]).package_id by {
        assert(rest[a] == list[a] && rest[b] == list[b]);
    }
    // No record of `before` is `x`: it would be a record of `rest` with the
    // identifier of `x`.
    assert forall|t: int| 0 <= t < before.len() implies (#[trigger] before[t]) != x by {
        if before[t] == x {
            assert(before.contains(x));
            lemma_ranked_holds_the_same(rest, x);
            let u = choose|u: int| 0 <= u < rest.len() && rest[u] == x;
            assert(list[u] == rest[u]);
            assert(list[u].package_id != list[list.len() - 1].package_id);
        }
    }
    // Where a record of `after` that is not `x` stands in `before`.
    let p_before = if p < pos {
        p
    } else {
        p - 1
    };
    let q_before = if q < pos {
        q
    } else {
        q - 1
    };
    assert(list[i] == rest[i]);
    assert(list[i].package_id != list[list.len() - 1].package_id);
    assert(p != pos);
    assert(before[p_before] == list[i]);
    if j == list.len() - 1 {
        if q != pos {
            assert(before[q_before] == x);
        }
        if p_before >= pos {
            assert(before[p_before].relevance_score.lt(x.relevance_score));
        }
    } else {
        assert(list[j] == rest[j]);
        assert(list[j].package_id != list[list.len() - 1].package_id);
        assert(q != pos);
        assert(before[q_before] == list[j]);
        lemma_ranking_is_stable(rest, i, j, p_before, q_before);
    }
}

/// Ranking keeps identifiers distinct.
pub proof fn lemma_ranking_keeps_ids_distinct(list: Seq<PackageView>)
    requires
        distinct_ids(list),
    ensures
        distinct_ids(rank_by_score(list)),
    decreases list.len(),
{
    if list.len() > 0 {
        let rest = list.drop_last();
        let x = list.last();
        let before = rank_by_score(rest);
        assert forall|a: int, b: int| 0 <= a < b < rest.len() implies (
        #[trigger] rest[a]).package_id != (#[trigger] rest[b]).package_id by {
            assert(rest[a] == list[a] && rest[b] == list[b]);
        }
        lemma_ranking_keeps_ids_distinct(rest);
        let pos = lemma_insert_ranked_index(before, x);
        let after = before.insert(pos, x);
        assert forall|t: int| 0 <= t < before.len() implies (#[trigger] before[t]).package_id
            != x.package_id by {
            assert(before.contains(before[t]));
            lemma_ranked_holds_the_same(rest, before[t]);
            let u = choose|u: int| 0 <= u < rest.len() && rest[u] == before[t];
            assert(list[u] == rest[u]);
            assert(list[u].package_id != list[list.len() - 1].package_id);
        }
        assert forall|a: int, b: int| 0 <= a < b < after.len() implies (
        #[trigger] after[a]).package_id != (#[trigger] after[b]).package_id by {
            let a_before = if a < pos {
                a
            } else {
                a - 1
            };
            let b_before = if b < pos {
                b
            } else {
                b - 1
            };
            if a == pos {
                assert(after[b] == before[b_before]);
            } else if b == pos {
                assert(after[a] == before[a_before]);
            } else {
                assert(after[a] == before[a_before]);
                assert(after[b] == before[b_before]);
            }
        }
    }
}

/// The records that only the second list holds have distinct identifiers,
/// none of which the first list holds.
proof fn lemma_fresh_ids_are_distinct(first: Seq<PackageView>, second: Seq<PackageView>)
    requires
        distinct_ids(second),
    ensures
        distinct_ids(only_in_second(first, second)),
        forall|t: int|
            0 <= t < only_in_second(first, second).len() ==> {
                &&& !has_id(first, (#[trigger] only_in_second(first, second)[t]).package_id)
                &&& second.contains(only_in_second(first, second)[t])
            },
    decreases second.len(),
{
    let fresh = |p: PackageView| !has_id(first, p.package_id);
    let kept = second.filter(fresh);
    assert forall|t: int| 0 <= t < kept.len() implies !has_id(
        first,
        (#[trigger] kept[t]).package_id,
    ) && second.contains(kept[t]) by {
        second.lemma_filter_pred(fresh, t);
        assert(kept.contains(kept[t]));
        second.lemma_filter_contains_rev(fresh, kept[t]);
    }
    if second.len() == 0 {
        second.lemma_filter_len(fresh);
    } else {
        let rest = second.drop_last();
        let x = second.last();
        assert forall|a: int, b: int| 0 <= a < b < rest.len() implies (
        #[trigger] rest[a]).package_id != (#[trigger] rest[b]).package_id by {
            assert(rest[a] == second[a] && rest[b] == second[b]);
        }
        lemma_fresh_ids_are_distinct(first, rest);
        assert(rest.push(x) =~= second);
        rest.lemma_filter_push(x, fresh);
        let kept_rest = rest.filter(fresh);
        if fresh(x) {
            assert(kept == kept_rest.push(x));
            assert forall|a: int, b: int| 0 <= a < b < kept.len() implies (
            #[trigger] kept[a]).package_id != (#[trigger] kept[b]).package_id by {
                if b == kept.len() - 1 {
                    assert(kept[a] == kept_rest[a]);
                    assert(rest.contains(kept_rest[a]));
                    let u = choose|u: int| 0 <= u < rest.len() && rest[u] == kept_rest[a];
                    assert(second[u] == rest[u]);
                    assert(second[u].package_id != second[second.len() - 1].package_id);
                } else {
                    assert(kept[a] == kept_rest[a] && kept[b] == kept_rest[b]);
                }
            }
        }
    }
}

/// Fusion keeps identifiers distinct: where no list holds an identifier
/// twice, neither does the fused list.
pub proof fn lemma_fused_ids_are_distinct(first: Seq<PackageView>, second: Seq<PackageView>, k: int)
    requires
        distinct_ids(first),
        distinct_ids(second),
    ensures
        distinct_ids(fused(first, second, k)),
{
    let rescore = |p: PackageView| rescored(first, second, k, p);
    let fresh = |p: PackageView| !has_id(first, p.package_id);
    let head = first.map_values(rescore);
    let kept = second.filter(fresh);
    let tail = kept.map_values(rescore);
    let all = candidates(first, second, k);
    lemma_fresh_ids_are_distinct(first, second);
    assert forall|a: int, b: int| 0 <= a < b < all.len() implies (#[trigger] all[a]).package_id != (
    #[trigger] all[b]).package_id by {
        if b < first.len() {
            assert(all[a].package_id == first[a].package_id);
            assert(all[b].package_id == first[b].package_id);
        } else if a < first.len() {
            assert(all[a].package_id == first[a].package_id);
            assert(all[b].package_id == kept[b - first.len()].package_id);
            assert(!has_id(first, kept[b - first.len()].package_id));
            crate::fusion::lemma_first_occurrence(first, first[a].package_id, a);
        } else {
            assert(all[a].package_id == kept[a - first.len()].package_id);
            assert(all[b].package_id == kept[b - first.len()].package_id);
        }
    }
    lemma_ranking_keeps_ids_distinct(all);
}

/// Ranking leaves a list that is already in descending order as it is.
pub proof fn lemma_descending_stays(list: Seq<PackageView>)
    requires
        descending(list),
    ensures
        rank_by_score(list) == list,
    decreases list.len(),
{
    if list.len() == 0 {
        assert(rank_by_score(list) =~= list);
    } else {
        let rest = list.drop_last();
        assert forall|i: int, j: int| 0 <= i < j < rest.len() implies !(#[trigger] rest[i]).relevance_score.lt(
            (#[trigger] rest[j]).relevance_score,
        ) by {
            assert(rest[i] == list[i] && rest[j] == list[j]);
        }
        lemma_descending_stays(rest);
        if rest.len() > 0 {
            assert(rest.last() == list[list.len() - 2]);
            assert(!list[list.len() - 2].relevance_score.lt(list[list.len() - 1].relevance_score));
        }
        assert(rest.push(list.last()) =~= list);
    }
}

/// The fused list is in descending order of score and holds exactly the
/// records met in the two lists: all of the first, and those of the second
/// that the first lacks.
pub proof fn lemma_fused_is_ranked(first: Seq<PackageView>, second: Seq<PackageView>, k: int)
    requires
        k >= 0,
    ensures
        descending(fused(first, second, k)),
        fused(first, second, k).to_multiset() == candidates(first, second, k).to_multiset(),
        fused(first, second, k).len() == candidates(first, second, k).len(),
{
    let c = candidates(first, second, k);
    assert forall|i: int| 0 <= i < c.len() implies (#[trigger] c[i]).relevance_score.wf() by {
        let id = c[i].package_id;
        lemma_rrf_score_wf(first, second, k, id);
        let rescore = |p: PackageView| rescored(first, second, k, p);
        let tail = second.filter(|p: PackageView| !has_id(first, p.package_id));
        if i < first.len() {
            assert(c[i] == rescore(first[i]));
        } else {
            assert(c[i] == rescore(tail[i - first.len()]));
        }
    }
    lemma_ranked_is_descending(c);
    lemma_ranked_is_permutation(c);
}

/// A fused score has a positive denominator.
pub proof fn lemma_rrf_score_wf(
    first: Seq<PackageView>,
    second: Seq<PackageView>,
    k: int,
    id: Seq<char>,
)
    requires
        k >= 0,
    ensures
        rrf_score(first, second, k, id).wf(),
{
    match (rank_of(first, id), rank_of(second, id)) {
        (Some(i), Some(j)) => {
            assert(ranks_at(first, id, i));
            assert(ranks_at(second, id, j));
            lemma_plus_positive_grows(reciprocal(k, i), reciprocal(k, j));
        },
        (Some(i), None) => {
            assert(ranks_at(first, id, i));
        },
        (None, Some(j)) => {
            assert(ranks_at(second, id, j));
        },
        (None, None) => {},
    }
}

/// A record that the first list ranks at `i` and the second at `j` has the
/// fused score `1/(k+i+1) + 1/(k+j+1)`, which is strictly above either of
/// the two partial scores.
pub proof fn lemma_shared_record_score(
    first: Seq<PackageView>,
    second: Seq<PackageView>,
    k: int,
    id: Seq<char>,
    i: int,
    j: int,
)
    requires
        k >= 0,
        ranks_at(first, id, i),
        ranks_at(second, id, j),
    ensures
        rrf_score(first, second, k, id) == reciprocal(k, i).plus(reciprocal(k, j)),
        rrf_score(first, second, k, id) == (Ratio {
            num: (k + j + 1) + (k + i + 1),
            den: (k + i + 1) * (k + j + 1),
        }),
        reciprocal(k, i).lt(rrf_score(first, second, k, id)),
        reciprocal(k, j).lt(rrf_score(first, second, k, id)),
{
    lemma_rank_unique(first, id, i);
    lemma_rank_unique(second, id, j);
    crate::fusion::lemma_unit_sum(k + i + 1, k + j + 1);
    lemma_plus_positive_grows(reciprocal(k, i), reciprocal(k, j));
    lemma_plus_positive_grows(reciprocal(k, j), reciprocal(k, i));
    let a = k + i + 1;
    let b = k + j + 1;
    assert(1 * (a * b) < (b + a) * b) by (nonlinear_arith)
        requires
            a > 0,
            b > 0,
    ;
}

/// A record that both lists rank scores strictly above every other record
/// that only one list ranks, and ranks no better there than the shared
/// record does.
pub proof fn lemma_shared_beats_single(
    first: Seq<PackageView>,
    second: Seq<PackageView>,
    k: int,
    shared: Seq<char>,
    single: Seq<char>,
    i: int,
    j: int,
    r: int,
)
    requires
        k >= 0,
        ranks_at(first, shared, i),
        ranks_at(second, shared, j),
        (ranks_at(first, single, r) && r >= i && !has_id(second, single)) || (ranks_at(
            second,
            single,
            r,
        ) && r >= j && !has_id(first, single)),
    ensures
        rrf_score(first, second, k, single).lt(rrf_score(first, second, k, shared)),
{
    lemma_shared_record_score(first, second, k, shared, i, j);
    lemma_rrf_score_wf(first, second, k, shared);
    let best = if ranks_at(first, single, r) && r >= i && !has_id(second, single) {
        lemma_rank_unique(first, single, r);
        i
    } else {
        lemma_rank_unique(second, single, r);
        j
    };
    assert(rrf_score(first, second, k, single) == reciprocal(k, r));
    // 1/(k+r+1) <= 1/(k+best+1) < the shared score.
    assert(reciprocal(k, r).le(reciprocal(k, best)));
    let s = rrf_score(first, second, k, shared);
    assert(reciprocal(k, best).lt(s));
    assert(1 * s.den < s.num * (k + r + 1)) by (nonlinear_arith)
        requires
            1 * s.den < s.num * (k + best + 1),
            s.num > 0,
            r >= best,
    ;
}

/// A fused score is above zero for every identifier that a list holds.
pub proof fn lemma_rrf_score_is_positive(
    first: Seq<PackageView>,
    second: Seq<PackageView>,
    k: int,
    id: Seq<char>,
)
    requires
        k >= 0,
        has_id(first, id) || has_id(second, id),
    ensures
        Ratio::whole(0).lt(rrf_score(first, second, k, id)),
        rrf_score(first, second, k, id).wf(),
{
    lemma_rrf_score_wf(first, second, k, id);
    match (rank_of(first, id), rank_of(second, id)) {
        (Some(i), Some(j)) => {
            assert(ranks_at(first, id, i));
            assert(ranks_at(second, id, j));
            crate::fusion::lemma_unit_sum(k + i + 1, k + j + 1);
        },
        _ => {},
    }
}

/// In the fused list, a record with a strictly higher score stands before
/// one with a lower score.
pub proof fn lemma_higher_score_stands_first(ranked: Seq<PackageView>, hi: int, lo: int)
    requires
        descending(ranked),
        0 <= hi < ranked.len(),
        0 <= lo < ranked.len(),
        ranked[lo].relevance_score.lt(ranked[hi].relevance_score),
    ensures
        hi < lo,
{
    if lo < hi {
        assert(!ranked[lo].relevance_score.lt(ranked[hi].relevance_score));
    }
}

/// Fusing a list of distinct identifiers with itself keeps its order and
/// gives the record at rank `i` twice its partial score: `2 / (k + i + 1)`.
pub proof fn lemma_fuse_with_itself(list: Seq<PackageView>, k: int)
    requires
        k >= 0,
        distinct_ids(list),
    ensures
        fused(list, list, k).len() == list.len(),
        forall|i: int|
            0 <= i < list.len() ==> {
                &&& (#[trigger] fused(list, list, k)[i]) == list[i].with_score(
                    reciprocal(k, i).plus(reciprocal(k, i)),
                )
                &&& reciprocal(k, i).plus(reciprocal(k, i)).same_value(
                    Ratio { num: 2, den: k + i + 1 },
                )
            },
{
    let rescore = |p: PackageView| rescored(list, list, k, p);
    let fresh = |p: PackageView| !has_id(list, p.package_id);
    let head = list.map_values(rescore);
    let tail = list.filter(fresh);
    assert forall|i: int| 0 <= i < list.len() implies ranks_at(list, (#[trigger] list[i]).package_id, i) by {
        assert forall|j: int| 0 <= j < i implies list[j].package_id != list[i].package_id by {}
    }
    // No record of the list is new to the list.
    if tail.len() > 0 {
        list.lemma_filter_pred(fresh, 0);
        assert(tail.contains(tail[0]));
        list.lemma_filter_contains_rev(fresh, tail[0]);
        let w = choose|w: int| 0 <= w < list.len() && list[w] == tail[0];
        assert(ranks_at(list, list[w].package_id, w));
    }
    assert(tail.map_values(rescore) =~= Seq::empty());
    assert(candidates(list, list, k) =~= head);
    assert forall|i: int| 0 <= i < list.len() implies (#[trigger] head[i]) == list[i].with_score(
        reciprocal(k, i).plus(reciprocal(k, i)),
    ) by {
        lemma_rank_unique(list, list[i].package_id, i);
    }
    assert forall|i: int, j: int| 0 <= i < j < head.len() implies !(#[trigger] head[i]).relevance_score.lt(
        (#[trigger] head[j]).relevance_score,
    ) by {
        let a = k + i + 1;
        let b = k + j + 1;
        crate::fusion::lemma_unit_sum(a, a);
        crate::fusion::lemma_unit_sum(b, b);
        assert(head[i].relevance_score == Ratio { num: a + a, den: a * a });
        assert(head[j].relevance_score == Ratio { num: b + b, den: b * b });
        assert((b + b) * (a * a) <= (a + a) * (b * b)) by (nonlinear_arith)
            requires
                0 < a < b,
        ;
    }
    lemma_descending_stays(head);
    assert forall|i: int| 0 <= i < list.len() implies reciprocal(k, i).plus(
        reciprocal(k, i),
    ).same_value(Ratio { num: 2, den: k + i + 1 }) by {
        let a = k + i + 1;
        crate::fusion::lemma_unit_sum(a, a);
        assert((a + a) * a == 2 * (a * a)) by (nonlinear_arith);
    }
}

/// Every record of the fused list carries the fused score of its
/// identifier, and its identifier stands in one of the two lists.
pub proof fn lemma_fused_records(first: Seq<PackageView>, second: Seq<PackageView>, k: int, p: int)
    requires
        0 <= p < fused(first, second, k).len(),
    ensures
        fused(first, second, k)[p].relevance_score == rrf_score(
            first,
            second,
            k,
            fused(first, second, k)[p].package_id,
        ),
        has_id(first, fused(first, second, k)[p].package_id) || has_id(
            second,
            fused(first, second, k)[p].package_id,
        ),
{
    let all = candidates(first, second, k);
    let ranked = fused(first, second, k);
    let rescore = |x: PackageView| rescored(first, second, k, x);
    let kept = only_in_second(first, second);
    assert(ranked.contains(ranked[p]));
    lemma_ranked_holds_the_same(all, ranked[p]);
    let t = choose|t: int| 0 <= t < all.len() && all[t] == ranked[p];
    if t < first.len() {
        assert(all[t] == rescore(first[t]));
        crate::fusion::lemma_first_occurrence(first, first[t].package_id, t);
    } else {
        let u = t - first.len();
        assert(all[t] == rescore(kept[u]));
        assert(kept.contains(kept[u]));
        second.lemma_filter_contains_rev(|x: PackageView| !has_id(first, x.package_id), kept[u]);
        let w = choose|w: int| 0 <= w < second.len() && second[w] == kept[u];
        crate::fusion::lemma_first_occurrence(second, second[w].package_id, w);
    }
}

/// A record that the first list ranks at `i` and the second at `j` stands
/// once in the fused list, with the score `1/(k+i+1) + 1/(k+j+1)`.
pub proof fn lemma_shared_record_stands_once(
    first: Seq<PackageView>,
    second: Seq<PackageView>,
    k: int,
    id: Seq<char>,
    i: int,
    j: int,
) -> (p: int)
    requires
        k >= 0,
        distinct_ids(first),
        distinct_ids(second),
        ranks_at(first, id, i),
        ranks_at(second, id, j),
    ensures
        0 <= p < fused(first, second, k).len(),
        fused(first, second, k)[p].package_id == id,
        fused(first, second, k)[p].relevance_score == reciprocal(k, i).plus(reciprocal(k, j)),
        forall|q: int|
            0 <= q < fused(first, second, k).len() && (#[trigger] fused(
                first,
                second,
                k,
            )[q]).package_id == id ==> q == p,
{
    let all = candidates(first, second, k);
    let ranked = fused(first, second, k);
    let rescore = |x: PackageView| rescored(first, second, k, x);
    assert(all[i] == rescore(first[i]));
    assert(all.contains(all[i]));
    lemma_ranked_holds_the_same(all, all[i]);
    let p = choose|p: int| 0 <= p < ranked.len() && ranked[p] == all[i];
    lemma_shared_record_score(first, second, k, id, i, j);
    lemma_fused_ids_are_distinct(first, second, k);
    assert forall|q: int| 0 <= q < ranked.len() && (#[trigger] ranked[q]).package_id
        == id implies q == p by {
        if q < p {
            assert(ranked[q].package_id != ranked[p].package_id);
        } else if p < q {
            assert(ranked[p].package_id != ranked[q].package_id);
        }
    }
    p
}

/// `id` stands in `list` behind rank `rank`, or not at all.
pub open spec fn ranks_behind(list: Seq<PackageView>, id: Seq<char>, rank: int) -> bool {
    rank_of(list, id) matches Some(r) ==> r > rank
}

/// A record that both lists rank scores strictly above every other record
/// that ranks behind it wherever that one occurs.
pub proof fn lemma_shared_beats_later(
    first: Seq<PackageView>,
    second: Seq<PackageView>,
    k: int,
    shared: Seq<char>,
    later: Seq<char>,
    i: int,
    j: int,
)
    requires
        k >= 0,
        ranks_at(first, shared, i),
        ranks_at(second, shared, j),
        has_id(first, later) || has_id(second, later),
        ranks_behind(first, later, i),
        ranks_behind(second, later, j),
    ensures
        rrf_score(first, second, k, later).lt(rrf_score(first, second, k, shared)),
{
    lemma_shared_record_score(first, second, k, shared, i, j);
    crate::fusion::lemma_unit_sum(k + i + 1, k + j + 1);
    let a = k + i + 1;
    let b = k + j + 1;
    match (rank_of(first, later), rank_of(second, later)) {
        (Some(r1), Some(r2)) => {
            let c = k + r1 + 1;
            let d = k + r2 + 1;
            crate::fusion::lemma_unit_sum(c, d);
            assert((d + c) * (a * b) < (b + a) * (c * d)) by (nonlinear_arith)
                requires
                    0 < a < c,
                    0 < b < d,
            ;
        },
        (Some(r1), None) => {
            let c = k + r1 + 1;
            assert(1 * (a * b) < (b + a) * c) by (nonlinear_arith)
                requires
                    0 < a < c,
                    0 < b,
            ;
        },
        (None, Some(r2)) => {
            let d = k + r2 + 1;
            assert(1 * (a * b) < (b + a) * d) by (nonlinear_arith)
                requires
                    0 < b < d,
                    0 < a,
            ;
        },
        (None, None) => {},
    }
}

/// In the fused list, a record that both lists rank stands before every
/// other record that ranks behind it wherever that one occurs.
pub proof fn lemma_shared_stands_before_later(
    first: Seq<PackageView>,
    second: Seq<PackageView>,
    k: int,
    i: int,
    j: int,
    p: int,
    q: int,
)
    requires
        k >= 0,
        0 <= p < fused(first, second, k).len(),
        0 <= q < fused(first, second, k).len(),
        ranks_at(first, fused(first, second, k)[p].package_id, i),
        ranks_at(second, fused(first, second, k)[p].package_id, j),
        ranks_behind(first, fused(first, second, k)[q].package_id, i),
        ranks_behind(second, fused(first, second, k)[q].package_id, j),
    ensures
        p < q,
{
    let ranked = fused(first, second, k);
    lemma_fused_records(first, second, k, p);
    lemma_fused_records(first, second, k, q);
    lemma_shared_beats_later(
        first,
        second,
        k,
        ranked[p].package_id,
        ranked[q].package_id,
        i,
        j,
    );
    lemma_fused_is_ranked(first, second, k);
    lemma_higher_score_stands_first(ranked, p, q);
}

/// A record that stands first in both lists stands first in the fused list,
/// with the score `1/(k+1) + 1/(k+1)`.
pub proof fn lemma_shared_top_hit(
    first: Seq<PackageView>,
    second: Seq<PackageView>,
    k: int,
    id: Seq<char>,
)
    requires
        k >= 0,
        distinct_ids(first),
        distinct_ids(second),
        ranks_at(first, id, 0),
        ranks_at(second, id, 0),
    ensures
        fused(first, second, k).len() > 0,
        fused(first, second, k)[0].package_id == id,
        fused(first, second, k)[0].relevance_score == reciprocal(k, 0).plus(reciprocal(k, 0)),
        fused(first, second, k)[0].relevance_score == (Ratio {
            num: (k + 1) + (k + 1),
            den: (k + 1) * (k + 1),
        }),
{
    let ranked = fused(first, second, k);
    let p = lemma_shared_record_stands_once(first, second, k, id, 0, 0);
    lemma_shared_record_score(first, second, k, id, 0, 0);
    if p > 0 {
        let other = ranked[0].package_id;
        assert(other != id);
        // Rank 0 of either list is `id`, so `other` ranks behind it.
        if rank_of(first, other) is Some {
            let r = rank_of(first, other)->0;
            assert(ranks_at(first, other, r));
        }
        if rank_of(second, other) is Some {
            let r = rank_of(second, other)->0;
            assert(ranks_at(second, other, r));
        }
        lemma_shared_stands_before_later(first, second, k, 0, 0, p, 0);
    }
}

/// A record that stands first in both lists stands first in the fused list
/// as the first list has it, but for the score.
pub proof fn lemma_fused_top_is_first_record(
    first: Seq<PackageView>,
    second: Seq<PackageView>,
    k: int,
    id: Seq<char>,
) -> (score: Ratio)
    requires
        k >= 0,
        distinct_ids(first),
        distinct_ids(second),
        ranks_at(first, id, 0),
        ranks_at(second, id, 0),
    ensures
        fused(first, second, k).len() > 0,
        fused(first, second, k)[0] == first[0].with_score(score),
{
    let all = candidates(first, second, k);
    let ranked = fused(first, second, k);
    let rescore = |x: PackageView| rescored(first, second, k, x);
    lemma_shared_top_hit(first, second, k, id);
    assert(ranked.contains(ranked[0]));
    lemma_ranked_holds_the_same(all, ranked[0]);
    let t = choose|t: int| 0 <= t < all.len() && all[t] == ranked[0];
    lemma_fresh_ids_are_distinct(first, second);
    if t < first.len() {
        assert(all[t] == rescore(first[t]));
        if t > 0 {
            assert(first[0].package_id != first[t].package_id);
        }
    } else {
        let kept = only_in_second(first, second);
        assert(all[t] == rescore(kept[t - first.len()]));
        assert(!has_id(first, kept[t - first.len()].package_id));
        assert(has_id(first, id));
    }
    rrf_score(first, second, k, id)
}

/// Fusing a list of distinct identifiers with the empty list keeps its
/// order and gives the record at rank `i` its partial score `1 / (k+i+1)`:
/// half of what fusing the list with itself gives it.
pub proof fn lemma_fuse_with_nothing(list: Seq<PackageView>, k: int)
    requires
        k >= 0,
        distinct_ids(list),
    ensures
        fused(list, Seq::empty(), k).len() == list.len(),
        forall|i: int|
            0 <= i < list.len() ==> {
                &&& (#[trigger] fused(list, Seq::empty(), k)[i]) == list[i].with_score(
                    reciprocal(k, i),
                )
                &&& fused(list, list, k)[i].package_id == list[i].package_id
                &&& fused(list, list, k)[i].relevance_score.same_value(
                    Ratio { num: 2 * reciprocal(k, i).num, den: reciprocal(k, i).den },
                )
            },
{
    let nothing = Seq::<PackageView>::empty();
    let rescore = |p: PackageView| rescored(list, nothing, k, p);
    let head = list.map_values(rescore);
    let tail = only_in_second(list, nothing);
    nothing.lemma_filter_len(|p: PackageView| !has_id(list, p.package_id));
    assert(tail.map_values(rescore) =~= Seq::empty());
    assert(candidates(list, nothing, k) =~= head);
    assert forall|i: int| 0 <= i < list.len() implies (#[trigger] head[i]) == list[i].with_score(
        reciprocal(k, i),
    ) by {
        assert forall|j: int| 0 <= j < i implies list[j].package_id != list[i].package_id by {}
        lemma_rank_unique(list, list[i].package_id, i);
        crate::fusion::lemma_rank_absent(nothing, list[i].package_id);
    }
    assert forall|i: int, j: int| 0 <= i < j < head.len() implies !(
    #[trigger] head[i]).relevance_score.lt((#[trigger] head[j]).relevance_score) by {
        assert(1 * (k + i + 1) <= 1 * (k + j + 1));
    }
    lemma_descending_stays(head);
    lemma_fuse_with_itself(list, k);
}

} // verus!
