//! Reciprocal Rank Fusion of two ranked lists.
//!
//! Every record of a list at 0-based rank `i` earns the partial score
//! `1 / (k + i + 1)`. A record is identified by its `package_id`; one that
//! both lists hold earns the sum of its two partial scores and keeps the
//! fields it has in the first list. The fused list is ordered by descending
//! score. Records of equal score stay in the order in which they were met:
//! the first list from its top, then the records that only the second list
//! holds, from its top.

use crate::package::{views, Package, PackageView};
use crate::score::{Ratio, Score};
use vstd::prelude::*;

verus! {

/// The longest list that can be fused, and the largest rank constant.
pub const MAX_RANKED: usize = 0x7fff_ffff;

/// `id` stands in `list` at index `i` and nowhere before it.
pub open spec fn ranks_at(list: Seq<PackageView>, id: Seq<char>, i: int) -> bool {
    &&& 0 <= i < list.len()
    &&& list[i].package_id == id
    &&& forall|j: int| 0 <= j < i ==> list[j].package_id != id
}

/// Whether some record of `list` has the identifier `id`.
pub open spec fn has_id(list: Seq<PackageView>, id: Seq<char>) -> bool {
    exists|i: int| ranks_at(list, id, i)
}

/// The rank of `id` in `list`: the index of the first record that has it.
pub open spec fn rank_of(list: Seq<PackageView>, id: Seq<char>) -> Option<int> {
    if has_id(list, id) {
        Some(choose|i: int| ranks_at(list, id, i))
    } else {
        None
    }
}

/// The partial score `1 / (k + rank + 1)` of a record at `rank`.
pub open spec fn reciprocal(k: int, rank: int) -> Ratio {
    Ratio::unit(k + rank + 1)
}

/// The fused score of `id`: the sum of its partial scores over the lists
/// that hold it.
pub open spec fn rrf_score(
    first: Seq<PackageView>,
    second: Seq<PackageView>,
    k: int,
    id: Seq<char>,
) -> Ratio {
    match (rank_of(first, id), rank_of(second, id)) {
        (Some(i), Some(j)) => reciprocal(k, i).plus(reciprocal(k, j)),
        (Some(i), None) => reciprocal(k, i),
        (None, Some(j)) => reciprocal(k, j),
        (None, None) => Ratio::whole(0),
    }
}

/// The record `p` with its fused score in place of its own.
pub open spec fn rescored(
    first: Seq<PackageView>,
    second: Seq<PackageView>,
    k: int,
    p: PackageView,
) -> PackageView {
    p.with_score(rrf_score(first, second, k, p.package_id))
}

/// The records of `second` whose identifier `first` lacks, in order.
pub open spec fn only_in_second(first: Seq<PackageView>, second: Seq<PackageView>) -> Seq<
    PackageView,
> {
    second.filter(|p: PackageView| !has_id(first, p.package_id))
}

/// The fused records in the order in which they are met, before ranking:
/// all of `first`, then those of `second` whose identifier `first` lacks.
pub open spec fn candidates(first: Seq<PackageView>, second: Seq<PackageView>, k: int) -> Seq<
    PackageView,
> {
    first.map_values(|p: PackageView| rescored(first, second, k, p)) + only_in_second(
        first,
        second,
    ).map_values(|p: PackageView| rescored(first, second, k, p))
}

/// `ranked` with `p` put behind every record whose score is not below its
/// own.
pub open spec fn insert_ranked(ranked: Seq<PackageView>, p: PackageView) -> Seq<PackageView>
    decreases ranked.len(),
{
    if ranked.len() > 0 && ranked.last().relevance_score.lt(p.relevance_score) {
        insert_ranked(ranked.drop_last(), p).push(ranked.last())
    } else {
        ranked.push(p)
    }
}

/// `list` in descending order of score, records of equal score in the order
/// they have in `list`.
pub open spec fn rank_by_score(list: Seq<PackageView>) -> Seq<PackageView>
    decreases list.len(),
{
    if list.len() == 0 {
        Seq::empty()
    } else {
        insert_ranked(rank_by_score(list.drop_last()), list.last())
    }
}

/// The fusion of two ranked lists with rank constant `k`.
pub open spec fn fused(first: Seq<PackageView>, second: Seq<PackageView>, k: int) -> Seq<
    PackageView,
> {
    rank_by_score(candidates(first, second, k))
}

/// The first index of `list` that holds `id` is its only rank.
pub proof fn lemma_rank_unique(list: Seq<PackageView>, id: Seq<char>, i: int)
    requires
        ranks_at(list, id, i),
    ensures
        has_id(list, id),
        rank_of(list, id) == Some(i),
{
    let c = choose|c: int| ranks_at(list, id, c);
    if c < i {
        assert(list[c].package_id != id);
    } else if i < c {
        assert(list[i].package_id != id);
    }
}

/// An identifier that stands at some index of a list has a first index.
pub proof fn lemma_first_occurrence(list: Seq<PackageView>, id: Seq<char>, at: int)
    requires
        0 <= at < list.len(),
        list[at].package_id == id,
    ensures
        has_id(list, id),
    decreases at,
{
    if forall|j: int| 0 <= j < at ==> list[j].package_id != id {
        assert(ranks_at(list, id, at));
    } else {
        let j = choose|j: int| 0 <= j < at && list[j].package_id == id;
        lemma_first_occurrence(list, id, j);
    }
}

/// A list without `id` gives it no rank.
pub proof fn lemma_rank_absent(list: Seq<PackageView>, id: Seq<char>)
    requires
        forall|i: int| 0 <= i < list.len() ==> list[i].package_id != id,
    ensures
        !has_id(list, id),
        rank_of(list, id) is None,
{
}

/// Where `p` goes: behind the last record whose score is not below its own.
pub proof fn lemma_insert_position(ranked: Seq<PackageView>, p: PackageView, pos: int)
    requires
        0 <= pos <= ranked.len(),
        forall|i: int| pos <= i < ranked.len() ==> ranked[i].relevance_score.lt(p.relevance_score),
        pos > 0 ==> !ranked[pos - 1].relevance_score.lt(p.relevance_score),
    ensures
        insert_ranked(ranked, p) == ranked.insert(pos, p),
    decreases ranked.len() - pos,
{
    if pos == ranked.len() {
        assert(ranked.push(p) =~= ranked.insert(pos, p));
    } else {
        let rest = ranked.drop_last();
        lemma_insert_position(rest, p, pos);
        assert(rest.insert(pos, p).push(ranked.last()) =~= ranked.insert(pos, p));
    }
}

/// The sum of two unit fractions: `1/a + 1/b = (a + b) / (a * b)`.
pub proof fn lemma_unit_sum(a: int, b: int)
    ensures
        Ratio::unit(a).plus(Ratio::unit(b)) == (Ratio { num: b + a, den: a * b }),
{
    assert(1 * b + 1 * a == b + a);
}

/// The rank of `id` in `list`, found from the top.
pub fn find_rank(list: &Vec<Package>, id: &String) -> (r: Option<usize>)
    ensures
        match r {
            Some(i) => i < list.len() && rank_of(views(list@), id@) == Some(i as int),
            None => rank_of(views(list@), id@) is None,
        },
{
    let mut i: usize = 0;
    while i < list.len()
        invariant
            i <= list.len(),
            forall|j: int| 0 <= j < i ==> views(list@)[j].package_id != id@,
        decreases list.len() - i,
    {
        if list[i].package_id == *id {
            proof {
                lemma_rank_unique(views(list@), id@, i as int);
            }
            return Some(i);
        }
        i += 1;
    }
    proof {
        lemma_rank_absent(views(list@), id@);
    }
    None
}

/// The partial score of a record at `rank`.
pub fn reciprocal_rank(k: u32, rank: usize) -> (r: Score)
    requires
        k <= MAX_RANKED,
        rank < MAX_RANKED,
    ensures
        r@ == reciprocal(k as int, rank as int),
        r.wf(),
{
    Score { num: 1, den: k as u64 + rank as u64 + 1 }
}

/// The fused score of the identifier `id`.
pub fn fused_score(first: &Vec<Package>, second: &Vec<Package>, k: u32, id: &String) -> (r: Score)
    requires
        first.len() <= MAX_RANKED,
        second.len() <= MAX_RANKED,
        k <= MAX_RANKED,
    ensures
        r@ == rrf_score(views(first@), views(second@), k as int, id@),
        r.wf(),
{
    match (find_rank(first, id), find_rank(second, id)) {
        (Some(i), Some(j)) => {
            let in_first = reciprocal_rank(k, i);
            let in_second = reciprocal_rank(k, j);
            proof {
                let a = k + i + 1;
                let b = k + j + 1;
                lemma_unit_sum(a, b);
                assert(1 <= a * b <= 0xffff_fffe * 0xffff_fffe) by (nonlinear_arith)
                    requires
                        1 <= a <= 0xffff_fffe,
                        1 <= b <= 0xffff_fffe,
                ;
            }
            match in_first.checked_add(&in_second) {
                Some(sum) => sum,
                None => unreached(),
            }
        },
        (Some(i), None) => reciprocal_rank(k, i),
        (None, Some(j)) => reciprocal_rank(k, j),
        (None, None) => Score::zero(),
    }
}

/// Puts `record` into a ranked list, behind every record whose score is not
/// below its own.
pub fn insert_by_score(ranked: &mut Vec<Package>, record: Package)
    ensures
        views(final(ranked)@) == insert_ranked(views(old(ranked)@), record@),
        final(ranked).len() == old(ranked).len() + 1,
{
    let mut pos: usize = ranked.len();
    while pos > 0 && ranked[pos - 1].relevance_score.less_than(&record.relevance_score)
        invariant
            pos <= ranked.len(),
            *ranked == *old(ranked),
            forall|i: int|
                pos <= i < ranked.len() ==> views(ranked@)[i].relevance_score.lt(
                    record@.relevance_score,
                ),
        decreases pos,
    {
        pos -= 1;
    }
    proof {
        lemma_insert_position(views(ranked@), record@, pos as int);
        assert(views(ranked@.insert(pos as int, record)) =~= views(ranked@).insert(
            pos as int,
            record@,
        ));
    }
    ranked.insert(pos, record);
}

/// Ranks a list: descending by score, records of equal score in the order
/// they came in.
pub fn rank_records(list: Vec<Package>) -> (out: Vec<Package>)
    ensures
        views(out@) == rank_by_score(views(list@)),
        out.len() == list.len(),
{
    let ghost all = views(list@);
    let mut out: Vec<Package> = Vec::new();
    for record in it: list
        invariant
            views(it.seq()) == all,
            views(out@) == rank_by_score(all.take(it.index() as int)),
            out.len() == it.index(),
    {
        proof {
            let i = it.index() as int;
            assert(all.take(i + 1).drop_last() =~= all.take(i));
            assert(all.take(i + 1).last() == record@);
        }
        insert_by_score(&mut out, record);
    }
    assert(all.take(all.len() as int) =~= all);
    out
}

/// Fuses two ranked lists by Reciprocal Rank Fusion with rank constant `k`.
pub fn reciprocal_rank_fusion(first: &Vec<Package>, second: &Vec<Package>, k: u32) -> (out: Vec<
    Package,
>)
    requires
        first.len() <= MAX_RANKED,
        second.len() <= MAX_RANKED,
        k <= MAX_RANKED,
    ensures
        views(out@) == fused(views(first@), views(second@), k as int),
        first.len() <= out.len() <= first.len() + second.len(),
{
    let ghost a = views(first@);
    let ghost b = views(second@);
    let ghost rescore = |p: PackageView| rescored(a, b, k as int, p);
    let ghost fresh = |p: PackageView| !has_id(a, p.package_id);
    let mut out: Vec<Package> = Vec::new();
    let mut i: usize = 0;
    while i < first.len()
        invariant
            i <= first.len(),
            first.len() <= MAX_RANKED,
            second.len() <= MAX_RANKED,
            k <= MAX_RANKED,
            a == views(first@),
            b == views(second@),
            rescore == |p: PackageView| rescored(a, b, k as int, p),
            views(out@) == rank_by_score(a.take(i as int).map_values(rescore)),
            out.len() == i,
        decreases first.len() - i,
    {
        let score = fused_score(first, second, k, &first[i].package_id);
        let record = first[i].with_score(score);
        proof {
            let before = a.take(i as int).map_values(rescore);
            let after = a.take(i + 1).map_values(rescore);
            assert(after.drop_last() =~= before);
            assert(after.last() == record@);
        }
        insert_by_score(&mut out, record);
        i += 1;
    }
    let ghost head = a.map_values(rescore);
    assert(a.take(first.len() as int) =~= a);
    let mut j: usize = 0;
    while j < second.len()
        invariant
            j <= second.len(),
            first.len() <= MAX_RANKED,
            second.len() <= MAX_RANKED,
            k <= MAX_RANKED,
            a == views(first@),
            b == views(second@),
            rescore == |p: PackageView| rescored(a, b, k as int, p),
            fresh == |p: PackageView| !has_id(a, p.package_id),
            head == a.map_values(rescore),
            views(out@) == rank_by_score(head + b.take(j as int).filter(fresh).map_values(rescore)),
            first.len() <= out.len() <= first.len() + j,
        decreases second.len() - j,
    {
        let ghost before = b.take(j as int).filter(fresh);
        let ghost after = b.take(j + 1).filter(fresh);
        proof {
            assert(b.take(j + 1) =~= b.take(j as int).push(b[j as int]));
            b.take(j as int).lemma_filter_push(b[j as int], fresh);
        }
        if find_rank(first, &second[j].package_id).is_none() {
            let score = fused_score(first, second, k, &second[j].package_id);
            let record = second[j].with_score(score);
            proof {
                assert(after == before.push(b[j as int]));
                let whole = head + after.map_values(rescore);
                assert(whole.drop_last() =~= head + before.map_values(rescore));
                assert(whole.last() == record@);
            }
            insert_by_score(&mut out, record);
        } else {
            proof {
                assert(after == before);
            }
        }
        j += 1;
    }
    assert(b.take(second.len() as int) =~= b);
    out
}

} // verus!
