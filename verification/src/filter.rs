//! The filters that a search applies to its candidates before paging.

use crate::fusion_laws::descending;
use crate::package::{views, Package, PackageView, SearchParams, SearchParamsView};
use crate::text::{contains_text, text_contains};
use vstd::prelude::*;

verus! {

/// A field passes a filter when there is no filter, or when the filter's
/// text is a part of the field's, letter for letter.
pub open spec fn field_passes(field: Seq<char>, filter: Option<Seq<char>>) -> bool {
    match filter {
        None => true,
        Some(wanted) => text_contains(field, wanted),
    }
}

/// A record is kept when its license and its category pass their filters,
/// and it is not broken or unfree unless such records were asked for.
pub open spec fn retained(p: PackageView, params: SearchParamsView) -> bool {
    &&& field_passes(p.license, params.license_filter)
    &&& field_passes(p.category, params.category_filter)
    &&& (params.include_broken || !p.broken)
    &&& (params.include_unfree || !p.unfree)
}

/// The records of `list` that the filters of `params` keep, in order.
pub open spec fn filtered(list: Seq<PackageView>, params: SearchParamsView) -> Seq<PackageView> {
    list.filter(|p: PackageView| retained(p, params))
}

/// Whether `field` passes `filter`.
pub fn passes_filter(field: &String, filter: &Option<String>) -> (r: bool)
    ensures
        r == field_passes(field@, filter.deep_view()),
{
    match filter {
        None => true,
        Some(wanted) => contains_text(field.as_str(), wanted.as_str()),
    }
}

/// Whether the filters of `params` keep `record`.
pub fn is_retained(record: &Package, params: &SearchParams) -> (r: bool)
    ensures
        r == retained(record@, params@),
{
    passes_filter(&record.license, &params.license_filter) && passes_filter(
        &record.category,
        &params.category_filter,
    ) && (params.include_broken || !record.broken) && (params.include_unfree || !record.unfree)
}

/// The records of `list` that the filters of `params` keep, in the order
/// they have in `list`.
pub fn post_filter(list: &Vec<Package>, params: &SearchParams) -> (out: Vec<Package>)
    ensures
        views(out@) == filtered(views(list@), params@),
{
    let ghost keep = |p: PackageView| retained(p, params@);
    let mut out: Vec<Package> = Vec::new();
    let mut i: usize = 0;
    assert(views(list@).take(0).filter(keep) =~= Seq::empty()) by {
        reveal(Seq::filter);
    }
    while i < list.len()
        invariant
            i <= list.len(),
            keep == |p: PackageView| retained(p, params@),
            views(out@) == views(list@).take(i as int).filter(keep),
        decreases list.len() - i,
    {
        proof {
            let all = views(list@);
            assert(all.take(i + 1) =~= all.take(i as int).push(all[i as int]));
            all.take(i as int).lemma_filter_push(all[i as int], keep);
        }
        if is_retained(&list[i], params) {
            let ghost before = views(out@);
            let copy = list[i].duplicate();
            out.push(copy);
            assert(views(out@) =~= before.push(copy@));
        }
        i += 1;
    }
    assert(views(list@).take(list.len() as int) =~= views(list@));
    out
}

/// The filters keep the order of relevance: a list in descending order of
/// score stays in descending order.
pub proof fn lemma_filter_keeps_descending(list: Seq<PackageView>, params: SearchParamsView)
    requires
        descending(list),
    ensures
        descending(filtered(list, params)),
        filtered(list, params).len() <= list.len(),
    decreases list.len(),
{
    let keep = |p: PackageView| retained(p, params);
    list.lemma_filter_len(keep);
    if list.len() > 0 {
        let rest = list.drop_last();
        let last = list.last();
        assert forall|i: int, j: int| 0 <= i < j < rest.len() implies !(
        #[trigger] rest[i]).relevance_score.lt((#[trigger] rest[j]).relevance_score) by {
            assert(rest[i] == list[i] && rest[j] == list[j]);
        }
        lemma_filter_keeps_descending(rest, params);
        assert(rest.push(last) =~= list);
        rest.lemma_filter_push(last, keep);
        let kept = rest.filter(keep);
        let all = list.filter(keep);
        if keep(last) {
            assert forall|i: int, j: int| 0 <= i < j < all.len() implies !(
            #[trigger] all[i]).relevance_score.lt((#[trigger] all[j]).relevance_score) by {
                if j == all.len() - 1 {
                    assert(all[i] == kept[i]);
                    assert(kept.contains(kept[i]));
                    rest.lemma_filter_contains_rev(keep, kept[i]);
                    let u = choose|u: int| 0 <= u < rest.len() && rest[u] == kept[i];
                    assert(list[u] == rest[u]);
                    assert(!list[u].relevance_score.lt(list[list.len() - 1].relevance_score));
                } else {
                    assert(all[i] == kept[i] && all[j] == kept[j]);
                }
            }
        }
    }
}

/// A record that is broken is not kept unless broken records were asked for.
pub proof fn lemma_broken_is_dropped(list: Seq<PackageView>, params: SearchParamsView, i: int)
    requires
        !params.include_broken,
        0 <= i < filtered(list, params).len(),
    ensures
        !filtered(list, params)[i].broken,
{
    list.lemma_filter_pred(|p: PackageView| retained(p, params), i);
}

} // verus!
