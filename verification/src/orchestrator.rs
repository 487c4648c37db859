//! The search orchestrator: which retrieval modes run, and what becomes of
//! their answers.
//!
//! A search passes through six stages:
//!
//! 1. mode selection: [`plan_search`];
//! 2. retrieval: the caller runs the adapters that the plan names;
//! 3. fusion, in hybrid mode only:
//!    [`reciprocal_rank_fusion`](crate::fusion::reciprocal_rank_fusion);
//! 4. the filters: [`post_filter`](crate::filter::post_filter);
//! 5. paging: [`paginate`](crate::page::paginate);
//! 6. the result, with the total, the time and the tag attached.
//!
//! [`complete_search`] takes the answers of the second stage through the
//! rest. The total of a result is the number of candidates before the
//! filters.

use crate::error::SearchError;
use crate::filter::{filtered, post_filter};
use crate::fusion::{
    find_rank, fused, has_id, lemma_first_occurrence, ranks_at, reciprocal_rank_fusion, MAX_RANKED,
};
use crate::fusion_laws::{descending, distinct_ids};
use crate::package::{
    views, Package, PackageView, SearchParams, SearchParamsView, SearchResults,
};
use crate::page::{page_of, paginate};
use vstd::prelude::*;
use vstd::string::StringExecFns;

verus! {

/// The rank constant of the fusion unless another is asked for.
pub const DEFAULT_RANK_CONSTANT: u32 = 60;

/// The retrieval mode of a search.
#[derive(Debug, Clone, Copy, PartialEq, Eq, Structural)]
pub enum SearchMode {
    /// The full-text adapter alone.
    FullTextOnly,
    /// Both adapters, fused.
    Hybrid,
}

/// What the retrieval stage has to run.
#[derive(Debug, Clone, Copy, PartialEq, Eq, Structural)]
pub struct SearchPlan {
    pub mode: SearchMode,
    /// How many candidates to ask each adapter for, or `None` for all there
    /// are.
    pub candidate_limit: Option<i64>,
}

/// How many candidates a search asks each adapter for: twice the page
/// limit, so that the fusion and the filters have enough to work on; and
/// all there are where the page has no limit.
pub open spec fn candidates_wanted(limit: int) -> Option<i64> {
    if limit > 0 {
        Some((2 * limit) as i64)
    } else {
        None
    }
}

/// How many candidates a search with the page limit `limit` asks each
/// adapter for.
pub fn candidates_limit_for(limit: i32) -> (r: Option<i64>)
    ensures
        r == candidates_wanted(limit as int),
{
    if limit > 0 {
        Some(2 * (limit as i64))
    } else {
        None
    }
}

/// The length of the query's embedding, given how the request for it went.
/// A request that failed leaves the search without an embedding: that
/// downgrades the mode, and fails nothing.
pub fn embedding_length(outcome: &Result<usize, crate::error::BedrockClientError>) -> (r: Option<
    usize,
>)
    ensures
        r == (match *outcome {
            Ok(len) => Some(len),
            Err(_) => None,
        }),
{
    match outcome {
        Ok(len) => Some(*len),
        Err(_) => None,
    }
}

/// The mode of a search: hybrid where embeddings are enabled and the query
/// has an embedding that is not empty, full-text only otherwise.
pub open spec fn mode_for(embeddings_enabled: bool, embedding_len: Option<usize>) -> SearchMode {
    if embeddings_enabled && embedding_len is Some && embedding_len->0 > 0 {
        SearchMode::Hybrid
    } else {
        SearchMode::FullTextOnly
    }
}

/// Selects the mode of a search and the number of candidates to retrieve.
///
/// A store that was never opened fails the search with `NotInitialized`.
/// `embedding_len` is the length of the query's embedding, or `None` where
/// none could be had: that is no failure, the search then runs on full text
/// alone.
pub fn plan_search(
    connected: bool,
    params: &SearchParams,
    embeddings_enabled: bool,
    embedding_len: Option<usize>,
) -> (r: Result<SearchPlan, SearchError>)
    ensures
        r == (if connected {
            Ok::<SearchPlan, SearchError>(
                SearchPlan {
                    mode: mode_for(embeddings_enabled, embedding_len),
                    candidate_limit: candidates_wanted(params.limit as int),
                },
            )
        } else {
            Err::<SearchPlan, SearchError>(SearchError::NotInitialized)
        }),
{
    if !connected {
        return Err(SearchError::NotInitialized);
    }
    let hybrid = match embedding_len {
        Some(n) => embeddings_enabled && n > 0,
        None => false,
    };
    Ok(
        SearchPlan {
            mode: if hybrid {
                SearchMode::Hybrid
            } else {
                SearchMode::FullTextOnly
            },
            candidate_limit: candidates_limit_for(params.limit),
        },
    )
}

/// Every record of `list` has an identifier, and no two share one.
pub open spec fn valid_identifiers(list: Seq<PackageView>) -> bool {
    &&& forall|i: int| 0 <= i < list.len() ==> (#[trigger] list[i]).package_id.len() > 0
    &&& distinct_ids(list)
}

/// Whether every record of `list` has an identifier that no other record of
/// the list has.
pub fn has_valid_identifiers(list: &Vec<Package>) -> (r: bool)
    ensures
        r == valid_identifiers(views(list@)),
{
    let ghost all = views(list@);
    let mut i: usize = 0;
    while i < list.len()
        invariant
            i <= list.len(),
            all == views(list@),
            forall|j: int|
                0 <= j < i ==> (#[trigger] all[j]).package_id.len() > 0 && ranks_at(
                    all,
                    all[j].package_id,
                    j,
                ),
        decreases list.len() - i,
    {
        let id = &list[i].package_id;
        assert(all[i as int].package_id == id@);
        if id.as_str().is_empty() {
            return false;
        }
        match find_rank(list, id) {
            Some(first) if first == i => {
                assert(has_id(all, id@));
                assert(ranks_at(all, id@, i as int));
            },
            _ => {
                proof {
                    // The identifier stands at `i`, and first stands elsewhere.
                    lemma_first_occurrence(all, id@, i as int);
                    let first = choose|first: int| ranks_at(all, id@, first);
                    assert(all[first].package_id == all[i as int].package_id);
                }
                return false;
            },
        }
        i += 1;
    }
    proof {
        assert forall|a: int, b: int| 0 <= a < b < all.len() implies (#[trigger] all[a]).package_id
            != (#[trigger] all[b]).package_id by {
            assert(ranks_at(all, all[b].package_id, b));
        }
    }
    true
}

/// Whether the two lists can be fused: together they are no longer than
/// [`MAX_RANKED`], and each has valid identifiers.
pub open spec fn fusable(vector: Seq<PackageView>, full_text: Seq<PackageView>) -> bool {
    &&& vector.len() + full_text.len() <= MAX_RANKED
    &&& valid_identifiers(vector)
    &&& valid_identifiers(full_text)
}

/// The tag of a search: `"hybrid"` in hybrid mode, and otherwise the tag of
/// the full-text adapter, which tells an index answer (`"fts"`) from a
/// substring answer (`"fallback"`).
pub open spec fn tag_for(mode: SearchMode, full_text_tag: Seq<char>) -> Seq<char> {
    match mode {
        SearchMode::Hybrid => "hybrid"@,
        SearchMode::FullTextOnly => full_text_tag,
    }
}

/// The page of a search is in descending order of score where its
/// candidates are; those of a hybrid search always are.
pub proof fn lemma_results_stay_ranked(
    candidates: Seq<PackageView>,
    params: SearchParamsView,
    vector: Seq<PackageView>,
    full_text: Seq<PackageView>,
    k: int,
)
    requires
        k >= 0,
    ensures
        descending(candidates) ==> descending(
            page_of(filtered(candidates, params), params.offset, params.limit),
        ),
        descending(
            page_of(filtered(fused(vector, full_text, k), params), params.offset, params.limit),
        ),
{
    crate::fusion_laws::lemma_fused_is_ranked(vector, full_text, k);
    lemma_page_of_ranked(fused(vector, full_text, k), params);
    if descending(candidates) {
        lemma_page_of_ranked(candidates, params);
    }
}

/// The page of a list in descending order of score is in descending order.
proof fn lemma_page_of_ranked(candidates: Seq<PackageView>, params: SearchParamsView)
    requires
        descending(candidates),
    ensures
        descending(page_of(filtered(candidates, params), params.offset, params.limit)),
{
    crate::filter::lemma_filter_keeps_descending(candidates, params);
    let kept = filtered(candidates, params);
    let page = page_of(kept, params.offset, params.limit);
    assert forall|i: int, j: int| 0 <= i < j < page.len() implies !(
    #[trigger] page[i]).relevance_score.lt((#[trigger] page[j]).relevance_score) by {
        crate::page::lemma_page_is_a_run(kept, params.offset, params.limit, i);
        crate::page::lemma_page_is_a_run(kept, params.offset, params.limit, j);
    }
}

/// Every record of a page is a candidate that the filters keep.
pub proof fn lemma_page_records_are_candidates(
    candidates: Seq<PackageView>,
    params: SearchParamsView,
    i: int,
)
    requires
        0 <= i < page_of(filtered(candidates, params), params.offset, params.limit).len(),
    ensures
        candidates.contains(
            page_of(filtered(candidates, params), params.offset, params.limit)[i],
        ),
        crate::filter::retained(
            page_of(filtered(candidates, params), params.offset, params.limit)[i],
            params,
        ),
{
    let keep = |p: PackageView| crate::filter::retained(p, params);
    let kept = filtered(candidates, params);
    crate::page::lemma_page_is_a_run(kept, params.offset, params.limit, i);
    let at = crate::page::page_start(kept.len() as int, params.offset) + i;
    candidates.lemma_filter_pred(keep, at);
    assert(kept.contains(kept[at]));
    candidates.lemma_filter_contains_rev(keep, kept[at]);
}

/// Without embeddings a search runs on full text alone, whatever embedding
/// is handed in; and so it does where embeddings are enabled and the query
/// has none, or an empty one.
pub proof fn lemma_mode_without_embedding(embeddings_enabled: bool, embedding_len: Option<usize>)
    ensures
        !embeddings_enabled ==> mode_for(embeddings_enabled, embedding_len)
            == SearchMode::FullTextOnly,
        embedding_len is None ==> mode_for(embeddings_enabled, embedding_len)
            == SearchMode::FullTextOnly,
        embedding_len == Some(0usize) ==> mode_for(embeddings_enabled, embedding_len)
            == SearchMode::FullTextOnly,
        mode_for(embeddings_enabled, embedding_len) == SearchMode::Hybrid <==> embeddings_enabled
            && embedding_len is Some && embedding_len->0 > 0,
{
}

/// What a search on full text alone comes to: the tag of the full-text
/// answer, and a page whose records are records of that answer, in
/// descending order of score where the answer is.
pub proof fn lemma_full_text_search(
    r: Result<SearchResults, SearchError>,
    params: &SearchParams,
    rank_constant: u32,
    vector: Result<SearchResults, SearchError>,
    full_text: SearchResults,
    elapsed_ms: u64,
)
    requires
        search_outcome(
            r,
            params,
            SearchMode::FullTextOnly,
            rank_constant,
            vector,
            Ok(full_text),
            elapsed_ms,
        ),
        full_text.packages.len() <= MAX_RANKED,
    ensures
        r is Ok,
        r->Ok_0.search_type@ == full_text.search_type@,
        r->Ok_0.total_count == full_text.packages.len(),
        forall|i: int|
            0 <= i < r->Ok_0.packages.len() ==> views(full_text.packages@).contains(
                #[trigger] views(r->Ok_0.packages@)[i],
            ),
        descending(views(full_text.packages@)) ==> descending(views(r->Ok_0.packages@)),
{
    let answer = views(full_text.packages@);
    let page = views(r->Ok_0.packages@);
    assert forall|i: int| 0 <= i < r->Ok_0.packages.len() implies answer.contains(
        #[trigger] page[i],
    ) by {
        lemma_page_records_are_candidates(answer, params@, i);
    }
    if descending(answer) {
        lemma_page_of_ranked(answer, params@);
    }
}

/// What a hybrid search comes to where one record stands first in both
/// answers and the filters keep it: with a page that starts at the top, the
/// record is the first of the page, with the score `1/(k+1) + 1/(k+1)`, and
/// the tag is `"hybrid"`.
pub proof fn lemma_hybrid_top_hit(
    r: Result<SearchResults, SearchError>,
    params: &SearchParams,
    rank_constant: u32,
    vector: SearchResults,
    full_text: SearchResults,
    elapsed_ms: u64,
    id: Seq<char>,
)
    requires
        search_outcome(
            r,
            params,
            SearchMode::Hybrid,
            rank_constant,
            Ok(vector),
            Ok(full_text),
            elapsed_ms,
        ),
        rank_constant <= MAX_RANKED,
        fusable(views(vector.packages@), views(full_text.packages@)),
        ranks_at(views(vector.packages@), id, 0),
        ranks_at(views(full_text.packages@), id, 0),
        crate::filter::retained(views(vector.packages@)[0], params@),
        params.offset <= 0,
    ensures
        r is Ok,
        r->Ok_0.search_type@ == "hybrid"@,
        r->Ok_0.packages.len() > 0,
        views(r->Ok_0.packages@)[0].package_id == id,
        views(r->Ok_0.packages@)[0].relevance_score == (crate::score::Ratio {
            num: (rank_constant + 1) + (rank_constant + 1),
            den: (rank_constant + 1) * (rank_constant + 1),
        }),
{
    let first = views(vector.packages@);
    let second = views(full_text.packages@);
    let k = rank_constant as int;
    let ranked = fused(first, second, k);
    let keep = |p: PackageView| crate::filter::retained(p, params@);
    crate::fusion_laws::lemma_shared_top_hit(first, second, k, id);
    // The first fused record is the vector answer's first record with another score.
    let score = crate::fusion_laws::lemma_fused_top_is_first_record(first, second, k, id);
    assert(ranked[0] == first[0].with_score(score));
    assert(keep(ranked[0]));
    let rest = ranked.skip(1);
    assert(ranked =~= seq![ranked[0]] + rest);
    rest.lemma_filter_prepend(ranked[0], keep);
    let kept = filtered(ranked, params@);
    assert(kept[0] == ranked[0]);
    let page = page_of(kept, params.offset as int, params.limit as int);
    assert(page.len() > 0);
    assert(page[0] == kept[0]);
    assert(views(r->Ok_0.packages@).len() == r->Ok_0.packages.len());
}

/// `r` is the failure `QueryFailed` with the text `detail`.
pub open spec fn fails_with(r: Result<SearchResults, SearchError>, detail: Seq<char>) -> bool {
    &&& r matches Err(SearchError::QueryFailed(text))
    &&& text@ == detail
}

/// `r` is what a search comes to in `mode`, given the answers of the two
/// adapters.
pub open spec fn search_outcome(
    r: Result<SearchResults, SearchError>,
    params: &SearchParams,
    mode: SearchMode,
    rank_constant: u32,
    vector: Result<SearchResults, SearchError>,
    full_text: Result<SearchResults, SearchError>,
    elapsed_ms: u64,
) -> bool {
    match (mode, vector, full_text) {
        (SearchMode::Hybrid, Err(error), _) => r == Err::<SearchResults, SearchError>(error),
        (_, _, Err(error)) => r == Err::<SearchResults, SearchError>(error),
        (SearchMode::Hybrid, Ok(v), Ok(f)) => if v.packages.len() + f.packages.len() > MAX_RANKED
            || rank_constant > MAX_RANKED {
            fails_with(r, "too many rows"@)
        } else if !fusable(views(v.packages@), views(f.packages@)) {
            fails_with(r, "invalid identifiers"@)
        } else {
            completes(
                r,
                params,
                fused(views(v.packages@), views(f.packages@), rank_constant as int),
                "hybrid"@,
                elapsed_ms,
            )
        },
        (SearchMode::FullTextOnly, _, Ok(f)) => if f.packages.len() <= MAX_RANKED {
            completes(r, params, views(f.packages@), f.search_type@, elapsed_ms)
        } else {
            fails_with(r, "too many rows"@)
        },
    }
}

/// Turns the answers of the adapters into the result of the search.
///
/// - A failure of an adapter fails the search with that error; in hybrid
///   mode the vector adapter's takes precedence. The vector answer is not
///   looked at in full-text mode.
/// - More candidates than [`MAX_RANKED`], and a rank constant above it,
///   fail the search with `QueryFailed` and the text `too many rows`. In
///   hybrid mode, lists that cannot be fused (see [`fusable`]) fail it with
///   `QueryFailed` and the text `invalid identifiers`.
/// - Otherwise the candidates are filtered and paged. The total is the
///   number of candidates before the filters, the time is `elapsed_ms`.
pub fn complete_search(
    params: &SearchParams,
    mode: SearchMode,
    rank_constant: u32,
    vector: Result<SearchResults, SearchError>,
    full_text: Result<SearchResults, SearchError>,
    elapsed_ms: u64,
) -> (r: Result<SearchResults, SearchError>)
    ensures
        search_outcome(r, params, mode, rank_constant, vector, full_text, elapsed_ms),
{
    match mode {
        SearchMode::Hybrid => {
            let v = match vector {
                Ok(v) => v,
                Err(error) => {
                    return Err(error);
                },
            };
            let f = match full_text {
                Ok(f) => f,
                Err(error) => {
                    return Err(error);
                },
            };
            if v.packages.len() > MAX_RANKED || f.packages.len() > MAX_RANKED - v.packages.len()
                || rank_constant > MAX_RANKED as u32 {
                return Err(SearchError::QueryFailed(String::from_str("too many rows")));
            }
            if !has_valid_identifiers(&v.packages) || !has_valid_identifiers(&f.packages) {
                return Err(SearchError::QueryFailed(String::from_str("invalid identifiers")));
            }
            let candidates = reciprocal_rank_fusion(&v.packages, &f.packages, rank_constant);
            Ok(finish(params, candidates, String::from_str("hybrid"), elapsed_ms))
        },
        SearchMode::FullTextOnly => {
            let f = match full_text {
                Ok(f) => f,
                Err(error) => {
                    return Err(error);
                },
            };
            if f.packages.len() > MAX_RANKED {
                return Err(SearchError::QueryFailed(String::from_str("too many rows")));
            }
            Ok(finish(params, f.packages, f.search_type, elapsed_ms))
        },
    }
}

/// `r` is the result of a search with the given candidates: their page
/// after the filters, their number, the tag and the time.
pub open spec fn completes(
    r: Result<SearchResults, SearchError>,
    params: &SearchParams,
    candidates: Seq<PackageView>,
    tag: Seq<char>,
    elapsed_ms: u64,
) -> bool {
    completes_with_total(r, params, candidates, candidates.len() as int, tag, elapsed_ms)
}

/// `r` is the result of a search with the given candidates and the given
/// number of matches: the page of the candidates after the filters, the
/// number, the tag and the time.
pub open spec fn completes_with_total(
    r: Result<SearchResults, SearchError>,
    params: &SearchParams,
    candidates: Seq<PackageView>,
    total: int,
    tag: Seq<char>,
    elapsed_ms: u64,
) -> bool {
    &&& r matches Ok(results)
    &&& views(results.packages@) == page_of(
        filtered(candidates, params@),
        params.offset as int,
        params.limit as int,
    )
    &&& results.total_count == total
    &&& results.search_type@ == tag
    &&& results.query_time_ms == elapsed_ms
}

/// Filters and pages the candidates and attaches their number, the tag and
/// the time.
pub fn finish(params: &SearchParams, candidates: Vec<Package>, tag: String, elapsed_ms: u64) -> (r:
    SearchResults)
    requires
        candidates.len() <= MAX_RANKED,
    ensures
        completes(Ok(r), params, views(candidates@), tag@, elapsed_ms),
{
    let total_count: i32 = candidates.len() as i32;
    finish_with_total(params, candidates, total_count, tag, elapsed_ms)
}

/// Filters and pages the candidates and attaches the number of matches, the
/// tag and the time.
pub fn finish_with_total(
    params: &SearchParams,
    candidates: Vec<Package>,
    total_count: i32,
    tag: String,
    elapsed_ms: u64,
) -> (r: SearchResults)
    ensures
        completes_with_total(
            Ok(r),
            params,
            views(candidates@),
            total_count as int,
            tag@,
            elapsed_ms,
        ),
{
    let kept = post_filter(&candidates, params);
    let page = paginate(kept, params.offset, params.limit);
    SearchResults { packages: page, total_count, query_time_ms: elapsed_ms, search_type: tag }
}

} // verus!
