//! The full-text adapter: a lexical query with a substring fallback.
//!
//! The adapter decides; the caller runs the engine. [`full_text_step`] takes
//! what the engine answered and says what to do next: ask the index, ask for
//! substring matches because the index failed, hand back a ranked list, or
//! give up because the fallback failed too.
//!
//! What the adapter hands back does not rest on the engine's order. Rows of
//! the index are ranked by descending score. Rows of the fallback are held
//! to the rule of the fallback: only rows whose name or description holds
//! the query, case ignored; rows whose name holds it first; rows of one kind
//! by name, in the byte order of their UTF-8 form; and scores that fall by a
//! fixed step from rank to rank. Rows that tie stay in the engine's order.

use crate::error::SearchError;
use crate::fusion::{rank_by_score, rank_records, MAX_RANKED};
use crate::fusion_laws::descending;
use crate::package::{views, Package, PackageView, SearchResults};
use crate::score::{Ratio, Score};
use crate::text::{bytes_before, comes_before, contains_ignoring_case, lowercase, text_contains};
use vstd::prelude::*;
use vstd::string::StringExecFns;
use vstd::utf8::encode_utf8;

verus! {

/// How many ranks make up one whole point of a synthetic score.
pub const FALLBACK_STEPS: u32 = 10;

/// The synthetic score of the substring match at `rank`: one whole point
/// less a tenth for every rank.
pub open spec fn fallback_score(rank: int) -> Ratio {
    Ratio { num: FALLBACK_STEPS as int - rank, den: FALLBACK_STEPS as int }
}

/// `rows` in their order, each with the synthetic score of its rank.
pub open spec fn with_fallback_scores(rows: Seq<PackageView>) -> Seq<PackageView> {
    Seq::new(rows.len(), |i: int| rows[i].with_score(fallback_score(i)))
}

/// The name of the record holds the query, case ignored.
pub open spec fn name_matches(p: PackageView, query: Seq<char>) -> bool {
    text_contains(lowercase(p.package_name), lowercase(query))
}

/// The name or the description of the record holds the query, case ignored.
pub open spec fn substring_match(p: PackageView, query: Seq<char>) -> bool {
    name_matches(p, query) || text_contains(lowercase(p.description), lowercase(query))
}

/// `a` goes before `b` in a fallback answer: `a` matches by name and `b`
/// does not, or both are of one kind and the name of `a` comes first.
pub open spec fn precedes(a: PackageView, b: PackageView, query: Seq<char>) -> bool {
    if name_matches(a, query) == name_matches(b, query) {
        bytes_before(encode_utf8(a.package_name), encode_utf8(b.package_name))
    } else {
        name_matches(a, query)
    }
}

/// `ordered` with `p` put before every record that `p` goes before, and
/// behind the others.
pub open spec fn insert_match(ordered: Seq<PackageView>, p: PackageView, query: Seq<char>) -> Seq<
    PackageView,
>
    decreases ordered.len(),
{
    if ordered.len() > 0 && precedes(p, ordered.last(), query) {
        insert_match(ordered.drop_last(), p, query).push(ordered.last())
    } else {
        ordered.push(p)
    }
}

/// `list` in the order of a fallback answer; records that tie stay in the
/// order they have in `list`.
pub open spec fn order_matches(list: Seq<PackageView>, query: Seq<char>) -> Seq<PackageView>
    decreases list.len(),
{
    if list.len() == 0 {
        Seq::empty()
    } else {
        insert_match(order_matches(list.drop_last(), query), list.last(), query)
    }
}

/// The rows that match the query, in order.
pub open spec fn matches_of(rows: Seq<PackageView>, query: Seq<char>) -> Seq<PackageView> {
    rows.filter(|p: PackageView| substring_match(p, query))
}

/// The fallback answer that `rows` make for `query`: the matching rows in
/// fallback order, each with the synthetic score of its rank.
pub open spec fn fallback_ranking(rows: Seq<PackageView>, query: Seq<char>) -> Seq<PackageView> {
    with_fallback_scores(order_matches(matches_of(rows, query), query))
}

/// Whether the name of the record holds the query, case ignored.
pub fn is_name_match(record: &Package, query: &str) -> (r: bool)
    ensures
        r == name_matches(record@, query@),
{
    contains_ignoring_case(record.package_name.as_str(), query)
}

/// Whether the name or the description of the record holds the query, case
/// ignored.
pub fn is_substring_match(record: &Package, query: &str) -> (r: bool)
    ensures
        r == substring_match(record@, query@),
{
    is_name_match(record, query) || contains_ignoring_case(record.description.as_str(), query)
}

/// Whether `a` goes before `b` in a fallback answer.
pub fn goes_before(a: &Package, b: &Package, query: &str) -> (r: bool)
    ensures
        r == precedes(a@, b@, query@),
{
    let a_by_name = is_name_match(a, query);
    let b_by_name = is_name_match(b, query);
    if a_by_name == b_by_name {
        comes_before(a.package_name.as_str().as_bytes(), b.package_name.as_str().as_bytes())
    } else {
        a_by_name
    }
}

/// Where `p` goes: before the records that it goes before, which close the
/// list.
pub proof fn lemma_insert_match_position(
    ordered: Seq<PackageView>,
    p: PackageView,
    query: Seq<char>,
    pos: int,
)
    requires
        0 <= pos <= ordered.len(),
        forall|i: int| pos <= i < ordered.len() ==> precedes(p, ordered[i], query),
        pos > 0 ==> !precedes(p, ordered[pos - 1], query),
    ensures
        insert_match(ordered, p, query) == ordered.insert(pos, p),
    decreases ordered.len() - pos,
{
    if pos == ordered.len() {
        assert(ordered.push(p) =~= ordered.insert(pos, p));
    } else {
        let rest = ordered.drop_last();
        lemma_insert_match_position(rest, p, query, pos);
        assert(rest.insert(pos, p).push(ordered.last()) =~= ordered.insert(pos, p));
    }
}

/// Puts `record` into a list in fallback order.
pub fn insert_in_order(ordered: &mut Vec<Package>, record: Package, query: &str)
    ensures
        views(final(ordered)@) == insert_match(views(old(ordered)@), record@, query@),
        final(ordered).len() == old(ordered).len() + 1,
{
    let mut pos: usize = ordered.len();
    while pos > 0 && goes_before(&record, &ordered[pos - 1], query)
        invariant
            pos <= ordered.len(),
            *ordered == *old(ordered),
            forall|i: int|
                pos <= i < ordered.len() ==> precedes(record@, views(ordered@)[i], query@),
        decreases pos,
    {
        pos -= 1;
    }
    proof {
        lemma_insert_match_position(views(ordered@), record@, query@, pos as int);
        assert(views(ordered@.insert(pos as int, record)) =~= views(ordered@).insert(
            pos as int,
            record@,
        ));
    }
    ordered.insert(pos, record);
}

/// Makes the fallback answer of `rows` for `query`.
pub fn rank_fallback(rows: Vec<Package>, query: &str) -> (out: Vec<Package>)
    requires
        rows.len() <= MAX_RANKED,
    ensures
        views(out@) == fallback_ranking(views(rows@), query@),
        out.len() <= rows.len(),
{
    let ghost all = views(rows@);
    let ghost matching = |p: PackageView| substring_match(p, query@);
    let mut ordered: Vec<Package> = Vec::new();
    assert(all.take(0).filter(matching) =~= Seq::empty()) by {
        reveal(Seq::filter);
    }
    for record in it: rows
        invariant
            views(it.seq()) == all,
            matching == |p: PackageView| substring_match(p, query@),
            views(ordered@) == order_matches(all.take(it.index() as int).filter(matching), query@),
            ordered.len() <= it.index(),
    {
        let ghost kept = all.take(it.index() as int).filter(matching);
        proof {
            let i = it.index() as int;
            assert(all.take(i + 1) =~= all.take(i).push(all[i]));
            all.take(i).lemma_filter_push(all[i], matching);
            assert(all[i] == record@);
        }
        if is_substring_match(&record, query) {
            proof {
                assert(kept.push(record@).drop_last() =~= kept);
            }
            insert_in_order(&mut ordered, record, query);
        }
    }
    assert(all.take(all.len() as int) =~= all);
    assign_fallback_scores(&ordered)
}

/// The synthetic score of the substring match at `rank`.
pub fn synthetic_score(rank: usize) -> (r: Score)
    requires
        rank <= MAX_RANKED,
    ensures
        r@ == fallback_score(rank as int),
        r.wf(),
{
    Score { num: FALLBACK_STEPS as i64 - rank as i64, den: FALLBACK_STEPS as u64 }
}

/// Gives every row the synthetic score of its rank.
pub fn assign_fallback_scores(rows: &Vec<Package>) -> (out: Vec<Package>)
    requires
        rows.len() <= MAX_RANKED,
    ensures
        views(out@) == with_fallback_scores(views(rows@)),
        out.len() == rows.len(),
{
    let mut out: Vec<Package> = Vec::new();
    let mut i: usize = 0;
    while i < rows.len()
        invariant
            i <= rows.len(),
            rows.len() <= MAX_RANKED,
            out.len() == i,
            forall|j: int|
                0 <= j < i ==> (#[trigger] out[j])@ == rows[j]@.with_score(fallback_score(j)),
        decreases rows.len() - i,
    {
        out.push(rows[i].with_score(synthetic_score(i)));
        i += 1;
    }
    assert(views(out@) =~= with_fallback_scores(views(rows@)));
    out
}

/// Synthetic scores fall strictly from rank to rank: no two ranks tie.
pub proof fn lemma_fallback_scores_fall(i: int, j: int)
    requires
        0 <= i < j,
    ensures
        fallback_score(j).lt(fallback_score(i)),
        fallback_score(i).wf(),
{
    let steps = FALLBACK_STEPS as int;
    assert((steps - j) * steps < (steps - i) * steps) by (nonlinear_arith)
        requires
            i < j,
            steps > 0,
    ;
}

/// A list with synthetic scores is in strictly descending order of score,
/// so ranking it by score leaves it as it is.
pub proof fn lemma_fallback_order_is_kept(rows: Seq<PackageView>)
    ensures
        forall|i: int, j: int|
            0 <= i < j < rows.len() ==> (#[trigger] with_fallback_scores(
                rows,
            )[j]).relevance_score.lt((#[trigger] with_fallback_scores(rows)[i]).relevance_score),
        descending(with_fallback_scores(rows)),
        crate::fusion::rank_by_score(with_fallback_scores(rows)) == with_fallback_scores(rows),
{
    let scored = with_fallback_scores(rows);
    assert forall|i: int, j: int| 0 <= i < j < rows.len() implies (#[trigger] scored[j]).relevance_score.lt(
        (#[trigger] scored[i]).relevance_score,
    ) by {
        lemma_fallback_scores_fall(i, j);
    }
    assert forall|i: int, j: int| 0 <= i < j < scored.len() implies !(#[trigger] scored[i]).relevance_score.lt(
        (#[trigger] scored[j]).relevance_score,
    ) by {
        lemma_fallback_scores_fall(i, j);
    }
    crate::fusion_laws::lemma_descending_stays(scored);
}

/// Where the adapter stands.
#[derive(Debug, Clone, PartialEq, Eq)]
pub enum FullTextState {
    /// Nothing was asked yet.
    Ready,
    /// The index was asked for `query`.
    AwaitingIndex { query: String },
    /// The index failed; substring matches of `query` were asked for.
    AwaitingSubstring { query: String },
    /// The search is over.
    Finished,
}

/// What happened.
#[derive(Debug, Clone, PartialEq, Eq)]
pub enum FullTextEvent {
    /// A caller asks for `query`.
    Query(String),
    /// The engine answered with rows, best first.
    Rows(Vec<Package>),
    /// The engine failed.
    Failure(String),
}

/// What to do next.
#[derive(Debug, Clone, PartialEq, Eq)]
pub enum FullTextAction {
    /// Run the lexical query on the index.
    SearchIndex { query: String },
    /// Run the substring query.
    SearchSubstring { query: String },
    /// Hand the results back.
    Return(SearchResults),
    /// Fail with the error.
    Fail(SearchError),
}

/// `action` hands back `rows` under `tag`, with their count as the total.
pub open spec fn returns_rows(action: FullTextAction, rows: Seq<PackageView>, tag: Seq<char>) -> bool {
    &&& action matches FullTextAction::Return(results)
    &&& views(results.packages@) == rows
    &&& results.total_count == rows.len()
    &&& results.query_time_ms == 0
    &&& results.search_type@ == tag
}

/// `action` fails with `QueryFailed` and the text `detail`.
pub open spec fn fails_query(action: FullTextAction, detail: Seq<char>) -> bool {
    &&& action matches FullTextAction::Fail(SearchError::QueryFailed(text))
    &&& text@ == detail
}

/// The results of an adapter run: `packages` under `tag`.
fn adapter_results(packages: Vec<Package>, tag: &str) -> (r: SearchResults)
    requires
        packages.len() <= MAX_RANKED,
    ensures
        r.packages == packages,
        r.total_count == packages.len(),
        r.query_time_ms == 0,
        r.search_type@ == tag@,
{
    let total_count: i32 = packages.len() as i32;
    SearchResults { packages, total_count, query_time_ms: 0, search_type: String::from_str(tag) }
}

/// One step of the full-text adapter.
///
/// - Asked for the empty query, it returns the empty list under `"fts"`.
/// - Asked for another query, it has the index searched.
/// - Rows from the index are returned under `"fts"`, ranked by descending
///   score.
/// - A failure of the index has the substring query run.
/// - Rows from the substring query are returned under `"fallback"`: those
///   that match the query, in fallback order, each with the synthetic score
///   of its rank.
/// - A failure of the substring query fails the search with `QueryFailed`
///   and the engine's words.
/// - More rows than [`MAX_RANKED`], or an event that the state does not
///   wait for, fail the search with `QueryFailed`.
pub fn full_text_step(state: FullTextState, event: FullTextEvent) -> (next: (
    FullTextState,
    FullTextAction,
))
    ensures
        match (state, event) {
            (FullTextState::Ready, FullTextEvent::Query(query)) => if query@.len() == 0 {
                next.0 is Finished && returns_rows(next.1, Seq::empty(), "fts"@)
            } else {
                &&& next.0 matches FullTextState::AwaitingIndex { query: kept }
                &&& kept@ == query@
                &&& next.1 matches FullTextAction::SearchIndex { query: asked }
                &&& asked@ == query@
            },
            (FullTextState::AwaitingIndex { query }, FullTextEvent::Rows(rows)) => {
                &&& next.0 is Finished
                &&& if rows.len() <= MAX_RANKED {
                    returns_rows(next.1, rank_by_score(views(rows@)), "fts"@)
                } else {
                    fails_query(next.1, "too many rows"@)
                }
            },
            (FullTextState::AwaitingIndex { query }, FullTextEvent::Failure(_)) => {
                &&& next.0 matches FullTextState::AwaitingSubstring { query: kept }
                &&& kept@ == query@
                &&& next.1 matches FullTextAction::SearchSubstring { query: asked }
                &&& asked@ == query@
            },
            (FullTextState::AwaitingSubstring { query }, FullTextEvent::Rows(rows)) => {
                &&& next.0 is Finished
                &&& if rows.len() <= MAX_RANKED {
                    returns_rows(next.1, fallback_ranking(views(rows@), query@), "fallback"@)
                } else {
                    fails_query(next.1, "too many rows"@)
                }
            },
            (FullTextState::AwaitingSubstring { query }, FullTextEvent::Failure(detail)) => {
                &&& next.0 is Finished
                &&& fails_query(next.1, detail@)
            },
            _ => next.0 is Finished && fails_query(next.1, "unexpected event"@),
        },
{
    match (state, event) {
        (FullTextState::Ready, FullTextEvent::Query(query)) => {
            if query.as_str().is_empty() {
                let results = adapter_results(Vec::new(), "fts");
                assert(views(results.packages@) =~= Seq::empty());
                (FullTextState::Finished, FullTextAction::Return(results))
            } else {
                let asked = query.clone();
                (FullTextState::AwaitingIndex { query }, FullTextAction::SearchIndex { query: asked })
            }
        },
        (FullTextState::AwaitingIndex { query }, FullTextEvent::Rows(rows)) => {
            if rows.len() <= MAX_RANKED {
                let ranked = rank_records(rows);
                (FullTextState::Finished, FullTextAction::Return(adapter_results(ranked, "fts")))
            } else {
                (FullTextState::Finished, too_many_rows())
            }
        },
        (FullTextState::AwaitingIndex { query }, FullTextEvent::Failure(_)) => {
            let asked = query.clone();
            (
                FullTextState::AwaitingSubstring { query },
                FullTextAction::SearchSubstring { query: asked },
            )
        },
        (FullTextState::AwaitingSubstring { query }, FullTextEvent::Rows(rows)) => {
            if rows.len() <= MAX_RANKED {
                let scored = rank_fallback(rows, query.as_str());
                (FullTextState::Finished, FullTextAction::Return(adapter_results(scored, "fallback")))
            } else {
                (FullTextState::Finished, too_many_rows())
            }
        },
        (FullTextState::AwaitingSubstring { query }, FullTextEvent::Failure(detail)) => {
            (FullTextState::Finished, FullTextAction::Fail(SearchError::QueryFailed(detail)))
        },
        _ => (
            FullTextState::Finished,
            FullTextAction::Fail(SearchError::QueryFailed(String::from_str("unexpected event"))),
        ),
    }
}

/// `next` is the first step of a full-text search for `query`.
pub open spec fn starts_full_text(
    next: (FullTextState, FullTextAction),
    connected: bool,
    query: Seq<char>,
) -> bool {
    if !connected {
        next.0 is Finished && next.1 == FullTextAction::Fail(SearchError::NotInitialized)
    } else if query.len() == 0 {
        next.0 is Finished && returns_rows(next.1, Seq::empty(), "fts"@)
    } else {
        &&& next.0 matches FullTextState::AwaitingIndex { query: kept }
        &&& kept@ == query
        &&& next.1 matches FullTextAction::SearchIndex { query: asked }
        &&& asked@ == query
    }
}

/// The first step of a full-text search: a store that was never opened
/// fails it with `NotInitialized`, and else the adapter takes the query.
pub fn start_full_text(connected: bool, query: String) -> (next: (FullTextState, FullTextAction))
    ensures
        starts_full_text(next, connected, query@),
{
    if !connected {
        (FullTextState::Finished, FullTextAction::Fail(SearchError::NotInitialized))
    } else {
        full_text_step(FullTextState::Ready, FullTextEvent::Query(query))
    }
}

/// The failure for an answer with more rows than can be ranked.
fn too_many_rows() -> (r: FullTextAction)
    ensures
        fails_query(r, "too many rows"@),
{
    FullTextAction::Fail(SearchError::QueryFailed(String::from_str("too many rows")))
}

} // verus!
