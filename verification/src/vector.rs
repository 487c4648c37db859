//! The vector adapter: nearest-neighbour rows turned into ranked records.
//!
//! The engine reports a distance for every row; the adapter turns it into a
//! similarity between zero and one that falls as the distance grows. The
//! engine's order is kept: it is the authority on distances.
//!
//! An engine hands its rows over in column batches. The number column of a
//! batch is a distance or a score, by its name: see [`choose_score_column`].
//! A distance becomes a similarity; a score is taken as it is.

use crate::error::SearchError;
use crate::fusion::MAX_RANKED;
use crate::package::{views, Package, PackageView, SearchResults};
use crate::score::{Ratio, Score};
use vstd::prelude::*;
use vstd::string::StringExecFns;

verus! {

/// How many ranks make up one whole point of the score of an unscored row.
pub const UNSCORED_STEPS: u32 = 1000;

/// The similarity for the distance `value / scale`: `1 / (1 + d)` for a
/// positive distance `d`, and one otherwise.
pub open spec fn similarity(value: int, scale: int) -> Ratio {
    if value > 0 {
        Ratio { num: scale, den: scale + value }
    } else {
        Ratio::whole(1)
    }
}

/// The score of the row at `rank` of an answer without scores: one whole
/// point less a thousandth for every rank.
pub open spec fn unscored_score(rank: int) -> Ratio {
    Ratio { num: UNSCORED_STEPS as int - rank, den: UNSCORED_STEPS as int }
}

/// For a positive distance `d = value / scale` the similarity is the
/// inverse of `1 + d`.
pub proof fn lemma_similarity_is_inverse(value: int, scale: int)
    requires
        value > 0,
        scale > 0,
    ensures
        similarity(value, scale) == Ratio::whole(1).plus(Ratio { num: value, den: scale }).inverse(),
{
}

/// A similarity is above zero and at most one.
pub proof fn lemma_similarity_is_bounded(value: int, scale: int)
    requires
        scale > 0,
    ensures
        similarity(value, scale).wf(),
        Ratio::whole(0).lt(similarity(value, scale)),
        similarity(value, scale).le(Ratio::whole(1)),
{
}

/// A larger distance never gives a larger similarity.
pub proof fn lemma_similarity_falls(near: int, far: int, scale: int)
    requires
        scale > 0,
        near <= far,
    ensures
        similarity(far, scale).le(similarity(near, scale)),
        0 < near < far ==> similarity(far, scale).lt(similarity(near, scale)),
{
    if far > 0 {
        if near > 0 {
            assert(scale * (scale + near) <= scale * (scale + far)) by (nonlinear_arith)
                requires
                    scale > 0,
                    near <= far,
            ;
            if near < far {
                assert(scale * (scale + near) < scale * (scale + far)) by (nonlinear_arith)
                    requires
                        scale > 0,
                        near < far,
                ;
            }
        } else {
            assert(scale * 1 <= 1 * (scale + far));
        }
    }
}

/// What the numbers of a column mean.
#[derive(Debug, Clone, Copy, PartialEq, Eq, Structural)]
pub enum ScoreKind {
    /// How far a row is from the query: less is better.
    Distance,
    /// How well a row matches the query: more is better.
    Score,
}

/// How wide the numbers of a column are.
#[derive(Debug, Clone, Copy, PartialEq, Eq, Structural)]
pub enum ColumnWidth {
    /// Single precision.
    Single,
    /// Double precision.
    Double,
}

/// The columns in which an engine may report a number for every row.
#[derive(Debug, Clone, Copy, PartialEq, Eq, Structural)]
pub enum ScoreSource {
    /// The column `_distance`.
    Distance,
    /// The column `_score`.
    EngineScore,
    /// The column `score`.
    PlainScore,
    /// The column `_relevance`.
    Relevance,
}

impl ScoreSource {
    /// The name of the column.
    pub open spec fn name(self) -> Seq<char> {
        match self {
            ScoreSource::Distance => "_distance"@,
            ScoreSource::EngineScore => "_score"@,
            ScoreSource::PlainScore => "score"@,
            ScoreSource::Relevance => "_relevance"@,
        }
    }

    /// What the numbers of the column mean: `_distance` holds distances,
    /// every other column holds scores.
    pub open spec fn meaning(self) -> ScoreKind {
        match self {
            ScoreSource::Distance => ScoreKind::Distance,
            _ => ScoreKind::Score,
        }
    }

    /// The name of the column.
    pub fn column_name(&self) -> (r: &'static str)
        ensures
            r@ == self.name(),
    {
        match self {
            ScoreSource::Distance => "_distance",
            ScoreSource::EngineScore => "_score",
            ScoreSource::PlainScore => "score",
            ScoreSource::Relevance => "_relevance",
        }
    }

    /// What the numbers of the column mean.
    pub fn kind(&self) -> (r: ScoreKind)
        ensures
            r == self.meaning(),
    {
        match self {
            ScoreSource::Distance => ScoreKind::Distance,
            _ => ScoreKind::Score,
        }
    }
}

/// The first of the four columns, in the order `_distance`, `_score`,
/// `score`, `_relevance`, that is there in the width `width`.
pub open spec fn first_of_width(
    distance: Option<ColumnWidth>,
    engine_score: Option<ColumnWidth>,
    plain_score: Option<ColumnWidth>,
    relevance: Option<ColumnWidth>,
    width: ColumnWidth,
) -> Option<ScoreSource> {
    if distance == Some(width) {
        Some(ScoreSource::Distance)
    } else if engine_score == Some(width) {
        Some(ScoreSource::EngineScore)
    } else if plain_score == Some(width) {
        Some(ScoreSource::PlainScore)
    } else if relevance == Some(width) {
        Some(ScoreSource::Relevance)
    } else {
        None
    }
}

/// The column that gives a batch its numbers: the first of the four that is
/// there in single precision, or where none is, the first that is there in
/// double precision.
pub open spec fn chosen_column(
    distance: Option<ColumnWidth>,
    engine_score: Option<ColumnWidth>,
    plain_score: Option<ColumnWidth>,
    relevance: Option<ColumnWidth>,
) -> Option<(ScoreSource, ColumnWidth)> {
    match first_of_width(distance, engine_score, plain_score, relevance, ColumnWidth::Single) {
        Some(source) => Some((source, ColumnWidth::Single)),
        None => match first_of_width(
            distance,
            engine_score,
            plain_score,
            relevance,
            ColumnWidth::Double,
        ) {
            Some(source) => Some((source, ColumnWidth::Double)),
            None => None,
        },
    }
}

/// Whether a column is there in the width `width`.
fn has_width(column: Option<ColumnWidth>, width: ColumnWidth) -> (r: bool)
    ensures
        r == (column == Some(width)),
{
    match (column, width) {
        (Some(ColumnWidth::Single), ColumnWidth::Single) => true,
        (Some(ColumnWidth::Double), ColumnWidth::Double) => true,
        _ => false,
    }
}

/// The first of the four columns that is there in the width `width`.
fn first_with_width(
    distance: Option<ColumnWidth>,
    engine_score: Option<ColumnWidth>,
    plain_score: Option<ColumnWidth>,
    relevance: Option<ColumnWidth>,
    width: ColumnWidth,
) -> (r: Option<ScoreSource>)
    ensures
        r == first_of_width(distance, engine_score, plain_score, relevance, width),
{
    if has_width(distance, width) {
        Some(ScoreSource::Distance)
    } else if has_width(engine_score, width) {
        Some(ScoreSource::EngineScore)
    } else if has_width(plain_score, width) {
        Some(ScoreSource::PlainScore)
    } else if has_width(relevance, width) {
        Some(ScoreSource::Relevance)
    } else {
        None
    }
}

/// Says which column gives a batch its numbers, given for each of the
/// columns `_distance`, `_score`, `score` and `_relevance` whether it is
/// there as a column of numbers, and how wide.
pub fn choose_score_column(
    distance: Option<ColumnWidth>,
    engine_score: Option<ColumnWidth>,
    plain_score: Option<ColumnWidth>,
    relevance: Option<ColumnWidth>,
) -> (r: Option<(ScoreSource, ColumnWidth)>)
    ensures
        r == chosen_column(distance, engine_score, plain_score, relevance),
{
    match first_with_width(distance, engine_score, plain_score, relevance, ColumnWidth::Single) {
        Some(source) => Some((source, ColumnWidth::Single)),
        None => match first_with_width(
            distance,
            engine_score,
            plain_score,
            relevance,
            ColumnWidth::Double,
        ) {
            Some(source) => Some((source, ColumnWidth::Double)),
            None => None,
        },
    }
}

/// A column of numbers in fixed point: row `i` holds `values[i] / scale`, or
/// nothing. `kind` says whether the numbers are distances or scores.
#[derive(Debug, Clone, PartialEq, Eq)]
pub struct ScoreColumn {
    pub kind: ScoreKind,
    pub scale: u32,
    pub values: Vec<Option<i64>>,
}

/// The rows of one answer of the engine, column by column. A column that the
/// answer lacks is `None`.
#[derive(Debug, Clone, PartialEq, Eq)]
pub struct RowBatch {
    pub num_rows: usize,
    pub package_id: Option<Vec<String>>,
    pub package_name: Option<Vec<String>>,
    pub version: Option<Vec<String>>,
    pub description: Option<Vec<String>>,
    pub homepage: Option<Vec<String>>,
    pub license: Option<Vec<String>>,
    pub attribute_path: Option<Vec<String>>,
    pub category: Option<Vec<String>>,
    pub broken: Option<Vec<Option<bool>>>,
    pub unfree: Option<Vec<Option<bool>>>,
    pub available: Option<Vec<Option<bool>>>,
    pub scores: Option<ScoreColumn>,
}

/// A column that is present has one entry for every row.
pub open spec fn column_fits<T>(column: Option<Vec<T>>, num_rows: usize) -> bool {
    column matches Some(c) ==> c.len() == num_rows
}

/// The text of row `i` of a column, or `absent` where the answer lacks the
/// column.
pub open spec fn text_at(column: Option<Vec<String>>, i: int, absent: Seq<char>) -> Seq<char> {
    match column {
        Some(c) => c[i]@,
        None => absent,
    }
}

/// The flag of row `i` of a column, or `absent` where the answer lacks the
/// column or the row holds nothing.
pub open spec fn flag_at(column: Option<Vec<Option<bool>>>, i: int, absent: bool) -> bool {
    match column {
        Some(c) => match c[i] {
            Some(flag) => flag,
            None => absent,
        },
        None => absent,
    }
}

/// The relevance for the number `value / scale` of a column: the similarity
/// for a distance, and the number itself for a score.
pub open spec fn relevance(kind: ScoreKind, value: int, scale: int) -> Ratio {
    match kind {
        ScoreKind::Distance => similarity(value, scale),
        ScoreKind::Score => Ratio { num: value, den: scale },
    }
}

/// The score of row `i`: the relevance for its number, one where the row
/// holds no number, and the score of its rank where the answer has no
/// column of numbers at all.
pub open spec fn score_at(column: Option<ScoreColumn>, i: int) -> Ratio {
    match column {
        Some(c) => match c.values[i] {
            Some(value) => relevance(c.kind, value as int, c.scale as int),
            None => Ratio::whole(1),
        },
        None => unscored_score(i),
    }
}

impl RowBatch {
    /// Every column that is present has `num_rows` entries, there are no
    /// more rows than can be ranked, and the numbers have a positive scale.
    pub open spec fn wf(self) -> bool {
        &&& self.num_rows <= MAX_RANKED
        &&& column_fits(self.package_id, self.num_rows)
        &&& column_fits(self.package_name, self.num_rows)
        &&& column_fits(self.version, self.num_rows)
        &&& column_fits(self.description, self.num_rows)
        &&& column_fits(self.homepage, self.num_rows)
        &&& column_fits(self.license, self.num_rows)
        &&& column_fits(self.attribute_path, self.num_rows)
        &&& column_fits(self.category, self.num_rows)
        &&& column_fits(self.broken, self.num_rows)
        &&& column_fits(self.unfree, self.num_rows)
        &&& column_fits(self.available, self.num_rows)
        &&& (self.scores matches Some(c) ==> c.values.len() == self.num_rows && c.scale > 0)
    }

    /// The record of row `i`. A missing text column gives the empty text,
    /// but for the category, which is then `"misc"`. A row counts as broken
    /// or unfree only where the answer says so, and as available unless the
    /// answer says otherwise. No row has extended fields.
    pub open spec fn record_at(self, i: int) -> PackageView {
        PackageView {
            package_id: text_at(self.package_id, i, Seq::empty()),
            package_name: text_at(self.package_name, i, Seq::empty()),
            version: text_at(self.version, i, Seq::empty()),
            description: text_at(self.description, i, Seq::empty()),
            homepage: text_at(self.homepage, i, Seq::empty()),
            license: text_at(self.license, i, Seq::empty()),
            attribute_path: text_at(self.attribute_path, i, Seq::empty()),
            category: text_at(self.category, i, "misc"@),
            broken: flag_at(self.broken, i, false),
            unfree: flag_at(self.unfree, i, false),
            available: flag_at(self.available, i, true),
            relevance_score: score_at(self.scores, i),
            maintainers: None,
            platforms: None,
            long_description: None,
            main_program: None,
            position: None,
            outputs_to_install: None,
            last_updated: None,
        }
    }

    /// The records of all rows, in the engine's order.
    pub open spec fn records(self) -> Seq<PackageView> {
        Seq::new(self.num_rows as nat, |i: int| self.record_at(i))
    }

    /// Whether the batch is well formed.
    pub fn is_well_formed(&self) -> (r: bool)
        ensures
            r == self.wf(),
    {
        self.num_rows <= MAX_RANKED && fits(&self.package_id, self.num_rows) && fits(
            &self.package_name,
            self.num_rows,
        ) && fits(&self.version, self.num_rows) && fits(&self.description, self.num_rows) && fits(
            &self.homepage,
            self.num_rows,
        ) && fits(&self.license, self.num_rows) && fits(&self.attribute_path, self.num_rows)
            && fits(&self.category, self.num_rows) && fits(&self.broken, self.num_rows) && fits(
            &self.unfree,
            self.num_rows,
        ) && fits(&self.available, self.num_rows) && match &self.scores {
            Some(c) => c.values.len() == self.num_rows && c.scale > 0,
            None => true,
        }
    }

    /// The records of all rows, in the engine's order.
    pub fn to_packages(&self) -> (out: Vec<Package>)
        requires
            self.wf(),
        ensures
            views(out@) == self.records(),
            out.len() == self.num_rows,
    {
        let mut out: Vec<Package> = Vec::new();
        let mut i: usize = 0;
        while i < self.num_rows
            invariant
                i <= self.num_rows,
                self.wf(),
                out.len() == i,
                forall|j: int| 0 <= j < i ==> (#[trigger] out[j])@ == self.record_at(j),
            decreases self.num_rows - i,
        {
            let record = Package {
                package_id: text_of(&self.package_id, i, ""),
                package_name: text_of(&self.package_name, i, ""),
                version: text_of(&self.version, i, ""),
                description: text_of(&self.description, i, ""),
                homepage: text_of(&self.homepage, i, ""),
                license: text_of(&self.license, i, ""),
                attribute_path: text_of(&self.attribute_path, i, ""),
                category: text_of(&self.category, i, "misc"),
                broken: flag_of(&self.broken, i, false),
                unfree: flag_of(&self.unfree, i, false),
                available: flag_of(&self.available, i, true),
                relevance_score: score_of(&self.scores, i),
                maintainers: None,
                platforms: None,
                long_description: None,
                main_program: None,
                position: None,
                outputs_to_install: None,
                last_updated: None,
            };
            proof {
                reveal_strlit("");
                assert(""@ =~= Seq::<char>::empty());
            }
            out.push(record);
            i += 1;
        }
        assert(views(out@) =~= self.records());
        out
    }
}

/// Whether a column that is present has `num_rows` entries.
fn fits<T>(column: &Option<Vec<T>>, num_rows: usize) -> (r: bool)
    ensures
        r == column_fits(*column, num_rows),
{
    match column {
        Some(c) => c.len() == num_rows,
        None => true,
    }
}

/// The text of row `i` of a column, or `absent`.
fn text_of(column: &Option<Vec<String>>, i: usize, absent: &str) -> (r: String)
    requires
        column matches Some(c) ==> i < c.len(),
    ensures
        r@ == text_at(*column, i as int, absent@),
{
    match column {
        Some(c) => c[i].clone(),
        None => String::from_str(absent),
    }
}

/// The flag of row `i` of a column, or `absent`.
fn flag_of(column: &Option<Vec<Option<bool>>>, i: usize, absent: bool) -> (r: bool)
    requires
        column matches Some(c) ==> i < c.len(),
    ensures
        r == flag_at(*column, i as int, absent),
{
    match column {
        Some(c) => match c[i] {
            Some(flag) => flag,
            None => absent,
        },
        None => absent,
    }
}

/// The similarity for the distance `value / scale`.
pub fn similarity_from_distance(value: i64, scale: u32) -> (r: Score)
    requires
        scale > 0,
    ensures
        r@ == similarity(value as int, scale as int),
        r.wf(),
{
    if value > 0 {
        Score { num: scale as i64, den: scale as u64 + value as u64 }
    } else {
        Score::one()
    }
}

/// The score of row `i`.
fn score_of(column: &Option<ScoreColumn>, i: usize) -> (r: Score)
    requires
        i < MAX_RANKED,
        column matches Some(c) ==> i < c.values.len() && c.scale > 0,
    ensures
        r@ == score_at(*column, i as int),
        r.wf(),
{
    match column {
        Some(c) => match c.values[i] {
            Some(value) => match c.kind {
                ScoreKind::Distance => similarity_from_distance(value, c.scale),
                ScoreKind::Score => Score { num: value, den: c.scale as u64 },
            },
            None => Score::one(),
        },
        None => Score { num: UNSCORED_STEPS as i64 - i as i64, den: UNSCORED_STEPS as u64 },
    }
}

/// Whether the vector adapter has anything to do: embeddings are enabled and
/// the query has an embedding that is not empty.
pub fn vector_search_applies(embeddings_enabled: bool, embedding_len: Option<usize>) -> (r: bool)
    ensures
        r <==> embeddings_enabled && embedding_len is Some && embedding_len->0 > 0,
{
    match embedding_len {
        Some(n) => embeddings_enabled && n > 0,
        None => false,
    }
}

/// `r` is what the vector adapter hands back, given what the engine
/// answered.
pub open spec fn vector_outcome(
    r: Result<SearchResults, SearchError>,
    applies: bool,
    reply: Result<Vec<RowBatch>, String>,
) -> bool {
    if !applies {
        &&& r matches Ok(results)
        &&& results.packages.len() == 0
        &&& results.total_count == 0
        &&& results.query_time_ms == 0
        &&& results.search_type@ == "vector"@
    } else {
        match reply {
            Err(detail) => r matches Err(SearchError::QueryFailed(text)) && text@ == detail@,
            Ok(batches) => if !all_distances(batches@) {
                r matches Err(SearchError::QueryFailed(text)) && text@ == "malformed rows"@
            } else if all_records(batches@).len() > MAX_RANKED {
                r matches Err(SearchError::QueryFailed(text)) && text@ == "too many rows"@
            } else {
                &&& r matches Ok(results)
                &&& views(results.packages@) == all_records(batches@)
                &&& results.total_count == all_records(batches@).len()
                &&& results.query_time_ms == 0
                &&& results.search_type@ == "vector"@
            },
        }
    }
}

/// The batch is well formed and its numbers are distances.
pub open spec fn holds_distances(batch: RowBatch) -> bool {
    &&& batch.wf()
    &&& batch.scores matches Some(c)
    &&& c.kind == ScoreKind::Distance
}

/// Every batch of the run is well formed and holds distances.
pub open spec fn all_distances(batches: Seq<RowBatch>) -> bool {
    forall|i: int| 0 <= i < batches.len() ==> holds_distances(#[trigger] batches[i])
}

/// Whether every batch of the run is well formed and holds distances.
pub fn all_hold_distances(batches: &Vec<RowBatch>) -> (r: bool)
    ensures
        r == all_distances(batches@),
{
    let mut i: usize = 0;
    while i < batches.len()
        invariant
            i <= batches.len(),
            forall|j: int| 0 <= j < i ==> holds_distances(#[trigger] batches[j]),
        decreases batches.len() - i,
    {
        let distances = match &batches[i].scores {
            Some(c) => match c.kind {
                ScoreKind::Distance => true,
                ScoreKind::Score => false,
            },
            None => false,
        };
        if !distances || !batches[i].is_well_formed() {
            return false;
        }
        i += 1;
    }
    true
}

/// What the vector adapter hands back, given what the engine answered.
///
/// Where the adapter has nothing to do (`applies` is false) the result is
/// the empty list: that is no failure. Else the rows of the engine's
/// batches are handed back in the engine's order, each scored as
/// [`RowBatch::record_at`] says: a row of distance `d` has the score
/// `1 / (1 + d)` where `d` is positive, and one otherwise. A failure of the
/// engine fails the search with `QueryFailed` and the engine's words, as do
/// batches that are not well formed or hold no distances, and more rows
/// than [`MAX_RANKED`].
pub fn finish_vector_search(applies: bool, reply: Result<Vec<RowBatch>, String>) -> (r: Result<
    SearchResults,
    SearchError,
>)
    ensures
        vector_outcome(r, applies, reply),
{
    if !applies {
        return Ok(
            SearchResults {
                packages: Vec::new(),
                total_count: 0,
                query_time_ms: 0,
                search_type: String::from_str("vector"),
            },
        );
    }
    match reply {
        Ok(batches) => {
            if !all_hold_distances(&batches) {
                return Err(SearchError::QueryFailed(String::from_str("malformed rows")));
            }
            let rows = batches_to_packages(&batches);
            assert(views(rows@).len() == rows.len());
            if rows.len() <= MAX_RANKED {
                let total_count: i32 = rows.len() as i32;
                Ok(
                    SearchResults {
                        packages: rows,
                        total_count,
                        query_time_ms: 0,
                        search_type: String::from_str("vector"),
                    },
                )
            } else {
                Err(SearchError::QueryFailed(String::from_str("too many rows")))
            }
        },
        Err(detail) => Err(SearchError::QueryFailed(detail)),
    }
}

/// Every record of a vector answer has a score above zero and at most one.
pub proof fn lemma_vector_scores_are_bounded(batches: Seq<RowBatch>, i: int)
    requires
        all_distances(batches),
        0 <= i < all_records(batches).len(),
    ensures
        all_records(batches)[i].relevance_score.wf(),
        Ratio::whole(0).lt(all_records(batches)[i].relevance_score),
        all_records(batches)[i].relevance_score.le(Ratio::whole(1)),
    decreases batches.len(),
{
    if batches.len() > 0 {
        let rest = batches.drop_last();
        let last = batches.last();
        assert forall|j: int| 0 <= j < rest.len() implies holds_distances(#[trigger] rest[j]) by {
            assert(rest[j] == batches[j]);
        }
        assert(holds_distances(batches[batches.len() - 1]));
        if i < all_records(rest).len() {
            lemma_vector_scores_are_bounded(rest, i);
        } else {
            lemma_distance_rows_are_similarities(last, i - all_records(rest).len());
        }
    }
}

/// Every row of a batch of distances has a score above zero and at most
/// one: `1 / (1 + d)` for a positive distance `d`, and one otherwise.
pub proof fn lemma_distance_rows_are_similarities(batch: RowBatch, i: int)
    requires
        holds_distances(batch),
        0 <= i < batch.num_rows,
    ensures
        batch.records()[i].relevance_score == (match batch.scores->0.values[i] {
            Some(value) => similarity(value as int, batch.scores->0.scale as int),
            None => Ratio::whole(1),
        }),
        batch.records()[i].relevance_score.wf(),
        Ratio::whole(0).lt(batch.records()[i].relevance_score),
        batch.records()[i].relevance_score.le(Ratio::whole(1)),
{
}


/// The records of a run of batches: those of the first batch, then those of
/// the second, and so on.
pub open spec fn all_records(batches: Seq<RowBatch>) -> Seq<PackageView>
    decreases batches.len(),
{
    if batches.len() == 0 {
        Seq::empty()
    } else {
        all_records(batches.drop_last()) + batches.last().records()
    }
}

/// Every batch of the run is well formed.
pub open spec fn all_wf(batches: Seq<RowBatch>) -> bool {
    forall|i: int| 0 <= i < batches.len() ==> (#[trigger] batches[i]).wf()
}

/// The records of a run of batches, in the engine's order.
pub fn batches_to_packages(batches: &Vec<RowBatch>) -> (out: Vec<Package>)
    requires
        all_wf(batches@),
    ensures
        views(out@) == all_records(batches@),
{
    let mut out: Vec<Package> = Vec::new();
    let mut i: usize = 0;
    assert(views(out@) =~= all_records(batches@.take(0)));
    while i < batches.len()
        invariant
            i <= batches.len(),
            all_wf(batches@),
            views(out@) == all_records(batches@.take(i as int)),
        decreases batches.len() - i,
    {
        let ghost before = out@;
        let mut rows = batches[i].to_packages();
        let ghost added = rows@;
        out.append(&mut rows);
        proof {
            assert(batches@.take(i + 1).drop_last() =~= batches@.take(i as int));
            assert(batches@.take(i + 1).last() == batches@[i as int]);
            assert(views(before + added) =~= views(before) + views(added));
        }
        i += 1;
    }
    assert(batches@.take(batches.len() as int) =~= batches@);
    out
}

} // verus!
