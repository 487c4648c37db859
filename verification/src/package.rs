//! The records that a search returns, and the parameters that ask for them.

use crate::score::{Ratio, Score};
use vstd::prelude::*;

verus! {

/// The mathematical value of a [`Package`].
pub struct PackageView {
    pub package_id: Seq<char>,
    pub package_name: Seq<char>,
    pub version: Seq<char>,
    pub description: Seq<char>,
    pub homepage: Seq<char>,
    pub license: Seq<char>,
    pub attribute_path: Seq<char>,
    pub category: Seq<char>,
    pub broken: bool,
    pub unfree: bool,
    pub available: bool,
    pub relevance_score: Ratio,
    pub maintainers: Option<Seq<Seq<char>>>,
    pub platforms: Option<Seq<Seq<char>>>,
    pub long_description: Option<Seq<char>>,
    pub main_program: Option<Seq<char>>,
    pub position: Option<Seq<char>>,
    pub outputs_to_install: Option<Seq<Seq<char>>>,
    pub last_updated: Option<Seq<char>>,
}

impl PackageView {
    /// The same record with another relevance score.
    pub open spec fn with_score(self, score: Ratio) -> PackageView {
        PackageView { relevance_score: score, ..self }
    }
}

/// One package of the catalogue, as a search reports it.
///
/// The extended fields (`maintainers` and below) are present only on records
/// that were rebuilt from the compressed store. Each maintainer is kept as the
/// JSON text of its entry.
#[derive(Clone, Debug, PartialEq, Eq)]
pub struct Package {
    pub package_id: String,
    pub package_name: String,
    pub version: String,
    pub description: String,
    pub homepage: String,
    pub license: String,
    pub attribute_path: String,
    pub category: String,
    pub broken: bool,
    pub unfree: bool,
    pub available: bool,
    pub relevance_score: Score,
    pub maintainers: Option<Vec<String>>,
    pub platforms: Option<Vec<String>>,
    pub long_description: Option<String>,
    pub main_program: Option<String>,
    pub position: Option<String>,
    pub outputs_to_install: Option<Vec<String>>,
    pub last_updated: Option<String>,
}

impl View for Package {
    type V = PackageView;

    open spec fn view(&self) -> PackageView {
        PackageView {
            package_id: self.package_id@,
            package_name: self.package_name@,
            version: self.version@,
            description: self.description@,
            homepage: self.homepage@,
            license: self.license@,
            attribute_path: self.attribute_path@,
            category: self.category@,
            broken: self.broken,
            unfree: self.unfree,
            available: self.available,
            relevance_score: self.relevance_score@,
            maintainers: self.maintainers.deep_view(),
            platforms: self.platforms.deep_view(),
            long_description: self.long_description.deep_view(),
            main_program: self.main_program.deep_view(),
            position: self.position.deep_view(),
            outputs_to_install: self.outputs_to_install.deep_view(),
            last_updated: self.last_updated.deep_view(),
        }
    }
}

/// The values of a list of records, in order.
pub open spec fn views(list: Seq<Package>) -> Seq<PackageView> {
    list.map_values(|p: Package| p@)
}

/// A copy of a list of strings.
pub fn copy_strings(list: &Vec<String>) -> (r: Vec<String>)
    ensures
        r.deep_view() == list.deep_view(),
{
    let mut out: Vec<String> = Vec::new();
    let mut i: usize = 0;
    while i < list.len()
        invariant
            i <= list.len(),
            out.len() == i,
            forall|j: int| 0 <= j < i ==> out[j]@ == list[j]@,
        decreases list.len() - i,
    {
        out.push(list[i].clone());
        i += 1;
    }
    assert(out.deep_view() =~= list.deep_view());
    out
}

/// A copy of an optional string.
pub fn copy_text(text: &Option<String>) -> (r: Option<String>)
    ensures
        r.deep_view() == text.deep_view(),
{
    match text {
        Some(s) => Some(s.clone()),
        None => None,
    }
}

/// A copy of an optional list of strings.
pub fn copy_list(list: &Option<Vec<String>>) -> (r: Option<Vec<String>>)
    ensures
        r.deep_view() == list.deep_view(),
{
    match list {
        Some(v) => Some(copy_strings(v)),
        None => None,
    }
}

impl Package {
    /// A record with the given identifier and name and every other field at
    /// its default: empty text, not broken, not unfree, available, score
    /// zero, no extended fields.
    pub fn new(package_id: String, package_name: String) -> (r: Package)
        ensures
            r@ == Self::blank(package_id@, package_name@),
            r.relevance_score.wf(),
    {
        Package {
            package_id,
            package_name,
            version: String::new(),
            description: String::new(),
            homepage: String::new(),
            license: String::new(),
            attribute_path: String::new(),
            category: String::new(),
            broken: false,
            unfree: false,
            available: true,
            relevance_score: Score::zero(),
            maintainers: None,
            platforms: None,
            long_description: None,
            main_program: None,
            position: None,
            outputs_to_install: None,
            last_updated: None,
        }
    }

    /// The value of the record that [`Package::new`] builds.
    pub open spec fn blank(package_id: Seq<char>, package_name: Seq<char>) -> PackageView {
        PackageView {
            package_id,
            package_name,
            version: Seq::empty(),
            description: Seq::empty(),
            homepage: Seq::empty(),
            license: Seq::empty(),
            attribute_path: Seq::empty(),
            category: Seq::empty(),
            broken: false,
            unfree: false,
            available: true,
            relevance_score: Ratio::whole(0),
            maintainers: None,
            platforms: None,
            long_description: None,
            main_program: None,
            position: None,
            outputs_to_install: None,
            last_updated: None,
        }
    }

    /// A copy of this record.
    pub fn duplicate(&self) -> (r: Package)
        ensures
            r@ == self@,
            r.relevance_score == self.relevance_score,
    {
        Package {
            package_id: self.package_id.clone(),
            package_name: self.package_name.clone(),
            version: self.version.clone(),
            description: self.description.clone(),
            homepage: self.homepage.clone(),
            license: self.license.clone(),
            attribute_path: self.attribute_path.clone(),
            category: self.category.clone(),
            broken: self.broken,
            unfree: self.unfree,
            available: self.available,
            relevance_score: self.relevance_score,
            maintainers: copy_list(&self.maintainers),
            platforms: copy_list(&self.platforms),
            long_description: copy_text(&self.long_description),
            main_program: copy_text(&self.main_program),
            position: copy_text(&self.position),
            outputs_to_install: copy_list(&self.outputs_to_install),
            last_updated: copy_text(&self.last_updated),
        }
    }

    /// A copy of this record that carries `score` as its relevance.
    pub fn with_score(&self, score: Score) -> (r: Package)
        ensures
            r@ == self@.with_score(score@),
            r.relevance_score == score,
    {
        let mut copy = self.duplicate();
        copy.relevance_score = score;
        copy
    }
}

/// What a caller asks for: the query text, the page, and the filters.
///
/// A `limit` of zero or less means that the page is not capped; an `offset`
/// of zero or less means that the page starts at the first record.
#[derive(Clone, Debug, PartialEq, Eq)]
pub struct SearchParams {
    pub query: String,
    pub limit: i32,
    pub offset: i32,
    pub license_filter: Option<String>,
    pub category_filter: Option<String>,
    pub include_broken: bool,
    pub include_unfree: bool,
}

/// The mathematical value of [`SearchParams`].
pub struct SearchParamsView {
    pub query: Seq<char>,
    pub limit: int,
    pub offset: int,
    pub license_filter: Option<Seq<char>>,
    pub category_filter: Option<Seq<char>>,
    pub include_broken: bool,
    pub include_unfree: bool,
}

impl View for SearchParams {
    type V = SearchParamsView;

    open spec fn view(&self) -> SearchParamsView {
        SearchParamsView {
            query: self.query@,
            limit: self.limit as int,
            offset: self.offset as int,
            license_filter: self.license_filter.deep_view(),
            category_filter: self.category_filter.deep_view(),
            include_broken: self.include_broken,
            include_unfree: self.include_unfree,
        }
    }
}

/// What a search hands back: the page of records, how many candidates
/// matched before filtering and paging, the time the query took in
/// milliseconds, and the tag of the retrieval mode that produced the page.
#[derive(Clone, Debug, PartialEq, Eq)]
pub struct SearchResults {
    pub packages: Vec<Package>,
    pub total_count: i32,
    pub query_time_ms: u64,
    pub search_type: String,
}

} // verus!
