//! The client of a compact store: a full-text index that knows identifiers
//! and a little text, beside a table of compressed records.
//!
//! The client holds what it knows of its store and decides with it; the
//! caller owns the connection, sends the queries and the lookups and hands
//! the answers in.

use crate::backend::{check_minified_store, names_table};
use crate::error::SearchError;
use crate::fusion::{rank_by_score, rank_records, MAX_RANKED};
use crate::orchestrator::{completes_with_total, fails_with, finish_with_total};
use crate::package::{views, Package, SearchParams, SearchResults};
use crate::store::{hydrated_hits, optional_bytes, payload_views, RecordStore};
use vstd::prelude::*;
use vstd::string::StringExecFns;

verus! {

/// What can go wrong with this client.
pub type SQLiteClientError = SearchError;

/// What the client knows of its store.
#[derive(Debug, Clone, PartialEq, Eq)]
pub struct SQLiteClient {
    pub db_path: String,
    pub dict_path: String,
    store: Option<RecordStore>,
}

impl SQLiteClient {
    /// Where the store lies.
    pub closed spec fn db_path(self) -> Seq<char> {
        self.db_path@
    }

    /// Where the dictionary lies.
    pub closed spec fn dict_path(self) -> Seq<char> {
        self.dict_path@
    }

    /// The dictionary of the store, once the store was opened.
    pub closed spec fn dictionary(self) -> Option<Option<Seq<u8>>> {
        match self.store {
            Some(store) => Some(store.dictionary()),
            None => None,
        }
    }

    /// Whether the store was opened.
    pub open spec fn connected(self) -> bool {
        self.dictionary() is Some
    }

    /// A client for the store at `db_path` with the dictionary at
    /// `dict_path`, not yet opened.
    pub fn new(db_path: &str, dict_path: &str) -> (r: Result<SQLiteClient, SQLiteClientError>)
        ensures
            r matches Ok(client) && client.db_path() == db_path@ && client.dict_path()
                == dict_path@ && !client.connected(),
    {
        Ok(
            SQLiteClient {
                db_path: String::from_str(db_path),
                dict_path: String::from_str(dict_path),
                store: None,
            },
        )
    }

    /// Takes note of a store that the caller opened. `tables` names the
    /// tables of the store, or holds the words of the store where asking
    /// for them failed; `dictionary` holds the bytes of the dictionary, or
    /// nothing where there is no dictionary to read.
    ///
    /// A store that could not be asked, one without the compact schema and
    /// one without a dictionary give `DatabaseError` and leave the client as
    /// it was. Else the client is connected and keeps the dictionary.
    pub fn initialize(&mut self, tables: Result<Vec<String>, String>, dictionary: Option<Vec<u8>>) -> (r:
        Result<bool, SQLiteClientError>)
        ensures
            final(self).db_path() == old(self).db_path(),
            final(self).dict_path() == old(self).dict_path(),
            match tables {
                Err(detail) => {
                    &&& r == Err::<bool, SQLiteClientError>(SearchError::DatabaseError(detail))
                    &&& *final(self) == *old(self)
                },
                Ok(names) => if !(names_table(names@, "packages_kv"@) && names_table(
                    names@,
                    "packages_fts"@,
                )) {
                    &&& r matches Err(SearchError::DatabaseError(detail))
                    &&& detail@ == "Minified schema required but not found"@
                    &&& *final(self) == *old(self)
                } else if dictionary is None {
                    &&& r matches Err(SearchError::DatabaseError(detail))
                    &&& detail@ == "Failed to load compression dictionary"@
                    &&& *final(self) == *old(self)
                } else {
                    &&& r == Ok::<bool, SQLiteClientError>(true)
                    &&& final(self).dictionary() == Some(optional_bytes(dictionary))
                },
            },
    {
        let names = match tables {
            Ok(names) => names,
            Err(detail) => {
                return Err(SearchError::DatabaseError(detail));
            },
        };
        match check_minified_store(&names, dictionary.is_some()) {
            Ok(_) => {},
            Err(error) => {
                return Err(error);
            },
        }
        self.store = Some(RecordStore::new(dictionary));
        Ok(true)
    }

    /// Whether the store was opened.
    pub fn is_connected(&self) -> (r: bool)
        ensures
            r == self.connected(),
    {
        self.store.is_some()
    }

    /// The result of a search, given the hits of the index, best first, and
    /// for every hit the payload that the lookup of its identifier found.
    ///
    /// - A client that is not connected fails with `NotInitialized`.
    /// - The empty query gives the empty result, whatever was handed in.
    /// - Hits and payloads that do not pair up fail with `QueryFailed` and
    ///   the text `hits and payloads differ`; more hits than [`MAX_RANKED`]
    ///   fail with `QueryFailed` and the text `too many rows`.
    /// - Else every hit is rebuilt from its payload and keeps its score; a
    ///   hit that cannot be rebuilt is dropped. The records are ranked by
    ///   descending score, filtered and paged. The total is the number of
    ///   hits, the tag is `"fts"`.
    pub fn fts_search(
        &self,
        params: &SearchParams,
        hits: &Vec<Package>,
        payloads: &Vec<Option<Vec<u8>>>,
        elapsed_ms: u64,
    ) -> (r: Result<SearchResults, SQLiteClientError>)
        ensures
            match self.dictionary() {
                None => r == Err::<SearchResults, SQLiteClientError>(SearchError::NotInitialized),
                Some(dictionary) => if params.query@.len() == 0 {
                    &&& r matches Ok(results)
                    &&& results.packages.len() == 0
                    &&& results.total_count == 0
                    &&& results.query_time_ms == 0
                    &&& results.search_type@ == "fts"@
                } else if hits.len() != payloads.len() {
                    fails_with(r, "hits and payloads differ"@)
                } else if hits.len() > MAX_RANKED {
                    fails_with(r, "too many rows"@)
                } else {
                    completes_with_total(
                        r,
                        params,
                        rank_by_score(
                            hydrated_hits(views(hits@), payload_views(payloads@), dictionary),
                        ),
                        hits.len() as int,
                        "fts"@,
                        elapsed_ms,
                    )
                },
            },
    {
        let store = match &self.store {
            Some(store) => store,
            None => {
                return Err(SearchError::NotInitialized);
            },
        };
        if params.query.as_str().is_empty() {
            return Ok(
                SearchResults {
                    packages: Vec::new(),
                    total_count: 0,
                    query_time_ms: 0,
                    search_type: String::from_str("fts"),
                },
            );
        }
        if hits.len() != payloads.len() {
            return Err(SearchError::QueryFailed(String::from_str("hits and payloads differ")));
        }
        if hits.len() > MAX_RANKED {
            return Err(SearchError::QueryFailed(String::from_str("too many rows")));
        }
        let total_count: i32 = hits.len() as i32;
        let records = rank_records(store.hydrate_hits(hits, payloads));
        Ok(finish_with_total(params, records, total_count, String::from_str("fts"), elapsed_ms))
    }

    /// Whether the client is healthy: it is connected, and the probe of the
    /// store, which the caller sends only then, went well.
    pub fn health_check(&self, probe_succeeded: bool) -> (r: bool)
        ensures
            r == (self.connected() && probe_succeeded),
    {
        self.is_connected() && probe_succeeded
    }
}

} // verus!
