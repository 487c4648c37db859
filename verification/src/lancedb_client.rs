//! The client of a store that fuses lexical and vector answers itself and
//! hands its rows over in column batches.
//!
//! The client holds what it knows of its store and decides with it; the
//! caller owns the connection, sends the queries and hands the answers in.

use crate::backend::{embeddings_enabled, embeddings_in_use, names_table, select_table};
use crate::error::SearchError;
use crate::fulltext::{start_full_text, starts_full_text, FullTextAction, FullTextState};
use crate::fusion::MAX_RANKED;
use crate::orchestrator::{
    candidates_wanted, completes, fails_with, finish, mode_for, plan_search, tag_for, SearchMode,
    SearchPlan,
};
use crate::package::{views, SearchParams, SearchResults};
use crate::params::is_truthy;
use crate::vector::{finish_vector_search, vector_outcome, vector_search_applies, RowBatch};
use vstd::prelude::*;
use vstd::string::StringExecFns;
use vstd::utf8::encode_utf8;

verus! {

/// What can go wrong with this client.
pub type LanceDBClientError = SearchError;

/// What the client knows of its store.
#[derive(Debug, Clone, PartialEq, Eq)]
pub struct LanceDBClient {
    db_path: String,
    table: Option<String>,
    embeddings_enabled: bool,
}

impl LanceDBClient {
    /// Where the store lies.
    pub closed spec fn db_path(self) -> Seq<char> {
        self.db_path@
    }

    /// The table that is searched, once the store was opened.
    pub closed spec fn table(self) -> Option<Seq<char>> {
        self.table.deep_view()
    }

    /// Whether the store was opened.
    pub open spec fn connected(self) -> bool {
        self.table() is Some
    }

    /// Whether the vector mode is in use.
    pub closed spec fn embeddings_enabled(self) -> bool {
        self.embeddings_enabled
    }

    /// A client for the store at `db_path`, not yet opened. `setting` is the
    /// value of `ENABLE_EMBEDDINGS`, where it is set.
    pub fn new(db_path: &str, setting: &Option<String>) -> (r: Result<
        LanceDBClient,
        LanceDBClientError,
    >)
        ensures
            r matches Ok(client) && client.db_path() == db_path@ && !client.connected()
                && client.embeddings_enabled() == (setting matches Some(value) && is_truthy(
                encode_utf8(value@),
            )),
    {
        Ok(
            LanceDBClient {
                db_path: String::from_str(db_path),
                table: None,
                embeddings_enabled: embeddings_enabled(setting),
            },
        )
    }

    /// Takes note of a store that the caller opened. `tables` names the
    /// tables of the store; `store_has_embeddings` says whether the table
    /// to search holds embeddings.
    ///
    /// A store without tables gives `TableNotFound` and leaves the client
    /// as it was. Else the client searches the table `packages`, or the
    /// first table where the store has none of that name, and the vector
    /// mode stays in use only where the table has embeddings.
    pub fn initialize(&mut self, tables: &Vec<String>, store_has_embeddings: bool) -> (r: Result<
        bool,
        LanceDBClientError,
    >)
        ensures
            final(self).db_path() == old(self).db_path(),
            if tables.len() == 0 {
                &&& r matches Err(SearchError::TableNotFound(detail))
                &&& detail@ == "no tables found in database"@
                &&& *final(self) == *old(self)
            } else {
                &&& r == Ok::<bool, LanceDBClientError>(true)
                &&& final(self).table() == Some(
                    if names_table(tables@, "packages"@) {
                        "packages"@
                    } else {
                        tables[0]@
                    },
                )
                &&& final(self).embeddings_enabled() == (old(self).embeddings_enabled()
                    && store_has_embeddings)
            },
    {
        let table = match select_table(tables) {
            Ok(table) => table,
            Err(error) => {
                return Err(error);
            },
        };
        self.embeddings_enabled = embeddings_in_use(self.embeddings_enabled, store_has_embeddings);
        self.table = Some(table);
        Ok(true)
    }

    /// Where the store lies.
    pub fn path(&self) -> (r: &str)
        ensures
            r@ == self.db_path(),
    {
        self.db_path.as_str()
    }

    /// Whether the store was opened.
    pub fn is_connected(&self) -> (r: bool)
        ensures
            r == self.connected(),
    {
        self.table.is_some()
    }

    /// What the retrieval stage of a search has to run: see
    /// [`plan_search`](crate::orchestrator::plan_search). In hybrid mode the
    /// store is asked for its own fusion of the lexical and the vector
    /// answer.
    pub fn plan_search(&self, params: &SearchParams, embedding_len: Option<usize>) -> (r: Result<
        SearchPlan,
        LanceDBClientError,
    >)
        ensures
            r == (if self.connected() {
                Ok::<SearchPlan, SearchError>(
                    SearchPlan {
                        mode: mode_for(self.embeddings_enabled(), embedding_len),
                        candidate_limit: candidates_wanted(params.limit as int),
                    },
                )
            } else {
                Err::<SearchPlan, SearchError>(SearchError::NotInitialized)
            }),
    {
        plan_search(self.is_connected(), params, self.embeddings_enabled, embedding_len)
    }

    /// The result of a search, given the answer of the store: that of its
    /// own hybrid query in hybrid mode, that of the full-text adapter
    /// otherwise.
    ///
    /// A client that is not connected fails with `NotInitialized`, and a
    /// failure of the store fails the search with that error; more rows
    /// than [`MAX_RANKED`] fail it with `QueryFailed` and the text
    /// `too many rows`. Else the rows are
    /// filtered and paged. The total is the number of rows before the
    /// filters; the tag is `"hybrid"` in hybrid mode and that of the answer
    /// otherwise.
    pub fn hybrid_search(
        &self,
        params: &SearchParams,
        embedding_len: Option<usize>,
        answer: Result<SearchResults, LanceDBClientError>,
        elapsed_ms: u64,
    ) -> (r: Result<SearchResults, LanceDBClientError>)
        ensures
            if !self.connected() {
                r == Err::<SearchResults, LanceDBClientError>(SearchError::NotInitialized)
            } else {
                match answer {
                    Err(error) => r == Err::<SearchResults, LanceDBClientError>(error),
                    Ok(rows) => if rows.packages.len() <= MAX_RANKED {
                        completes(
                            r,
                            params,
                            views(rows.packages@),
                            tag_for(
                                mode_for(self.embeddings_enabled(), embedding_len),
                                rows.search_type@,
                            ),
                            elapsed_ms,
                        )
                    } else {
                        fails_with(r, "too many rows"@)
                    },
                }
            },
    {
        let plan = match self.plan_search(params, embedding_len) {
            Ok(plan) => plan,
            Err(error) => {
                return Err(error);
            },
        };
        let rows = match answer {
            Ok(rows) => rows,
            Err(error) => {
                return Err(error);
            },
        };
        if rows.packages.len() > MAX_RANKED {
            return Err(SearchError::QueryFailed(String::from_str("too many rows")));
        }
        let tag = match plan.mode {
            SearchMode::Hybrid => String::from_str("hybrid"),
            SearchMode::FullTextOnly => rows.search_type,
        };
        Ok(finish(params, rows.packages, tag, elapsed_ms))
    }

    /// The result of the vector adapter, given what the store answered.
    ///
    /// A client that is not connected fails with `NotInitialized`. Where the
    /// vector mode is not in use, or the embedding is empty, the result is
    /// the empty list and `reply` is not looked at. Else the rows of the
    /// store's batches are handed back in the store's order, a row of
    /// distance `d` with the score `1 / (1 + d)` where `d` is positive and
    /// one otherwise: see
    /// [`finish_vector_search`](crate::vector::finish_vector_search).
    pub fn vector_search(&self, embedding_len: usize, reply: Result<Vec<RowBatch>, String>) -> (r:
        Result<SearchResults, LanceDBClientError>)
        ensures
            if self.connected() {
                vector_outcome(r, self.embeddings_enabled() && embedding_len > 0, reply)
            } else {
                r == Err::<SearchResults, LanceDBClientError>(SearchError::NotInitialized)
            },
    {
        if !self.is_connected() {
            return Err(SearchError::NotInitialized);
        }
        finish_vector_search(
            vector_search_applies(self.embeddings_enabled, Some(embedding_len)),
            reply,
        )
    }

    /// The first step of the full-text adapter for `query`: see
    /// [`start_full_text`](crate::fulltext::start_full_text). The steps
    /// that follow are those of
    /// [`full_text_step`](crate::fulltext::full_text_step).
    pub fn fts_search(&self, query: &str) -> (next: (FullTextState, FullTextAction))
        ensures
            starts_full_text(next, self.connected(), query@),
    {
        start_full_text(self.is_connected(), String::from_str(query))
    }

    /// Whether the client is healthy: it is connected, and the probe of the
    /// store, which the caller sends only then, went well.
    pub fn health_check(&self, probe_succeeded: bool) -> (r: bool)
        ensures
            r == (self.connected() && probe_succeeded),
    {
        self.is_connected() && probe_succeeded
    }
}

} // verus!
