//! The client of a store that answers lexical and vector queries in SQL and
//! leaves the fusion of the two answers to the client.
//!
//! The client holds what it knows of its store and decides with it; the
//! caller owns the connection, sends the queries and hands the answers in.

use crate::backend::{embeddings_enabled, embeddings_in_use, names_table, require_packages_table};
use crate::error::SearchError;
use crate::fulltext::{start_full_text, starts_full_text, FullTextAction, FullTextState};
use crate::orchestrator::{
    candidates_wanted, complete_search, mode_for, plan_search, search_outcome, SearchPlan,
    DEFAULT_RANK_CONSTANT,
};
use crate::package::{SearchParams, SearchResults};
use crate::params::is_truthy;
use crate::vector::{finish_vector_search, vector_outcome, vector_search_applies, RowBatch};
use vstd::prelude::*;
use vstd::string::StringExecFns;
use vstd::utf8::encode_utf8;

verus! {

/// What can go wrong with this client.
pub type DuckDBClientError = SearchError;

/// What the client knows of its store.
#[derive(Debug, Clone, PartialEq, Eq)]
pub struct DuckDBClient {
    db_path: String,
    connected: bool,
    embeddings_enabled: bool,
}

impl DuckDBClient {
    /// Where the store lies.
    pub closed spec fn db_path(self) -> Seq<char> {
        self.db_path@
    }

    /// Whether the store was opened.
    pub closed spec fn connected(self) -> bool {
        self.connected
    }

    /// Whether the vector mode is in use.
    pub closed spec fn embeddings_enabled(self) -> bool {
        self.embeddings_enabled
    }

    /// A client for the store at `db_path`, not yet opened. `setting` is the
    /// value of `ENABLE_EMBEDDINGS`, where it is set.
    pub fn new(db_path: &str, setting: &Option<String>) -> (r: Result<DuckDBClient, DuckDBClientError>)
        ensures
            r matches Ok(client) && client.db_path() == db_path@ && !client.connected()
                && client.embeddings_enabled() == (setting matches Some(value) && is_truthy(
                encode_utf8(value@),
            )),
    {
        Ok(
            DuckDBClient {
                db_path: String::from_str(db_path),
                connected: false,
                embeddings_enabled: embeddings_enabled(setting),
            },
        )
    }

    /// Takes note of a store that the caller opened. `tables` names the
    /// tables of the store, or holds the words of the store where asking
    /// for them failed; `store_has_embeddings` says whether the store
    /// holds embeddings.
    ///
    /// A store that could not be asked gives `DatabaseError`, one without
    /// the table `packages` gives `TableNotFound`; both leave the client as
    /// it was. Else the client is connected, and the vector mode stays in
    /// use only where the store has embeddings.
    pub fn initialize(&mut self, tables: Result<Vec<String>, String>, store_has_embeddings: bool) -> (r:
        Result<bool, DuckDBClientError>)
        ensures
            final(self).db_path() == old(self).db_path(),
            match tables {
                Err(detail) => {
                    &&& r == Err::<bool, DuckDBClientError>(SearchError::DatabaseError(detail))
                    &&& *final(self) == *old(self)
                },
                Ok(names) => if names_table(names@, "packages"@) {
                    &&& r == Ok::<bool, DuckDBClientError>(true)
                    &&& final(self).connected()
                    &&& final(self).embeddings_enabled() == (old(self).embeddings_enabled()
                        && store_has_embeddings)
                } else {
                    &&& r matches Err(SearchError::TableNotFound(table))
                    &&& table@ == "packages"@
                    &&& *final(self) == *old(self)
                },
            },
    {
        let names = match tables {
            Ok(names) => names,
            Err(detail) => {
                return Err(SearchError::DatabaseError(detail));
            },
        };
        match require_packages_table(&names) {
            Ok(_) => {},
            Err(error) => {
                return Err(error);
            },
        }
        self.embeddings_enabled = embeddings_in_use(self.embeddings_enabled, store_has_embeddings);
        self.connected = true;
        Ok(true)
    }

    /// Where the store lies.
    pub fn path(&self) -> (r: &str)
        ensures
            r@ == self.db_path(),
    {
        self.db_path.as_str()
    }

    /// Whether the store was opened.
    pub fn is_connected(&self) -> (r: bool)
        ensures
            r == self.connected(),
    {
        self.connected
    }

    /// What the retrieval stage of a search has to run: see
    /// [`plan_search`](crate::orchestrator::plan_search).
    pub fn plan_search(&self, params: &SearchParams, embedding_len: Option<usize>) -> (r: Result<
        SearchPlan,
        DuckDBClientError,
    >)
        ensures
            r == (if self.connected() {
                Ok::<SearchPlan, SearchError>(
                    SearchPlan {
                        mode: mode_for(self.embeddings_enabled(), embedding_len),
                        candidate_limit: candidates_wanted(params.limit as int),
                    },
                )
            } else {
                Err::<SearchPlan, SearchError>(SearchError::NotInitialized)
            }),
    {
        plan_search(self.connected, params, self.embeddings_enabled, embedding_len)
    }

    /// The result of a search, given the answers of the two adapters.
    ///
    /// A client that is not connected fails with `NotInitialized`. Else the
    /// search is completed in the mode of [`DuckDBClient::plan_search`] with
    /// the default rank constant: see
    /// [`complete_search`](crate::orchestrator::complete_search).
    pub fn hybrid_search(
        &self,
        params: &SearchParams,
        embedding_len: Option<usize>,
        vector: Result<SearchResults, DuckDBClientError>,
        full_text: Result<SearchResults, DuckDBClientError>,
        elapsed_ms: u64,
    ) -> (r: Result<SearchResults, DuckDBClientError>)
        ensures
            if self.connected() {
                search_outcome(
                    r,
                    params,
                    mode_for(self.embeddings_enabled(), embedding_len),
                    DEFAULT_RANK_CONSTANT,
                    vector,
                    full_text,
                    elapsed_ms,
                )
            } else {
                r == Err::<SearchResults, DuckDBClientError>(SearchError::NotInitialized)
            },
    {
        match self.plan_search(params, embedding_len) {
            Ok(plan) => complete_search(
                params,
                plan.mode,
                DEFAULT_RANK_CONSTANT,
                vector,
                full_text,
                elapsed_ms,
            ),
            Err(error) => Err(error),
        }
    }

    /// The result of the vector adapter, given what the store answered.
    ///
    /// A client that is not connected fails with `NotInitialized`. Where the
    /// vector mode is not in use, or the embedding is empty, the result is
    /// the empty list and `reply` is not looked at. Else the rows of the
    /// store's batches are handed back in the store's order, a row of
    /// distance `d` with the score `1 / (1 + d)` where `d` is positive and
    /// one otherwise: see
    /// [`finish_vector_search`](crate::vector::finish_vector_search).
    pub fn vector_search(&self, embedding_len: usize, reply: Result<Vec<RowBatch>, String>) -> (r:
        Result<SearchResults, DuckDBClientError>)
        ensures
            if self.connected() {
                vector_outcome(r, self.embeddings_enabled() && embedding_len > 0, reply)
            } else {
                r == Err::<SearchResults, DuckDBClientError>(SearchError::NotInitialized)
            },
    {
        if !self.connected {
            return Err(SearchError::NotInitialized);
        }
        finish_vector_search(
            vector_search_applies(self.embeddings_enabled, Some(embedding_len)),
            reply,
        )
    }

    /// The first step of the full-text adapter for `query`: see
    /// [`start_full_text`](crate::fulltext::start_full_text). The steps
    /// that follow are those of
    /// [`full_text_step`](crate::fulltext::full_text_step).
    pub fn fts_search(&self, query: &str) -> (next: (FullTextState, FullTextAction))
        ensures
            starts_full_text(next, self.connected(), query@),
    {
        start_full_text(self.connected, String::from_str(query))
    }

    /// Whether the client is healthy: it is connected, and the probe of the
    /// store, which the caller sends only then, went well.
    pub fn health_check(&self, probe_succeeded: bool) -> (r: bool)
        ensures
            r == (self.connected() && probe_succeeded),
    {
        self.connected && probe_succeeded
    }
}

} // verus!
