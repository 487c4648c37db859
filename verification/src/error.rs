//! What can go wrong, and how it reads.

use vstd::prelude::*;
use vstd::string::StringExecFns;

verus! {

/// A failure of the search pipeline.
///
/// Only `NotInitialized` and a `QueryFailed` that no fallback could mend end
/// a request. `RecordNotFound` and `DecompressionFailed` concern one hit,
/// which is dropped while the query goes on.
#[derive(Debug, Clone, PartialEq, Eq)]
pub enum SearchError {
    /// The backing store reported an error.
    DatabaseError(String),
    /// No connection to the backing store was set up.
    NotInitialized,
    /// The store lacks the named table.
    TableNotFound(String),
    /// A retrieval call failed.
    QueryFailed(String),
    /// The compressed store holds nothing under the named identifier.
    RecordNotFound(String),
    /// A stored payload could not be turned into a record.
    DecompressionFailed(String),
}

/// A failure of the embedding generator.
#[derive(Debug, Clone, PartialEq, Eq)]
pub enum BedrockClientError {
    /// The service client reported an error.
    AwsError(String),
    /// A request to the service failed.
    SdkError(String),
    /// The response was not the expected JSON.
    JsonError(String),
    /// The text to embed was empty.
    EmptyText,
    /// No service client was set up.
    NotInitialized,
    /// The response held no embedding.
    InvalidResponse,
    /// Every attempt failed.
    ModelInvocationFailed(String),
}

/// `prefix` followed by `detail`.
pub fn prefixed(prefix: &str, detail: &String) -> (r: String)
    ensures
        r@ == prefix@ + detail@,
{
    String::from_str(prefix).concat(detail.as_str())
}

impl SearchError {
    /// How the error reads.
    pub open spec fn message_text(self) -> Seq<char> {
        match self {
            SearchError::DatabaseError(detail) => "Database error: "@ + detail@,
            SearchError::NotInitialized => "Connection not initialized"@,
            SearchError::TableNotFound(table) => "Required table not found: "@ + table@,
            SearchError::QueryFailed(detail) => "Query failed: "@ + detail@,
            SearchError::RecordNotFound(id) => "Record not found: "@ + id@,
            SearchError::DecompressionFailed(detail) => "Decompression failed: "@ + detail@,
        }
    }

    /// How the error reads.
    pub fn message(&self) -> (r: String)
        ensures
            r@ == self.message_text(),
    {
        match self {
            SearchError::DatabaseError(detail) => prefixed("Database error: ", detail),
            SearchError::NotInitialized => String::from_str("Connection not initialized"),
            SearchError::TableNotFound(table) => prefixed("Required table not found: ", table),
            SearchError::QueryFailed(detail) => prefixed("Query failed: ", detail),
            SearchError::RecordNotFound(id) => prefixed("Record not found: ", id),
            SearchError::DecompressionFailed(detail) => prefixed("Decompression failed: ", detail),
        }
    }

    /// Whether the error ends the request, or only costs one hit.
    pub fn is_fatal(&self) -> (r: bool)
        ensures
            r == !(self is RecordNotFound || self is DecompressionFailed),
    {
        match self {
            SearchError::RecordNotFound(_) => false,
            SearchError::DecompressionFailed(_) => false,
            _ => true,
        }
    }
}

impl BedrockClientError {
    /// How the error reads.
    pub open spec fn message_text(self) -> Seq<char> {
        match self {
            BedrockClientError::AwsError(detail) => "AWS SDK error: "@ + detail@,
            BedrockClientError::SdkError(detail) => "AWS SDK service error: "@ + detail@,
            BedrockClientError::JsonError(detail) => "JSON parsing error: "@ + detail@,
            BedrockClientError::EmptyText => "Empty text provided"@,
            BedrockClientError::NotInitialized => "Client not initialized"@,
            BedrockClientError::InvalidResponse => "Invalid response format"@,
            BedrockClientError::ModelInvocationFailed(detail) => "Model invocation failed: "@
                + detail@,
        }
    }

    /// How the error reads.
    pub fn message(&self) -> (r: String)
        ensures
            r@ == self.message_text(),
    {
        match self {
            BedrockClientError::AwsError(detail) => prefixed("AWS SDK error: ", detail),
            BedrockClientError::SdkError(detail) => prefixed("AWS SDK service error: ", detail),
            BedrockClientError::JsonError(detail) => prefixed("JSON parsing error: ", detail),
            BedrockClientError::EmptyText => String::from_str("Empty text provided"),
            BedrockClientError::NotInitialized => String::from_str("Client not initialized"),
            BedrockClientError::InvalidResponse => String::from_str("Invalid response format"),
            BedrockClientError::ModelInvocationFailed(detail) => prefixed(
                "Model invocation failed: ",
                detail,
            ),
        }
    }
}

} // verus!
