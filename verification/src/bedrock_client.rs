//! The embedding generator's client: its settings and its retry policy.
//!
//! The policy decides; the caller sends the requests and sleeps. One
//! request is tried at most [`MAX_ATTEMPTS`] times. Before the second try
//! the caller waits [`BASE_BACKOFF_MS`], and twice as long before each
//! further one.

use crate::error::BedrockClientError;
use crate::params::parse_i32;
use vstd::prelude::*;
use vstd::string::StringExecFns;

verus! {

/// How often one request is tried at most.
pub const MAX_ATTEMPTS: u32 = 3;

/// The wait before the second try, in milliseconds.
pub const BASE_BACKOFF_MS: u64 = 100;

/// The wait before try number `attempt`, counted from zero: none before the
/// first, [`BASE_BACKOFF_MS`] before the second, and double the last wait
/// before each further one.
pub open spec fn backoff(attempt: int) -> int
    decreases attempt,
{
    if attempt <= 0 {
        0
    } else if attempt == 1 {
        BASE_BACKOFF_MS as int
    } else {
        2 * backoff(attempt - 1)
    }
}

/// The waits of all tries up to and including try number `attempt`.
pub open spec fn total_backoff(attempt: int) -> int
    decreases attempt,
{
    if attempt <= 0 {
        0
    } else {
        total_backoff(attempt - 1) + backoff(attempt)
    }
}

/// What the caller does next.
#[derive(Debug, Clone, PartialEq, Eq)]
pub enum EmbeddingAction {
    /// Send the request: this is try number `attempt`, counted from zero.
    Invoke { attempt: u32 },
    /// Wait `millis` milliseconds, then send the request as try number
    /// `attempt`.
    RetryAfter { millis: u64, attempt: u32 },
    /// Give up with the error.
    Fail(BedrockClientError),
}

/// The wait before try number `attempt`, in milliseconds.
pub fn backoff_millis(attempt: u32) -> (r: u64)
    requires
        attempt < MAX_ATTEMPTS,
    ensures
        r == backoff(attempt as int),
{
    if attempt == 0 {
        return 0;
    }
    let mut wait: u64 = BASE_BACKOFF_MS;
    let mut n: u32 = 1;
    while n < attempt
        invariant
            1 <= n <= attempt < MAX_ATTEMPTS,
            wait == backoff(n as int),
            wait <= 200,
        decreases attempt - n,
    {
        assert(backoff(1) == 100);
        wait = wait * 2;
        n += 1;
    }
    wait
}

/// The first step of a request for the embedding of `text`.
///
/// The empty text is refused before anything is sent, and so is a request
/// to a client that was never set up.
pub fn begin_embedding(text: &str, client_ready: bool) -> (r: EmbeddingAction)
    ensures
        r == (if text@.len() == 0 {
            EmbeddingAction::Fail(BedrockClientError::EmptyText)
        } else if !client_ready {
            EmbeddingAction::Fail(BedrockClientError::NotInitialized)
        } else {
            EmbeddingAction::Invoke { attempt: 0 }
        }),
{
    if text.is_empty() {
        EmbeddingAction::Fail(BedrockClientError::EmptyText)
    } else if !client_ready {
        EmbeddingAction::Fail(BedrockClientError::NotInitialized)
    } else {
        EmbeddingAction::Invoke { attempt: 0 }
    }
}

/// The step after try number `attempt` failed with `error`.
pub open spec fn step_after_failure(attempt: u32, error: BedrockClientError) -> EmbeddingAction {
    if attempt + 1 < MAX_ATTEMPTS {
        EmbeddingAction::RetryAfter {
            millis: backoff(attempt + 1) as u64,
            attempt: (attempt + 1) as u32,
        }
    } else {
        EmbeddingAction::Fail(error)
    }
}

/// The step after try number `attempt` failed with `error`: another try
/// after its wait while tries are left, and else the failure with the error
/// of the last try.
pub fn after_failure(attempt: u32, error: BedrockClientError) -> (r: EmbeddingAction)
    ensures
        r == step_after_failure(attempt, error),
{
    if attempt < MAX_ATTEMPTS - 1 {
        EmbeddingAction::RetryAfter { millis: backoff_millis(attempt + 1), attempt: attempt + 1 }
    } else {
        EmbeddingAction::Fail(error)
    }
}

/// A request is sent three times at most: the failure of the third try is
/// the failure of the request. The waits are 100 and 200 milliseconds, 300
/// in all.
pub proof fn lemma_retries_are_bounded(attempt: u32, error: BedrockClientError)
    ensures
        attempt + 1 >= MAX_ATTEMPTS ==> step_after_failure(attempt, error)
            == EmbeddingAction::Fail(error),
        step_after_failure(attempt, error) matches EmbeddingAction::RetryAfter {
            attempt: next,
            ..
        } ==> next < MAX_ATTEMPTS,
        backoff(1) == 100,
        backoff(2) == 200,
        total_backoff(MAX_ATTEMPTS - 1) == 300,
{
    reveal_with_fuel(backoff, 3);
    reveal_with_fuel(total_backoff, 3);
}

/// What becomes of a response of the service.
///
/// `body_is_text` says whether the body is UTF-8; `parsed` is the length of
/// the embedding that the body holds, or the parser's words where the body
/// is not the expected JSON. A body that is no text, or holds an empty
/// embedding, is an invalid response.
pub fn check_response(body_is_text: bool, parsed: Result<usize, String>) -> (r: Result<
    usize,
    BedrockClientError,
>)
    ensures
        r == (if !body_is_text {
            Err::<usize, BedrockClientError>(BedrockClientError::InvalidResponse)
        } else {
            match parsed {
                Err(detail) => Err(BedrockClientError::JsonError(detail)),
                Ok(len) => if len == 0 {
                    Err(BedrockClientError::InvalidResponse)
                } else {
                    Ok(len)
                },
            }
        }),
{
    if !body_is_text {
        return Err(BedrockClientError::InvalidResponse);
    }
    match parsed {
        Err(detail) => Err(BedrockClientError::JsonError(detail)),
        Ok(len) => if len == 0 {
            Err(BedrockClientError::InvalidResponse)
        } else {
            Ok(len)
        },
    }
}

/// The values of the requests that went well, in order.
pub open spec fn successes<T>(outcomes: Seq<Result<T, BedrockClientError>>) -> Seq<T> {
    outcomes.filter(|outcome: Result<T, BedrockClientError>| outcome is Ok).map_values(
        |outcome: Result<T, BedrockClientError>| outcome->Ok_0,
    )
}

/// The settings of the embedding generator's client.
#[derive(Debug, Clone, PartialEq, Eq)]
pub struct BedrockClient {
    region: String,
    model_id: String,
    output_dimensions: i32,
}

/// The region that is used where none is named anywhere.
pub open spec fn default_region() -> Seq<char> {
    "us-east-1"@
}

/// The region of a client: the one asked for, or where that is empty the
/// one of the environment, or where there is none the default.
pub open spec fn region_for(region: Seq<char>, env_region: Option<Seq<char>>) -> Seq<char> {
    if region.len() > 0 {
        region
    } else {
        match env_region {
            Some(named) => named,
            None => default_region(),
        }
    }
}

/// The dimensions of a client: those of the environment where it names a
/// 32-bit integer in decimal, and else the ones asked for.
pub open spec fn dimensions_for(dimensions: int, env_dimensions: Option<Seq<char>>) -> int {
    match env_dimensions {
        Some(text) => match crate::params::parsed_i32(vstd::utf8::encode_utf8(text)) {
            Some(n) => n,
            None => dimensions,
        },
        None => dimensions,
    }
}

impl BedrockClient {
    /// The region of the service.
    pub closed spec fn region(self) -> Seq<char> {
        self.region@
    }

    /// The model that embeds.
    pub closed spec fn model_id(self) -> Seq<char> {
        self.model_id@
    }

    /// The length of the embeddings asked for.
    pub closed spec fn output_dimensions(self) -> int {
        self.output_dimensions as int
    }

    /// The settings of a client. What the environment names goes before
    /// what the caller asks for, but for the region, where the caller goes
    /// first: `env_region`, `env_model_id` and `env_dimensions` are the
    /// values of `AWS_REGION`, `BEDROCK_MODEL_ID` and
    /// `BEDROCK_OUTPUT_DIMENSIONS`, where they are set.
    pub fn new(
        region: &str,
        model_id: &str,
        output_dimensions: i32,
        env_region: Option<String>,
        env_model_id: Option<String>,
        env_dimensions: Option<String>,
    ) -> (r: BedrockClient)
        ensures
            r.region() == region_for(region@, env_region.deep_view()),
            r.model_id() == (match env_model_id {
                Some(named) => named@,
                None => model_id@,
            }),
            r.output_dimensions() == dimensions_for(
                output_dimensions as int,
                env_dimensions.deep_view(),
            ),
    {
        let region = if region.is_empty() {
            match env_region {
                Some(named) => named,
                None => String::from_str("us-east-1"),
            }
        } else {
            String::from_str(region)
        };
        let model_id = match env_model_id {
            Some(named) => named,
            None => String::from_str(model_id),
        };
        let output_dimensions = match env_dimensions {
            Some(text) => match parse_i32(text.as_str()) {
                Some(n) => n,
                None => output_dimensions,
            },
            None => output_dimensions,
        };
        BedrockClient { region, model_id, output_dimensions }
    }

    /// The model that embeds.
    pub fn get_model_id(&self) -> (r: &str)
        ensures
            r@ == self.model_id(),
    {
        self.model_id.as_str()
    }

    /// The length of the embeddings asked for.
    pub fn get_output_dimensions(&self) -> (r: i32)
        ensures
            r == self.output_dimensions(),
    {
        self.output_dimensions
    }

    /// The region of the service.
    pub fn get_region(&self) -> (r: &str)
        ensures
            r@ == self.region(),
    {
        self.region.as_str()
    }

    /// The first step of a request for the embedding of `text`: see
    /// [`begin_embedding`]. A client that [`BedrockClient::new`] made is set
    /// up. The steps that follow a failed try are those of
    /// [`after_failure`].
    pub fn generate_embedding(&self, text: &str) -> (r: EmbeddingAction)
        ensures
            r == (if text@.len() == 0 {
                EmbeddingAction::Fail(BedrockClientError::EmptyText)
            } else {
                EmbeddingAction::Invoke { attempt: 0 }
            }),
    {
        begin_embedding(text, true)
    }

    /// The embeddings of a run of texts, given how the request for each
    /// went: those that were had, in order. A text whose request failed is
    /// passed over; the run as a whole never fails.
    pub fn generate_embeddings<T>(&self, outcomes: Vec<Result<T, BedrockClientError>>) -> (r:
        Result<Vec<T>, BedrockClientError>)
        ensures
            r matches Ok(embeddings) && embeddings@ == successes(outcomes@),
    {
        let mut embeddings: Vec<T> = Vec::new();
        let ghost all = outcomes@;
        let ghost had = |outcome: Result<T, BedrockClientError>| outcome is Ok;
        let ghost unwrap = |outcome: Result<T, BedrockClientError>| outcome->Ok_0;
        assert(all.take(0).filter(had) =~= Seq::empty()) by {
            reveal(Seq::filter);
        }
        for outcome in it: outcomes
            invariant
                it.seq() == all,
                had == |outcome: Result<T, BedrockClientError>| outcome is Ok,
                unwrap == |outcome: Result<T, BedrockClientError>| outcome->Ok_0,
                embeddings@ == all.take(it.index() as int).filter(had).map_values(unwrap),
        {
            proof {
                let i = it.index() as int;
                assert(all.take(i + 1) =~= all.take(i).push(all[i]));
                all.take(i).lemma_filter_push(all[i], had);
            }
            match outcome {
                Ok(embedding) => {
                    let ghost before = embeddings@;
                    embeddings.push(embedding);
                    assert(embeddings@ =~= before.push(embedding));
                },
                Err(_) => {},
            }
        }
        assert(all.take(all.len() as int) =~= all);
        Ok(embeddings)
    }

    /// Whether a health check has anything to probe: a client without a
    /// model is unhealthy as it stands.
    pub fn can_probe(&self) -> (r: bool)
        ensures
            r == (self.model_id().len() > 0),
    {
        !self.model_id.as_str().is_empty()
    }

    /// Whether the client is healthy, given how the probe went: the length
    /// of the embedding of a test text, or the failure. A client without a
    /// model is unhealthy whatever the probe says.
    pub fn health_check(&self, probe: &Result<usize, BedrockClientError>) -> (r: bool)
        ensures
            r == (self.model_id().len() > 0 && probe is Ok && probe->Ok_0 > 0),
    {
        if !self.can_probe() {
            return false;
        }
        match probe {
            Ok(len) => *len > 0,
            Err(_) => false,
        }
    }
}

} // verus!
