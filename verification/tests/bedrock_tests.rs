use fdnix_search::bedrock_client::{
    after_failure, backoff_millis, begin_embedding, check_response, BedrockClient,
    EmbeddingAction, MAX_ATTEMPTS,
};
use fdnix_search::error::BedrockClientError;

fn client() -> BedrockClient {
    BedrockClient::new("us-west-2", "amazon.titan-embed-text-v2:0", 256, None, None, None)
}

#[test]
fn test_bedrock_client_region_handling() {
    let cases = [("", "us-east-1"), ("us-west-2", "us-west-2"), ("eu-central-1", "eu-central-1")];
    for (input_region, expected_region) in cases {
        let client = BedrockClient::new(input_region, "amazon.titan-embed-text-v2:0", 256, None, None, None);
        assert_eq!(client.get_region(), expected_region);
    }
    let from_env =
        BedrockClient::new("", "m", 256, Some("ap-south-1".to_string()), None, None);
    assert_eq!(from_env.get_region(), "ap-south-1");
    let asked = BedrockClient::new("eu-west-1", "m", 256, Some("ap-south-1".to_string()), None, None);
    assert_eq!(asked.get_region(), "eu-west-1");
}

#[test]
fn test_bedrock_client_env_var_overrides() {
    let client = BedrockClient::new(
        "us-east-1",
        "amazon.titan-embed-text-v2:0",
        256,
        None,
        Some("custom-model".to_string()),
        Some("512".to_string()),
    );
    assert_eq!(client.get_model_id(), "custom-model");
    assert_eq!(client.get_output_dimensions(), 512);
    let plain = client_with_dimensions(None);
    assert_eq!(plain.get_model_id(), "amazon.titan-embed-text-v2:0");
    assert_eq!(plain.get_output_dimensions(), 256);
}

fn client_with_dimensions(setting: Option<&str>) -> BedrockClient {
    BedrockClient::new("r", "amazon.titan-embed-text-v2:0", 256, None, None, setting.map(String::from))
}

#[test]
fn test_dimensions_parsing() {
    for (env_value, expected) in [("256", 256), ("512", 512), ("1024", 1024), ("invalid", 256)] {
        assert_eq!(client_with_dimensions(Some(env_value)).get_output_dimensions(), expected);
    }
}

#[test]
fn test_generate_embedding_with_empty_text() {
    assert_eq!(
        client().generate_embedding(""),
        EmbeddingAction::Fail(BedrockClientError::EmptyText)
    );
    assert_eq!(client().generate_embedding("test"), EmbeddingAction::Invoke { attempt: 0 });
    assert_eq!(begin_embedding("", false), EmbeddingAction::Fail(BedrockClientError::EmptyText));
    assert_eq!(
        begin_embedding("text", false),
        EmbeddingAction::Fail(BedrockClientError::NotInitialized)
    );
    assert_eq!(begin_embedding("text", true), EmbeddingAction::Invoke { attempt: 0 });
}

#[test]
fn retries_back_off_and_stop_after_three_tries() {
    let error = |n: u32| BedrockClientError::SdkError(format!("try {} failed", n));
    assert_eq!(after_failure(0, error(0)), EmbeddingAction::RetryAfter { millis: 100, attempt: 1 });
    assert_eq!(after_failure(1, error(1)), EmbeddingAction::RetryAfter { millis: 200, attempt: 2 });
    assert_eq!(after_failure(2, error(2)), EmbeddingAction::Fail(error(2)));
    assert_eq!(after_failure(7, error(7)), EmbeddingAction::Fail(error(7)));
    assert_eq!(after_failure(u32::MAX, error(9)), EmbeddingAction::Fail(error(9)));
    assert_eq!(MAX_ATTEMPTS, 3);
    assert_eq!(backoff_millis(0), 0);
    assert_eq!(backoff_millis(1), 100);
    assert_eq!(backoff_millis(2), 200);
}

#[test]
fn a_request_that_always_fails_is_tried_three_times() {
    let mut tries = 0;
    let mut waited = 0;
    let mut action = client().generate_embedding("nodejs");
    let outcome = loop {
        match action {
            EmbeddingAction::Invoke { attempt } => {
                tries += 1;
                action = after_failure(attempt, BedrockClientError::SdkError(format!("{}", attempt)));
            }
            EmbeddingAction::RetryAfter { millis, attempt } => {
                waited += millis;
                action = EmbeddingAction::Invoke { attempt };
            }
            EmbeddingAction::Fail(error) => break error,
        }
    };
    assert_eq!(tries, 3);
    assert_eq!(waited, 300);
    assert_eq!(outcome, BedrockClientError::SdkError("2".to_string()));
}

#[test]
fn embedding_response_checks() {
    assert_eq!(check_response(true, Ok(5)), Ok(5));
    assert_eq!(check_response(true, Ok(1024)), Ok(1024));
    assert_eq!(check_response(true, Ok(0)), Err(BedrockClientError::InvalidResponse));
    assert_eq!(check_response(false, Ok(5)), Err(BedrockClientError::InvalidResponse));
    assert_eq!(
        check_response(true, Err("missing field `embedding`".to_string())),
        Err(BedrockClientError::JsonError("missing field `embedding`".to_string()))
    );
    assert_eq!(
        check_response(false, Err("x".to_string())),
        Err(BedrockClientError::InvalidResponse)
    );
}

#[test]
fn generate_embeddings_keeps_what_was_had() {
    let outcomes: Vec<Result<Vec<f64>, BedrockClientError>> = vec![
        Ok(vec![0.1, 0.2]),
        Err(BedrockClientError::InvalidResponse),
        Ok(vec![0.3]),
        Err(BedrockClientError::EmptyText),
    ];
    assert_eq!(client().generate_embeddings(outcomes), Ok(vec![vec![0.1, 0.2], vec![0.3]]));
    let none: Vec<Result<Vec<f64>, BedrockClientError>> = Vec::new();
    assert_eq!(client().generate_embeddings(none), Ok(Vec::new()));
}

#[test]
fn bedrock_health_check() {
    assert!(client().can_probe());
    assert!(client().health_check(&Ok(256)));
    assert!(!client().health_check(&Ok(0)));
    assert!(!client().health_check(&Err(BedrockClientError::InvalidResponse)));
    let no_model = BedrockClient::new("r", "", 256, None, None, None);
    assert!(!no_model.can_probe());
    assert!(!no_model.health_check(&Ok(256)));
    assert_eq!(BedrockClientError::AwsError("x".to_string()).message(), "AWS SDK error: x");
    assert_eq!(BedrockClientError::JsonError("x".to_string()).message(), "JSON parsing error: x");
}
