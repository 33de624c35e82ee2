use kiro_gateway::kiro::call::Outcome;
use kiro_gateway::kiro::error::{CallError, UpstreamRateLimitError};
use kiro_gateway::kiro::provider::{
    extract_model_from_request, mcp_validation_outcome, EndpointRegistry, ProfileLookups,
};

#[test]
fn credentials_name_their_endpoint_or_take_the_default() {
    let registry = EndpointRegistry::new(
        vec!["ide".to_string(), "cli".to_string()],
        "ide".to_string(),
    );
    assert_eq!(registry.endpoint_for(None), Ok("ide"));
    assert_eq!(registry.endpoint_for(Some("cli")), Ok("cli"));
    assert_eq!(registry.endpoint_for(Some("x")), Err("未知端点: x".to_string()));
    assert_eq!(
        registry.fallbacks(&vec!["x".to_string(), "cli".to_string(), "ide".to_string()]),
        vec!["cli".to_string(), "ide".to_string()]
    );
}

#[test]
fn profiles_are_looked_up_once() {
    let mut lookups = ProfileLookups::new();
    assert!(lookups.should_resolve(1, false, false));
    assert!(!lookups.should_resolve(1, true, false));
    assert!(!lookups.should_resolve(1, false, true));
    assert_eq!(lookups.resolved(1, Err(CallError::Other("x".to_string()))), Ok(None));
    assert!(lookups.should_resolve(1, false, false));
    let limit = CallError::RateLimit(UpstreamRateLimitError::new(None));
    assert_eq!(lookups.resolved(1, Err(limit.clone())), Err(limit));
    assert_eq!(lookups.resolved(1, Ok(Some("arn".to_string()))), Ok(Some("arn".to_string())));
    assert!(!lookups.should_resolve(1, false, false));
    assert_eq!(lookups.resolved(2, Ok(None)), Ok(None));
    assert_eq!(lookups.stale_candidates(2), None);
    let mut ids = lookups.stale_candidates(1).unwrap();
    ids.sort();
    assert_eq!(ids, vec![1, 2]);
    lookups.forget(&vec![1, 5]);
    assert!(lookups.should_resolve(1, false, false));
    assert!(!lookups.should_resolve(2, false, false));
}

#[test]
fn requests_name_their_model() {
    let body = r#"{"conversationState":{"currentMessage":{"userInputMessage":{"modelId":"m"}}}}"#;
    assert_eq!(extract_model_from_request(body).as_deref(), Some("m"));
    assert_eq!(extract_model_from_request("{}"), None);
    assert_eq!(extract_model_from_request("{"), None);
    let number = r#"{"conversationState":{"currentMessage":{"userInputMessage":{"modelId":1}}}}"#;
    assert_eq!(extract_model_from_request(number), None);
}

#[test]
fn tool_calls_are_judged_by_their_caller() {
    assert_eq!(mcp_validation_outcome(None, false, "b"), (Outcome::Success, None));
    assert_eq!(mcp_validation_outcome(Some("e"), true, "b"), (Outcome::Success, None));
    assert_eq!(
        mcp_validation_outcome(Some("e"), false, "b"),
        (Outcome::Unknown, Some("e: b".to_string()))
    );
}
