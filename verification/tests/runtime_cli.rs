use kiro_gateway::kiro::endpoint::context::{KiroCredentials, RequestContext, CLI_ENDPOINT_NAME};
use kiro_gateway::kiro::endpoint::runtime_cli::{RuntimeCliEndpoint, RUNTIME_CLI_ENDPOINT_NAME};
use kiro_gateway::model::config::Config;

#[test]
fn test_runtime_cli_url_and_fallback() {
    let endpoint = RuntimeCliEndpoint::new();
    let mut config = Config::default();
    config.api_region = Some("us-east-1".to_string());
    let credentials = KiroCredentials::default();
    let ctx = RequestContext {
        credentials: &credentials,
        token: "tok",
        machine_id: "machine",
        config: &config,
    };
    assert_eq!(endpoint.api_url(&ctx), "https://runtime.us-east-1.kiro.dev/");
    assert_eq!(endpoint.fallback_chain(), vec![CLI_ENDPOINT_NAME.to_string()]);
    assert_eq!(endpoint.content_type(), "application/x-amz-json-1.0");
}

fn header<'a>(headers: &'a Vec<(String, String)>, name: &str) -> Option<&'a str> {
    headers.iter().find(|h| h.0 == name).map(|h| h.1.as_str())
}

#[test]
fn chat_requests_carry_these_headers() {
    let mut config = Config::default();
    config.api_region = Some("eu-west-1".to_string());
    config.system_version = "linux".to_string();
    config.kiro_version = "9.9".to_string();
    let mut credentials = KiroCredentials::default();
    credentials.api_key = true;
    credentials.external_idp = true;
    credentials.profile_arn = Some("arn:1".to_string());
    let ctx = RequestContext { credentials: &credentials, token: "tok", machine_id: "m", config: &config };
    let endpoint = RuntimeCliEndpoint::default();
    let headers = endpoint.api_headers(&ctx, "id-1");
    let agent = "aws-sdk-rust/1.3.15 ua/2.1 api/codewhispererstreaming/0.1.14474 os/linux lang/rust/1.92.0 ";
    assert_eq!(
        headers,
        vec![
            ("x-amz-target".to_string(), "AmazonCodeWhispererStreamingService.GenerateAssistantResponse".to_string()),
            ("x-amzn-codewhisperer-optout".to_string(), "false".to_string()),
            ("x-amz-user-agent".to_string(), format!("{}m/F app/AmazonQ-For-CLI", agent)),
            ("user-agent".to_string(), format!("{}md/appVersion-9.9 app/AmazonQ-For-CLI", agent)),
            ("host".to_string(), "runtime.eu-west-1.kiro.dev".to_string()),
            ("amz-sdk-invocation-id".to_string(), "id-1".to_string()),
            ("amz-sdk-request".to_string(), "attempt=1; max=3".to_string()),
            ("Authorization".to_string(), "Bearer tok".to_string()),
            ("tokentype".to_string(), "API_KEY".to_string()),
        ]
    );
    let tool = endpoint.mcp_headers(&ctx, "id-2");
    assert_eq!(header(&tool, "x-amzn-kiro-profile-arn"), Some("arn:1"));
    assert_eq!(header(&tool, "x-amz-target"), None);
    assert_eq!(endpoint.mcp_url(&ctx), "https://runtime.eu-west-1.kiro.dev/mcp");
    assert_eq!(endpoint.name(), RUNTIME_CLI_ENDPOINT_NAME);
}

#[test]
fn each_request_goes_by_a_number_of_its_own() {
    let config = Config::default();
    let mut credentials = KiroCredentials::default();
    credentials.external_idp = true;
    let ctx = RequestContext { credentials: &credentials, token: "t", machine_id: "m", config: &config };
    let endpoint = RuntimeCliEndpoint::new();
    let first = endpoint.decorate_api(&ctx);
    let second = endpoint.decorate_mcp(&ctx);
    let a = header(&first, "amz-sdk-invocation-id").unwrap();
    let b = header(&second, "amz-sdk-invocation-id").unwrap();
    assert_ne!(a, b);
    assert_eq!(a.len(), 36);
    assert_eq!(a.chars().filter(|c| *c == '-').count(), 4);
    assert!(a.chars().all(|c| c == '-' || c.is_ascii_digit() || ('a'..='f').contains(&c)));
    assert_eq!(header(&first, "tokentype"), Some("EXTERNAL_IDP"));
    assert_eq!(header(&second, "x-amzn-kiro-profile-arn"), None);
}

#[test]
fn the_region_of_the_credential_goes_first() {
    let mut config = Config::default();
    config.region = "c".to_string();
    let mut credentials = KiroCredentials::default();
    assert_eq!(credentials.effective_api_region(&config), "c");
    config.api_region = Some("b".to_string());
    assert_eq!(credentials.effective_api_region(&config), "b");
    credentials.api_region = Some("a".to_string());
    assert_eq!(credentials.effective_api_region(&config), "a");
    assert_eq!(credentials.effective_profile_arn(), None);
}
