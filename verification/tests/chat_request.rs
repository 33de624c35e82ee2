use kiro_gateway::admin::model_mapping::ModelMappingManager;
use kiro_gateway::json::{parse_json, Json};
use kiro_gateway::openai::chat::{prepare_chat, SessionHeaders};
use kiro_gateway::openai::types::{
    append_openai_messages, chat_to_anthropic, chat_to_anthropic_with, content_to_text,
    convert_openai_tools, convert_tool_choice, openai_content_to_anthropic,
    openai_model_to_kiro_model, openai_reasoning_to_anthropic, parse_tool_arguments,
    tool_result_content, ChatCompletionRequest, OpenAIFunctionCall, OpenAIMessage, OpenAITool,
    OpenAIToolCall, OpenAIToolFunction, StreamOptions,
};

fn json(text: &str) -> Json {
    parse_json(text).unwrap()
}

fn message(role: &str, content: Option<&str>) -> OpenAIMessage {
    OpenAIMessage {
        role: role.to_string(),
        content: content.map(Json::text),
        tool_calls: Vec::new(),
        tool_call_id: None,
        name: None,
    }
}

fn call(id: Option<&str>, name: &str, arguments: &str) -> OpenAIToolCall {
    OpenAIToolCall {
        id: id.map(|t| t.to_string()),
        tool_type: "function".to_string(),
        function: OpenAIFunctionCall { name: name.to_string(), arguments: arguments.to_string() },
    }
}

fn calling(calls: Vec<OpenAIToolCall>) -> OpenAIMessage {
    let mut m = message("assistant", None);
    m.content = Some(Json::Null);
    m.tool_calls = calls;
    m
}

fn result(id: &str, text: &str) -> OpenAIMessage {
    let mut m = message("tool", Some(text));
    m.tool_call_id = Some(id.to_string());
    m
}

fn tool(tool_type: &str) -> OpenAITool {
    OpenAITool {
        tool_type: tool_type.to_string(),
        function: None,
        name: None,
        description: None,
        parameters: None,
    }
}

fn function_tool(name: &str, description: Option<&str>, parameters: &str) -> OpenAITool {
    let mut t = tool("function");
    t.function = Some(OpenAIToolFunction {
        name: name.to_string(),
        description: description.map(|d| d.to_string()),
        parameters: Some(json(parameters)),
    });
    t
}

fn request(model: &str, messages: Vec<OpenAIMessage>, tools: Vec<OpenAITool>) -> ChatCompletionRequest {
    ChatCompletionRequest {
        model: model.to_string(),
        messages,
        stream: false,
        max_tokens: None,
        max_completion_tokens: None,
        tools,
        tool_choice: None,
        reasoning_effort: None,
        reasoning: None,
        stream_options: None,
        prompt_cache_key: None,
    }
}

#[test]
fn chat_request_converts_tools_and_tool_results() {
    let req = request(
        "gpt-4o",
        vec![
            message("system", Some("be brief")),
            message("user", Some("weather?")),
            calling(vec![call(Some("call_1"), "get_weather", "{\"city\":\"Paris\"}")]),
            result("call_1", "sunny"),
            message("user", Some("summarize")),
        ],
        vec![function_tool(
            "get_weather",
            Some("Get weather"),
            r#"{"type": "object", "properties": {"city": {"type": "string"}}}"#,
        )],
    );

    let converted = chat_to_anthropic(&req, None, "family").unwrap();
    assert_eq!(converted.anthropic.model, "family-sonnet-4.5");
    assert_eq!(converted.anthropic.messages.len(), 4);
    assert_eq!(converted.anthropic.system.unwrap()[0].text, "be brief");
    assert_eq!(converted.anthropic.tools.unwrap()[0].name, "get_weather");
}

#[test]
fn chat_request_converts_web_search_tool_variants() {
    for typ in ["web_search", "web_search_preview", "web_search_preview_2025_03_11"] {
        let req = request("gpt-5", vec![message("user", Some("查一下今天的新闻"))], vec![tool(typ)]);
        let converted = chat_to_anthropic(&req, None, "family").unwrap();
        let tools = converted
            .anthropic
            .tools
            .unwrap_or_else(|| panic!("web search 工具被丢弃了: type={typ}"));
        assert_eq!(tools.len(), 1, "type={typ}");
        assert_eq!(tools[0].name, "web_search", "type={typ}");
        let tt = tools[0].tool_type.as_deref().unwrap_or("");
        assert!(
            tt.starts_with("web_search_"),
            "type={typ} 归一化后 tool_type={tt} 不满足后端 starts_with(web_search_)"
        );
        assert_eq!(tools[0].max_uses, Some(8), "type={typ}");
    }
}

#[test]
fn chat_request_keeps_web_search_alongside_function_tools() {
    let req = request(
        "gpt-5",
        vec![message("user", Some("查天气并联网核对"))],
        vec![
            tool("web_search"),
            function_tool("get_weather", None, r#"{"type": "object", "properties": {}}"#),
        ],
    );
    let converted = chat_to_anthropic(&req, None, "family").unwrap();
    assert!(converted.anthropic.force_web_search_loop);
    let tools = converted.anthropic.tools.unwrap();
    assert_eq!(tools.len(), 2);
    assert!(tools.iter().any(|t| t.name == "web_search"
        && t.tool_type.as_deref().is_some_and(|s| s.starts_with("web_search_"))));
    assert!(tools.iter().any(|t| t.name == "get_weather" && t.tool_type.is_none()));
}

#[test]
fn chat_request_batches_parallel_tool_results_into_one_user_message() {
    let req = request(
        "gpt-5.5",
        vec![
            message("user", Some("查北京和上海的天气")),
            calling(vec![
                call(Some("call_a"), "get_weather", "{\"city\":\"北京\"}"),
                call(Some("call_b"), "get_weather", "{\"city\":\"上海\"}"),
            ]),
            result("call_a", "北京晴"),
            result("call_b", "上海雨"),
            message("user", Some("总结")),
        ],
        Vec::new(),
    );

    let converted = chat_to_anthropic(&req, None, "family").unwrap();
    let msgs = &converted.anthropic.messages;
    assert_eq!(msgs.len(), 4);

    assert_eq!(msgs[1].role, "assistant");
    let assistant_blocks = msgs[1].content.as_array().unwrap();
    let tool_uses =
        assistant_blocks.iter().filter(|b| b.get_str("type") == Some("tool_use")).count();
    assert_eq!(tool_uses, 2);

    assert_eq!(msgs[2].role, "user");
    let results = msgs[2].content.as_array().unwrap();
    assert_eq!(results.len(), 2, "两个 tool_result 必须合并进一条 user 消息");
    assert!(results.iter().all(|r| r.get_str("type") == Some("tool_result")));
    assert_eq!(results[0].get_str("tool_use_id"), Some("call_a"));
    assert_eq!(results[1].get_str("tool_use_id"), Some("call_b"));

    assert_eq!(msgs[3].role, "user");
}

#[test]
fn requests_without_a_message_of_their_own_are_refused() {
    let e = chat_to_anthropic(&request("m", Vec::new(), Vec::new()), None, "f").unwrap_err();
    assert_eq!(e.message, "messages must contain at least one message");
    let e = chat_to_anthropic(&request("m", vec![message("system", Some("s"))], Vec::new()), None, "f")
        .unwrap_err();
    assert_eq!(e.message, "messages must contain at least one non-system message");
}

#[test]
fn calls_without_an_identifier_get_one() {
    let req = request("m", vec![calling(vec![call(None, "f", "{}")])], Vec::new());
    let id_of = |j: &Json| j.as_array().unwrap()[0].get_str("id").unwrap().to_string();
    let a = id_of(&chat_to_anthropic(&req, None, "f").unwrap().anthropic.messages[0].content);
    let b = id_of(&chat_to_anthropic(&req, None, "f").unwrap().anthropic.messages[0].content);
    assert_ne!(a, b);
    assert_eq!(a.len(), "call_".len() + 32);
    assert!(a.starts_with("call_"));
    assert!(a[5..].chars().all(|c| c.is_ascii_digit() || ('a'..='f').contains(&c)));
    let fixed = vec![vec!["given".to_string()]];
    let c = chat_to_anthropic_with(&req, None, &fixed, "f").unwrap();
    assert_eq!(id_of(&c.anthropic.messages[0].content), "given");
}

#[test]
fn token_limits_and_effort() {
    let mut req = request("m", vec![message("user", Some("q"))], Vec::new());
    assert_eq!(chat_to_anthropic(&req, None, "f").unwrap().anthropic.max_tokens, 32000);
    req.max_tokens = Some(5);
    assert_eq!(chat_to_anthropic(&req, None, "f").unwrap().anthropic.max_tokens, 5);
    req.max_completion_tokens = Some(-3);
    assert_eq!(chat_to_anthropic(&req, None, "f").unwrap().anthropic.max_tokens, 1);
    req.reasoning_effort = Some("high".to_string());
    let converted = chat_to_anthropic(&req, None, "f").unwrap().anthropic;
    assert_eq!(converted.output_config.unwrap().effort, "high");
    assert_eq!(converted.thinking.unwrap().thinking_type, "enabled");
    assert_eq!(openai_reasoning_to_anthropic(None, None), (None, None));
    assert_eq!(openai_reasoning_to_anthropic(Some("none"), None), (None, None));
}

#[test]
fn names_of_other_services_stand_for_the_default_model() {
    for name in ["gpt-4o", " GPT-5 ", "o1", "o3-mini", "o4-mini", "codex-mini", "", "  "] {
        assert_eq!(openai_model_to_kiro_model(name, "f"), "f-sonnet-4.5", "{name}");
    }
    assert_eq!(openai_model_to_kiro_model(" glm-5 ", "f"), "glm-5");
}

#[test]
fn contents_as_text() {
    assert_eq!(content_to_text(&Json::text("a")), "a");
    assert_eq!(
        content_to_text(&json(r#"[{"type":"text","text":"a"},{"type":"text","text":"b"}]"#)),
        "ab"
    );
    assert_eq!(content_to_text(&json(r#"{"content":[1,true],"output":"o"}"#)), "1true");
    assert_eq!(content_to_text(&json(r#"{"content":"","output":1.5}"#)), "1.5");
    assert_eq!(content_to_text(&Json::Null), "");
    assert_eq!(openai_content_to_anthropic(None), Json::text(""));
    assert_eq!(tool_result_content(None), Json::text(""));
}

#[test]
fn images_are_handed_on() {
    let content = json(
        r#"[{"type":"text","text":"see"},
            {"type":"image_url","image_url":{"url":"data:image/png;base64,QUJD"}}]"#,
    );
    let blocks = openai_content_to_anthropic(Some(&content));
    let blocks = blocks.as_array().unwrap();
    assert_eq!(blocks.len(), 2);
    assert_eq!(blocks[0].get_str("text"), Some("see"));
    assert_eq!(blocks[1].get_str("type"), Some("image"));
    assert_eq!(blocks[1].get2_str("source", "media_type"), Some("image/png"));
    assert_eq!(blocks[1].get2_str("source", "data"), Some("QUJD"));
}

#[test]
fn arguments_are_read_where_they_are_json() {
    assert_eq!(parse_tool_arguments("{\"a\":1}"), json("{\"a\":1}"));
    assert_eq!(parse_tool_arguments(" "), json("{}"));
    assert_eq!(parse_tool_arguments("oops"), json(r#"{"arguments":"oops"}"#));
}

#[test]
fn choices_of_tools() {
    assert_eq!(convert_tool_choice(None), None);
    let choice = |j: Json| convert_tool_choice(Some(&j)).unwrap().to_text();
    assert_eq!(choice(Json::text("auto")), r#"{"type":"auto"}"#);
    assert_eq!(choice(Json::text("required")), r#"{"type":"any"}"#);
    assert_eq!(
        choice(json(r#"{"type":"function","function":{"name":"f"}}"#)),
        r#"{"name":"f","type":"tool"}"#
    );
}

#[test]
fn tools_that_cannot_be_offered_are_left_out() {
    assert_eq!(convert_openai_tools(&Vec::new()), None);
    assert_eq!(convert_openai_tools(&vec![tool("other"), tool("function")]), None);
    let mut spread = tool("function");
    spread.name = Some("f".to_string());
    spread.description = Some("d".to_string());
    let tools = convert_openai_tools(&vec![spread]).unwrap();
    assert_eq!(tools[0].name, "f");
    assert_eq!(tools[0].description, "d");
    assert_eq!(tools[0].input_schema.to_text(), r#"{"properties":{},"type":"object"}"#);
}

#[test]
fn calls_of_one_turn_are_merged() {
    let out = append_openai_messages(
        vec![message("user", Some("q")), calling(vec![call(Some("a"), "f", "{}")])],
        vec![calling(vec![call(Some("b"), "g", "{}")]), result("a", "x")],
    );
    assert_eq!(out.len(), 3);
    assert_eq!(out[1].tool_calls.len(), 2);
    assert_eq!(out[1].tool_calls[1].id.as_deref(), Some("b"));
}

#[test]
fn requests_are_prepared_for_the_message_interface() {
    let id = "67e55044-10b1-426f-9247-bb680e5fe0c8";
    let headers = SessionHeaders {
        session_affinity: Some("none"),
        client_request_id: Some(id),
        session_id: None,
    };
    let mappings = ModelMappingManager::with_defaults("family");
    let mut req = request("gpt-5.5", vec![message("user", Some("q"))], Vec::new());
    req.stream = true;
    req.stream_options = Some(StreamOptions { include_usage: true });
    let p = prepare_chat(req, Some(&mappings), &headers, "family").ok().unwrap();
    assert_eq!(p.model, "family-opus-4.8");
    assert_eq!(p.request.model, "family-opus-4.8");
    assert!(p.stream && p.request.stream && p.include_usage);
    let user = p.request.metadata.unwrap().user_id.unwrap();
    assert_eq!(user, format!("session_{}", id));
    assert_eq!(user.len(), 44);

    let req = request("gpt-5.5", vec![message("user", Some("q"))], Vec::new());
    let p = prepare_chat(req, None, &headers, "family").ok().unwrap();
    assert_eq!(p.model, "family-sonnet-4.5");
    assert!(!p.stream && !p.include_usage);

    let refused = prepare_chat(request("m", Vec::new(), Vec::new()), None, &headers, "f");
    let error = refused.err().unwrap();
    assert_eq!(error.get2_str("error", "type"), Some("invalid_request_error"));
    assert_eq!(
        error.get2_str("error", "message"),
        Some("messages must contain at least one message")
    );
}
