use nextchat::chat::{
    agent_start_request, finish_reply, goose_prompt, provider_update_outcome,
    provider_update_request, reply_body_from_quoted, reply_request, require_agent_path,
    session_action, session_from_parsed, SessionAction, session_from_start_response, start_body_from_quoted,
    update_body_from_quoted,
};
use nextchat::config::{AgentEnv, GooseConfig};
use nextchat::json::{json_quoted, JsonValue};

fn no_env() -> AgentEnv {
    AgentEnv { host: None, port: None }
}

fn some(s: &str) -> Option<String> {
    Some(s.to_string())
}

#[test]
fn prompt_is_trimmed_and_must_not_be_empty() {
    assert_eq!(goose_prompt("  hi there \n"), Ok("hi there".to_string()));
    assert_eq!(goose_prompt(" \t "), Err("Prompt is empty".to_string()));
}

#[test]
fn missing_agent_is_an_error() {
    assert_eq!(require_agent_path(some("/g")), Ok("/g".to_string()));
    assert_eq!(require_agent_path(None), Err("Goose agent executable was not found".to_string()));
}

#[test]
fn reply_request_body_and_address() {
    let c = GooseConfig::default();
    let r = reply_request(&c, &no_env(), "s-1", "say \"hi\"\n", 1_700_000_000);
    assert_eq!(r.url, "http://127.0.0.1:32123/reply");
    assert_eq!(r.secret_key, "nextchat-local-goose-agent");
    assert_eq!(
        r.body,
        "{\"recipe_name\":null,\"recipe_version\":null,\"session_id\":\"s-1\",\"user_message\":{\"content\":[{\"text\":\"say \\\"hi\\\"\\n\",\"type\":\"text\"}],\"created\":1700000000,\"id\":null,\"metadata\":{\"agentVisible\":true,\"userVisible\":true},\"role\":\"user\"}}"
    );
    let v: serde_json::Value = serde_json::from_str(&r.body).unwrap();
    assert_eq!(v["user_message"]["content"][0]["text"], "say \"hi\"\n");
}

#[test]
fn bodies_from_quoted_parts() {
    assert_eq!(
        start_body_from_quoted("\"d\""),
        "{\"extension_overrides\":null,\"recipe\":null,\"recipe_deeplink\":null,\"recipe_id\":null,\"working_dir\":\"d\"}"
    );
    assert_eq!(
        update_body_from_quoted("\"s\"", "\"p\"", "\"m\""),
        "{\"context_limit\":null,\"model\":\"m\",\"provider\":\"p\",\"request_params\":null,\"session_id\":\"s\"}"
    );
    assert!(reply_body_from_quoted("\"s\"", "\"p\"", -3).contains("\"created\":-3,"));
}

#[test]
fn session_start_request() {
    let mut c = GooseConfig::default();
    c.secret_key = some("sec");
    let r = agent_start_request(&c, &no_env(), "C:\\work\\dir");
    assert_eq!(r.url, "http://127.0.0.1:32123/agent/start");
    assert_eq!(r.secret_key, "sec");
    assert_eq!(
        r.body,
        "{\"extension_overrides\":null,\"recipe\":null,\"recipe_deeplink\":null,\"recipe_id\":null,\"working_dir\":\"C:\\\\work\\\\dir\"}"
    );
}

#[test]
fn session_start_answers() {
    assert_eq!(
        session_from_start_response(false, "500 Internal Server Error", "oops"),
        Err("Failed to start Goose session 500 Internal Server Error: oops".to_string())
    );
    let invalid = session_from_start_response(true, "200 OK", "not json").unwrap_err();
    assert!(invalid.starts_with("Invalid Goose session response: "), "{}", invalid);
    assert!(invalid.len() > "Invalid Goose session response: ".len());
    assert_eq!(
        session_from_start_response(true, "200 OK", "{\"name\":\"x\"}"),
        Err("Goose session response did not include an id".to_string())
    );
    assert_eq!(
        session_from_start_response(true, "200 OK", "{\"id\":7}"),
        Err("Goose session response did not include an id".to_string())
    );
    assert_eq!(session_from_start_response(true, "200 OK", "{\"id\":\"abc\",\"x\":1}"), Ok("abc".to_string()));
}

#[test]
fn session_from_parsed_values() {
    let v = JsonValue::Object(vec![("id".to_string(), JsonValue::Text("z".to_string()))]);
    assert_eq!(session_from_parsed(Ok(v)), Ok("z".to_string()));
    assert_eq!(session_from_parsed(Err("e".to_string())), Err("Invalid Goose session response: e".to_string()));
    assert_eq!(
        session_from_parsed(Ok(JsonValue::Array(vec![]))),
        Err("Goose session response did not include an id".to_string())
    );
}

#[test]
fn provider_update_needs_provider_and_model() {
    let mut c = GooseConfig::default();
    assert_eq!(
        provider_update_request(&c, &no_env(), "s").unwrap_err(),
        "Goose provider is not configured. Please set provider in goose.config.json"
    );
    c.provider = some("Anthropic");
    assert_eq!(
        provider_update_request(&c, &no_env(), "s").unwrap_err(),
        "Goose model is not configured. Please set model in goose.config.json"
    );
    c.model = some("  ");
    assert_eq!(
        provider_update_request(&c, &no_env(), "s").unwrap_err(),
        "Goose model is not configured. Please set model in goose.config.json"
    );
    c.model = some("model-x");
    let r = provider_update_request(&c, &no_env(), "s-9").unwrap();
    assert_eq!(r.url, "http://127.0.0.1:32123/agent/update_provider");
    assert_eq!(
        r.body,
        "{\"context_limit\":null,\"model\":\"model-x\",\"provider\":\"anthropic\",\"request_params\":null,\"session_id\":\"s-9\"}"
    );
}

#[test]
fn provider_update_answers() {
    assert_eq!(provider_update_outcome(true, "200 OK", ""), Ok(()));
    assert_eq!(
        provider_update_outcome(false, "400 Bad Request", "no"),
        Err("Failed to update Goose provider 400 Bad Request: no".to_string())
    );
}

#[test]
fn reply_answers() {
    assert_eq!(
        finish_reply("/g".to_string(), false, "502 Bad Gateway", "down").unwrap_err(),
        "Goose agent returned 502 Bad Gateway: down"
    );
    assert_eq!(
        finish_reply("/g".to_string(), true, "200 OK", "").unwrap_err(),
        "Goose agent returned an empty response"
    );
    assert_eq!(
        finish_reply("/g".to_string(), true, "200 OK", "data: {\"type\":\"Error\",\"error\":\"quota\"}\n").unwrap_err(),
        "quota"
    );
    let ok = finish_reply(
        "/g".to_string(),
        true,
        "200 OK",
        "data: {\"type\":\"Message\",\"message\":{\"role\":\"assistant\",\"content\":[{\"type\":\"text\",\"text\":\" Hi \"}]}}\n",
    )
    .unwrap();
    assert_eq!(ok.content, "Hi");
    assert_eq!(ok.path, "/g");
    assert_eq!(
        finish_reply(
            "/g".to_string(),
            true,
            "200 OK",
            "data: {\"type\":\"Message\",\"message\":{\"role\":\"assistant\",\"content\":[{\"type\":\"text\",\"text\":\"<think>x</think>\"}]}}\n",
        )
        .unwrap_err(),
        "Goose agent returned an empty response"
    );
}

#[test]
fn json_quoting_matches_serde_json() {
    let cases = [
        "", "plain", "quote \" and \\ backslash", "\u{8}\t\n\u{c}\r", "\u{0}\u{1}\u{1f}\u{7f}",
        "unicode é 中文 🙂", "/slash",
    ];
    for case in cases {
        assert_eq!(json_quoted(case), serde_json::to_string(case).unwrap(), "case {:?}", case);
    }
    assert_eq!(json_quoted("\u{1b}"), "\"\\u001b\"");
}

#[test]
fn session_reused_once_known() {
    match session_action(Some("s-1".to_string())) {
        SessionAction::Reuse { id } => assert_eq!(id, "s-1"),
        SessionAction::Start => panic!("expected reuse"),
    }
    assert!(matches!(session_action(None), SessionAction::Start));
}
