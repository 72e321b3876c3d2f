use nextchat::json::JsonValue;
use nextchat::reply::{goose_reply_from_events, parse_goose_sse_response, strip_think_blocks};

fn text(s: &str) -> JsonValue {
    JsonValue::Text(s.to_string())
}

fn obj(members: Vec<(&str, JsonValue)>) -> JsonValue {
    JsonValue::Object(members.into_iter().map(|(k, v)| (k.to_string(), v)).collect())
}

#[test]
fn think_blocks_are_removed_and_result_trimmed() {
    assert_eq!(strip_think_blocks("<think>plan</think>\n Hello "), "Hello");
    assert_eq!(strip_think_blocks("a<think>b</think>c<think>d</think>e"), "ace");
    assert_eq!(strip_think_blocks("keep <think>unfinished"), "keep");
    assert_eq!(strip_think_blocks("  plain  "), "plain");
    assert_eq!(strip_think_blocks("</think>x"), "</think>x");
}

#[test]
fn assistant_text_is_joined_by_newlines() {
    let stream = [
        "data: {\"type\":\"Message\",\"message\":{\"role\":\"assistant\",\"content\":[{\"type\":\"text\",\"text\":\"Hello\"},{\"type\":\"toolRequest\",\"text\":\"no\"},{\"type\":\"text\",\"text\":\"world\"}]}}\n",
        "\n",
        "event: ignored\n",
        "data: {\"type\":\"Message\",\"message\":{\"role\":\"user\",\"content\":[{\"type\":\"text\",\"text\":\"mine\"}]}}\r\n",
        "data: {\"type\":\"Message\",\"message\":{\"role\":\"assistant\",\"content\":[{\"type\":\"text\",\"text\":\"<think>hm</think>!\"}]}}\n",
        "data: {\"type\":\"Finish\"}\n",
    ].concat();
    assert_eq!(parse_goose_sse_response(&stream), Ok("Hello\nworld\n!".to_string()));
}

#[test]
fn last_error_when_no_text() {
    let stream = [
        "data: {\"type\":\"Error\",\"error\":\"first\"}\n",
        "data: {\"type\":\"Error\",\"error\":\"second\"}\n",
    ].concat();
    assert_eq!(parse_goose_sse_response(&stream), Err("second".to_string()));
    let cleared = [
        "data: {\"type\":\"Error\",\"error\":\"first\"}\n",
        "data: {\"type\":\"Error\",\"error\":42}\n",
    ].concat();
    assert_eq!(parse_goose_sse_response(&cleared), Ok(String::new()));
}

#[test]
fn text_wins_over_errors() {
    let stream = [
        "data: {\"type\":\"Error\",\"error\":\"boom\"}\n",
        "data: {\"type\":\"Message\",\"message\":{\"role\":\"assistant\",\"content\":[{\"type\":\"text\",\"text\":\"ok\"}]}}\n",
    ].concat();
    assert_eq!(parse_goose_sse_response(&stream), Ok("ok".to_string()));
}

#[test]
fn bad_json_line_is_an_error() {
    let stream = [
        "data: {\"type\":\"Message\",\"message\":{\"role\":\"assistant\",\"content\":[{\"type\":\"text\",\"text\":\"ok\"}]}}\n",
        "data: {not json\n",
    ].concat();
    let err = parse_goose_sse_response(&stream).unwrap_err();
    assert!(err.starts_with("Failed to parse Goose event: "), "{}", err);
    assert!(err.len() > "Failed to parse Goose event: ".len());
}

#[test]
fn no_data_lines_give_empty_answer() {
    assert_eq!(parse_goose_sse_response(""), Ok(String::new()));
    assert_eq!(parse_goose_sse_response(": ping\nevent: x\n"), Ok(String::new()));
    assert_eq!(parse_goose_sse_response("data:{\"type\":\"Error\",\"error\":\"x\"}"), Ok(String::new()));
}

#[test]
fn events_given_as_values() {
    let msg = obj(vec![
        ("type", text("Message")),
        ("message", obj(vec![
            ("role", text("assistant")),
            ("content", JsonValue::Array(vec![obj(vec![("type", text("text")), ("text", text(" a "))])])),
        ])),
    ]);
    let not_array = obj(vec![
        ("type", text("Message")),
        ("message", obj(vec![("role", text("assistant")), ("content", text("plain"))])),
    ]);
    let err = obj(vec![("type", text("Error")), ("error", text("bad"))]);
    assert_eq!(goose_reply_from_events(&vec![not_array]), Ok(String::new()));
    assert_eq!(goose_reply_from_events(&vec![err]), Err("bad".to_string()));
    assert_eq!(goose_reply_from_events(&vec![msg, JsonValue::Null]), Ok("a".to_string()));
    assert_eq!(goose_reply_from_events(&vec![]), Ok(String::new()));
}

#[test]
fn answer_is_trimmed_and_no_longer() {
    for t in ["  <think>a</think> b ", "a</think>b", " x<think>y", "\n\n"] {
        let r = strip_think_blocks(t);
        assert_eq!(r, r.trim());
        assert!(r.chars().count() <= t.chars().count());
    }
    assert_eq!(strip_think_blocks("a</think>b"), "a</think>b");
}
