use zero_trust_gateway::json::{
    extract_completion_text, extract_user_prompt, is_mcp_or_tool_request, JsonMember, JsonValue,
};

fn obj(members: Vec<(&str, JsonValue)>) -> JsonValue {
    JsonValue::Object(
        members.into_iter().map(|(k, v)| JsonMember { key: k.to_string(), value: v }).collect(),
    )
}

fn text(s: &str) -> JsonValue {
    JsonValue::Text(s.to_string())
}

fn message(role: &str, content: JsonValue) -> JsonValue {
    obj(vec![("role", text(role)), ("content", content)])
}

#[test]
fn last_user_message_is_the_prompt() {
    let body = obj(vec![
        ("model", text("gpt-4")),
        (
            "messages",
            JsonValue::Array(vec![
                message("system", text("be brief")),
                message("user", text("first")),
                message("assistant", text("ok")),
                message("user", text("Xin chào AI!")),
            ]),
        ),
    ]);
    assert_eq!(extract_user_prompt(&body), Some("Xin chào AI!".to_string()));
}

#[test]
fn prompt_missing_when_last_user_content_is_not_text() {
    let body = obj(vec![(
        "messages",
        JsonValue::Array(vec![message("user", text("older")), message("user", JsonValue::Null)]),
    )]);
    assert_eq!(extract_user_prompt(&body), None);
    assert_eq!(extract_user_prompt(&obj(vec![("messages", text("x"))])), None);
    assert_eq!(extract_user_prompt(&JsonValue::Array(vec![])), None);
    let no_user = obj(vec![("messages", JsonValue::Array(vec![message("system", text("s"))]))]);
    assert_eq!(extract_user_prompt(&no_user), None);
}

#[test]
fn tools_and_json_rpc_make_a_request_dynamic() {
    assert!(is_mcp_or_tool_request(&obj(vec![("tools", JsonValue::Array(vec![]))])));
    assert!(!is_mcp_or_tool_request(&obj(vec![("tools", JsonValue::Null)])));
    assert!(is_mcp_or_tool_request(&obj(vec![("jsonrpc", text("2.0")), ("method", JsonValue::Null)])));
    assert!(!is_mcp_or_tool_request(&obj(vec![("jsonrpc", text("2.0"))])));
    assert!(!is_mcp_or_tool_request(&obj(vec![("jsonrpc", text("1.0")), ("method", text("m"))])));
    assert!(!is_mcp_or_tool_request(&text("tools")));
}

#[test]
fn completion_text_is_first_choice_content() {
    let answer = obj(vec![
        ("id", text("chatcmpl-123")),
        (
            "choices",
            JsonValue::Array(vec![obj(vec![
                ("index", JsonValue::Number("0".to_string())),
                ("message", message("assistant", text("Đây là câu trả lời từ Upstream AI!"))),
            ])]),
        ),
    ]);
    assert_eq!(extract_completion_text(&answer), Some("Đây là câu trả lời từ Upstream AI!".to_string()));
    assert_eq!(extract_completion_text(&obj(vec![("choices", JsonValue::Array(vec![]))])), None);
    assert_eq!(extract_completion_text(&JsonValue::Bool(true)), None);
}
