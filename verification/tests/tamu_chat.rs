use tamu_chat::items::{FunctionCallOutputBody, FunctionCallOutputPayload, ResponseItem, ContentItem};
use tamu_chat::json::JsonValue;
use tamu_chat::request::TamuChatRequestBuilder;
use tamu_chat::response::{
    response_events, ChatChoice, ChatFunctionCall, ChatMessage, ChatResponse, ChatToolCall,
    ResponseEvent,
};

fn s(text: &str) -> JsonValue {
    JsonValue::Str(text.to_string())
}

fn obj(entries: Vec<(&str, JsonValue)>) -> JsonValue {
    JsonValue::Object(entries.into_iter().map(|(k, v)| (k.to_string(), v)).collect())
}

fn get<'a>(v: &'a JsonValue, key: &str) -> Option<&'a JsonValue> {
    match v {
        JsonValue::Object(entries) => entries.iter().find(|(k, _)| k == key).map(|(_, v)| v),
        _ => None,
    }
}

fn array(v: &JsonValue) -> &Vec<JsonValue> {
    match v {
        JsonValue::Array(items) => items,
        other => panic!("not an array: {other:?}"),
    }
}

fn text(v: &JsonValue) -> &str {
    match v {
        JsonValue::Str(t) => t,
        other => panic!("not a string: {other:?}"),
    }
}

fn exec_command_tool() -> JsonValue {
    obj(vec![
        ("type", s("function")),
        (
            "function",
            obj(vec![
                ("name", s("exec_command")),
                ("description", s("Runs a command")),
                (
                    "parameters",
                    obj(vec![
                        ("type", s("object")),
                        ("properties", obj(vec![("cmd", obj(vec![("type", s("string"))]))])),
                    ]),
                ),
            ]),
        ),
    ])
}

fn user(text: &str) -> ResponseItem {
    ResponseItem::Message {
        role: "user".to_string(),
        content: vec![ContentItem::InputText { text: text.to_string() }],
    }
}

fn tool_reply(id: &str, call_id: &str, arguments: &str) -> ChatResponse {
    ChatResponse {
        id: id.to_string(),
        choices: vec![ChatChoice {
            finish_reason: Some("tool_calls".to_string()),
            message: ChatMessage {
                content: None,
                tool_calls: vec![ChatToolCall {
                    id: Some(call_id.to_string()),
                    function: ChatFunctionCall {
                        name: "exec_command".to_string(),
                        arguments: arguments.to_string(),
                    },
                }],
            },
        }],
    }
}

fn final_reply(id: &str, content: &str) -> ChatResponse {
    ChatResponse {
        id: id.to_string(),
        choices: vec![ChatChoice {
            finish_reason: Some("stop".to_string()),
            message: ChatMessage { content: Some(content.to_string()), tool_calls: vec![] },
        }],
    }
}

/// The items that a turn records from the events of a reply.
fn done_items(events: &[ResponseEvent]) -> Vec<ResponseItem> {
    events
        .iter()
        .filter_map(|e| match e {
            ResponseEvent::OutputItemDone(item) => Some(item.clone()),
            _ => None,
        })
        .collect()
}

fn tool_output(call_id: &str, output: &str) -> ResponseItem {
    ResponseItem::FunctionCallOutput {
        call_id: call_id.to_string(),
        output: FunctionCallOutputPayload { body: FunctionCallOutputBody::Text(output.to_string()) },
    }
}

fn has_tool_message(body: &JsonValue, call_id: &str, needle: &str) -> bool {
    array(get(body, "messages").unwrap()).iter().any(|m| {
        get(m, "role") == Some(&s("tool"))
            && get(m, "tool_call_id") == Some(&s(call_id))
            && matches!(get(m, "content"), Some(JsonValue::Str(c)) if c.contains(needle))
    })
}

#[test]
fn tamu_chat_drives_a_shell_tool_round_trip() {
    let tools = vec![exec_command_tool()];
    let mut input = vec![user("Run the TAMU agent test")];

    let first = TamuChatRequestBuilder::new("gpt-5.4", "", &input, &tools).build();
    assert_eq!(get(&first.body, "model"), Some(&s("protected.gpt-5.4")));
    assert_eq!(get(&first.body, "stream"), Some(&s("false")));
    let tool_names: Vec<&str> = array(get(&first.body, "tools").unwrap())
        .iter()
        .filter_map(|t| get(t, "function").and_then(|f| get(f, "name")).map(text))
        .collect();
    assert!(tool_names.contains(&"exec_command"), "TAMU request tools: {tool_names:?}");

    let events = response_events(tool_reply(
        "chatcmpl-tool",
        "call-tamu-shell",
        "{\"cmd\":\"printf TAMU_TOOL_OK\"}",
    ))
    .unwrap();
    assert_eq!(
        events.last(),
        Some(&ResponseEvent::Completed { response_id: "chatcmpl-tool".to_string(), end_turn: Some(false) })
    );
    input.extend(done_items(&events));
    input.push(tool_output("call-tamu-shell", "TAMU_TOOL_OK"));

    let second = TamuChatRequestBuilder::new("gpt-5.4", "", &input, &tools).build();
    assert!(has_tool_message(&second.body, "call-tamu-shell", "TAMU_TOOL_OK"));

    let events = response_events(final_reply("chatcmpl-final", "agent complete")).unwrap();
    assert_eq!(events.len(), 4);
    assert_eq!(events[1], ResponseEvent::OutputTextDelta("agent complete".to_string()));
    assert_eq!(
        events[3],
        ResponseEvent::Completed { response_id: "chatcmpl-final".to_string(), end_turn: Some(true) }
    );
}

#[test]
fn tamu_chat_drives_two_sequential_tool_rounds() {
    let tools = vec![exec_command_tool()];
    let mut input = vec![user("Run two TAMU tool rounds")];
    let mut requests = vec![TamuChatRequestBuilder::new("gpt-5.4", "", &input, &tools).build()];

    let events = response_events(tool_reply(
        "chatcmpl-round-one",
        "call-tamu-round-one",
        "{\"cmd\":\"printf TAMU_MULTI_ROUND_ONE\"}",
    ))
    .unwrap();
    input.extend(done_items(&events));
    input.push(tool_output("call-tamu-round-one", "TAMU_MULTI_ROUND_ONE"));
    requests.push(TamuChatRequestBuilder::new("gpt-5.4", "", &input, &tools).build());

    let events = response_events(tool_reply(
        "chatcmpl-round-two",
        "call-tamu-round-two",
        "{\"cmd\":\"printf TAMU_MULTI_ROUND_TWO\"}",
    ))
    .unwrap();
    input.extend(done_items(&events));
    input.push(tool_output("call-tamu-round-two", "TAMU_MULTI_ROUND_TWO"));
    requests.push(TamuChatRequestBuilder::new("gpt-5.4", "", &input, &tools).build());

    let events = response_events(final_reply("chatcmpl-multi-round-final", "both tool rounds complete")).unwrap();
    assert_eq!(
        events.last(),
        Some(&ResponseEvent::Completed {
            response_id: "chatcmpl-multi-round-final".to_string(),
            end_turn: Some(true)
        })
    );

    assert_eq!(requests.len(), 3);
    let second = &requests[1].body;
    let third = &requests[2].body;
    assert!(array(get(second, "messages").unwrap()).iter().any(|m| {
        get(m, "role") == Some(&s("assistant"))
            && get(m, "content") == Some(&s(""))
            && get(m, "tool_calls").map(|c| get(&array(c)[0], "id") == Some(&s("call-tamu-round-one")))
                == Some(true)
    }));
    assert!(has_tool_message(second, "call-tamu-round-one", "TAMU_MULTI_ROUND_ONE"));
    assert!(has_tool_message(third, "call-tamu-round-two", "TAMU_MULTI_ROUND_TWO"));
}

#[test]
fn tamu_chat_preserves_an_existing_protected_model_prefix() {
    let input = vec![user("Test the protected model prefix")];
    let request = TamuChatRequestBuilder::new("protected.gpt-5.4", "", &input, &[]).build();
    assert_eq!(get(&request.body, "model"), Some(&s("protected.gpt-5.4")));
    assert_eq!(get(&request.body, "stream"), Some(&s("false")));

    let events = response_events(final_reply("chatcmpl-prefixed-model", "prefix accepted")).unwrap();
    assert_eq!(events.len(), 4);
}
