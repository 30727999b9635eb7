use http::{HeaderMap, HeaderValue};
use tamu_chat::catalog::{static_model_catalog, tamu_ai_chat_model_ids, tamu_model, ModelInfo, ModelVisibility, ModelsResponse};
use tamu_chat::headers::upstream_request_id;
use tamu_chat::items::{
    ContentItem, FunctionCallOutputBody, FunctionCallOutputContentItem, FunctionCallOutputPayload,
    ResponseItem,
};
use tamu_chat::json::JsonValue;
use tamu_chat::request::TamuChatRequestBuilder;
use tamu_chat::response::{
    response_events, ApiError, ChatChoice, ChatFunctionCall, ChatMessage, ChatResponse,
    ChatToolCall, ResponseEvent,
};
use tamu_chat::text::{decimal_text, str_eq};

fn s(text: &str) -> JsonValue {
    JsonValue::Str(text.to_string())
}

fn obj(entries: Vec<(&str, JsonValue)>) -> JsonValue {
    JsonValue::Object(entries.into_iter().map(|(k, v)| (k.to_string(), v)).collect())
}

fn messages(body: &JsonValue) -> Vec<JsonValue> {
    match body {
        JsonValue::Object(entries) => match &entries.iter().find(|(k, _)| k == "messages").unwrap().1 {
            JsonValue::Array(items) => items.clone(),
            other => panic!("messages are no array: {other:?}"),
        },
        other => panic!("body is no object: {other:?}"),
    }
}

fn message(role: &str, content: &str) -> ResponseItem {
    ResponseItem::Message {
        role: role.to_string(),
        content: vec![ContentItem::InputText { text: content.to_string() }],
    }
}

fn call(name: &str, arguments: &str, call_id: &str) -> ResponseItem {
    ResponseItem::FunctionCall {
        name: name.to_string(),
        arguments: arguments.to_string(),
        call_id: call_id.to_string(),
    }
}

fn tool_call(id: &str, name: &str, arguments: &str) -> JsonValue {
    obj(vec![
        ("id", s(id)),
        ("type", s("function")),
        ("function", obj(vec![("name", s(name)), ("arguments", s(arguments))])),
    ])
}

fn choice(finish: Option<&str>, content: Option<&str>, calls: Vec<ChatToolCall>) -> ChatResponse {
    ChatResponse {
        id: "chatcmpl-1".to_string(),
        choices: vec![ChatChoice {
            finish_reason: finish.map(str::to_string),
            message: ChatMessage { content: content.map(str::to_string), tool_calls: calls },
        }],
    }
}

fn chat_call(id: Option<&str>, name: &str, arguments: &str) -> ChatToolCall {
    ChatToolCall {
        id: id.map(str::to_string),
        function: ChatFunctionCall { name: name.to_string(), arguments: arguments.to_string() },
    }
}

fn assistant(text: &str) -> ResponseItem {
    ResponseItem::Message {
        role: "assistant".to_string(),
        content: vec![ContentItem::OutputText { text: text.to_string() }],
    }
}

fn model_info(slug: &str) -> ModelInfo {
    ModelInfo {
        slug: slug.to_string(),
        display_name: format!("{slug} display"),
        description: Some(format!("{slug} description")),
        default_reasoning_level: Some("medium".to_string()),
        supported_reasoning_levels: vec!["low".to_string(), "medium".to_string()],
        visibility: ModelVisibility::Hide,
        supported_in_api: false,
        priority: 99,
        availability_nux: Some("nux".to_string()),
        upgrade: Some("gpt-6".to_string()),
        support_verbosity: true,
        default_verbosity: Some("low".to_string()),
        additional_speed_tiers: vec!["fast".to_string()],
        service_tiers: vec!["flex".to_string()],
        default_service_tier: Some("flex".to_string()),
        used_fallback_model_metadata: true,
        context_window: Some(272000),
        base_instructions: format!("{slug} instructions"),
    }
}

#[test]
fn build_writes_the_whole_body() {
    let input = vec![message("user", "hi")];
    let tools = vec![obj(vec![("type", s("function"))])];
    let request = TamuChatRequestBuilder::new("gpt-5.4", "be brief", &input, &tools)
        .parallel_tool_calls(true)
        .build();
    let expected = obj(vec![
        ("model", s("protected.gpt-5.4")),
        ("stream", s("false")),
        (
            "messages",
            JsonValue::Array(vec![
                obj(vec![("role", s("system")), ("content", s("be brief"))]),
                obj(vec![("role", s("user")), ("content", s("hi"))]),
            ]),
        ),
        ("tools", JsonValue::Array(tools.clone())),
        ("tool_choice", s("auto")),
        ("parallel_tool_calls", JsonValue::Bool(true)),
    ]);
    assert_eq!(request.body, expected);
    assert!(request.headers.is_empty());
}

#[test]
fn build_without_tools_or_instructions_has_no_tool_entries() {
    let request = TamuChatRequestBuilder::new("o3", "", &[], &[]).build();
    let expected = obj(vec![
        ("model", s("protected.o3")),
        ("stream", s("false")),
        ("messages", JsonValue::Array(vec![])),
    ]);
    assert_eq!(request.body, expected);
}

#[test]
fn parallel_tool_calls_default_to_false() {
    let tools = vec![s("tool")];
    let request = TamuChatRequestBuilder::new("o3", "", &[], &tools).build();
    match request.body {
        JsonValue::Object(entries) => {
            assert_eq!(entries.last().unwrap(), &("parallel_tool_calls".to_string(), JsonValue::Bool(false)));
        }
        other => panic!("{other:?}"),
    }
}

#[test]
fn protected_prefix_is_added_once() {
    for (given, sent) in [
        ("gpt-5", "protected.gpt-5"),
        ("protected.gpt-5", "protected.gpt-5"),
        ("protected.protected.gpt-5", "protected.protected.gpt-5"),
        ("Protected.gpt-5", "protected.Protected.gpt-5"),
        ("", "protected."),
    ] {
        let request = TamuChatRequestBuilder::new(given, "", &[], &[]).build();
        match request.body {
            JsonValue::Object(entries) => assert_eq!(entries[0], ("model".to_string(), s(sent))),
            other => panic!("{other:?}"),
        }
    }
}

#[test]
fn consecutive_function_calls_share_one_assistant_message() {
    let input = vec![
        message("user", "go"),
        call("a", "{}", "c1"),
        call("b", "{\"x\":1}", "c2"),
        message("user", "again"),
        call("c", "{}", "c3"),
    ];
    let request = TamuChatRequestBuilder::new("m", "", &input, &[]).build();
    assert_eq!(
        messages(&request.body),
        vec![
            obj(vec![("role", s("user")), ("content", s("go"))]),
            obj(vec![
                ("role", s("assistant")),
                ("content", s("")),
                ("tool_calls", JsonValue::Array(vec![tool_call("c1", "a", "{}"), tool_call("c2", "b", "{\"x\":1}")])),
            ]),
            obj(vec![("role", s("user")), ("content", s("again"))]),
            obj(vec![
                ("role", s("assistant")),
                ("content", s("")),
                ("tool_calls", JsonValue::Array(vec![tool_call("c3", "c", "{}")])),
            ]),
        ]
    );
}

#[test]
fn empty_assistant_message_without_tool_calls_does_not_take_a_call() {
    let input = vec![assistant(""), call("a", "{}", "c1")];
    let request = TamuChatRequestBuilder::new("m", "", &input, &[]).build();
    assert_eq!(messages(&request.body).len(), 2);
}

#[test]
fn images_become_parts_except_for_the_assistant() {
    let content = vec![
        ContentItem::InputText { text: "look ".to_string() },
        ContentItem::InputImage { image_url: "data:x".to_string() },
        ContentItem::OutputText { text: "here".to_string() },
    ];
    let input = vec![
        ResponseItem::Message { role: "user".to_string(), content: content.clone() },
        ResponseItem::Message { role: "assistant".to_string(), content },
    ];
    let request = TamuChatRequestBuilder::new("m", "", &input, &[]).build();
    assert_eq!(
        messages(&request.body),
        vec![
            obj(vec![
                ("role", s("user")),
                (
                    "content",
                    JsonValue::Array(vec![
                        obj(vec![("type", s("text")), ("text", s("look "))]),
                        obj(vec![("type", s("image_url")), ("image_url", obj(vec![("url", s("data:x"))]))]),
                        obj(vec![("type", s("text")), ("text", s("here"))]),
                    ]),
                ),
            ]),
            obj(vec![("role", s("assistant")), ("content", s("look here"))]),
        ]
    );
}

#[test]
fn agent_messages_become_user_messages() {
    let input = vec![
        ResponseItem::AgentMessage {
            author: "planner".to_string(),
            recipient: "worker".to_string(),
            plaintext: Some("do it".to_string()),
        },
        ResponseItem::AgentMessage {
            author: "planner".to_string(),
            recipient: "worker".to_string(),
            plaintext: None,
        },
    ];
    let request = TamuChatRequestBuilder::new("m", "", &input, &[]).build();
    assert_eq!(
        messages(&request.body),
        vec![obj(vec![("role", s("user")), ("content", s("[planner -> worker]\ndo it"))])]
    );
}

#[test]
fn function_outputs_answer_their_calls() {
    let input = vec![
        ResponseItem::FunctionCallOutput {
            call_id: "c1".to_string(),
            output: FunctionCallOutputPayload { body: FunctionCallOutputBody::Text("done".to_string()) },
        },
        ResponseItem::FunctionCallOutput {
            call_id: "c2".to_string(),
            output: FunctionCallOutputPayload {
                body: FunctionCallOutputBody::ContentItems(vec![
                    FunctionCallOutputContentItem::InputText { text: "t".to_string() },
                    FunctionCallOutputContentItem::EncryptedContent { encrypted_content: "xx".to_string() },
                    FunctionCallOutputContentItem::InputImage { image_url: "u".to_string() },
                ]),
            },
        },
    ];
    let request = TamuChatRequestBuilder::new("m", "", &input, &[]).build();
    assert_eq!(
        messages(&request.body),
        vec![
            obj(vec![("role", s("tool")), ("tool_call_id", s("c1")), ("content", s("done"))]),
            obj(vec![
                ("role", s("tool")),
                ("tool_call_id", s("c2")),
                (
                    "content",
                    JsonValue::Array(vec![
                        obj(vec![("type", s("text")), ("text", s("t"))]),
                        obj(vec![("type", s("image_url")), ("image_url", obj(vec![("url", s("u"))]))]),
                    ]),
                ),
            ]),
        ]
    );
}

#[test]
fn other_items_are_left_out() {
    let input = vec![
        ResponseItem::Reasoning,
        ResponseItem::WebSearchCall,
        message("user", "x"),
        ResponseItem::Compaction,
        ResponseItem::Other,
    ];
    let request = TamuChatRequestBuilder::new("m", "sys", &input, &[]).build();
    assert_eq!(
        messages(&request.body),
        vec![
            obj(vec![("role", s("system")), ("content", s("sys"))]),
            obj(vec![("role", s("user")), ("content", s("x"))]),
        ]
    );
}

#[test]
fn instructions_stay_first_before_a_call() {
    let input = vec![call("a", "{}", "c1")];
    let request = TamuChatRequestBuilder::new("m", "sys", &input, &[]).build();
    let msgs = messages(&request.body);
    assert_eq!(msgs.len(), 2);
    assert_eq!(msgs[0], obj(vec![("role", s("system")), ("content", s("sys"))]));
}

#[test]
fn reply_without_choices_is_an_error() {
    let response = ChatResponse { id: "x".to_string(), choices: vec![] };
    assert_eq!(
        response_events(response),
        Err(ApiError::Stream("TAMU chat response contained no choices".to_string()))
    );
}

#[test]
fn reply_at_the_length_limit_exceeds_the_context_window() {
    let response = choice(Some("length"), Some("partial"), vec![chat_call(Some("c"), "f", "{}")]);
    assert_eq!(response_events(response), Err(ApiError::ContextWindowExceeded));
}

#[test]
fn reply_text_then_calls_then_completion() {
    let response = choice(
        Some("tool_calls"),
        Some("thinking"),
        vec![chat_call(Some("c1"), "f", "{}"), chat_call(None, "g", "[1]")],
    );
    let events = response_events(response).unwrap();
    assert_eq!(
        events,
        vec![
            ResponseEvent::OutputItemAdded(assistant("")),
            ResponseEvent::OutputTextDelta("thinking".to_string()),
            ResponseEvent::OutputItemDone(assistant("thinking")),
            ResponseEvent::OutputItemDone(call("f", "{}", "c1")),
            ResponseEvent::OutputItemDone(call("g", "[1]", "tamu-call-1")),
            ResponseEvent::Completed { response_id: "chatcmpl-1".to_string(), end_turn: Some(false) },
        ]
    );
}

#[test]
fn empty_text_gives_no_message_and_unknown_reason_no_end() {
    let events = response_events(choice(Some("content_filter"), Some(""), vec![])).unwrap();
    assert_eq!(
        events,
        vec![ResponseEvent::Completed { response_id: "chatcmpl-1".to_string(), end_turn: None }]
    );
    let events = response_events(choice(None, None, vec![])).unwrap();
    assert_eq!(
        events,
        vec![ResponseEvent::Completed { response_id: "chatcmpl-1".to_string(), end_turn: None }]
    );
}

#[test]
fn only_the_first_choice_counts() {
    let mut response = choice(Some("stop"), Some("one"), vec![]);
    response.choices.push(ChatChoice {
        finish_reason: Some("length".to_string()),
        message: ChatMessage { content: Some("two".to_string()), tool_calls: vec![] },
    });
    let events = response_events(response).unwrap();
    assert_eq!(events[1], ResponseEvent::OutputTextDelta("one".to_string()));
    assert_eq!(
        events[3],
        ResponseEvent::Completed { response_id: "chatcmpl-1".to_string(), end_turn: Some(true) }
    );
}

#[test]
fn default_call_ids_count_from_zero() {
    let calls = (0..12).map(|_| chat_call(None, "f", "{}")).collect();
    let events = response_events(choice(Some("tool_calls"), None, calls)).unwrap();
    assert_eq!(events[0], ResponseEvent::OutputItemDone(call("f", "{}", "tamu-call-0")));
    assert_eq!(events[11], ResponseEvent::OutputItemDone(call("f", "{}", "tamu-call-11")));
}

#[test]
fn requested_calls_come_back_in_the_next_request() {
    let response = choice(
        Some("tool_calls"),
        None,
        vec![chat_call(Some("c1"), "f", "{}"), chat_call(None, "g", "{}")],
    );
    let events = response_events(response).unwrap();
    let mut input = vec![message("user", "go")];
    for e in &events {
        if let ResponseEvent::OutputItemDone(item) = e {
            input.push(item.clone());
        }
    }
    let request = TamuChatRequestBuilder::new("m", "", &input, &[]).build();
    assert_eq!(
        messages(&request.body)[1],
        obj(vec![
            ("role", s("assistant")),
            ("content", s("")),
            ("tool_calls", JsonValue::Array(vec![tool_call("c1", "f", "{}"), tool_call("tamu-call-1", "g", "{}")])),
        ])
    );
}

#[test]
fn request_id_is_read_from_its_header() {
    let mut headers = HeaderMap::new();
    assert_eq!(upstream_request_id(&headers), None);
    headers.insert("x-request-id", HeaderValue::from_static("req-123"));
    headers.insert("x-other", HeaderValue::from_static("other"));
    assert_eq!(upstream_request_id(&headers), Some("req-123".to_string()));
    headers.insert("x-request-id", HeaderValue::from_bytes(b"caf\xc3\xa9").unwrap());
    assert_eq!(upstream_request_id(&headers), None);
}

#[test]
fn request_id_is_the_first_value() {
    let mut headers = HeaderMap::new();
    headers.insert("x-request-id", HeaderValue::from_static("first"));
    headers.append("x-request-id", HeaderValue::from_static("second"));
    assert_eq!(upstream_request_id(&headers), Some("first".to_string()));

    let mut headers = HeaderMap::new();
    headers.insert("x-request-id", HeaderValue::from_bytes(b"caf\xc3\xa9").unwrap());
    headers.append("x-request-id", HeaderValue::from_static("visible"));
    assert_eq!(upstream_request_id(&headers), None);
}

#[test]
fn request_can_be_cloned() {
    let input = vec![message("user", "hi")];
    let request = TamuChatRequestBuilder::new("m", "", &input, &[]).build();
    let copy = request.clone();
    assert_eq!(copy.body, request.body);
    assert!(copy.headers.is_empty());
}

#[test]
fn calls_alone_make_exactly_one_message() {
    let response = choice(
        Some("tool_calls"),
        Some("let me look"),
        vec![chat_call(Some("a"), "f", "{}"), chat_call(None, "g", "[]"), chat_call(Some("c"), "h", "")],
    );
    let events = response_events(response).unwrap();
    let items: Vec<ResponseItem> = events
        .iter()
        .filter_map(|e| match e {
            ResponseEvent::OutputItemDone(item @ ResponseItem::FunctionCall { .. }) => Some(item.clone()),
            _ => None,
        })
        .collect();
    let request = TamuChatRequestBuilder::new("m", "", &items, &[]).build();
    assert_eq!(
        messages(&request.body),
        vec![obj(vec![
            ("role", s("assistant")),
            ("content", s("")),
            (
                "tool_calls",
                JsonValue::Array(vec![
                    tool_call("a", "f", "{}"),
                    tool_call("tamu-call-1", "g", "[]"),
                    tool_call("c", "h", ""),
                ]),
            ),
        ])]
    );
}

#[test]
fn reply_without_calls_leaves_no_message() {
    let events = response_events(choice(Some("stop"), Some("done"), vec![])).unwrap();
    let items: Vec<ResponseItem> = events
        .iter()
        .filter_map(|e| match e {
            ResponseEvent::OutputItemDone(item @ ResponseItem::FunctionCall { .. }) => Some(item.clone()),
            _ => None,
        })
        .collect();
    let request = TamuChatRequestBuilder::new("m", "", &items, &[]).build();
    assert!(messages(&request.body).is_empty());
}

#[test]
fn unlisted_bundled_models_change_nothing() {
    let ids = tamu_ai_chat_model_ids();
    let bundled = ModelsResponse { models: vec![model_info("o3"), model_info("gpt-5.4")] };
    let mut more = bundled.clone();
    more.models.insert(1, model_info("text-embedding-3-large"));
    more.models.push(model_info("whisper"));
    assert_eq!(static_model_catalog(&bundled, &ids), static_model_catalog(&more, &ids));
}

#[test]
fn text_helpers() {
    assert!(str_eq("abc", "abc"));
    assert!(!str_eq("abc", "abd"));
    assert_eq!(decimal_text(0), "0");
    assert_eq!(decimal_text(7), "7");
    assert_eq!(decimal_text(10), "10");
    assert_eq!(decimal_text(4096), "4096");
    assert_eq!(decimal_text(usize::MAX), usize::MAX.to_string());
}

#[test]
fn json_clone_copies_deeply() {
    let v = obj(vec![("a", JsonValue::Array(vec![JsonValue::Null, JsonValue::Number("1.5".to_string())])), ("b", JsonValue::Bool(true))]);
    assert_eq!(v.clone(), v);
    assert_eq!(v.deep_copy(), v);
}

#[test]
fn catalog_follows_the_given_ids() {
    let bundled = ModelsResponse { models: vec![model_info("gpt-5.4"), model_info("x")] };
    let catalog = static_model_catalog(&bundled, &vec!["x", "y", "x"]);
    assert_eq!(catalog.models.len(), 3);
    assert_eq!(catalog.models[0].display_name, "x display");
    assert_eq!(catalog.models[1].display_name, "y");
    assert_eq!(catalog.models[1].base_instructions, "gpt-5.4 instructions");
    assert_eq!(catalog.models[2].priority, 2);
}

#[test]
fn tamu_model_keeps_native_metadata() {
    let metadata = model_info("gpt-5.4");
    let model = tamu_model(&metadata, "gpt-5.4", 3, true);
    let mut expected = metadata.clone();
    expected.priority = 3;
    expected.visibility = ModelVisibility::List;
    expected.supported_in_api = true;
    expected.availability_nux = None;
    expected.upgrade = None;
    expected.additional_speed_tiers.clear();
    expected.service_tiers.clear();
    expected.default_service_tier = None;
    expected.used_fallback_model_metadata = false;
    assert_eq!(model, expected);
}

#[test]
fn tamu_model_describes_a_model_without_metadata() {
    let metadata = model_info("gpt-5.4");
    let model = tamu_model(&metadata, "llama3.2", 31, false);
    assert_eq!(model.slug, "llama3.2");
    assert_eq!(model.display_name, "llama3.2");
    assert_eq!(model.description.as_deref(), Some("llama3.2 via TAMU AI Chat"));
    assert_eq!(model.default_reasoning_level, None);
    assert!(model.supported_reasoning_levels.is_empty());
    assert!(!model.support_verbosity);
    assert_eq!(model.default_verbosity, None);
    assert_eq!(model.priority, 31);
    assert_eq!(model.context_window, Some(272000));
    assert_eq!(model.base_instructions, "gpt-5.4 instructions");
}

#[test]
fn catalog_lists_every_chat_model_in_order() {
    let bundled = ModelsResponse { models: vec![model_info("o3"), model_info("gpt-5.4"), model_info("o3")] };
    let ids = tamu_ai_chat_model_ids();
    let catalog = static_model_catalog(&bundled, &ids);
    assert_eq!(catalog.models.len(), ids.len());
    assert_eq!(catalog.models[0].slug, "gpt-5.4");
    assert_eq!(catalog.models[0].display_name, "gpt-5.4 display");
    let last = catalog.models.len() - 1;
    assert_eq!(catalog.models[last].slug, "llama3.2");
    assert_eq!(catalog.models[last].description.as_deref(), Some("llama3.2 via TAMU AI Chat"));
    let o3 = catalog.models.iter().find(|m| m.slug == "o3").unwrap();
    assert_eq!(o3.priority, ids.iter().position(|id| *id == "o3").unwrap() as i32);
    assert_eq!(o3.display_name, "o3 display");
    for (i, m) in catalog.models.iter().enumerate() {
        assert_eq!(m.slug, ids[i]);
        assert_eq!(m.priority, i as i32);
        assert_eq!(m.visibility, ModelVisibility::List);
        assert!(m.supported_in_api);
    }
}
