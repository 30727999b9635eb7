//! The body of a Chat Completions request, built from a conversation.

use vstd::prelude::*;

use http::HeaderMap;

use crate::headers::{empty_headers, header_entries};
use crate::items::{
    ContentItem, FunctionCallOutputBody, FunctionCallOutputContentItem,
    FunctionCallOutputPayload, ResponseItem,
};
use crate::json::{
    entries_push_to_array, entry_of, find_key, jstr, json_entry_views, json_get, json_views,
    lemma_entries_get_first, lemma_entries_get_none, lemma_entries_push_to_array_at,
    lemma_json_entry_views, lemma_json_entry_views_update, lemma_json_views,
    lemma_json_views_push, obj, push_entry, push_item, JsonModel, JsonValue,
};
use crate::text::{str_eq, strip_prefix};

verus! {

/// The namespace under which the endpoint serves its models.
pub const PROTECTED_MODEL_PREFIX: &'static str = "protected.";

// ---------------------------------------------------------------------------
// What a request holds
// ---------------------------------------------------------------------------

/// Whether a content piece is text (typed by the user or by the model).
pub open spec fn is_text_item(c: ContentItem) -> bool {
    c is InputText || c is OutputText
}

/// The text of a text piece; nothing for an image.
pub open spec fn item_text(c: ContentItem) -> Seq<char> {
    match c {
        ContentItem::InputText { text } => text@,
        ContentItem::OutputText { text } => text@,
        ContentItem::InputImage { .. } => Seq::empty(),
    }
}

/// The texts of all text pieces, joined with nothing between them.
pub open spec fn content_text(content: Seq<ContentItem>) -> Seq<char>
    decreases content.len(),
{
    if content.len() == 0 {
        Seq::empty()
    } else {
        content_text(content.drop_last()) + item_text(content.last())
    }
}

/// Whether the content holds an image.
pub open spec fn has_image(content: Seq<ContentItem>) -> bool {
    exists|i: int| 0 <= i < content.len() && content[i] is InputImage
}

/// A text part of a message.
pub open spec fn text_part(text: Seq<char>) -> JsonModel {
    obj(seq![("type"@, jstr("text"@)), ("text"@, jstr(text))])
}

/// An image part of a message.
pub open spec fn image_part(url: Seq<char>) -> JsonModel {
    obj(seq![("type"@, jstr("image_url"@)), ("image_url"@, obj(seq![("url"@, jstr(url))]))])
}

/// The part that a content piece becomes.
pub open spec fn content_part(c: ContentItem) -> JsonModel {
    match c {
        ContentItem::InputImage { image_url } => image_part(image_url@),
        _ => text_part(item_text(c)),
    }
}

/// The message of a role and its content: the joined text for the assistant
/// or where there is no image, else the list of parts.
pub open spec fn chat_message_model(role: Seq<char>, content: Seq<ContentItem>) -> JsonModel {
    if role == "assistant"@ || !has_image(content) {
        obj(seq![("role"@, jstr(role)), ("content"@, jstr(content_text(content)))])
    } else {
        obj(
            seq![
                ("role"@, jstr(role)),
                ("content"@, JsonModel::Array(content.map_values(|c: ContentItem| content_part(c)))),
            ],
        )
    }
}

/// The part that a piece of a function's output becomes, if any.
pub open spec fn output_part(c: FunctionCallOutputContentItem) -> Option<JsonModel> {
    match c {
        FunctionCallOutputContentItem::InputText { text } => Some(text_part(text@)),
        FunctionCallOutputContentItem::InputImage { image_url } => Some(image_part(image_url@)),
        FunctionCallOutputContentItem::EncryptedContent { .. } => None,
    }
}

/// The parts of a function's output, in order, without the encrypted ones.
pub open spec fn output_parts(items: Seq<FunctionCallOutputContentItem>) -> Seq<JsonModel>
    decreases items.len(),
{
    if items.len() == 0 {
        Seq::empty()
    } else {
        match output_part(items.last()) {
            Some(p) => output_parts(items.drop_last()).push(p),
            None => output_parts(items.drop_last()),
        }
    }
}

/// The content of the tool message that answers a function call.
pub open spec fn output_content(output: FunctionCallOutputPayload) -> JsonModel {
    match output.body {
        FunctionCallOutputBody::Text(text) => jstr(text@),
        FunctionCallOutputBody::ContentItems(items) => JsonModel::Array(output_parts(items@)),
    }
}

/// The entry that a function call becomes in an assistant message.
pub open spec fn tool_call_model(call_id: Seq<char>, name: Seq<char>, arguments: Seq<char>) -> JsonModel {
    obj(
        seq![
            ("id"@, jstr(call_id)),
            ("type"@, jstr("function"@)),
            ("function"@, obj(seq![("name"@, jstr(name)), ("arguments"@, jstr(arguments))])),
        ],
    )
}

/// A message to which a further tool call is added: an assistant message
/// with empty content and a list of tool calls.
pub open spec fn takes_tool_call(m: JsonModel) -> bool {
    &&& json_get(m, "role"@) == Some(jstr("assistant"@))
    &&& json_get(m, "content"@) == Some(jstr(Seq::empty()))
    &&& json_get(m, "tool_calls"@) matches Some(JsonModel::Array(_))
}

/// The assistant message that a first tool call opens.
pub open spec fn tool_call_message(tool_call: JsonModel) -> JsonModel {
    obj(
        seq![
            ("role"@, jstr("assistant"@)),
            ("content"@, jstr(Seq::empty())),
            ("tool_calls"@, JsonModel::Array(seq![tool_call])),
        ],
    )
}

/// The messages after a tool call: it joins the last message where that one
/// takes tool calls, else it opens an assistant message of its own.
pub open spec fn add_tool_call(messages: Seq<JsonModel>, tool_call: JsonModel) -> Seq<JsonModel> {
    if messages.len() > 0 && takes_tool_call(messages.last()) {
        messages.update(
            messages.len() - 1,
            obj(
                entries_push_to_array(
                    messages.last()->Object_0,
                    "tool_calls"@,
                    tool_call,
                ),
            ),
        )
    } else {
        messages.push(tool_call_message(tool_call))
    }
}

/// The user message that carries an agent's message.
pub open spec fn agent_message_model(author: Seq<char>, recipient: Seq<char>, text: Seq<char>) -> JsonModel {
    obj(
        seq![
            ("role"@, jstr("user"@)),
            ("content"@, jstr("["@ + author + " -> "@ + recipient + "]\n"@ + text)),
        ],
    )
}

/// The tool message that answers a function call.
pub open spec fn tool_output_message(call_id: Seq<char>, output: FunctionCallOutputPayload) -> JsonModel {
    obj(
        seq![
            ("role"@, jstr("tool"@)),
            ("tool_call_id"@, jstr(call_id)),
            ("content"@, output_content(output)),
        ],
    )
}

/// The messages after one more item of the conversation.
pub open spec fn add_item(messages: Seq<JsonModel>, item: ResponseItem) -> Seq<JsonModel> {
    match item {
        ResponseItem::Message { role, content } => messages.push(
            chat_message_model(role@, content@),
        ),
        ResponseItem::AgentMessage { author, recipient, plaintext } => match plaintext {
            Some(text) => messages.push(agent_message_model(author@, recipient@, text@)),
            None => messages,
        },
        ResponseItem::FunctionCall { name, arguments, call_id } => add_tool_call(
            messages,
            tool_call_model(call_id@, name@, arguments@),
        ),
        ResponseItem::FunctionCallOutput { call_id, output } => messages.push(
            tool_output_message(call_id@, output),
        ),
        _ => messages,
    }
}

/// The system message that carries the instructions.
pub open spec fn system_message(instructions: Seq<char>) -> JsonModel {
    obj(seq![("role"@, jstr("system"@)), ("content"@, jstr(instructions))])
}

/// The messages of a request: the instructions first where there are any,
/// then what each item of the conversation adds, in order.
pub open spec fn chat_messages(instructions: Seq<char>, input: Seq<ResponseItem>) -> Seq<JsonModel>
    decreases input.len(),
{
    if input.len() == 0 {
        if instructions.len() == 0 {
            Seq::empty()
        } else {
            seq![system_message(instructions)]
        }
    } else {
        add_item(chat_messages(instructions, input.drop_last()), input.last())
    }
}

/// The model name that the endpoint is asked for: the given one under the
/// protected namespace, which is not doubled where the name already has it.
pub open spec fn protected_model(model: Seq<char>) -> Seq<char> {
    if PROTECTED_MODEL_PREFIX@.is_prefix_of(model) {
        model
    } else {
        PROTECTED_MODEL_PREFIX@ + model
    }
}

/// The body of a request.
pub open spec fn request_body(
    model: Seq<char>,
    instructions: Seq<char>,
    input: Seq<ResponseItem>,
    tools: Seq<JsonModel>,
    parallel_tool_calls: bool,
) -> JsonModel {
    let base = seq![
        ("model"@, jstr(protected_model(model))),
        ("stream"@, jstr("false"@)),
        ("messages"@, JsonModel::Array(chat_messages(instructions, input))),
    ];
    if tools.len() == 0 {
        obj(base)
    } else {
        obj(
            base + seq![
                ("tools"@, JsonModel::Array(tools)),
                ("tool_choice"@, jstr("auto"@)),
                ("parallel_tool_calls"@, JsonModel::Bool(parallel_tool_calls)),
            ],
        )
    }
}

// ---------------------------------------------------------------------------
// Building the messages
// ---------------------------------------------------------------------------

/// An object of two entries.
fn object2(k1: &str, v1: JsonValue, k2: &str, v2: JsonValue) -> (r: JsonValue)
    ensures
        r@ == obj(seq![(k1@, v1@), (k2@, v2@)]),
{
    let mut e: Vec<(String, JsonValue)> = Vec::new();
    assert(json_entry_views(e@) =~= Seq::empty());
    push_entry(&mut e, k1, v1);
    push_entry(&mut e, k2, v2);
    assert(json_entry_views(e@) =~= seq![(k1@, v1@), (k2@, v2@)]);
    JsonValue::Object(e)
}

/// An object of three entries.
fn object3(k1: &str, v1: JsonValue, k2: &str, v2: JsonValue, k3: &str, v3: JsonValue) -> (r:
    JsonValue)
    ensures
        r@ == obj(seq![(k1@, v1@), (k2@, v2@), (k3@, v3@)]),
{
    let mut e: Vec<(String, JsonValue)> = Vec::new();
    assert(json_entry_views(e@) =~= Seq::empty());
    push_entry(&mut e, k1, v1);
    push_entry(&mut e, k2, v2);
    push_entry(&mut e, k3, v3);
    assert(json_entry_views(e@) =~= seq![(k1@, v1@), (k2@, v2@), (k3@, v3@)]);
    JsonValue::Object(e)
}

fn text_part_value(text: &str) -> (r: JsonValue)
    ensures
        r@ == text_part(text@),
{
    object2("type", JsonValue::string("text"), "text", JsonValue::string(text))
}

fn image_part_value(url: &str) -> (r: JsonValue)
    ensures
        r@ == image_part(url@),
{
    let mut e: Vec<(String, JsonValue)> = Vec::new();
    assert(json_entry_views(e@) =~= Seq::empty());
    push_entry(&mut e, "url", JsonValue::string(url));
    assert(json_entry_views(e@) =~= seq![("url"@, jstr(url@))]);
    object2("type", JsonValue::string("image_url"), "image_url", JsonValue::Object(e))
}

/// The message of a role and its content.
fn chat_message(role: &str, content: &Vec<ContentItem>) -> (r: JsonValue)
    ensures
        r@ == chat_message_model(role@, content@),
{
    let mut text = String::new();
    let mut parts: Vec<JsonValue> = Vec::new();
    let mut saw_image = false;
    let mut i: usize = 0;
    assert(content@.take(0) =~= Seq::<ContentItem>::empty());
    assert(json_views(parts@) =~= Seq::empty());
    while i < content.len()
        invariant
            i <= content@.len(),
            text@ == content_text(content@.take(i as int)),
            json_views(parts@) == content@.take(i as int).map_values(
                |c: ContentItem| content_part(c),
            ),
            saw_image == has_image(content@.take(i as int)),
        decreases content@.len() - i,
    {
        let ghost prev = content@.take(i as int);
        let ghost next = content@.take(i + 1);
        assert(next.drop_last() =~= prev);
        assert(next.last() == content@[i as int]);
        match &content[i] {
            ContentItem::InputText { text: part } => {
                text.append(part.as_str());
                push_item(&mut parts, text_part_value(part.as_str()));
            },
            ContentItem::OutputText { text: part } => {
                text.append(part.as_str());
                push_item(&mut parts, text_part_value(part.as_str()));
            },
            ContentItem::InputImage { image_url } => {
                saw_image = true;
                push_item(&mut parts, image_part_value(image_url.as_str()));
            },
        }
        assert(next.map_values(|c: ContentItem| content_part(c)) =~= prev.map_values(
            |c: ContentItem| content_part(c),
        ).push(content_part(content@[i as int])));
        assert(has_image(next) == (has_image(prev) || content@[i as int] is InputImage)) by {
            if content@[i as int] is InputImage {
                assert(next[i as int] is InputImage);
            }
            if has_image(next) && !(content@[i as int] is InputImage) {
                let j = choose|j: int| 0 <= j < next.len() && next[j] is InputImage;
                assert(prev[j] is InputImage);
            }
        }
        i = i + 1;
    }
    assert(content@.take(content@.len() as int) =~= content@);
    if str_eq(role, "assistant") || !saw_image {
        object2("role", JsonValue::string(role), "content", JsonValue::Str(text))
    } else {
        object2("role", JsonValue::string(role), "content", JsonValue::Array(parts))
    }
}

/// The content of the tool message that answers a function call.
fn function_output_content(output: &FunctionCallOutputPayload) -> (r: JsonValue)
    ensures
        r@ == output_content(*output),
{
    match &output.body {
        FunctionCallOutputBody::Text(content) => JsonValue::Str(content.clone()),
        FunctionCallOutputBody::ContentItems(items) => {
            let mut parts: Vec<JsonValue> = Vec::new();
            let mut i: usize = 0;
            assert(items@.take(0) =~= Seq::<FunctionCallOutputContentItem>::empty());
            assert(json_views(parts@) =~= Seq::empty());
            while i < items.len()
                invariant
                    i <= items@.len(),
                    json_views(parts@) == output_parts(items@.take(i as int)),
                decreases items@.len() - i,
            {
                let ghost prev = items@.take(i as int);
                let ghost next = items@.take(i + 1);
                assert(next.drop_last() =~= prev);
                assert(next.last() == items@[i as int]);
                match &items[i] {
                    FunctionCallOutputContentItem::InputText { text } => {
                        push_item(&mut parts, text_part_value(text.as_str()));
                    },
                    FunctionCallOutputContentItem::InputImage { image_url } => {
                        push_item(&mut parts, image_part_value(image_url.as_str()));
                    },
                    FunctionCallOutputContentItem::EncryptedContent { .. } => {},
                }
                i = i + 1;
            }
            assert(items@.take(items@.len() as int) =~= items@);
            JsonValue::Array(parts)
        },
    }
}

/// Whether a message takes a further tool call.
fn accepts_tool_call(m: &JsonValue) -> (r: bool)
    ensures
        r == takes_tool_call(m@),
{
    match m {
        JsonValue::Object(entries) => {
            let role_ok = match entry_of(entries, "role") {
                Some(JsonValue::Str(s)) => str_eq(s.as_str(), "assistant"),
                _ => false,
            };
            let content_ok = match entry_of(entries, "content") {
                Some(JsonValue::Str(s)) => {
                    let b = s.as_str().is_empty();
                    assert(b ==> s@ =~= Seq::<char>::empty());
                    b
                },
                _ => false,
            };
            let calls_ok = match entry_of(entries, "tool_calls") {
                Some(JsonValue::Array(_)) => true,
                _ => false,
            };
            role_ok && content_ok && calls_ok
        },
        _ => false,
    }
}

/// Appends a tool call to the tool calls of a message that takes one.
fn with_tool_call(m: JsonValue, tool_call: JsonValue) -> (r: JsonValue)
    requires
        takes_tool_call(m@),
    ensures
        r@ == obj(entries_push_to_array(m@->Object_0, "tool_calls"@, tool_call@)),
{
    match m {
        JsonValue::Object(mut entries) => {
            let ghost old_entries = entries@;
            proof {
                lemma_json_entry_views(entries@);
            }
            match find_key(&entries, "tool_calls") {
                Some(i) => {
                    let (k, v) = entries.remove(i);
                    match v {
                        JsonValue::Array(mut calls) => {
                            let ghost items = json_views(calls@);
                            push_item(&mut calls, tool_call);
                            let ghost e = (k, JsonValue::Array(calls));
                            entries.insert(i, (k, JsonValue::Array(calls)));
                            proof {
                                assert(entries@ =~= old_entries.update(i as int, e));
                                lemma_json_entry_views_update(old_entries, i as int, e);
                                lemma_entries_get_first(json_entry_views(old_entries), "tool_calls"@, i as int);
                                lemma_entries_push_to_array_at(
                                    json_entry_views(old_entries),
                                    "tool_calls"@,
                                    tool_call@,
                                    i as int,
                                    items,
                                );
                            }
                            JsonValue::Object(entries)
                        },
                        other => {
                            proof {
                                lemma_entries_get_first(json_entry_views(old_entries), "tool_calls"@, i as int);
                            }
                            entries.insert(i, (k, other));
                            JsonValue::Object(entries)
                        },
                    }
                },
                None => {
                    proof {
                        lemma_entries_get_none(json_entry_views(old_entries), "tool_calls"@);
                    }
                    JsonValue::Object(entries)
                },
            }
        },
        other => other,
    }
}

/// Adds a tool call to the messages: to the last message where that one
/// takes it, else as an assistant message of its own.
fn push_tool_call_message(messages: &mut Vec<JsonValue>, tool_call: JsonValue)
    ensures
        json_views(final(messages)@) == add_tool_call(json_views(old(messages)@), tool_call@),
{
    proof {
        lemma_json_views(messages@);
    }
    let n = messages.len();
    if n > 0 && accepts_tool_call(&messages[n - 1]) {
        let ghost before = messages@;
        let last = messages.pop().unwrap();
        let updated = with_tool_call(last, tool_call);
        proof {
            assert(before =~= messages@.push(last));
            lemma_json_views_push(messages@, last);
            lemma_json_views_push(messages@, updated);
        }
        messages.push(updated);
        proof {
            assert(json_views(before).last() == last@);
            assert(json_views(messages@) =~= json_views(before).update(
                n - 1,
                updated@,
            ));
        }
    } else {
        let calls = vec![tool_call];
        assert(calls@ =~= Seq::<JsonValue>::empty().push(tool_call));
        proof {
            lemma_json_views_push(Seq::<JsonValue>::empty(), tool_call);
            assert(json_views(Seq::<JsonValue>::empty()) =~= Seq::empty());
            assert(json_views(calls@) =~= seq![tool_call@]);
        }
        let message = object3(
            "role",
            JsonValue::string("assistant"),
            "content",
            JsonValue::Str(String::new()),
            "tool_calls",
            JsonValue::Array(calls),
        );
        push_item(messages, message);
    }
}

// ---------------------------------------------------------------------------
// The request
// ---------------------------------------------------------------------------

/// The payload and headers of a request to the Chat Completions endpoint.
#[derive(Clone, Debug)]
pub struct TamuChatRequest {
    pub body: JsonValue,
    pub headers: HeaderMap,
}

/// Gathers what a request is built from.
pub struct TamuChatRequestBuilder<'a> {
    model: &'a str,
    instructions: &'a str,
    input: &'a [ResponseItem],
    tools: &'a [JsonValue],
    parallel_tool_calls: bool,
}

impl<'a> TamuChatRequestBuilder<'a> {
    /// The model asked for.
    pub closed spec fn model_name(&self) -> Seq<char> {
        self.model@
    }

    /// The instructions to the model.
    pub closed spec fn instructions_text(&self) -> Seq<char> {
        self.instructions@
    }

    /// The conversation so far.
    pub closed spec fn input_items(&self) -> Seq<ResponseItem> {
        self.input@
    }

    /// The tools offered to the model.
    pub closed spec fn tool_models(&self) -> Seq<JsonModel> {
        json_views(self.tools@)
    }

    /// Whether the model may call several tools at once.
    pub closed spec fn allows_parallel_tool_calls(&self) -> bool {
        self.parallel_tool_calls
    }

    /// A builder of these parts that does not allow parallel tool calls.
    pub fn new(
        model: &'a str,
        instructions: &'a str,
        input: &'a [ResponseItem],
        tools: &'a [JsonValue],
    ) -> (r: Self)
        ensures
            r.model_name() == model@,
            r.instructions_text() == instructions@,
            r.input_items() == input@,
            r.tool_models() == json_views(tools@),
            !r.allows_parallel_tool_calls(),
    {
        Self { model, instructions, input, tools, parallel_tool_calls: false }
    }

    /// The same builder, allowing parallel tool calls or not.
    pub fn parallel_tool_calls(self, parallel_tool_calls: bool) -> (r: Self)
        ensures
            r.model_name() == self.model_name(),
            r.instructions_text() == self.instructions_text(),
            r.input_items() == self.input_items(),
            r.tool_models() == self.tool_models(),
            r.allows_parallel_tool_calls() == parallel_tool_calls,
    {
        let mut b = self;
        b.parallel_tool_calls = parallel_tool_calls;
        b
    }

    /// The request: its body is `request_body` of the gathered parts, and it
    /// has no headers of its own.
    pub fn build(self) -> (r: TamuChatRequest)
        ensures
            r.body@ == request_body(
                self.model_name(),
                self.instructions_text(),
                self.input_items(),
                self.tool_models(),
                self.allows_parallel_tool_calls(),
            ),
            header_entries(r.headers) =~= Map::empty(),
    {
        let messages = build_messages(self.instructions, self.input);
        let model = match strip_prefix(self.model, PROTECTED_MODEL_PREFIX) {
            Some(rest) => rest,
            None => self.model,
        };
        let mut model_name = String::from_str(PROTECTED_MODEL_PREFIX);
        model_name.append(model);
        proof {
            let p = PROTECTED_MODEL_PREFIX@;
            if p.is_prefix_of(self.model@) {
                assert(p + self.model@.skip(p.len() as int) =~= self.model@);
            }
        }
        let mut body: Vec<(String, JsonValue)> = Vec::new();
        assert(json_entry_views(body@) =~= Seq::empty());
        push_entry(&mut body, "model", JsonValue::Str(model_name));
        push_entry(&mut body, "stream", JsonValue::string("false"));
        push_entry(&mut body, "messages", JsonValue::Array(messages));
        let ghost base = json_entry_views(body@);
        assert(model_name@ == protected_model(self.model@));
        assert(base =~= seq![
            ("model"@, jstr(protected_model(self.model@))),
            ("stream"@, jstr("false"@)),
            ("messages"@, JsonModel::Array(chat_messages(self.instructions@, self.input@))),
        ]);
        if !self.tools.is_empty() {
            let tools = copy_documents(self.tools);
            push_entry(&mut body, "tools", JsonValue::Array(tools));
            push_entry(&mut body, "tool_choice", JsonValue::string("auto"));
            push_entry(&mut body, "parallel_tool_calls", JsonValue::Bool(self.parallel_tool_calls));
            proof {
                lemma_json_views(self.tools@);
            }
            assert(json_entry_views(body@) =~= base + seq![
                ("tools"@, JsonModel::Array(json_views(self.tools@))),
                ("tool_choice"@, jstr("auto"@)),
                ("parallel_tool_calls"@, JsonModel::Bool(self.parallel_tool_calls)),
            ]);
        } else {
            proof {
                lemma_json_views(self.tools@);
            }
        }
        TamuChatRequest { body: JsonValue::Object(body), headers: empty_headers() }
    }
}

/// Copies of the documents, in order.
fn copy_documents(docs: &[JsonValue]) -> (r: Vec<JsonValue>)
    ensures
        json_views(r@) == json_views(docs@),
{
    let mut out: Vec<JsonValue> = Vec::new();
    let mut i: usize = 0;
    assert(json_views(out@) =~= Seq::empty());
    assert(docs@.take(0) =~= Seq::<JsonValue>::empty());
    while i < docs.len()
        invariant
            i <= docs@.len(),
            json_views(out@) == json_views(docs@.take(i as int)),
        decreases docs@.len() - i,
    {
        let c = docs[i].deep_copy();
        proof {
            lemma_json_views_push(docs@.take(i as int), docs@[i as int]);
            assert(docs@.take(i as int).push(docs@[i as int]) =~= docs@.take(i + 1));
        }
        push_item(&mut out, c);
        i = i + 1;
    }
    assert(docs@.take(docs@.len() as int) =~= docs@);
    out
}

/// The messages of a request of these instructions and this conversation.
fn build_messages(instructions: &str, input: &[ResponseItem]) -> (r: Vec<JsonValue>)
    ensures
        json_views(r@) == chat_messages(instructions@, input@),
{
    let mut messages: Vec<JsonValue> = Vec::new();
    assert(json_views(messages@) =~= Seq::empty());
    if !instructions.is_empty() {
        let system = object2("role", JsonValue::string("system"), "content", JsonValue::string(instructions));
        push_item(&mut messages, system);
        assert(json_views(messages@) =~= seq![system_message(instructions@)]);
    }
    assert(input@.take(0) =~= Seq::<ResponseItem>::empty());
    let mut i: usize = 0;
    while i < input.len()
        invariant
            i <= input@.len(),
            json_views(messages@) == chat_messages(instructions@, input@.take(i as int)),
        decreases input@.len() - i,
    {
        assert(input@.take(i + 1).drop_last() =~= input@.take(i as int));
        assert(input@.take(i + 1).last() == input@[i as int]);
        match &input[i] {
            ResponseItem::Message { role, content } => {
                push_item(&mut messages, chat_message(role.as_str(), content));
            },
            ResponseItem::AgentMessage { author, recipient, plaintext } => {
                match plaintext {
                    Some(text) => {
                        let mut line = String::from_str("[");
                        line.append(author.as_str());
                        line.append(" -> ");
                        line.append(recipient.as_str());
                        line.append("]\n");
                        line.append(text.as_str());
                        let m = object2("role", JsonValue::string("user"), "content", JsonValue::Str(line));
                        push_item(&mut messages, m);
                    },
                    None => {},
                }
            },
            ResponseItem::FunctionCall { name, arguments, call_id } => {
                let function = object2(
                    "name",
                    JsonValue::string(name.as_str()),
                    "arguments",
                    JsonValue::string(arguments.as_str()),
                );
                let tool_call = object3(
                    "id",
                    JsonValue::string(call_id.as_str()),
                    "type",
                    JsonValue::string("function"),
                    "function",
                    function,
                );
                push_tool_call_message(&mut messages, tool_call);
            },
            ResponseItem::FunctionCallOutput { call_id, output } => {
                let m = object3(
                    "role",
                    JsonValue::string("tool"),
                    "tool_call_id",
                    JsonValue::string(call_id.as_str()),
                    "content",
                    function_output_content(output),
                );
                push_item(&mut messages, m);
            },
            _ => {},
        }
        i = i + 1;
    }
    assert(input@.take(input@.len() as int) =~= input@);
    messages
}

} // verus!
