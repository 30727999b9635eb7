//! What holds of every request and every reply.

use vstd::prelude::*;

use crate::catalog::{
    fallback_metadata_model, find_slug, is_catalog, metadata_for, tamu_ai_chat_models, ModelInfo,
};
use crate::items::{
    ContentItem, FunctionCallOutputBody, FunctionCallOutputContentItem, FunctionCallOutputPayload,
    ResponseItem,
};
use crate::json::{
    entries_get, entries_push_to_array, jstr, json_get, lemma_entries_get_after_push,
    lemma_entries_push_to_array_at, obj, JsonModel,
};
use crate::request::{
    add_item, add_tool_call, chat_message_model, chat_messages, content_part, content_text,
    image_part, output_parts, protected_model, request_body, system_message, takes_tool_call,
    text_part, tool_call_message, tool_call_model, tool_output_message, PROTECTED_MODEL_PREFIX,
};
use crate::response::{
    answers_choice, call_id_of, default_call_id, stopped_at_length, text_event_count, ChatResponse,
    ChatToolCall, ResponseEvent,
};
use crate::text::{decimal, digit_char};

verus! {

// ---------------------------------------------------------------------------
// The model name
// ---------------------------------------------------------------------------

/// The model asked for is always under the protected namespace, and naming
/// it that way again changes nothing.
pub proof fn law_model_is_protected(model: Seq<char>)
    ensures
        PROTECTED_MODEL_PREFIX@.is_prefix_of(protected_model(model)),
        protected_model(protected_model(model)) == protected_model(model),
{
    let p = PROTECTED_MODEL_PREFIX@;
    if !p.is_prefix_of(model) {
        assert((p + model).subrange(0, p.len() as int) =~= p);
    }
}

/// A model named with the protected prefix and the same model named without
/// it give the same request.
pub proof fn law_prefix_is_not_doubled(
    model: Seq<char>,
    instructions: Seq<char>,
    input: Seq<ResponseItem>,
    tools: Seq<JsonModel>,
    parallel_tool_calls: bool,
)
    requires
        !PROTECTED_MODEL_PREFIX@.is_prefix_of(model),
    ensures
        request_body(PROTECTED_MODEL_PREFIX@ + model, instructions, input, tools, parallel_tool_calls)
            == request_body(model, instructions, input, tools, parallel_tool_calls),
{
    law_model_is_protected(model);
}

// ---------------------------------------------------------------------------
// The messages
// ---------------------------------------------------------------------------

/// The strings that the messages are keyed by differ from one another.
proof fn lemma_keys_differ()
    ensures
        "role"@ != "content"@,
        "role"@ != "tool_calls"@,
        "content"@ != "tool_calls"@,
        "assistant"@ != "system"@,
{
    reveal_strlit("role");
    reveal_strlit("content");
    reveal_strlit("tool_calls");
    reveal_strlit("assistant");
    reveal_strlit("system");
    assert("role"@.len() == 4);
    assert("content"@.len() == 7);
    assert("tool_calls"@.len() == 10);
    assert("assistant"@.len() == 9);
    assert("system"@.len() == 6);
}

/// One more item keeps every message but the last, adds at most one, and
/// changes the last only where it takes a tool call.
pub proof fn law_item_keeps_earlier_messages(messages: Seq<JsonModel>, item: ResponseItem)
    ensures
        ({
            let r = add_item(messages, item);
            &&& messages.len() <= r.len() <= messages.len() + 1
            &&& forall|j: int| 0 <= j < messages.len() - 1 ==> #[trigger] r[j] == messages[j]
            &&& messages.len() > 0 && !takes_tool_call(messages.last()) ==> r[messages.len() - 1]
                == messages.last()
        }),
{
}

/// Items that have no place in a chat request change nothing.
pub proof fn law_other_items_are_left_out(instructions: Seq<char>, input: Seq<ResponseItem>, item: ResponseItem)
    requires
        !(item is Message || item is AgentMessage || item is FunctionCall
            || item is FunctionCallOutput),
    ensures
        chat_messages(instructions, input.push(item)) == chat_messages(instructions, input),
{
    assert(input.push(item).drop_last() =~= input);
}

/// The instructions, where there are any, stay the first message whatever
/// the conversation holds.
pub proof fn law_instructions_come_first(instructions: Seq<char>, input: Seq<ResponseItem>)
    requires
        instructions.len() > 0,
    ensures
        chat_messages(instructions, input).len() > 0,
        chat_messages(instructions, input)[0] == system_message(instructions),
    decreases input.len(),
{
    if input.len() > 0 {
        law_instructions_come_first(instructions, input.drop_last());
        let before = chat_messages(instructions, input.drop_last());
        law_item_keeps_earlier_messages(before, input.last());
        if before.len() == 1 {
            lemma_keys_differ();
            assert(json_get(system_message(instructions), "role"@) == Some(jstr("system"@)));
        }
    }
}

/// The function call answered by a function call output gets, as the last
/// message, a tool message under its call id.
pub proof fn law_output_answers_its_call(
    instructions: Seq<char>,
    input: Seq<ResponseItem>,
    call_id: String,
    output: FunctionCallOutputPayload,
)
    ensures
        ({
            let messages = chat_messages(
                instructions,
                input.push(ResponseItem::FunctionCallOutput { call_id, output }),
            );
            &&& messages.len() > 0
            &&& messages.last() == tool_output_message(call_id@, output)
            &&& json_get(messages.last(), "tool_call_id"@) == Some(jstr(call_id@))
        }),
{
    let item = ResponseItem::FunctionCallOutput { call_id, output };
    assert(input.push(item).drop_last() =~= input);
    reveal_strlit("role");
    reveal_strlit("tool_call_id");
    assert("role"@.len() != "tool_call_id"@.len());
    reveal_with_fuel(entries_get, 3);
}

/// The tool call that a function-call item becomes.
pub open spec fn call_model(item: ResponseItem) -> JsonModel {
    match item {
        ResponseItem::FunctionCall { name, arguments, call_id } => tool_call_model(
            call_id@,
            name@,
            arguments@,
        ),
        _ => JsonModel::Null,
    }
}

/// The assistant message that holds tool calls ending with `calls`.
pub open spec fn holds_tool_calls(m: JsonModel, calls: Seq<JsonModel>) -> bool {
    &&& json_get(m, "role"@) == Some(jstr("assistant"@))
    &&& json_get(m, "content"@) == Some(jstr(Seq::empty()))
    &&& json_get(m, "tool_calls"@) matches Some(JsonModel::Array(tcs)) && tcs.len() >= calls.len()
        && tcs.subrange(tcs.len() - calls.len(), tcs.len() as int) == calls
}

/// Adding a tool call leaves an assistant message holding it last.
proof fn lemma_add_tool_call(messages: Seq<JsonModel>, tc: JsonModel, before: Seq<JsonModel>)
    requires
        messages.len() > 0 && holds_tool_calls(messages.last(), before) || before.len() == 0,
    ensures
        ({
            let r = add_tool_call(messages, tc);
            &&& r.len() > 0
            &&& holds_tool_calls(r.last(), before.push(tc))
            &&& r.len() <= messages.len() + 1
            &&& messages.len() > 0 && holds_tool_calls(messages.last(), before) ==> r.len()
                == messages.len()
        }),
{
    lemma_keys_differ();
    let r = add_tool_call(messages, tc);
    if messages.len() > 0 && takes_tool_call(messages.last()) {
        let e = messages.last()->Object_0;
        let updated = entries_push_to_array(e, "tool_calls"@, tc);
        lemma_entries_get_after_push(e, "tool_calls"@, tc, "role"@);
        lemma_entries_get_after_push(e, "tool_calls"@, tc, "content"@);
        lemma_entries_get_after_push(e, "tool_calls"@, tc, "tool_calls"@);
        let tcs = entries_get(e, "tool_calls"@)->0->Array_0;
        let n: int = tcs.len() as int;
        assert(r.last() == JsonModel::Object(updated));
        if messages.len() > 0 && holds_tool_calls(messages.last(), before) {
            assert(tcs.push(tc).subrange(n + 1 - (before.len() + 1), n + 1) =~= tcs.subrange(
                n - before.len(),
                n,
            ).push(tc));
        } else {
            assert(tcs.push(tc).subrange(n + 1 - 1, n + 1) =~= seq![tc]);
            assert(before.push(tc) =~= seq![tc]);
        }
    } else {
        let m = tool_call_message(tc);
        reveal_with_fuel(entries_get, 4);
        assert(r.last() == m);
        assert(seq![tc].subrange(0, 1) =~= seq![tc]);
        assert(before.push(tc) =~= seq![tc]);
    }
}

/// Function calls that follow one another share one assistant message: the
/// last message holds their tool calls, in order, and they add at most one
/// message.
pub proof fn law_consecutive_calls_share_a_message(
    instructions: Seq<char>,
    input: Seq<ResponseItem>,
    calls: Seq<ResponseItem>,
)
    requires
        calls.len() > 0,
        forall|i: int| 0 <= i < calls.len() ==> #[trigger] calls[i] is FunctionCall,
    ensures
        ({
            let messages = chat_messages(instructions, input + calls);
            &&& messages.len() > 0
            &&& messages.len() <= chat_messages(instructions, input).len() + 1
            &&& holds_tool_calls(messages.last(), calls.map_values(|c: ResponseItem| call_model(c)))
        }),
    decreases calls.len(),
{
    let all = input + calls;
    let prev = calls.drop_last();
    let c = calls.last();
    assert(all.drop_last() =~= input + prev);
    assert(all.last() == c);
    assert(calls.map_values(|c: ResponseItem| call_model(c)) =~= prev.map_values(
        |c: ResponseItem| call_model(c),
    ).push(call_model(c)));
    if prev.len() == 0 {
        assert(input + prev =~= input);
        lemma_add_tool_call(chat_messages(instructions, input), call_model(c), Seq::empty());
        assert(prev.map_values(|c: ResponseItem| call_model(c)) =~= Seq::<JsonModel>::empty());
    } else {
        assert forall|i: int| 0 <= i < prev.len() implies #[trigger] prev[i] is FunctionCall by {
            assert(prev[i] == calls[i]);
        }
        law_consecutive_calls_share_a_message(instructions, input, prev);
        lemma_add_tool_call(
            chat_messages(instructions, input + prev),
            call_model(c),
            prev.map_values(|c: ResponseItem| call_model(c)),
        );
    }
}

// ---------------------------------------------------------------------------
// From a reply to the next request
// ---------------------------------------------------------------------------

/// The function-call items among the events of a reply to `choice`.
pub open spec fn call_items(events: Seq<ResponseEvent>, k: nat, n: nat) -> Seq<ResponseItem> {
    Seq::new(n, |j: int| events[k + j]->OutputItemDone_0)
}

/// The tool calls that a reply asks for, as the next request writes them.
pub open spec fn requested_calls(calls: Seq<ChatToolCall>) -> Seq<JsonModel> {
    Seq::new(
        calls.len(),
        |j: int|
            tool_call_model(
                call_id_of(calls[j], j as nat),
                calls[j].function.name@,
                calls[j].function.arguments@,
            ),
    )
}

/// The assistant message that holds exactly these tool calls.
pub open spec fn calls_message(calls: Seq<JsonModel>) -> JsonModel {
    obj(
        seq![
            ("role"@, jstr("assistant"@)),
            ("content"@, jstr(Seq::empty())),
            ("tool_calls"@, JsonModel::Array(calls)),
        ],
    )
}

/// Function calls alone, without instructions, make exactly one message:
/// the assistant message that holds all their tool calls, in order.
pub proof fn law_calls_alone_make_one_message(calls: Seq<ResponseItem>)
    requires
        calls.len() > 0,
        forall|i: int| 0 <= i < calls.len() ==> #[trigger] calls[i] is FunctionCall,
    ensures
        chat_messages(Seq::empty(), calls) == seq![
            calls_message(calls.map_values(|c: ResponseItem| call_model(c))),
        ],
    decreases calls.len(),
{
    let prev = calls.drop_last();
    let c = calls.last();
    let models = calls.map_values(|c: ResponseItem| call_model(c));
    let prev_models = prev.map_values(|c: ResponseItem| call_model(c));
    assert(models =~= prev_models.push(call_model(c)));
    if prev.len() == 0 {
        assert(seq![call_model(c)] =~= models);
        assert(chat_messages(Seq::empty(), prev) =~= Seq::<JsonModel>::empty());
        assert(chat_messages(Seq::empty(), calls) =~= seq![calls_message(models)]);
    } else {
        assert forall|i: int| 0 <= i < prev.len() implies #[trigger] prev[i] is FunctionCall by {
            assert(prev[i] == calls[i]);
        }
        law_calls_alone_make_one_message(prev);
        lemma_keys_differ();
        let m = calls_message(prev_models);
        let e = m->Object_0;
        reveal_with_fuel(entries_get, 4);
        assert(takes_tool_call(m));
        lemma_entries_push_to_array_at(e, "tool_calls"@, call_model(c), 2, prev_models);
        assert(e.update(2, ("tool_calls"@, JsonModel::Array(prev_models.push(call_model(c)))))
            =~= calls_message(models)->Object_0);
        assert(chat_messages(Seq::empty(), calls) =~= seq![calls_message(models)]);
    }
}

/// The tool calls that the reply asked for come back in the next request, in
/// order and under the ids that the reply's events gave them: appended to
/// any conversation, their items leave an assistant message that holds them
/// last; on their own, they make exactly that one message.
pub proof fn law_requested_calls_come_back(
    response: ChatResponse,
    events: Seq<ResponseEvent>,
    instructions: Seq<char>,
    input: Seq<ResponseItem>,
)
    requires
        response.choices@.len() > 0,
        answers_choice(events, response.id@, response.choices@[0]),
        response.choices@[0].message.tool_calls@.len() > 0,
    ensures
        ({
            let calls = response.choices@[0].message.tool_calls@;
            let items = call_items(events, text_event_count(response.choices@[0].message), calls.len());
            &&& holds_tool_calls(chat_messages(instructions, input + items).last(), requested_calls(calls))
            &&& chat_messages(Seq::empty(), items) == seq![calls_message(requested_calls(calls))]
        }),
{
    let choice = response.choices@[0];
    let calls = choice.message.tool_calls@;
    let k = text_event_count(choice.message);
    let items = call_items(events, k, calls.len());
    assert forall|i: int| 0 <= i < items.len() implies #[trigger] items[i] is FunctionCall by {
        assert(events[k + i] matches ResponseEvent::OutputItemDone(_));
    }
    law_consecutive_calls_share_a_message(instructions, input, items);
    law_calls_alone_make_one_message(items);
    assert(items.map_values(|c: ResponseItem| call_model(c)) =~= requested_calls(calls)) by {
        assert forall|j: int| 0 <= j < calls.len() implies call_model(#[trigger] items[j])
            == requested_calls(calls)[j] by {
            assert(events[k + j] matches ResponseEvent::OutputItemDone(_));
        }
    }
}

/// The next request after a reply, with no instructions and only the reply's
/// function calls as its conversation, holds exactly one message, the
/// assistant message with all the requested calls, or none where the reply
/// asked for no call.
pub proof fn law_reply_makes_next_messages(
    response: ChatResponse,
    events: Seq<ResponseEvent>,
    model: Seq<char>,
    tools: Seq<JsonModel>,
    parallel_tool_calls: bool,
)
    requires
        response.choices@.len() > 0,
        answers_choice(events, response.id@, response.choices@[0]),
    ensures
        ({
            let calls = response.choices@[0].message.tool_calls@;
            let items = call_items(events, text_event_count(response.choices@[0].message), calls.len());
            let expected = if calls.len() == 0 {
                Seq::empty()
            } else {
                seq![calls_message(requested_calls(calls))]
            };
            &&& chat_messages(Seq::empty(), items) == expected
            &&& json_get(
                request_body(model, Seq::empty(), items, tools, parallel_tool_calls),
                "messages"@,
            ) == Some(JsonModel::Array(expected))
        }),
{
    let calls = response.choices@[0].message.tool_calls@;
    let items = call_items(events, text_event_count(response.choices@[0].message), calls.len());
    if calls.len() > 0 {
        law_requested_calls_come_back(response, events, Seq::empty(), Seq::empty());
    } else {
        assert(items =~= Seq::<ResponseItem>::empty());
    }
    reveal_strlit("model");
    reveal_strlit("stream");
    reveal_strlit("messages");
    assert("model"@.len() != "messages"@.len());
    assert("stream"@.len() != "messages"@.len());
    reveal_with_fuel(entries_get, 4);
}

/// Only a reply's identifier and first choice count: two replies that agree
/// on them fail alike, and the same events answer both.
pub proof fn law_only_first_choice_counts(r1: ChatResponse, r2: ChatResponse, events: Seq<ResponseEvent>)
    requires
        r1.id@ == r2.id@,
        r1.choices@.len() > 0,
        r2.choices@.len() > 0,
        r1.choices@[0] == r2.choices@[0],
    ensures
        stopped_at_length(r1.choices@[0].finish_reason) == stopped_at_length(
            r2.choices@[0].finish_reason,
        ),
        answers_choice(events, r1.id@, r1.choices@[0]) == answers_choice(
            events,
            r2.id@,
            r2.choices@[0],
        ),
{
}

/// A decimal representation has at least two digits from ten on.
proof fn lemma_decimal_len(n: nat)
    ensures
        decimal(n).len() >= 1,
        n < 10 <==> decimal(n).len() == 1,
    decreases n,
{
    if n >= 10 {
        lemma_decimal_len(n / 10);
    }
}

/// Digit characters are told apart.
proof fn lemma_digit_char(a: nat, b: nat)
    requires
        a < 10,
        b < 10,
        digit_char(a) == digit_char(b),
    ensures
        a == b,
{
    assert(a == b);
}

/// Different numbers have different decimal representations.
pub proof fn law_decimal_is_injective(a: nat, b: nat)
    requires
        decimal(a) == decimal(b),
    ensures
        a == b,
    decreases a,
{
    lemma_decimal_len(a);
    lemma_decimal_len(b);
    if a < 10 {
        assert(b < 10);
        assert(decimal(b) == seq![digit_char(b)]);
        assert(decimal(a) == seq![digit_char(a)]);
        assert(decimal(a)[0] == decimal(b)[0]);
        assert(seq![digit_char(a)][0] == digit_char(a));
        assert(seq![digit_char(b)][0] == digit_char(b));
        lemma_digit_char(a, b);
    } else {
        let da = decimal(a);
        assert(da.drop_last() == decimal(a / 10));
        assert(decimal(b).drop_last() == decimal(b / 10));
        law_decimal_is_injective(a / 10, b / 10);
        assert(da.last() == decimal(b).last());
        lemma_digit_char(a % 10, b % 10);
    }
}

/// Tool calls that came without an id get ids that tell them apart.
pub proof fn law_default_call_ids_differ(i: nat, j: nat)
    requires
        i != j,
    ensures
        default_call_id(i) != default_call_id(j),
{
    if default_call_id(i) == default_call_id(j) {
        let p = "tamu-call-"@;
        assert(default_call_id(i).skip(p.len() as int) =~= decimal(i));
        assert(default_call_id(j).skip(p.len() as int) =~= decimal(j));
        law_decimal_is_injective(i, j);
    }
}

// ---------------------------------------------------------------------------
// What each item of the conversation becomes
// ---------------------------------------------------------------------------

/// The text that a content piece carries; an image carries none.
pub open spec fn piece_text(c: ContentItem) -> Seq<char> {
    match c {
        ContentItem::InputText { text } => text@,
        ContentItem::OutputText { text } => text@,
        ContentItem::InputImage { .. } => Seq::empty(),
    }
}

/// The texts of all pieces, one after another in their order.
pub open spec fn all_text(content: Seq<ContentItem>) -> Seq<char> {
    content.map_values(|c: ContentItem| piece_text(c)).flatten()
}

proof fn lemma_content_text_is_all_text(content: Seq<ContentItem>)
    ensures
        content_text(content) == content.map_values(|c: ContentItem| piece_text(c)).flatten_alt(),
    decreases content.len(),
{
    if content.len() > 0 {
        lemma_content_text_is_all_text(content.drop_last());
        assert(content.map_values(|c: ContentItem| piece_text(c)).drop_last() =~= content.drop_last().map_values(
            |c: ContentItem| piece_text(c),
        ));
    }
}

/// Every message item adds exactly one message, after all earlier ones,
/// under its own role, whatever the role. Where the message holds no image,
/// or is the assistant's, its content is the text of all its pieces one
/// after another, so that its length is the sum of theirs; otherwise it is
/// the list of the parts of all its pieces, in order.
pub proof fn law_message_becomes_one_message(
    instructions: Seq<char>,
    input: Seq<ResponseItem>,
    role: String,
    content: Vec<ContentItem>,
)
    ensures
        ({
            let before = chat_messages(instructions, input);
            let after = chat_messages(
                instructions,
                input.push(ResponseItem::Message { role, content }),
            );
            let pieces = content@;
            &&& after.len() == before.len() + 1
            &&& forall|j: int| 0 <= j < before.len() ==> #[trigger] after[j] == before[j]
            &&& json_get(after.last(), "role"@) == Some(jstr(role@))
            &&& (role@ == "assistant"@ || forall|i: int| 0 <= i < pieces.len() ==> !(#[trigger] pieces[i] is InputImage))
                ==> after.last() == obj(seq![("role"@, jstr(role@)), ("content"@, jstr(all_text(pieces)))])
            &&& !(role@ == "assistant"@ || forall|i: int| 0 <= i < pieces.len() ==> !(#[trigger] pieces[i] is InputImage))
                ==> after.last() == obj(
                seq![
                    ("role"@, jstr(role@)),
                    ("content"@, JsonModel::Array(pieces.map_values(|c: ContentItem| match c {
                        ContentItem::InputImage { image_url } => image_part(image_url@),
                        _ => text_part(piece_text(c)),
                    }))),
                ],
            )
        }),
{
    let item = ResponseItem::Message { role, content };
    let pieces = content@;
    assert(input.push(item).drop_last() =~= input);
    lemma_content_text_is_all_text(pieces);
    pieces.map_values(|c: ContentItem| piece_text(c)).lemma_flatten_and_flatten_alt_are_equivalent();
    reveal_strlit("role");
    reveal_strlit("content");
    assert("role"@.len() != "content"@.len());
    reveal_with_fuel(entries_get, 2);
    assert(pieces.map_values(|c: ContentItem| content_part(c)) =~= pieces.map_values(
        |c: ContentItem| match c {
            ContentItem::InputImage { image_url } => image_part(image_url@),
            _ => text_part(piece_text(c)),
        },
    ));
}

/// The part that a readable piece of a function's output becomes.
pub open spec fn readable_part(c: FunctionCallOutputContentItem) -> JsonModel {
    match c {
        FunctionCallOutputContentItem::InputText { text } => text_part(text@),
        FunctionCallOutputContentItem::InputImage { image_url } => image_part(image_url@),
        FunctionCallOutputContentItem::EncryptedContent { .. } => JsonModel::Null,
    }
}

/// Whether a piece of a function's output can be read by the model.
pub open spec fn is_readable(c: FunctionCallOutputContentItem) -> bool {
    !(c is EncryptedContent)
}

proof fn lemma_output_parts_are_readable(items: Seq<FunctionCallOutputContentItem>)
    ensures
        output_parts(items) == items.filter(|c: FunctionCallOutputContentItem| is_readable(c)).map_values(
            |c: FunctionCallOutputContentItem| readable_part(c),
        ),
    decreases items.len(),
{
    if items.len() > 0 {
        lemma_output_parts_are_readable(items.drop_last());
        let f = |c: FunctionCallOutputContentItem| is_readable(c);
        let g = |c: FunctionCallOutputContentItem| readable_part(c);
        let prev = items.drop_last().filter(f);
        reveal_with_fuel(Seq::<FunctionCallOutputContentItem>::filter, 1);
        if f(items.last()) {
            assert(items.filter(f) == prev.push(items.last()));
            assert(prev.push(items.last()).map_values(g) =~= prev.map_values(g).push(g(items.last())));
        } else {
            assert(items.filter(f) == prev);
        }
    }
}

/// A function-call output answers with one tool message under its call id.
/// Where the output is a list of pieces, the message's content holds exactly
/// the readable pieces, each as its part, in order: every text and image
/// piece, and no encrypted one.
pub proof fn law_output_keeps_every_readable_piece(
    instructions: Seq<char>,
    input: Seq<ResponseItem>,
    call_id: String,
    items: Vec<FunctionCallOutputContentItem>,
)
    ensures
        ({
            let output = FunctionCallOutputPayload { body: FunctionCallOutputBody::ContentItems(items) };
            let before = chat_messages(instructions, input);
            let after = chat_messages(
                instructions,
                input.push(ResponseItem::FunctionCallOutput { call_id, output }),
            );
            let readable = items@.filter(|c: FunctionCallOutputContentItem| is_readable(c));
            &&& after.len() == before.len() + 1
            &&& forall|j: int| 0 <= j < before.len() ==> #[trigger] after[j] == before[j]
            &&& after.last() == obj(
                seq![
                    ("role"@, jstr("tool"@)),
                    ("tool_call_id"@, jstr(call_id@)),
                    ("content"@, JsonModel::Array(readable.map_values(
                        |c: FunctionCallOutputContentItem| readable_part(c),
                    ))),
                ],
            )
        }),
{
    let output = FunctionCallOutputPayload { body: FunctionCallOutputBody::ContentItems(items) };
    let item = ResponseItem::FunctionCallOutput { call_id, output };
    assert(input.push(item).drop_last() =~= input);
    lemma_output_parts_are_readable(items@);
}

/// The request offers exactly the given tools, all of them and in order,
/// with `tool_choice` "auto" and the parallel flag; without tools it has none
/// of these entries. The model, `stream` "false" and the messages are always
/// there.
pub proof fn law_request_offers_every_tool(
    model: Seq<char>,
    instructions: Seq<char>,
    input: Seq<ResponseItem>,
    tools: Seq<JsonModel>,
    parallel_tool_calls: bool,
)
    ensures
        ({
            let body = request_body(model, instructions, input, tools, parallel_tool_calls);
            &&& json_get(body, "tools"@) == if tools.len() > 0 {
                Some(JsonModel::Array(tools))
            } else {
                None
            }
            &&& json_get(body, "tool_choice"@) == if tools.len() > 0 {
                Some(jstr("auto"@))
            } else {
                None
            }
            &&& json_get(body, "parallel_tool_calls"@) == if tools.len() > 0 {
                Some(JsonModel::Bool(parallel_tool_calls))
            } else {
                None
            }
            &&& json_get(body, "model"@) == Some(jstr(protected_model(model)))
            &&& json_get(body, "stream"@) == Some(jstr("false"@))
            &&& json_get(body, "messages"@) == Some(JsonModel::Array(chat_messages(instructions, input)))
        }),
{
    reveal_strlit("model");
    reveal_strlit("stream");
    reveal_strlit("messages");
    reveal_strlit("tools");
    reveal_strlit("tool_choice");
    reveal_strlit("parallel_tool_calls");
    assert("model"@[0] != "tools"@[0]);
    assert("model"@ != "tools"@);
    assert("stream"@.len() != "messages"@.len());
    assert("model"@.len() != "messages"@.len());
    assert("model"@.len() != "stream"@.len());
    assert("tools"@.len() != "tool_choice"@.len());
    assert("tools"@.len() != "messages"@.len());
    assert("tools"@.len() != "stream"@.len());
    assert("tools"@.len() != "parallel_tool_calls"@.len());
    assert("tool_choice"@.len() != "parallel_tool_calls"@.len());
    assert("tool_choice"@.len() != "model"@.len());
    assert("tool_choice"@.len() != "stream"@.len());
    assert("tool_choice"@.len() != "messages"@.len());
    assert("parallel_tool_calls"@.len() != "model"@.len());
    assert("parallel_tool_calls"@.len() != "stream"@.len());
    assert("parallel_tool_calls"@.len() != "messages"@.len());
    reveal_with_fuel(entries_get, 7);
}

// ---------------------------------------------------------------------------
// The catalog
// ---------------------------------------------------------------------------

/// Whether a bundled model counts for a catalog of `model_ids`: it is the
/// fallback or one of the listed models.
pub open spec fn counts_for(m: ModelInfo, model_ids: Seq<Seq<char>>) -> bool {
    m.slug@ == fallback_metadata_model() || model_ids.contains(m.slug@)
}

/// The bundled models that count for a catalog of `model_ids`, in order.
pub open spec fn counting_models(bundled: Seq<ModelInfo>, model_ids: Seq<Seq<char>>) -> Seq<ModelInfo>
    decreases bundled.len(),
{
    if bundled.len() == 0 {
        bundled
    } else if counts_for(bundled[0], model_ids) {
        seq![bundled[0]] + counting_models(bundled.drop_first(), model_ids)
    } else {
        counting_models(bundled.drop_first(), model_ids)
    }
}

/// A slug that counts is found alike among all bundled models and among
/// those that count.
proof fn lemma_find_slug_counting(bundled: Seq<ModelInfo>, model_ids: Seq<Seq<char>>, slug: Seq<char>)
    requires
        slug == fallback_metadata_model() || model_ids.contains(slug),
    ensures
        find_slug(bundled, slug) == find_slug(counting_models(bundled, model_ids), slug),
    decreases bundled.len(),
{
    if bundled.len() > 0 {
        lemma_find_slug_counting(bundled.drop_first(), model_ids, slug);
        if counts_for(bundled[0], model_ids) {
            let c = seq![bundled[0]] + counting_models(bundled.drop_first(), model_ids);
            assert(c[0] == bundled[0]);
            assert(c.drop_first() =~= counting_models(bundled.drop_first(), model_ids));
        }
    }
}

/// Inserting a model that does not count, anywhere, leaves the models that
/// count as they were; so does any number of such insertions.
pub proof fn law_uncounted_insertion_is_dropped(
    bundled: Seq<ModelInfo>,
    k: int,
    m: ModelInfo,
    model_ids: Seq<Seq<char>>,
)
    requires
        0 <= k <= bundled.len(),
        !counts_for(m, model_ids),
    ensures
        counting_models(bundled.insert(k, m), model_ids) == counting_models(bundled, model_ids),
    decreases k,
{
    let with = bundled.insert(k, m);
    if k == 0 {
        assert(with[0] == m);
        assert(with.drop_first() =~= bundled);
    } else {
        assert(with[0] == bundled[0]);
        assert(with.drop_first() =~= bundled.drop_first().insert(k - 1, m));
        law_uncounted_insertion_is_dropped(bundled.drop_first(), k - 1, m, model_ids);
    }
}

/// Bundled models that do not count change nothing: two bundles whose
/// counting models agree both hold the fallback or both lack it, and every
/// catalog of the one is a catalog of the other.
pub proof fn law_unlisted_models_change_nothing(
    b1: Seq<ModelInfo>,
    b2: Seq<ModelInfo>,
    model_ids: Seq<Seq<char>>,
)
    requires
        counting_models(b1, model_ids) == counting_models(b2, model_ids),
    ensures
        find_slug(b1, fallback_metadata_model()) == find_slug(b2, fallback_metadata_model()),
        forall|models: Seq<ModelInfo>|
            #[trigger] is_catalog(b1, model_ids, models) == is_catalog(b2, model_ids, models),
{
    lemma_find_slug_counting(b1, model_ids, fallback_metadata_model());
    lemma_find_slug_counting(b2, model_ids, fallback_metadata_model());
    assert forall|i: int| 0 <= i < model_ids.len() implies find_slug(b1, #[trigger] model_ids[i])
        == find_slug(b2, model_ids[i]) by {
        assert(model_ids.contains(model_ids[i]));
        lemma_find_slug_counting(b1, model_ids, model_ids[i]);
        lemma_find_slug_counting(b2, model_ids, model_ids[i]);
    }
    assert forall|models: Seq<ModelInfo>| #[trigger] is_catalog(b1, model_ids, models) == is_catalog(
        b2,
        model_ids,
        models,
    ) by {
        assert forall|i: int| 0 <= i < model_ids.len() implies metadata_for(b1, #[trigger] model_ids[i])
            == metadata_for(b2, model_ids[i]) && (find_slug(b1, model_ids[i]) is Some) == (find_slug(
            b2,
            model_ids[i],
        ) is Some) by {
            assert(find_slug(b1, model_ids[i]) == find_slug(b2, model_ids[i]));
        }
    }
}

/// The preferred default model comes first, and it is the model whose
/// metadata stands in for the others, so it is described by its own.
pub proof fn law_default_model_comes_first(bundled: Seq<ModelInfo>)
    requires
        find_slug(bundled, fallback_metadata_model()) is Some,
    ensures
        tamu_ai_chat_models()[0] == fallback_metadata_model(),
        find_slug(bundled, tamu_ai_chat_models()[0]) is Some,
        metadata_for(bundled, tamu_ai_chat_models()[0]) == find_slug(
            bundled,
            fallback_metadata_model(),
        )->0,
{
}

} // verus!
