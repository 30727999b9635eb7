//! The events that a Chat Completions reply stands for.

use vstd::prelude::*;

use crate::items::{ContentItem, ResponseItem};
use crate::text::{decimal, decimal_text, str_eq};

verus! {

/// A function call that the model asks for.
#[derive(Debug, Clone, PartialEq, Eq)]
pub struct ChatFunctionCall {
    pub name: String,
    pub arguments: String,
}

/// A tool call of a reply; the endpoint may leave out its identifier.
#[derive(Debug, Clone, PartialEq, Eq)]
pub struct ChatToolCall {
    pub id: Option<String>,
    pub function: ChatFunctionCall,
}

/// The message of a reply.
#[derive(Debug, Clone, PartialEq, Eq)]
pub struct ChatMessage {
    pub content: Option<String>,
    pub tool_calls: Vec<ChatToolCall>,
}

/// One choice of a reply.
#[derive(Debug, Clone, PartialEq, Eq)]
pub struct ChatChoice {
    pub finish_reason: Option<String>,
    pub message: ChatMessage,
}

/// A reply of the Chat Completions endpoint.
#[derive(Debug, Clone, PartialEq, Eq)]
pub struct ChatResponse {
    pub id: String,
    pub choices: Vec<ChatChoice>,
}

/// What the turn learns from a reply, in order.
#[derive(Debug, Clone, PartialEq, Eq)]
pub enum ResponseEvent {
    OutputItemAdded(ResponseItem),
    OutputTextDelta(String),
    OutputItemDone(ResponseItem),
    /// The reply is complete; no token usage is reported with it.
    Completed { response_id: String, end_turn: Option<bool> },
}

/// Why a reply gives the turn nothing to go on.
#[derive(Debug, Clone, PartialEq, Eq)]
pub enum ApiError {
    /// The conversation no longer fits the model's context window.
    ContextWindowExceeded,
    /// The reply cannot be read.
    Stream(String),
}

/// Whether the turn ends with this reply: yes when the model stopped, no
/// when it asks for tool calls, unknown otherwise.
pub open spec fn end_turn_of(finish_reason: Option<String>) -> Option<bool> {
    match finish_reason {
        Some(r) => if r@ == "stop"@ {
            Some(true)
        } else if r@ == "tool_calls"@ {
            Some(false)
        } else {
            None
        },
        None => None,
    }
}

/// Whether the reply ran into the length limit.
pub open spec fn stopped_at_length(finish_reason: Option<String>) -> bool {
    finish_reason matches Some(r) && r@ == "length"@
}

/// The message that the reply leaves as text, if any: its content where that
/// is there and not empty.
pub open spec fn reply_text(message: ChatMessage) -> Option<Seq<char>> {
    match message.content {
        Some(c) => if c@.len() > 0 {
            Some(c@)
        } else {
            None
        },
        None => None,
    }
}

/// The identifier given to the tool call at `index` that came without one.
pub open spec fn default_call_id(index: nat) -> Seq<char> {
    "tamu-call-"@ + decimal(index)
}

/// The identifier of the tool call at `index`.
pub open spec fn call_id_of(call: ChatToolCall, index: nat) -> Seq<char> {
    match call.id {
        Some(id) => id@,
        None => default_call_id(index),
    }
}

/// An assistant message with this one piece of output text.
pub open spec fn is_assistant_message(item: ResponseItem, text: Seq<char>) -> bool {
    &&& item matches ResponseItem::Message { role, content }
    &&& role@ == "assistant"@
    &&& content@.len() == 1
    &&& content@[0] matches ContentItem::OutputText { text: t }
    &&& t@ == text
}

/// The function-call item for the tool call at `index`.
pub open spec fn is_call_item(item: ResponseItem, call: ChatToolCall, index: nat) -> bool {
    &&& item matches ResponseItem::FunctionCall { name, arguments, call_id }
    &&& name@ == call.function.name@
    &&& arguments@ == call.function.arguments@
    &&& call_id@ == call_id_of(call, index)
}

/// The number of events before the tool calls: three for a text reply
/// (the message opened, its text, the message done), else none.
pub open spec fn text_event_count(message: ChatMessage) -> nat {
    if reply_text(message) is Some {
        3
    } else {
        0
    }
}

/// The events of a reply whose first choice is `choice`: the text message
/// where there is one, each tool call in order, and last the completion.
pub open spec fn answers_choice(events: Seq<ResponseEvent>, response_id: Seq<char>, choice: ChatChoice) -> bool {
    let message = choice.message;
    let k = text_event_count(message);
    let calls = message.tool_calls@;
    &&& events.len() == k + calls.len() + 1
    &&& reply_text(message) matches Some(text) ==> {
        &&& events[0] matches ResponseEvent::OutputItemAdded(item) && is_assistant_message(
            item,
            Seq::empty(),
        )
        &&& events[1] matches ResponseEvent::OutputTextDelta(delta) && delta@ == text
        &&& events[2] matches ResponseEvent::OutputItemDone(item) && is_assistant_message(
            item,
            text,
        )
    }
    &&& forall|j: int|
        0 <= j < calls.len() ==> (#[trigger] events[k + j] matches ResponseEvent::OutputItemDone(
            item,
        ) && is_call_item(item, calls[j], j as nat))
    &&& events.last() matches ResponseEvent::Completed { response_id: id, end_turn } && id@
        == response_id && end_turn == end_turn_of(choice.finish_reason)
}

/// The error message for a reply without choices.
pub open spec fn no_choices_message() -> Seq<char> {
    "TAMU chat response contained no choices"@
}

/// An assistant message with one piece of output text.
fn assistant_message(text: &str) -> (r: ResponseItem)
    ensures
        is_assistant_message(r, text@),
{
    let content = vec![ContentItem::OutputText { text: text.to_owned() }];
    ResponseItem::Message { role: "assistant".to_owned(), content }
}

/// The identifier of the tool call at `index`.
fn call_id(call: &ChatToolCall, index: usize) -> (r: String)
    ensures
        r@ == call_id_of(*call, index as nat),
{
    match &call.id {
        Some(id) => id.clone(),
        None => {
            let mut s = String::from_str("tamu-call-");
            let digits = decimal_text(index);
            s.append(digits.as_str());
            s
        },
    }
}

/// The events of a reply: an error where it has no choice or where its first
/// choice ran into the length limit, else those of its first choice.
pub fn response_events(response: ChatResponse) -> (r: Result<Vec<ResponseEvent>, ApiError>)
    ensures
        response.choices@.len() == 0 ==> (r matches Err(ApiError::Stream(m)) && m@
            == no_choices_message()),
        response.choices@.len() > 0 && stopped_at_length(response.choices@[0].finish_reason) ==> r
            == Err::<Vec<ResponseEvent>, ApiError>(ApiError::ContextWindowExceeded),
        response.choices@.len() > 0 && !stopped_at_length(response.choices@[0].finish_reason) ==> (r
            matches Ok(events) && answers_choice(events@, response.id@, response.choices@[0])),
{
    if response.choices.len() == 0 {
        return Err(ApiError::Stream(String::from_str("TAMU chat response contained no choices")));
    }
    let ChatResponse { id, choices } = response;
    let mut choices = choices;
    let choice = choices.swap_remove(0);
    let ghost first = choice;
    let length_stop = match &choice.finish_reason {
        Some(r) => str_eq(r.as_str(), "length"),
        None => false,
    };
    if length_stop {
        return Err(ApiError::ContextWindowExceeded);
    }
    let end_turn = match &choice.finish_reason {
        Some(r) => if str_eq(r.as_str(), "stop") {
            Some(true)
        } else if str_eq(r.as_str(), "tool_calls") {
            Some(false)
        } else {
            None
        },
        None => None,
    };
    let mut events: Vec<ResponseEvent> = Vec::new();
    match &choice.message.content {
        Some(content) => {
            if !content.as_str().is_empty() {
                proof {
                    reveal_strlit("");
                    assert(""@ =~= Seq::<char>::empty());
                }
                events.push(ResponseEvent::OutputItemAdded(assistant_message("")));
                events.push(ResponseEvent::OutputTextDelta(content.clone()));
                events.push(ResponseEvent::OutputItemDone(assistant_message(content.as_str())));
            }
        },
        None => {},
    }
    let k = events.len();
    assert(k == text_event_count(first.message));
    let calls = &choice.message.tool_calls;
    let mut i: usize = 0;
    while i < calls.len()
        invariant
            i <= calls@.len(),
            k == text_event_count(first.message),
            *calls == first.message.tool_calls,
            events@.len() == k + i,
            reply_text(first.message) matches Some(text) ==> {
                &&& events@[0] matches ResponseEvent::OutputItemAdded(item) && is_assistant_message(
                    item,
                    Seq::empty(),
                )
                &&& events@[1] matches ResponseEvent::OutputTextDelta(delta) && delta@ == text
                &&& events@[2] matches ResponseEvent::OutputItemDone(item) && is_assistant_message(
                    item,
                    text,
                )
            },
            forall|j: int|
                0 <= j < i ==> (#[trigger] events@[k + j] matches ResponseEvent::OutputItemDone(
                    item,
                ) && is_call_item(item, calls@[j], j as nat)),
        decreases calls@.len() - i,
    {
        let call = &calls[i];
        let item = ResponseItem::FunctionCall {
            name: call.function.name.clone(),
            arguments: call.function.arguments.clone(),
            call_id: call_id(call, i),
        };
        events.push(ResponseEvent::OutputItemDone(item));
        i = i + 1;
    }
    events.push(ResponseEvent::Completed { response_id: id, end_turn });
    Ok(events)
}

} // verus!
