//! The items of a conversation, as the chat request reads them and the
//! chat reply produces them.

use vstd::prelude::*;

verus! {

/// One piece of a message's content.
#[derive(Debug, Clone, PartialEq, Eq)]
pub enum ContentItem {
    InputText { text: String },
    InputImage { image_url: String },
    OutputText { text: String },
}

/// One piece of the output of a function call.
#[derive(Debug, Clone, PartialEq, Eq)]
pub enum FunctionCallOutputContentItem {
    InputText { text: String },
    InputImage { image_url: String },
    /// Content that only its producer can read; a chat request leaves it out.
    EncryptedContent { encrypted_content: String },
}

/// The body of a function call's output: plain text, or a list of pieces.
#[derive(Debug, Clone, PartialEq, Eq)]
pub enum FunctionCallOutputBody {
    Text(String),
    ContentItems(Vec<FunctionCallOutputContentItem>),
}

/// The output of a function call.
#[derive(Debug, Clone, PartialEq, Eq)]
pub struct FunctionCallOutputPayload {
    pub body: FunctionCallOutputBody,
}

/// An item of a conversation.
///
/// An agent message carries the plain text of its content where that content
/// has one (`None` where it holds something else). The kinds of item after
/// `FunctionCallOutput` have no place in a chat request; they carry nothing
/// here.
#[derive(Debug, Clone, PartialEq, Eq)]
pub enum ResponseItem {
    Message { role: String, content: Vec<ContentItem> },
    AgentMessage { author: String, recipient: String, plaintext: Option<String> },
    FunctionCall { name: String, arguments: String, call_id: String },
    FunctionCallOutput { call_id: String, output: FunctionCallOutputPayload },
    AdditionalTools,
    Reasoning,
    LocalShellCall,
    ToolSearchCall,
    CustomToolCall,
    CustomToolCallOutput,
    ToolSearchOutput,
    WebSearchCall,
    ImageGenerationCall,
    Compaction,
    CompactionTrigger,
    ContextCompaction,
    Other,
}

} // verus!
