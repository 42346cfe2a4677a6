//! The gemini side: what is sent, and what of a reply the bridge reads.
use serde_json::Value;
use vstd::prelude::*;

use crate::json::{json, json_opt, Json};

verus! {

/// Why generation finished.
#[derive(Clone, Copy, Debug, PartialEq, Eq, Structural)]
pub enum FinishReason {
    /// No reason given.
    FinishReasonUnspecified,
    /// Natural stop point.
    Stop,
    /// The token cap was reached.
    MaxTokens,
    /// Flagged for safety.
    Safety,
    /// Flagged for recitation.
    Recitation,
    /// Unsupported language.
    Language,
    /// Unknown reason.
    Other,
    /// Forbidden terms.
    Blocklist,
    /// Prohibited content.
    ProhibitedContent,
    /// Sensitive personal information.
    Spii,
    /// The generated function call is invalid.
    MalformedFunctionCall,
    /// Generated images contain safety violations.
    ImageSafety,
    /// A tool call although no tools were enabled.
    UnexpectedToolCall,
    /// Too many tools called in a row.
    TooManyToolCalls,
}

/// Author of a content.
#[derive(Clone, Copy, Debug, PartialEq, Eq, Structural)]
pub enum Role {
    /// The user.
    User,
    /// The model.
    Model,
}

/// Resolution at which an inline image is read.
#[derive(Clone, Copy, Debug, PartialEq, Eq, Structural)]
pub enum MediaResolutionLevel {
    /// Left to the model.
    MediaResolutionUnspecified,
    /// Fewer tokens, lower quality.
    MediaResolutionLow,
    /// More tokens, higher quality.
    MediaResolutionHigh,
}

/// Per-part media resolution.
#[derive(Clone, Copy, Debug, PartialEq, Eq, Structural)]
pub struct MediaResolution {
    /// The level to use.
    pub level: MediaResolutionLevel,
}

/// Inline data: base64 text of a MIME type.
#[derive(Debug)]
pub struct Blob {
    /// Base64-encoded data.
    pub data: String,
    /// MIME type of the data.
    pub mime_type: String,
}

/// A function call: a name and JSON arguments.
#[derive(Debug)]
pub struct FunctionCall {
    /// Call arguments.
    pub args: Value,
    /// Function name.
    pub name: String,
}

/// The response to a function call.
#[derive(Debug)]
pub struct FunctionResponse {
    /// Function name.
    pub name: String,
    /// What the function returned.
    pub response: Value,
}

/// One part of a content that is sent.
#[derive(Debug)]
pub enum Part {
    /// A function call that the model made.
    FunctionCall {
        /// The call.
        function_call: FunctionCall,
        /// The signature of the thought behind the call.
        thought_signature: Option<String>,
    },
    /// The response to a function call.
    FunctionResponse {
        /// The response.
        function_response: FunctionResponse,
    },
    /// Inline data.
    InlineData {
        /// The data.
        inline_data: Blob,
        /// Resolution override; none keeps the model default.
        media_resolution: Option<MediaResolution>,
    },
    /// Plain text.
    Text {
        /// Text body.
        text: String,
    },
}

/// One content of the conversation that is sent.
#[derive(Debug)]
pub struct Content {
    /// Parts in order.
    pub parts: Vec<Part>,
    /// Author.
    pub role: Role,
}

/// The model of a `Blob`.
pub struct BlobView {
    pub data: Seq<char>,
    pub mime_type: Seq<char>,
}

/// The model of a `Part`.
pub enum PartView {
    FunctionCall { name: Seq<char>, args: Json, thought_signature: Option<Seq<char>> },
    FunctionResponse { name: Seq<char>, response: Json },
    InlineData { inline_data: BlobView, media_resolution: Option<MediaResolution> },
    Text { text: Seq<char> },
}

/// The model of a `Content`.
pub struct ContentView {
    pub parts: Seq<PartView>,
    pub role: Role,
}

impl View for Blob {
    type V = BlobView;

    open spec fn view(&self) -> BlobView {
        BlobView { data: self.data@, mime_type: self.mime_type@ }
    }
}

impl View for Part {
    type V = PartView;

    open spec fn view(&self) -> PartView {
        match *self {
            Part::FunctionCall { function_call, thought_signature } => PartView::FunctionCall {
                name: function_call.name@,
                args: json(function_call.args),
                thought_signature: thought_signature.deep_view(),
            },
            Part::FunctionResponse { function_response } => PartView::FunctionResponse {
                name: function_response.name@,
                response: json(function_response.response),
            },
            Part::InlineData { inline_data, media_resolution } => PartView::InlineData {
                inline_data: inline_data@,
                media_resolution,
            },
            Part::Text { text } => PartView::Text { text: text@ },
        }
    }
}

impl DeepView for Part {
    type V = PartView;

    open spec fn deep_view(&self) -> PartView {
        self@
    }
}

impl View for Content {
    type V = ContentView;

    open spec fn view(&self) -> ContentView {
        ContentView { parts: self.parts.deep_view(), role: self.role }
    }
}

impl DeepView for Content {
    type V = ContentView;

    open spec fn deep_view(&self) -> ContentView {
        self@
    }
}

/// One part of a reply.
#[derive(Debug)]
pub enum ReplyPart {
    /// The result of code that the model ran.
    CodeExecutionResult,
    /// Code that the model wrote to run.
    ExecutableCode,
    /// A reference to a file.
    FileData,
    /// A function call.
    FunctionCall {
        /// The call.
        function_call: FunctionCall,
        /// The signature of the thought behind the call.
        thought_signature: Option<String>,
    },
    /// The response to a function call.
    FunctionResponse,
    /// Inline data.
    InlineData,
    /// Text, or the summary of a thought.
    Text {
        /// Text body.
        text: String,
        /// Whether this is the summary of a thought.
        thought: Option<bool>,
        /// The signature of the thought.
        thought_signature: Option<String>,
    },
    /// A server-side tool call.
    ToolCall,
    /// A server-side tool response.
    ToolResponse,
}

/// One candidate of a reply.
#[derive(Debug)]
pub struct Candidate {
    /// Why generation finished, once it has.
    pub finish_reason: Option<FinishReason>,
    /// Parts in order.
    pub parts: Option<Vec<ReplyPart>>,
}

/// Token counts of a reply.
#[derive(Clone, Copy, Debug, PartialEq, Eq)]
pub struct UsageMetadata {
    /// Tokens served from a cache.
    pub cached_content_token_count: Option<i32>,
    /// Tokens of the answer, the thoughts not among them.
    pub candidates_token_count: Option<i32>,
    /// Tokens of the prompt.
    pub prompt_token_count: Option<i32>,
    /// Tokens of the thoughts.
    pub thoughts_token_count: Option<i32>,
    /// All tokens.
    pub total_token_count: Option<i32>,
}

/// One chunk of a streamed reply.
#[derive(Debug)]
pub struct GenerationResponse {
    /// The candidates.
    pub candidates: Vec<Candidate>,
    /// Token counts, where the chunk has them.
    pub usage_metadata: Option<UsageMetadata>,
}

/// How deep the model is asked to think.
#[derive(Clone, Copy, Debug, PartialEq, Eq, Structural)]
pub enum ThinkingLevel {
    /// Least thinking.
    Minimal,
    /// Little thinking.
    Low,
    /// Moderate thinking.
    Medium,
    /// Most thinking.
    High,
}

/// How the model thinks.
#[derive(Clone, Copy, Debug, PartialEq, Eq, Structural)]
pub struct ThinkingConfig {
    /// Whether summaries of the thoughts come with the reply.
    pub include_thoughts: bool,
    /// How deep to think.
    pub thinking_level: ThinkingLevel,
}

/// Whether the model may, must or must not call functions.
#[derive(Clone, Copy, Debug, PartialEq, Eq, Structural)]
pub enum FunctionCallingMode {
    /// The model must call a function.
    Any,
    /// The model chooses.
    Auto,
    /// The model must not call functions.
    Never,
}

/// How the tools of a request are used.
#[derive(Clone, Copy, Debug, PartialEq, Eq, Structural)]
pub struct ToolConfig {
    /// The function-calling mode; none leaves the gemini default.
    pub function_calling_mode: Option<FunctionCallingMode>,
    /// Whether server-side tool calls show in the reply.
    pub include_server_side_tool_invocations: bool,
}

/// A function that the model may call.
#[derive(Debug)]
pub struct FunctionDeclaration {
    /// What the function does.
    pub description: String,
    /// Function name.
    pub name: String,
    /// JSON schema of the parameters.
    pub parameters_json_schema: Value,
}

/// One tool of a request.
#[derive(Debug)]
pub enum Tool {
    /// Server-side code execution.
    CodeExecution,
    /// A function.
    Function(FunctionDeclaration),
    /// Server-side web search.
    GoogleSearch,
    /// Server-side reading of URLs.
    UrlContext,
}

/// A request for a streamed reply.
#[derive(Debug)]
pub struct GenerateRequest {
    /// The conversation.
    pub contents: Vec<Content>,
    /// Cap on output tokens.
    pub max_output_tokens: Option<i32>,
    /// JSON schema that the reply is constrained to.
    pub response_json_schema: Option<Value>,
    /// MIME type of the reply.
    pub response_mime_type: Option<String>,
    /// System instructions.
    pub system_prompt: Option<String>,
    /// How the model thinks.
    pub thinking_config: ThinkingConfig,
    /// How the tools are used.
    pub tool_config: ToolConfig,
    /// The tools in order.
    pub tools: Vec<Tool>,
}

/// The model of a `Tool`.
pub enum ToolView {
    CodeExecution,
    Function { name: Seq<char>, description: Seq<char>, parameters_json_schema: Json },
    GoogleSearch,
    UrlContext,
}

/// The model of a `GenerateRequest`.
pub struct GenerateRequestView {
    pub contents: Seq<ContentView>,
    pub max_output_tokens: Option<i32>,
    pub response_json_schema: Option<Json>,
    pub response_mime_type: Option<Seq<char>>,
    pub system_prompt: Option<Seq<char>>,
    pub thinking_config: ThinkingConfig,
    pub tool_config: ToolConfig,
    pub tools: Seq<ToolView>,
}

impl View for Tool {
    type V = ToolView;

    open spec fn view(&self) -> ToolView {
        match *self {
            Tool::CodeExecution => ToolView::CodeExecution,
            Tool::Function(declaration) => ToolView::Function {
                name: declaration.name@,
                description: declaration.description@,
                parameters_json_schema: json(declaration.parameters_json_schema),
            },
            Tool::GoogleSearch => ToolView::GoogleSearch,
            Tool::UrlContext => ToolView::UrlContext,
        }
    }
}

impl DeepView for Tool {
    type V = ToolView;

    open spec fn deep_view(&self) -> ToolView {
        self@
    }
}

impl View for GenerateRequest {
    type V = GenerateRequestView;

    open spec fn view(&self) -> GenerateRequestView {
        GenerateRequestView {
            contents: self.contents.deep_view(),
            max_output_tokens: self.max_output_tokens,
            response_json_schema: json_opt(self.response_json_schema),
            response_mime_type: self.response_mime_type.deep_view(),
            system_prompt: self.system_prompt.deep_view(),
            thinking_config: self.thinking_config,
            tool_config: self.tool_config,
            tools: self.tools.deep_view(),
        }
    }
}

} // verus!
