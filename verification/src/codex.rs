//! The codex side: the `/v1/responses` request as it arrives.
use serde_json::Value;
use vstd::prelude::*;

use crate::json::{json, json_as_str, json_is_object, Json};
use crate::text::same;

verus! {

/// Reasoning-effort level codex requests.
///
/// Every value codex can send maps to a level, and an unrecognized one falls to `Custom`, so no
/// effort value ever rejects the whole request.
#[derive(Clone, Copy, Debug, PartialEq, Eq, Structural)]
pub enum CodexEffort {
    /// An effort value outside the known set.
    Custom,
    /// High effort.
    High,
    /// Low effort.
    Low,
    /// Medium effort.
    Medium,
    /// Minimal effort.
    Minimal,
    /// Reasoning off.
    Off,
    /// Extra high effort.
    Xhigh,
}

/// The effort of a name; `Custom` for any but the known ones.
pub open spec fn effort_named(name: Seq<char>) -> CodexEffort {
    if name == "high"@ {
        CodexEffort::High
    } else if name == "low"@ {
        CodexEffort::Low
    } else if name == "medium"@ {
        CodexEffort::Medium
    } else if name == "minimal"@ {
        CodexEffort::Minimal
    } else if name == "none"@ {
        CodexEffort::Off
    } else if name == "xhigh"@ {
        CodexEffort::Xhigh
    } else {
        CodexEffort::Custom
    }
}

/// The effort that a JSON value asks for; `Custom` for anything but a known name.
pub open spec fn effort_in(value: Json) -> CodexEffort {
    match value {
        Json::Str(name) => effort_named(name),
        _ => CodexEffort::Custom,
    }
}

impl CodexEffort {
    /// The effort of a name; `Custom` for any but the known ones.
    pub fn from_name(name: &str) -> (effort: CodexEffort)
        ensures
            effort == effort_named(name@),
    {
        if same(name, "high") {
            CodexEffort::High
        } else if same(name, "low") {
            CodexEffort::Low
        } else if same(name, "medium") {
            CodexEffort::Medium
        } else if same(name, "minimal") {
            CodexEffort::Minimal
        } else if same(name, "none") {
            CodexEffort::Off
        } else if same(name, "xhigh") {
            CodexEffort::Xhigh
        } else {
            CodexEffort::Custom
        }
    }

    /// The effort that a JSON value asks for; `Custom` for anything but a known name.
    pub fn from_value(raw: &Value) -> (effort: CodexEffort)
        ensures
            effort == effort_in(json(*raw)),
    {
        match json_as_str(raw) {
            Some(name) => CodexEffort::from_name(name),
            None => CodexEffort::Custom,
        }
    }
}

/// Message author role.
#[derive(Clone, Copy, Debug, PartialEq, Eq, Structural)]
pub enum CodexRole {
    /// Model assistant.
    Assistant,
    /// Every non-assistant role (user, system, developer, unknown).
    Other,
}

/// Caller tool-choice control codex sends as a mode string or a forced named-function object.
#[derive(Clone, Copy, Debug, PartialEq, Eq, Structural)]
pub enum CodexToolChoice {
    /// `auto` (or unrecognized): the model chooses.
    Auto,
    /// A forced named-function object `{ type, name }`.
    Named,
    /// `none`: the model must not call tools.
    Forbidden,
    /// `required`: the model must call a tool.
    Required,
}

/// The choice that a JSON value makes: an object forces, `none` and `required` mean what they say,
/// anything else leaves it to the model.
pub open spec fn choice_in(value: Json) -> CodexToolChoice {
    match value {
        Json::Object(_) => CodexToolChoice::Named,
        Json::Str(text) => if text == "none"@ {
            CodexToolChoice::Forbidden
        } else if text == "required"@ {
            CodexToolChoice::Required
        } else {
            CodexToolChoice::Auto
        },
        _ => CodexToolChoice::Auto,
    }
}

impl CodexToolChoice {
    /// The choice that a JSON value makes: the string form, the object form, and any other shape
    /// are accepted, so no value ever rejects the request.
    pub fn from_value(raw: &Value) -> (choice: CodexToolChoice)
        ensures
            choice == choice_in(json(*raw)),
    {
        if json_is_object(raw) {
            return CodexToolChoice::Named;
        }
        match json_as_str(raw) {
            Some(text) => if same(text, "none") {
                CodexToolChoice::Forbidden
            } else if same(text, "required") {
                CodexToolChoice::Required
            } else {
                CodexToolChoice::Auto
            },
            None => CodexToolChoice::Auto,
        }
    }
}

/// Tool kind codex declares.
#[derive(Clone, Copy, Debug, PartialEq, Eq, Structural)]
pub enum CodexToolKind {
    /// A function tool.
    Function,
    /// Any other tool kind.
    Other,
}

/// Caller-requested image resolution.
#[derive(Clone, Copy, Debug, PartialEq, Eq, Structural)]
pub enum CodexImageDetail {
    /// Model-chosen resolution.
    Auto,
    /// High resolution (more tokens, higher quality).
    High,
    /// Low resolution (fewer tokens, lower quality).
    Low,
    /// Original resolution.
    Original,
    /// Any unrecognized detail value.
    Unknown,
}

/// One content part of a codex message.
#[derive(Debug)]
pub enum CodexContent {
    /// An image part: a `data:<mime>;base64,<data>` URL.
    InputImage {
        /// Caller-requested image resolution.
        detail: Option<CodexImageDetail>,
        /// The image data URL.
        image_url: String,
    },
    /// A user/system/developer text part.
    InputText {
        /// Text body.
        text: String,
    },
    /// A replayed assistant text part.
    OutputText {
        /// Text body.
        text: String,
    },
    /// Any unrecognized content kind.
    Unknown,
}

/// One structured function-call output content item.
#[derive(Debug)]
pub enum CodexOutputItem {
    /// Image output: a data/http URL.
    InputImage {
        /// The image URL.
        image_url: String,
    },
    /// Text output.
    InputText {
        /// Text body.
        text: String,
    },
    /// Any unrecognized output item kind.
    Unknown,
}

/// A prior function-call output: a plain string OR structured content items.
#[derive(Debug)]
pub enum CodexOutput {
    /// The structured content-items output form.
    Items(Vec<CodexOutputItem>),
    /// The plain-string output form.
    Text(String),
}

impl Default for CodexOutput {
    fn default() -> (output: Self)
        ensures
            output matches CodexOutput::Text(text) && text@.len() == 0,
    {
        CodexOutput::Text(String::new())
    }
}

/// One item of the codex per-turn input.
#[derive(Debug)]
pub enum CodexInput {
    /// A prior function call the model made.
    FunctionCall {
        /// JSON-encoded call arguments.
        arguments: String,
        /// Correlation id pairing call with output.
        call_id: String,
        /// Function name invoked.
        name: String,
    },
    /// The result of a prior function call.
    FunctionCallOutput {
        /// Correlation id pairing output with call.
        call_id: String,
        /// Tool output payload: a plain string OR an array of structured content items.
        output: CodexOutput,
    },
    /// A user/assistant/system/developer message.
    Message {
        /// Message content parts.
        content: Vec<CodexContent>,
        /// Author role of the message.
        role: CodexRole,
    },
    /// A replayed reasoning item carrying the thought signature.
    Reasoning {
        /// Round-tripped thought signature.
        encrypted_content: Option<String>,
    },
    /// Any unrecognized input item kind.
    Unknown,
}

/// Reasoning control block.
#[derive(Debug)]
pub struct CodexReasoning {
    /// Requested reasoning effort.
    pub effort: Option<CodexEffort>,
}

/// Codex's response-format control: a JSON-schema for structured output, or plain text.
#[derive(Debug)]
pub enum CodexTextFormat {
    /// Structured output constrained to a JSON schema.
    JsonSchema {
        /// The full JSON schema the output must conform to.
        schema: Value,
    },
    /// Plain text (or any unrecognized format).
    Text,
}

/// Codex's `text` control block carrying the response-format request.
#[derive(Debug)]
pub struct CodexText {
    /// The requested response format; absent leaves gemini's default free-form text.
    pub format: Option<CodexTextFormat>,
}

/// A tool declaration.
#[derive(Debug)]
pub struct CodexTool {
    /// Tool description.
    pub description: String,
    /// Declared tool kind.
    pub kind: CodexToolKind,
    /// Tool name.
    pub name: String,
    /// JSON-schema parameters.
    pub parameters: Option<Value>,
    /// Nested function tools for a `namespace` group; empty for a leaf tool.
    pub tools: Vec<CodexTool>,
}

/// The codex `/v1/responses` request.
#[derive(Debug)]
pub struct CodexReq {
    /// Stateless per-turn conversation input array.
    pub input: Vec<CodexInput>,
    /// System instructions for the turn.
    pub instructions: Option<String>,
    /// Caller cap on output tokens.
    pub max_output_tokens: Option<i32>,
    /// Requested model id.
    pub model: Option<String>,
    /// Reasoning-effort control.
    pub reasoning: Option<CodexReasoning>,
    /// Response-format control.
    pub text: Option<CodexText>,
    /// Caller tool-choice control.
    pub tool_choice: Option<CodexToolChoice>,
    /// Tools declared for the turn.
    pub tools: Vec<CodexTool>,
}

} // verus!
