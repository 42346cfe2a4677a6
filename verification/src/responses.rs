//! The `/v1/responses` side: the response envelope, its output items, and the stream events.
use vstd::prelude::*;

use crate::clock::{is_reading, now_unix};
use crate::gemini::FinishReason;
use crate::text::concat;

verus! {

/// The lifecycle status of a response.
#[derive(Clone, Copy, Debug, PartialEq, Eq, Structural)]
pub enum Status {
    /// Ended by a clean stop.
    Completed,
    /// Ended by a failure.
    Failed,
    /// Still being generated.
    InProgress,
    /// Ended by a bound.
    Incomplete,
}

/// The status of one output item.
#[derive(Clone, Copy, Debug, PartialEq, Eq, Structural)]
pub enum OutputStatus {
    /// The item is whole.
    Completed,
    /// The item is still growing.
    InProgress,
}

/// The part of the input tokens that came from a cache.
#[derive(Clone, Copy, Debug, PartialEq, Eq, Structural)]
pub struct InputTokenDetails {
    /// Tokens served from a cache.
    pub cached_tokens: u32,
}

/// The part of the output tokens that went into reasoning.
#[derive(Clone, Copy, Debug, PartialEq, Eq, Structural)]
pub struct OutputTokenDetails {
    /// Tokens spent on reasoning.
    pub reasoning_tokens: u32,
}

/// Token usage of a response.
#[derive(Clone, Copy, Debug, PartialEq, Eq, Structural)]
pub struct ResponseUsage {
    /// Tokens of the prompt.
    pub input_tokens: u32,
    /// Where the input tokens came from.
    pub input_tokens_details: InputTokenDetails,
    /// Tokens of the answer, the reasoning among them.
    pub output_tokens: u32,
    /// What the output tokens went into.
    pub output_tokens_details: OutputTokenDetails,
    /// All tokens.
    pub total_tokens: u32,
}

/// A function call that the model asks for.
#[derive(Debug)]
pub struct FunctionToolCall {
    /// JSON-encoded call arguments.
    pub arguments: String,
    /// Correlation id pairing call with output.
    pub call_id: String,
    /// Item id.
    pub id: String,
    /// Function name.
    pub name: String,
    /// Item status.
    pub status: OutputStatus,
}

/// An assistant message.
#[derive(Debug)]
pub struct OutputMessage {
    /// The texts of its content parts.
    pub content: Vec<String>,
    /// Item id.
    pub id: String,
    /// Item status.
    pub status: OutputStatus,
}

/// A reasoning item: the summary of what was thought, and the signature that replays it.
#[derive(Debug)]
pub struct ReasoningItem {
    /// The round-tripped thought signature.
    pub encrypted_content: String,
    /// Item id.
    pub id: String,
    /// Item status.
    pub status: OutputStatus,
    /// The text of its one summary part.
    pub summary_text: String,
}

/// One item of the output.
#[derive(Debug)]
pub enum OutputItem {
    /// A function call.
    FunctionCall(FunctionToolCall),
    /// An assistant message.
    Message(OutputMessage),
    /// A reasoning item.
    Reasoning(ReasoningItem),
}

/// The cause of a failed response.
#[derive(Debug)]
pub struct ErrorObject {
    /// Machine-readable code.
    pub code: String,
    /// Human-readable cause.
    pub message: String,
}

/// The response envelope shared across stream events.
#[derive(Debug)]
pub struct Response {
    /// Unix seconds the response ended at; none while in progress.
    pub completed_at: Option<u64>,
    /// Unix seconds the request arrived at.
    pub created_at: u64,
    /// The cause of a failure.
    pub error: Option<ErrorObject>,
    /// Response id.
    pub id: String,
    /// Why the response is incomplete.
    pub incomplete_reason: Option<String>,
    /// Model id.
    pub model: String,
    /// Object kind.
    pub object: String,
    /// Output items in order of their index.
    pub output: Vec<OutputItem>,
    /// Lifecycle status.
    pub status: Status,
    /// Token usage once observed.
    pub usage: Option<ResponseUsage>,
}

/// One event of the response stream.
#[derive(Debug)]
pub enum StreamEvent {
    /// `response.created`.
    ResponseCreated {
        /// Position in the stream.
        sequence_number: u64,
        /// The envelope.
        response: Response,
    },
    /// `response.in_progress`.
    ResponseInProgress {
        /// Position in the stream.
        sequence_number: u64,
        /// The envelope.
        response: Response,
    },
    /// `response.completed`.
    ResponseCompleted {
        /// Position in the stream.
        sequence_number: u64,
        /// The envelope.
        response: Response,
    },
    /// `response.failed`.
    ResponseFailed {
        /// Position in the stream.
        sequence_number: u64,
        /// The envelope.
        response: Response,
    },
    /// `response.incomplete`.
    ResponseIncomplete {
        /// Position in the stream.
        sequence_number: u64,
        /// The envelope.
        response: Response,
    },
    /// `response.output_item.added`.
    OutputItemAdded {
        /// Position in the stream.
        sequence_number: u64,
        /// Index of the item in the output.
        output_index: u32,
        /// The item as it stands.
        item: OutputItem,
    },
    /// `response.output_item.done`.
    OutputItemDone {
        /// Position in the stream.
        sequence_number: u64,
        /// Index of the item in the output.
        output_index: u32,
        /// The whole item.
        item: OutputItem,
    },
    /// `response.output_text.delta`.
    OutputTextDelta {
        /// Position in the stream.
        sequence_number: u64,
        /// The message that grows.
        item_id: String,
        /// Index of the message in the output.
        output_index: u32,
        /// Index of the content part in the message.
        content_index: u32,
        /// The added text.
        delta: String,
    },
    /// `response.function_call_arguments.delta`.
    FunctionCallArgumentsDelta {
        /// Position in the stream.
        sequence_number: u64,
        /// The call that grows.
        item_id: String,
        /// Index of the call in the output.
        output_index: u32,
        /// The added arguments.
        delta: String,
    },
    /// `response.function_call_arguments.done`.
    FunctionCallArgumentsDone {
        /// Position in the stream.
        sequence_number: u64,
        /// The call.
        item_id: String,
        /// Index of the call in the output.
        output_index: u32,
        /// The whole arguments.
        arguments: String,
    },
}

/// The model of a `FunctionToolCall`.
pub struct FunctionToolCallView {
    pub arguments: Seq<char>,
    pub call_id: Seq<char>,
    pub id: Seq<char>,
    pub name: Seq<char>,
    pub status: OutputStatus,
}

/// The model of an `OutputMessage`.
pub struct OutputMessageView {
    pub content: Seq<Seq<char>>,
    pub id: Seq<char>,
    pub status: OutputStatus,
}

/// The model of a `ReasoningItem`.
pub struct ReasoningItemView {
    pub encrypted_content: Seq<char>,
    pub id: Seq<char>,
    pub status: OutputStatus,
    pub summary_text: Seq<char>,
}

/// The model of an `OutputItem`.
pub enum OutputItemView {
    FunctionCall(FunctionToolCallView),
    Message(OutputMessageView),
    Reasoning(ReasoningItemView),
}

/// The model of an `ErrorObject`.
pub struct ErrorObjectView {
    pub code: Seq<char>,
    pub message: Seq<char>,
}

/// The model of a `Response`.
pub struct ResponseView {
    pub completed_at: Option<u64>,
    pub created_at: u64,
    pub error: Option<ErrorObjectView>,
    pub id: Seq<char>,
    pub incomplete_reason: Option<Seq<char>>,
    pub model: Seq<char>,
    pub object: Seq<char>,
    pub output: Seq<OutputItemView>,
    pub status: Status,
    pub usage: Option<ResponseUsage>,
}

/// The model of a `StreamEvent`.
pub enum StreamEventView {
    ResponseCreated { sequence_number: u64, response: ResponseView },
    ResponseInProgress { sequence_number: u64, response: ResponseView },
    ResponseCompleted { sequence_number: u64, response: ResponseView },
    ResponseFailed { sequence_number: u64, response: ResponseView },
    ResponseIncomplete { sequence_number: u64, response: ResponseView },
    OutputItemAdded { sequence_number: u64, output_index: u32, item: OutputItemView },
    OutputItemDone { sequence_number: u64, output_index: u32, item: OutputItemView },
    OutputTextDelta {
        sequence_number: u64,
        item_id: Seq<char>,
        output_index: u32,
        content_index: u32,
        delta: Seq<char>,
    },
    FunctionCallArgumentsDelta {
        sequence_number: u64,
        item_id: Seq<char>,
        output_index: u32,
        delta: Seq<char>,
    },
    FunctionCallArgumentsDone {
        sequence_number: u64,
        item_id: Seq<char>,
        output_index: u32,
        arguments: Seq<char>,
    },
}

impl View for FunctionToolCall {
    type V = FunctionToolCallView;

    open spec fn view(&self) -> FunctionToolCallView {
        FunctionToolCallView {
            arguments: self.arguments@,
            call_id: self.call_id@,
            id: self.id@,
            name: self.name@,
            status: self.status,
        }
    }
}

impl View for OutputMessage {
    type V = OutputMessageView;

    open spec fn view(&self) -> OutputMessageView {
        OutputMessageView {
            content: self.content.deep_view(),
            id: self.id@,
            status: self.status,
        }
    }
}

impl View for ReasoningItem {
    type V = ReasoningItemView;

    open spec fn view(&self) -> ReasoningItemView {
        ReasoningItemView {
            encrypted_content: self.encrypted_content@,
            id: self.id@,
            status: self.status,
            summary_text: self.summary_text@,
        }
    }
}

impl View for OutputItem {
    type V = OutputItemView;

    open spec fn view(&self) -> OutputItemView {
        match self {
            OutputItem::FunctionCall(call) => OutputItemView::FunctionCall(call@),
            OutputItem::Message(message) => OutputItemView::Message(message@),
            OutputItem::Reasoning(item) => OutputItemView::Reasoning(item@),
        }
    }
}

impl DeepView for OutputItem {
    type V = OutputItemView;

    open spec fn deep_view(&self) -> OutputItemView {
        self@
    }
}

impl View for ErrorObject {
    type V = ErrorObjectView;

    open spec fn view(&self) -> ErrorObjectView {
        ErrorObjectView { code: self.code@, message: self.message@ }
    }
}

impl DeepView for ErrorObject {
    type V = ErrorObjectView;

    open spec fn deep_view(&self) -> ErrorObjectView {
        self@
    }
}

impl View for Response {
    type V = ResponseView;

    open spec fn view(&self) -> ResponseView {
        ResponseView {
            completed_at: self.completed_at,
            created_at: self.created_at,
            error: self.error.deep_view(),
            id: self.id@,
            incomplete_reason: self.incomplete_reason.deep_view(),
            model: self.model@,
            object: self.object@,
            output: self.output.deep_view(),
            status: self.status,
            usage: self.usage,
        }
    }
}

impl View for StreamEvent {
    type V = StreamEventView;

    open spec fn view(&self) -> StreamEventView {
        match *self {
            StreamEvent::ResponseCreated {
                sequence_number,
                response,
            } => StreamEventView::ResponseCreated { sequence_number, response: response@ },
            StreamEvent::ResponseInProgress {
                sequence_number,
                response,
            } => StreamEventView::ResponseInProgress { sequence_number, response: response@ },
            StreamEvent::ResponseCompleted {
                sequence_number,
                response,
            } => StreamEventView::ResponseCompleted { sequence_number, response: response@ },
            StreamEvent::ResponseFailed {
                sequence_number,
                response,
            } => StreamEventView::ResponseFailed { sequence_number, response: response@ },
            StreamEvent::ResponseIncomplete {
                sequence_number,
                response,
            } => StreamEventView::ResponseIncomplete { sequence_number, response: response@ },
            StreamEvent::OutputItemAdded {
                sequence_number,
                output_index,
                item,
            } => StreamEventView::OutputItemAdded { sequence_number, output_index, item: item@ },
            StreamEvent::OutputItemDone {
                sequence_number,
                output_index,
                item,
            } => StreamEventView::OutputItemDone { sequence_number, output_index, item: item@ },
            StreamEvent::OutputTextDelta {
                sequence_number,
                item_id,
                output_index,
                content_index,
                delta,
            } => StreamEventView::OutputTextDelta {
                sequence_number,
                item_id: item_id@,
                output_index,
                content_index,
                delta: delta@,
            },
            StreamEvent::FunctionCallArgumentsDelta {
                sequence_number,
                item_id,
                output_index,
                delta,
            } => StreamEventView::FunctionCallArgumentsDelta {
                sequence_number,
                item_id: item_id@,
                output_index,
                delta: delta@,
            },
            StreamEvent::FunctionCallArgumentsDone {
                sequence_number,
                item_id,
                output_index,
                arguments,
            } => StreamEventView::FunctionCallArgumentsDone {
                sequence_number,
                item_id: item_id@,
                output_index,
                arguments: arguments@,
            },
        }
    }
}

impl DeepView for StreamEvent {
    type V = StreamEventView;

    open spec fn deep_view(&self) -> StreamEventView {
        self@
    }
}

impl StreamEventView {
    /// The position of the event in its stream.
    pub open spec fn number(self) -> u64 {
        match self {
            StreamEventView::ResponseCreated { sequence_number, .. } => sequence_number,
            StreamEventView::ResponseInProgress { sequence_number, .. } => sequence_number,
            StreamEventView::ResponseCompleted { sequence_number, .. } => sequence_number,
            StreamEventView::ResponseFailed { sequence_number, .. } => sequence_number,
            StreamEventView::ResponseIncomplete { sequence_number, .. } => sequence_number,
            StreamEventView::OutputItemAdded { sequence_number, .. } => sequence_number,
            StreamEventView::OutputItemDone { sequence_number, .. } => sequence_number,
            StreamEventView::OutputTextDelta { sequence_number, .. } => sequence_number,
            StreamEventView::FunctionCallArgumentsDelta { sequence_number, .. } => sequence_number,
            StreamEventView::FunctionCallArgumentsDone { sequence_number, .. } => sequence_number,
        }
    }

    /// Whether the event ends a stream.
    pub open spec fn is_terminal(self) -> bool {
        self is ResponseCompleted || self is ResponseFailed || self is ResponseIncomplete
    }
}

impl Clone for FunctionToolCall {
    fn clone(&self) -> (copy: Self)
        ensures
            copy@ == self@,
    {
        FunctionToolCall {
            arguments: self.arguments.clone(),
            call_id: self.call_id.clone(),
            id: self.id.clone(),
            name: self.name.clone(),
            status: self.status,
        }
    }
}

impl Clone for OutputMessage {
    fn clone(&self) -> (copy: Self)
        ensures
            copy@ == self@,
    {
        let content = clone_texts(&self.content);
        OutputMessage { content, id: self.id.clone(), status: self.status }
    }
}

impl Clone for ReasoningItem {
    fn clone(&self) -> (copy: Self)
        ensures
            copy@ == self@,
    {
        ReasoningItem {
            encrypted_content: self.encrypted_content.clone(),
            id: self.id.clone(),
            status: self.status,
            summary_text: self.summary_text.clone(),
        }
    }
}

/// A copy of a list of texts.
fn clone_texts(texts: &Vec<String>) -> (copy: Vec<String>)
    ensures
        copy.deep_view() == texts.deep_view(),
{
    let mut copy: Vec<String> = Vec::new();
    let mut i: usize = 0;
    while i < texts.len()
        invariant
            i <= texts.len(),
            copy.len() == i,
            forall|j: int| 0 <= j < i ==> (#[trigger] copy@[j])@ == texts@[j]@,
        decreases texts.len() - i,
    {
        copy.push(texts[i].clone());
        i += 1;
    }
    assert(copy.deep_view() =~= texts.deep_view());
    copy
}

/// Response identity (id, model, arrival) shared across every emitted event.
#[derive(Clone, Copy)]
pub struct RespMeta<'meta> {
    /// Unix seconds the request arrived, stamped as the response `created_at`.
    pub created: u64,
    /// The model id stamped on every event.
    pub model: &'meta str,
    /// The response id stamped on every event.
    pub response_id: &'meta str,
}

/// The model of a `RespMeta`.
pub struct RespMetaView {
    pub created: u64,
    pub model: Seq<char>,
    pub response_id: Seq<char>,
}

impl<'meta> View for RespMeta<'meta> {
    type V = RespMetaView;

    open spec fn view(&self) -> RespMetaView {
        RespMetaView {
            created: self.created,
            model: self.model@,
            response_id: self.response_id@,
        }
    }
}

/// The envelope of a response at a time: stamped as ended unless it is in progress.
pub open spec fn envelope(
    meta: RespMetaView,
    status: Status,
    output: Seq<OutputItemView>,
    usage: Option<ResponseUsage>,
    now: u64,
) -> ResponseView {
    ResponseView {
        completed_at: if status == Status::InProgress {
            None
        } else {
            Some(now)
        },
        created_at: meta.created,
        error: None,
        id: meta.response_id,
        incomplete_reason: None,
        model: meta.model,
        object: "response"@,
        output,
        status,
        usage,
    }
}

/// Build the responses `Response` envelope shared across stream events, at a given time.
pub fn make_response_at(
    meta: RespMeta<'_>,
    status: Status,
    output: Vec<OutputItem>,
    usage: Option<ResponseUsage>,
    now: u64,
) -> (response: Response)
    ensures
        response@ == envelope(meta@, status, output.deep_view(), usage, now),
{
    let completed_at = if status == Status::InProgress {
        None
    } else {
        Some(now)
    };
    Response {
        completed_at,
        created_at: meta.created,
        error: None,
        id: meta.response_id.to_owned(),
        incomplete_reason: None,
        model: meta.model.to_owned(),
        object: "response".to_owned(),
        output,
        status,
        usage,
    }
}

/// Build the responses `Response` envelope shared across stream events.
pub fn make_response(
    meta: RespMeta<'_>,
    status: Status,
    output: Vec<OutputItem>,
    usage: Option<ResponseUsage>,
) -> (response: Response)
    ensures
        exists|now: u64|
            is_reading(now) && response@ == #[trigger] envelope(
                meta@,
                status,
                output.deep_view(),
                usage,
                now,
            ),
{
    make_response_at(meta, status, output, usage, now_unix())
}

/// The name that a finish reason is shown by.
pub open spec fn reason_name(reason: FinishReason) -> Seq<char> {
    match reason {
        FinishReason::FinishReasonUnspecified => "FinishReasonUnspecified"@,
        FinishReason::Stop => "Stop"@,
        FinishReason::MaxTokens => "MaxTokens"@,
        FinishReason::Safety => "Safety"@,
        FinishReason::Recitation => "Recitation"@,
        FinishReason::Language => "Language"@,
        FinishReason::Other => "Other"@,
        FinishReason::Blocklist => "Blocklist"@,
        FinishReason::ProhibitedContent => "ProhibitedContent"@,
        FinishReason::Spii => "Spii"@,
        FinishReason::MalformedFunctionCall => "MalformedFunctionCall"@,
        FinishReason::ImageSafety => "ImageSafety"@,
        FinishReason::UnexpectedToolCall => "UnexpectedToolCall"@,
        FinishReason::TooManyToolCalls => "TooManyToolCalls"@,
    }
}

/// The cause that a terminal failure gives.
pub open spec fn failure_text(finish: Option<FinishReason>) -> Seq<char> {
    match finish {
        None => "gemini stream ended without a finish reason"@,
        Some(reason) => "gemini terminated abnormally: "@ + reason_name(reason),
    }
}

/// A response with the cause of its failure.
pub open spec fn with_cause(response: ResponseView, message: Seq<char>) -> ResponseView {
    ResponseView {
        error: Some(ErrorObjectView { code: "upstream_failure"@, message }),
        ..response
    }
}

/// The name that a finish reason is shown by.
fn finish_reason_name(reason: FinishReason) -> (name: &'static str)
    ensures
        name@ == reason_name(reason),
{
    match reason {
        FinishReason::FinishReasonUnspecified => "FinishReasonUnspecified",
        FinishReason::Stop => "Stop",
        FinishReason::MaxTokens => "MaxTokens",
        FinishReason::Safety => "Safety",
        FinishReason::Recitation => "Recitation",
        FinishReason::Language => "Language",
        FinishReason::Other => "Other",
        FinishReason::Blocklist => "Blocklist",
        FinishReason::ProhibitedContent => "ProhibitedContent",
        FinishReason::Spii => "Spii",
        FinishReason::MalformedFunctionCall => "MalformedFunctionCall",
        FinishReason::ImageSafety => "ImageSafety",
        FinishReason::UnexpectedToolCall => "UnexpectedToolCall",
        FinishReason::TooManyToolCalls => "TooManyToolCalls",
    }
}

/// A human-readable failure message for a terminal `response.failed`, derived from the gemini
/// finish reason (or the no-finish case), so codex surfaces a cause rather than an empty error.
pub fn failed_message(finish: Option<FinishReason>) -> (message: String)
    ensures
        message@ == failure_text(finish),
{
    match finish {
        None => "gemini stream ended without a finish reason".to_owned(),
        Some(reason) => concat("gemini terminated abnormally: ", finish_reason_name(reason)),
    }
}

/// Put the cause of a failure into a response.
fn set_cause(response: Response, message: String) -> (failed: Response)
    ensures
        failed@ == with_cause(response@, message@),
{
    Response {
        error: Some(ErrorObject { code: "upstream_failure".to_owned(), message }),
        ..response
    }
}

/// Wrap a failed `Response` into a `response.failed` event with a populated error cause so codex
/// never receives a failed response with an empty error.
pub fn failed_event(
    sequence_number: u64,
    response: Response,
    finish: Option<FinishReason>,
) -> (event: StreamEvent)
    ensures
        event@ == (StreamEventView::ResponseFailed {
            sequence_number,
            response: with_cause(response@, failure_text(finish)),
        }),
{
    StreamEvent::ResponseFailed {
        sequence_number,
        response: set_cause(response, failed_message(finish)),
    }
}

/// The `response.failed` of a response without output, at a time.
pub open spec fn bare_failure(
    meta: RespMetaView,
    sequence_number: u64,
    message: Seq<char>,
    now: u64,
) -> StreamEventView {
    StreamEventView::ResponseFailed {
        sequence_number,
        response: with_cause(
            envelope(meta, Status::Failed, Seq::empty(), None, now),
            message,
        ),
    }
}

/// A terminal `response.failed` at a given time, carrying the given sequence number and a populated
/// error so codex surfaces a cause.
pub fn failure_event_at(
    meta: RespMeta<'_>,
    sequence_number: u64,
    message: String,
    now: u64,
) -> (event: StreamEvent)
    ensures
        event@ == bare_failure(meta@, sequence_number, message@, now),
{
    let output: Vec<OutputItem> = Vec::new();
    assert(output.deep_view() =~= Seq::<OutputItemView>::empty());
    let response = make_response_at(meta, Status::Failed, output, None, now);
    StreamEvent::ResponseFailed { sequence_number, response: set_cause(response, message) }
}

/// The terminal lifecycle a gemini finish reason maps to.
#[derive(Clone, Copy, Debug)]
pub enum TerminalOutcome {
    /// A clean stop; emit `response.completed`.
    Completed,
    /// An abnormal termination (malformed/excess tool calls, unsupported language, unspecified
    /// non-stop); emit `response.failed`.
    Failed,
    /// A bounded stop; emit `response.incomplete` with this reason.
    Incomplete(&'static str),
}

/// The model of a `TerminalOutcome`.
pub enum TerminalOutcomeView {
    Completed,
    Failed,
    Incomplete(Seq<char>),
}

impl View for TerminalOutcome {
    type V = TerminalOutcomeView;

    open spec fn view(&self) -> TerminalOutcomeView {
        match self {
            TerminalOutcome::Completed => TerminalOutcomeView::Completed,
            TerminalOutcome::Failed => TerminalOutcomeView::Failed,
            TerminalOutcome::Incomplete(reason) => TerminalOutcomeView::Incomplete(reason@),
        }
    }
}

/// Whether a finish reason says that content was blocked.
pub open spec fn is_content_block(reason: FinishReason) -> bool {
    ||| reason is Blocklist
    ||| reason is ImageSafety
    ||| reason is ProhibitedContent
    ||| reason is Recitation
    ||| reason is Safety
    ||| reason is Spii
}

/// The lifecycle of a finish: clean for a stop (or where none is given), bounded for a length cap
/// or a content block, failed for everything else.
pub open spec fn outcome_of(finish: Option<FinishReason>) -> TerminalOutcomeView {
    match finish {
        None => TerminalOutcomeView::Completed,
        Some(reason) => if reason is Stop {
            TerminalOutcomeView::Completed
        } else if reason is MaxTokens {
            TerminalOutcomeView::Incomplete("max_output_tokens"@)
        } else if is_content_block(reason) {
            TerminalOutcomeView::Incomplete("content_filter"@)
        } else {
            TerminalOutcomeView::Failed
        },
    }
}

/// Map a gemini finish reason onto its responses terminal lifecycle.
///
/// A non-STOP finish must NEVER report `Completed`: a content block reports `content_filter`, a
/// length cap reports `max_output_tokens`, and any other abnormal stop reports `Failed`. The match
/// is exhaustive, so a new gemini variant breaks the build until it is categorized here.
pub fn finish_outcome(finish: Option<FinishReason>) -> (outcome: TerminalOutcome)
    ensures
        outcome@ == outcome_of(finish),
{
    match finish {
        None | Some(FinishReason::Stop) => TerminalOutcome::Completed,
        Some(FinishReason::MaxTokens) => TerminalOutcome::Incomplete("max_output_tokens"),
        Some(FinishReason::Blocklist)
        | Some(FinishReason::ImageSafety)
        | Some(FinishReason::ProhibitedContent)
        | Some(FinishReason::Recitation)
        | Some(FinishReason::Safety)
        | Some(FinishReason::Spii) => TerminalOutcome::Incomplete("content_filter"),
        Some(FinishReason::FinishReasonUnspecified)
        | Some(FinishReason::Language)
        | Some(FinishReason::MalformedFunctionCall)
        | Some(FinishReason::Other)
        | Some(FinishReason::TooManyToolCalls)
        | Some(FinishReason::UnexpectedToolCall) => TerminalOutcome::Failed,
    }
}

/// A finish other than a stop never counts as completed: a content block reports
/// `content_filter`, a length cap `max_output_tokens`, anything else a failure.
pub proof fn law_only_a_stop_completes(reason: FinishReason)
    ensures
        outcome_of(Some(reason)) is Completed <==> reason is Stop,
        outcome_of(Some(reason)) == TerminalOutcomeView::Incomplete("content_filter"@)
            <==> is_content_block(reason),
        outcome_of(Some(reason)) == TerminalOutcomeView::Incomplete("max_output_tokens"@)
            <==> reason is MaxTokens,
        outcome_of(Some(reason)) is Failed <==> !(reason is Stop || reason is MaxTokens
            || is_content_block(reason)),
{
    reveal_strlit("content_filter");
    reveal_strlit("max_output_tokens");
    assert("content_filter"@.len() != "max_output_tokens"@.len());
}

/// A failure always gives a cause, whatever the finish reason.
pub proof fn law_failures_have_a_cause(finish: Option<FinishReason>)
    ensures
        failure_text(finish).len() > 0,
{
    reveal_strlit("gemini stream ended without a finish reason");
    reveal_strlit("gemini terminated abnormally: ");
}

} // verus!
