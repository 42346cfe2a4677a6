//! The accumulator behind one response stream: gemini parts go in, `responses` events come out.
use serde_json::Value;
use vstd::prelude::*;

use crate::gemini::{Candidate, FinishReason, FunctionCall, GenerationResponse, ReplyPart};
use crate::ids::{is_id, lemma_id_exists, new_id};
use crate::json::{json, json_is_object, json_write, parsed, plain, written, Json};
use crate::responses::{
    envelope, make_response_at, OutputItem, OutputItemView, OutputMessage, OutputMessageView,
    OutputStatus, ReasoningItem, ReasoningItemView, RespMeta, RespMetaView, Response,
    ResponseUsage, Status, StreamEvent, StreamEventView,
};
use crate::usage::{map_usage, usage_of};

verus! {

/// Whether a finish reason has been observed on the stream.
#[derive(Clone, Copy, Debug, PartialEq, Eq, Structural)]
pub enum FinishObserved {
    /// No finish reason seen yet.
    No,
    /// A finish reason was observed.
    Yes,
}

/// Whether the assistant message output item is open.
#[derive(Clone, Copy, Debug, PartialEq, Eq, Structural)]
pub enum MsgOpen {
    /// No message item open.
    Closed,
    /// A message item is open.
    Open,
}

/// Whether the reasoning output item has been emitted.
#[derive(Clone, Copy, Debug, PartialEq, Eq, Structural)]
pub enum RsnEmitted {
    /// Reasoning item not yet emitted.
    No,
    /// Reasoning item already emitted.
    Yes,
}

/// Mutable accumulator threaded through the gemini stream loop.
#[derive(Debug)]
pub struct StreamState {
    /// Pending function calls (name, arguments).
    pub fcs: Vec<(String, String)>,
    /// The observed finish reason.
    pub finish: Option<FinishReason>,
    /// Whether a finish reason was observed.
    pub got_finish: FinishObserved,
    /// The open message item id.
    pub msg_id: String,
    /// The open message output index.
    pub msg_oi: u32,
    /// Whether the assistant message item is open.
    pub msg_open: MsgOpen,
    /// Completed output items in emit order.
    pub out_items: Vec<(u32, OutputItem)>,
    /// Next output index to assign.
    pub output_index: u32,
    /// Accumulated reasoning text.
    pub reasoning: String,
    /// Whether the reasoning item was emitted.
    pub rsn_emitted: RsnEmitted,
    /// Latest captured thought signature.
    pub rsn_sig: String,
    /// Monotonic SSE sequence number.
    pub seq: u64,
    /// Accumulated visible assistant text.
    pub text: String,
    /// Token usage once observed.
    pub usage: Option<ResponseUsage>,
}

/// The model of a `StreamState`.
pub struct StreamStateView {
    pub fcs: Seq<(Seq<char>, Seq<char>)>,
    pub finish: Option<FinishReason>,
    pub got_finish: FinishObserved,
    pub msg_id: Seq<char>,
    pub msg_oi: u32,
    pub msg_open: MsgOpen,
    pub out_items: Seq<(u32, OutputItemView)>,
    pub output_index: u32,
    pub reasoning: Seq<char>,
    pub rsn_emitted: RsnEmitted,
    pub rsn_sig: Seq<char>,
    pub seq: u64,
    pub text: Seq<char>,
    pub usage: Option<ResponseUsage>,
}

impl View for StreamState {
    type V = StreamStateView;

    open spec fn view(&self) -> StreamStateView {
        StreamStateView {
            fcs: self.fcs.deep_view(),
            finish: self.finish,
            got_finish: self.got_finish,
            msg_id: self.msg_id@,
            msg_oi: self.msg_oi,
            msg_open: self.msg_open,
            out_items: self.out_items.deep_view(),
            output_index: self.output_index,
            reasoning: self.reasoning@,
            rsn_emitted: self.rsn_emitted,
            rsn_sig: self.rsn_sig@,
            seq: self.seq,
            text: self.text@,
            usage: self.usage,
        }
    }
}

/// The accumulator at the start of a stream.
pub open spec fn blank_state() -> StreamStateView {
    StreamStateView {
        fcs: Seq::empty(),
        finish: None,
        got_finish: FinishObserved::No,
        msg_id: Seq::empty(),
        msg_oi: 0,
        msg_open: MsgOpen::Closed,
        out_items: Seq::empty(),
        output_index: 0,
        reasoning: Seq::empty(),
        rsn_emitted: RsnEmitted::No,
        rsn_sig: Seq::empty(),
        seq: 0,
        text: Seq::empty(),
        usage: None,
    }
}

impl StreamState {
    /// Construct a zeroed accumulator at the start of a stream.
    pub fn new() -> (state: Self)
        ensures
            state@ == blank_state(),
    {
        let state = StreamState {
            seq: 0,
            text: String::new(),
            reasoning: String::new(),
            rsn_sig: String::new(),
            out_items: Vec::new(),
            fcs: Vec::new(),
            usage: None,
            got_finish: FinishObserved::No,
            finish: None,
            output_index: 0,
            rsn_emitted: RsnEmitted::No,
            msg_open: MsgOpen::Closed,
            msg_id: String::new(),
            msg_oi: 0,
        };
        assert(state@.out_items =~= Seq::empty());
        assert(state@.fcs =~= Seq::empty());
        state
    }
}

/// An accumulator together with every event that it has emitted so far.
pub struct Emission {
    pub state: StreamStateView,
    pub events: Seq<StreamEventView>,
}

/// The model of an accumulator and the list that its events go to.
pub open spec fn emission(state: StreamState, out: Vec<StreamEvent>) -> Emission {
    Emission { state: state@, events: out.deep_view() }
}

/// The number after a sequence number.
pub open spec fn after(seq: u64) -> u64 {
    seq.wrapping_add(1)
}

/// The index after an output index.
pub open spec fn next_index(index: u32) -> u32 {
    index.wrapping_add(1)
}

// ---------------------------------------------------------------------------------------------
// Opening
// ---------------------------------------------------------------------------------------------

/// The two opening lifecycle events.
pub open spec fn open_step(e: Emission, meta: RespMetaView) -> Emission {
    let n1 = after(e.state.seq);
    let n2 = after(n1);
    let response = envelope(meta, Status::InProgress, Seq::empty(), None, 0);
    Emission {
        state: StreamStateView { seq: n2, ..e.state },
        events: e.events.push(
            StreamEventView::ResponseCreated { sequence_number: n1, response },
        ).push(StreamEventView::ResponseInProgress { sequence_number: n2, response }),
    }
}

/// An in-progress envelope without output.
fn opening_response(meta: RespMeta<'_>) -> (response: Response)
    ensures
        response@ == envelope(meta@, Status::InProgress, Seq::empty(), None, 0),
{
    let output: Vec<OutputItem> = Vec::new();
    assert(output.deep_view() =~= Seq::<OutputItemView>::empty());
    make_response_at(meta, Status::InProgress, output, None, 0)
}

/// Emit an event.
pub(crate) fn send(sender: &mut Vec<StreamEvent>, event: StreamEvent)
    ensures
        final(sender).deep_view() == old(sender).deep_view().push(event@),
{
    sender.push(event);
    assert(sender.deep_view() =~= old(sender).deep_view().push(event@));
}

/// Emit the two opening lifecycle events.
pub fn emit_open(sender: &mut Vec<StreamEvent>, state: &mut StreamState, meta: RespMeta<'_>)
    ensures
        emission(*final(state), *final(sender)) == open_step(
            emission(*old(state), *old(sender)),
            meta@,
        ),
{
    state.seq = state.seq.wrapping_add(1);
    let created = StreamEvent::ResponseCreated {
        sequence_number: state.seq,
        response: opening_response(meta),
    };
    send(sender, created);
    state.seq = state.seq.wrapping_add(1);
    let in_progress = StreamEvent::ResponseInProgress {
        sequence_number: state.seq,
        response: opening_response(meta),
    };
    send(sender, in_progress);
}

// ---------------------------------------------------------------------------------------------
// Reasoning
// ---------------------------------------------------------------------------------------------

/// Whether reasoning (text or signature) waits to be emitted.
pub open spec fn reasoning_pending(s: StreamStateView) -> bool {
    s.rsn_emitted == RsnEmitted::No && (s.reasoning.len() > 0 || s.rsn_sig.len() > 0)
}

/// The reasoning item of an accumulator.
pub open spec fn reasoning_item(s: StreamStateView, id: Seq<char>) -> OutputItemView {
    OutputItemView::Reasoning(
        ReasoningItemView {
            encrypted_content: s.rsn_sig,
            id,
            status: OutputStatus::Completed,
            summary_text: s.reasoning,
        },
    )
}

/// Emit pending reasoning as one whole item.
pub open spec fn flush_step(e: Emission, id: Seq<char>) -> Emission {
    let s = e.state;
    if !reasoning_pending(s) {
        e
    } else {
        let item = reasoning_item(s, id);
        let n1 = after(s.seq);
        let n2 = after(n1);
        let output_index = s.output_index;
        Emission {
            state: StreamStateView {
                rsn_emitted: RsnEmitted::Yes,
                seq: n2,
                out_items: s.out_items.push((output_index, item)),
                output_index: next_index(output_index),
                ..s
            },
            events: e.events.push(
                StreamEventView::OutputItemAdded { sequence_number: n1, output_index, item },
            ).push(StreamEventView::OutputItemDone { sequence_number: n2, output_index, item }),
        }
    }
}

/// Record a whole output item.
pub(crate) fn record(state: &mut StreamState, output_index: u32, item: OutputItem)
    ensures
        final(state)@ == (StreamStateView {
            out_items: old(state)@.out_items.push((output_index, item@)),
            ..old(state)@
        }),
{
    state.out_items.push((output_index, item));
    assert(state@.out_items =~= old(state)@.out_items.push((output_index, item@)));
}

/// Whether reasoning (text or signature) waits to be emitted.
fn has_pending_reasoning(state: &StreamState) -> (pending: bool)
    ensures
        pending == reasoning_pending(state@),
{
    state.rsn_emitted == RsnEmitted::No && (!state.reasoning.as_str().is_empty()
        || !state.rsn_sig.as_str().is_empty())
}

/// Emit the reasoning item under an id if pending.
pub fn flush_reasoning_as(sender: &mut Vec<StreamEvent>, state: &mut StreamState, id: String)
    ensures
        emission(*final(state), *final(sender)) == flush_step(
            emission(*old(state), *old(sender)),
            id@,
        ),
{
    if !has_pending_reasoning(state) {
        return ;
    }
    state.rsn_emitted = RsnEmitted::Yes;
    let reasoning_item = ReasoningItem {
        encrypted_content: state.rsn_sig.clone(),
        id,
        status: OutputStatus::Completed,
        summary_text: state.reasoning.clone(),
    };
    state.seq = state.seq.wrapping_add(1);
    let added = StreamEvent::OutputItemAdded {
        sequence_number: state.seq,
        output_index: state.output_index,
        item: OutputItem::Reasoning(reasoning_item.clone()),
    };
    send(sender, added);
    state.seq = state.seq.wrapping_add(1);
    let done = StreamEvent::OutputItemDone {
        sequence_number: state.seq,
        output_index: state.output_index,
        item: OutputItem::Reasoning(reasoning_item.clone()),
    };
    send(sender, done);
    let output_index = state.output_index;
    record(state, output_index, OutputItem::Reasoning(reasoning_item));
    state.output_index = state.output_index.wrapping_add(1);
}

/// Emit the reasoning item if pending.
pub fn flush_reasoning(sender: &mut Vec<StreamEvent>, state: &mut StreamState)
    ensures
        exists|id: Seq<char>|
            is_id("rs_"@, id) && emission(*final(state), *final(sender)) == #[trigger] flush_step(
                emission(*old(state), *old(sender)),
                id,
            ),
{
    if has_pending_reasoning(state) {
        flush_reasoning_as(sender, state, new_id("rs_"));
    } else {
        proof {
            let id = lemma_id_exists("rs_"@);
            assert(emission(*state, *sender) == flush_step(emission(*state, *sender), id));
        }
    }
}

// ---------------------------------------------------------------------------------------------
// Visible text
// ---------------------------------------------------------------------------------------------

/// Open a fresh assistant message item.
pub open spec fn open_message_step(e: Emission, id: Seq<char>) -> Emission {
    let s = e.state;
    let n = after(s.seq);
    let item = OutputItemView::Message(
        OutputMessageView { content: Seq::empty(), id, status: OutputStatus::InProgress },
    );
    Emission {
        state: StreamStateView {
            msg_open: MsgOpen::Open,
            msg_oi: s.output_index,
            output_index: next_index(s.output_index),
            msg_id: id,
            seq: n,
            ..s
        },
        events: e.events.push(
            StreamEventView::OutputItemAdded {
                sequence_number: n,
                output_index: s.output_index,
                item,
            },
        ),
    }
}

/// Add text to the open message.
pub open spec fn delta_step(e: Emission, delta: Seq<char>) -> Emission {
    let s = e.state;
    let n = after(s.seq);
    Emission {
        state: StreamStateView { text: s.text + delta, seq: n, ..s },
        events: e.events.push(
            StreamEventView::OutputTextDelta {
                sequence_number: n,
                item_id: s.msg_id,
                output_index: s.msg_oi,
                content_index: 0,
                delta,
            },
        ),
    }
}

/// The identifiers that one part can call for: of a reasoning item and of a message.
pub struct PartIds {
    pub reasoning: Seq<char>,
    pub message: Seq<char>,
}

impl PartIds {
    /// Whether each identifier has the form of its kind.
    pub open spec fn valid(self) -> bool {
        is_id("rs_"@, self.reasoning) && is_id("msg_"@, self.message)
    }
}

/// Emit visible text: pending reasoning first, then the message if none is open, then the text.
pub open spec fn text_step(e: Emission, text: Seq<char>, ids: PartIds) -> Emission {
    let flushed = flush_step(e, ids.reasoning);
    let opened = if flushed.state.msg_open == MsgOpen::Closed {
        open_message_step(flushed, ids.message)
    } else {
        flushed
    };
    delta_step(opened, text)
}

/// Open a fresh assistant message item under an id and emit its `output_item.added`.
pub fn open_message_as(sender: &mut Vec<StreamEvent>, state: &mut StreamState, id: String)
    ensures
        emission(*final(state), *final(sender)) == open_message_step(
            emission(*old(state), *old(sender)),
            id@,
        ),
{
    state.msg_open = MsgOpen::Open;
    state.msg_oi = state.output_index;
    state.output_index = state.output_index.wrapping_add(1);
    state.msg_id = id;
    let message = OutputMessage {
        content: Vec::new(),
        id: state.msg_id.clone(),
        status: OutputStatus::InProgress,
    };
    assert(message@.content =~= Seq::empty());
    state.seq = state.seq.wrapping_add(1);
    let added = StreamEvent::OutputItemAdded {
        sequence_number: state.seq,
        output_index: state.msg_oi,
        item: OutputItem::Message(message),
    };
    send(sender, added);
}

/// Open a fresh assistant message item and emit its `output_item.added`.
pub fn open_message(sender: &mut Vec<StreamEvent>, state: &mut StreamState)
    ensures
        exists|id: Seq<char>|
            is_id("msg_"@, id) && emission(*final(state), *final(sender))
                == #[trigger] open_message_step(emission(*old(state), *old(sender)), id),
{
    open_message_as(sender, state, new_id("msg_"));
}

/// Handle a visible (non-thought) text part.
pub fn emit_text_part(sender: &mut Vec<StreamEvent>, state: &mut StreamState, part_text: &str)
    ensures
        exists|ids: PartIds|
            ids.valid() && emission(*final(state), *final(sender)) == #[trigger] text_step(
                emission(*old(state), *old(sender)),
                part_text@,
                ids,
            ),
{
    let ghost before = emission(*state, *sender);
    flush_reasoning(sender, state);
    let ghost flushed = emission(*state, *sender);
    let ghost reasoning = choose|id: Seq<char>|
        is_id("rs_"@, id) && flushed == #[trigger] flush_step(before, id);
    let ghost message: Seq<char>;
    if state.msg_open == MsgOpen::Closed {
        open_message(sender, state);
        proof {
            let opened = emission(*state, *sender);
            message =
            choose|id: Seq<char>|
                is_id("msg_"@, id) && opened == #[trigger] open_message_step(flushed, id);
        }
    } else {
        proof {
            message = lemma_id_exists("msg_"@);
        }
    }
    state.text.append(part_text);
    state.seq = state.seq.wrapping_add(1);
    let delta = StreamEvent::OutputTextDelta {
        sequence_number: state.seq,
        item_id: state.msg_id.clone(),
        output_index: state.msg_oi,
        content_index: 0,
        delta: part_text.to_owned(),
    };
    send(sender, delta);
    proof {
        let ids = PartIds { reasoning, message };
        assert(emission(*state, *sender) == text_step(before, part_text@, ids));
    }
}

// ---------------------------------------------------------------------------------------------
// Parts of a reply
// ---------------------------------------------------------------------------------------------

/// The JSON object text of call arguments; `{}` for those that are no object or cannot be written.
pub open spec fn arguments_text(args: Json) -> Seq<char> {
    match written(args) {
        Some(text) => if args is Object {
            text
        } else {
            "{}"@
        },
        None => "{}"@,
    }
}

/// Take in the signature of a call: it starts a fresh reasoning item where one was emitted before.
pub open spec fn signed(s: StreamStateView, signature: Option<Seq<char>>) -> StreamStateView {
    match signature {
        None => s,
        Some(sig) => if s.rsn_emitted == RsnEmitted::Yes {
            StreamStateView {
                rsn_emitted: RsnEmitted::No,
                reasoning: Seq::empty(),
                rsn_sig: sig,
                ..s
            }
        } else {
            StreamStateView { rsn_sig: sig, ..s }
        },
    }
}

/// Queue a function call behind its reasoning.
pub open spec fn call_step(
    e: Emission,
    name: Seq<char>,
    args: Json,
    signature: Option<Seq<char>>,
    ids: PartIds,
) -> Emission {
    let flushed = flush_step(
        Emission { state: signed(e.state, signature), ..e },
        ids.reasoning,
    );
    Emission {
        state: StreamStateView {
            fcs: flushed.state.fcs.push((name, arguments_text(args))),
            ..flushed.state
        },
        ..flushed
    }
}

/// Take in the summary of a thought.
pub open spec fn thought_step(
    e: Emission,
    text: Seq<char>,
    signature: Option<Seq<char>>,
) -> Emission {
    Emission {
        state: StreamStateView {
            reasoning: e.state.reasoning + text,
            rsn_sig: match signature {
                Some(sig) => sig,
                None => e.state.rsn_sig,
            },
            ..e.state
        },
        ..e
    }
}

/// Take in one part of a reply.
pub open spec fn part_step(e: Emission, part: ReplyPart, ids: PartIds) -> Emission {
    match part {
        ReplyPart::Text { text, thought, thought_signature } => if thought == Some(true) {
            thought_step(e, text@, thought_signature.deep_view())
        } else if text@.len() > 0 {
            text_step(e, text@, ids)
        } else {
            e
        },
        ReplyPart::FunctionCall { function_call, thought_signature } => call_step(
            e,
            function_call.name@,
            json(function_call.args),
            thought_signature.deep_view(),
            ids,
        ),
        _ => e,
    }
}

/// Take in parts in order.
pub open spec fn parts_step(e: Emission, parts: Seq<ReplyPart>, ids: Seq<PartIds>) -> Emission
    decreases parts.len(),
{
    if parts.len() == 0 {
        e
    } else {
        part_step(parts_step(e, parts.drop_last(), ids.drop_last()), parts.last(), ids.last())
    }
}

/// The parts of a candidate.
pub open spec fn candidate_parts(candidate: Candidate) -> Seq<ReplyPart> {
    match candidate.parts {
        Some(parts) => parts@,
        None => Seq::empty(),
    }
}

/// Take in a candidate: its parts, then its finish reason.
pub open spec fn candidate_step(e: Emission, candidate: Candidate, ids: Seq<PartIds>) -> Emission {
    let done = parts_step(e, candidate_parts(candidate), ids);
    match candidate.finish_reason {
        Some(reason) => Emission {
            state: StreamStateView {
                got_finish: FinishObserved::Yes,
                finish: Some(reason),
                ..done.state
            },
            ..done
        },
        None => done,
    }
}

/// The parts of the candidate that is read of a chunk: the first one.
pub open spec fn chunk_parts(chunk: GenerationResponse) -> Seq<ReplyPart> {
    if chunk.candidates@.len() == 0 {
        Seq::empty()
    } else {
        candidate_parts(chunk.candidates@[0])
    }
}

/// Take in a chunk: its first candidate, then its token counts.
pub open spec fn chunk_step(
    e: Emission,
    chunk: GenerationResponse,
    ids: Seq<PartIds>,
) -> Emission {
    let done = if chunk.candidates@.len() == 0 {
        e
    } else {
        candidate_step(e, chunk.candidates@[0], ids)
    };
    match chunk.usage_metadata {
        Some(counts) => Emission {
            state: StreamStateView { usage: Some(usage_of(counts)), ..done.state },
            ..done
        },
        None => done,
    }
}

/// Whether there is one valid pair of identifiers for each of a number of parts.
pub open spec fn valid_ids(ids: Seq<PartIds>, parts: nat) -> bool {
    &&& ids.len() == parts
    &&& forall|i: int| 0 <= i < ids.len() ==> (#[trigger] ids[i]).valid()
}

/// Serialize gemini function-call args to a JSON object string; no object/failure -> `{}` (codex
/// needs an object). Plain arguments can be read back out of the text.
pub fn fc_args_string(args: &Value) -> (text: String)
    ensures
        text@ == arguments_text(json(*args)),
        plain(json(*args), 127) && json(*args) is Object ==> parsed(text@) == Some(json(*args)),
{
    if !json_is_object(args) {
        return "{}".to_owned();
    }
    match json_write(args) {
        Ok(text) => text,
        Err(_) => "{}".to_owned(),
    }
}

/// Whether function-call args can be written as JSON.
pub fn args_can_be_written(args: &Value) -> (ok: bool)
    ensures
        ok == written(json(*args)) is Some,
{
    match json_write(args) {
        Ok(_) => true,
        Err(_) => false,
    }
}

/// Queue a pending function call, capturing its signature. Plain arguments can be read back out of
/// the queued text.
pub fn handle_function_call(
    sender: &mut Vec<StreamEvent>,
    state: &mut StreamState,
    function_call: &FunctionCall,
    thought_signature: &Option<String>,
)
    ensures
        exists|ids: PartIds|
            ids.valid() && emission(*final(state), *final(sender)) == #[trigger] call_step(
                emission(*old(state), *old(sender)),
                function_call.name@,
                json(function_call.args),
                thought_signature.deep_view(),
                ids,
            ),
        plain(json(function_call.args), 127) && json(function_call.args) is Object ==> parsed(
            final(state)@.fcs.last().1,
        ) == Some(json(function_call.args)),
{
    let ghost before = emission(*state, *sender);
    if let Some(signature) = thought_signature {
        if state.rsn_emitted == RsnEmitted::Yes {
            state.rsn_emitted = RsnEmitted::No;
            state.reasoning = String::new();
        }
        state.rsn_sig = signature.clone();
    }
    let ghost taken = emission(*state, *sender);
    assert(taken.state == signed(before.state, thought_signature.deep_view()));
    flush_reasoning(sender, state);
    let ghost flushed = emission(*state, *sender);
    let ghost reasoning = choose|id: Seq<char>|
        is_id("rs_"@, id) && flushed == #[trigger] flush_step(taken, id);
    let arguments = fc_args_string(&function_call.args);
    state.fcs.push((function_call.name.clone(), arguments));
    proof {
        let ids = PartIds { reasoning, message: lemma_id_exists("msg_"@) };
        assert(state@.fcs =~= flushed.state.fcs.push(
            (function_call.name@, arguments_text(json(function_call.args))),
        ));
        assert(emission(*state, *sender) == call_step(
            before,
            function_call.name@,
            json(function_call.args),
            thought_signature.deep_view(),
            ids,
        ));
    }
}

/// Process one gemini part.
pub fn handle_part(sender: &mut Vec<StreamEvent>, state: &mut StreamState, part: &ReplyPart)
    ensures
        exists|ids: PartIds|
            ids.valid() && emission(*final(state), *final(sender)) == #[trigger] part_step(
                emission(*old(state), *old(sender)),
                *part,
                ids,
            ),
{
    let ghost before = emission(*state, *sender);
    let ghost spare = PartIds {
        reasoning: lemma_id_exists("rs_"@),
        message: lemma_id_exists("msg_"@),
    };
    match part {
        ReplyPart::Text { text, thought: Some(true), thought_signature } => {
            state.reasoning.append(text.as_str());
            if let Some(signature) = thought_signature {
                state.rsn_sig = signature.clone();
            }
            assert(emission(*state, *sender) == part_step(before, *part, spare));
        },
        ReplyPart::Text { text, thought, .. } => {
            if text.as_str().is_empty() {
                assert(emission(*state, *sender) == part_step(before, *part, spare));
            } else {
                emit_text_part(sender, state, text.as_str());
                proof {
                    let done = emission(*state, *sender);
                    let ids = choose|ids: PartIds|
                        ids.valid() && done == #[trigger] text_step(before, text@, ids);
                    assert(done == part_step(before, *part, ids));
                }
            }
        },
        ReplyPart::FunctionCall { function_call, thought_signature } => {
            handle_function_call(sender, state, function_call, thought_signature);
            proof {
                let done = emission(*state, *sender);
                let ids = choose|ids: PartIds|
                    ids.valid() && done == #[trigger] call_step(
                        before,
                        function_call.name@,
                        json(function_call.args),
                        thought_signature.deep_view(),
                        ids,
                    );
                assert(done == part_step(before, *part, ids));
            }
        },
        ReplyPart::InlineData
        | ReplyPart::FunctionResponse
        | ReplyPart::ToolCall
        | ReplyPart::ToolResponse
        | ReplyPart::FileData
        | ReplyPart::ExecutableCode
        | ReplyPart::CodeExecutionResult => {
            assert(emission(*state, *sender) == part_step(before, *part, spare));
        },
    }
}

/// Process parts in order.
fn handle_parts(sender: &mut Vec<StreamEvent>, state: &mut StreamState, parts: &Vec<ReplyPart>)
    ensures
        exists|ids: Seq<PartIds>|
            valid_ids(ids, parts@.len()) && emission(*final(state), *final(sender))
                == #[trigger] parts_step(emission(*old(state), *old(sender)), parts@, ids),
{
    let ghost before = emission(*state, *sender);
    let ghost mut ids: Seq<PartIds> = Seq::empty();
    let mut i: usize = 0;
    while i < parts.len()
        invariant
            i <= parts.len(),
            valid_ids(ids, i as nat),
            emission(*state, *sender) == parts_step(before, parts@.take(i as int), ids),
        decreases parts.len() - i,
    {
        let ghost current = emission(*state, *sender);
        handle_part(sender, state, &parts[i]);
        proof {
            let done = emission(*state, *sender);
            let part_ids = choose|part_ids: PartIds|
                part_ids.valid() && done == #[trigger] part_step(current, parts@[i as int], part_ids);
            let next = ids.push(part_ids);
            assert(next.drop_last() =~= ids);
            assert(parts@.take(i + 1).drop_last() =~= parts@.take(i as int));
            ids = next;
        }
        i += 1;
    }
    assert(parts@.take(i as int) =~= parts@);
}

/// Emit every part of one candidate, recording the finish reason.
pub fn handle_candidate(
    sender: &mut Vec<StreamEvent>,
    state: &mut StreamState,
    candidate: &Candidate,
)
    ensures
        exists|ids: Seq<PartIds>|
            valid_ids(ids, candidate_parts(*candidate).len()) && emission(
                *final(state),
                *final(sender),
            ) == #[trigger] candidate_step(emission(*old(state), *old(sender)), *candidate, ids),
{
    let ghost before = emission(*state, *sender);
    let ghost mut ids: Seq<PartIds> = Seq::empty();
    if let Some(parts) = &candidate.parts {
        handle_parts(sender, state, parts);
        proof {
            let done = emission(*state, *sender);
            ids =
            choose|ids: Seq<PartIds>|
                valid_ids(ids, parts@.len()) && done == #[trigger] parts_step(before, parts@, ids);
        }
    }
    if let Some(finish_reason) = candidate.finish_reason {
        state.got_finish = FinishObserved::Yes;
        state.finish = Some(finish_reason);
    }
    assert(emission(*state, *sender) == candidate_step(before, *candidate, ids));
}

/// Fold one gemini chunk into the accumulator.
pub fn consume_chunk(
    sender: &mut Vec<StreamEvent>,
    state: &mut StreamState,
    chunk: &GenerationResponse,
)
    ensures
        exists|ids: Seq<PartIds>|
            valid_ids(ids, chunk_parts(*chunk).len()) && emission(*final(state), *final(sender))
                == #[trigger] chunk_step(emission(*old(state), *old(sender)), *chunk, ids),
{
    let ghost before = emission(*state, *sender);
    let ghost mut ids: Seq<PartIds> = Seq::empty();
    if chunk.candidates.len() > 0 {
        handle_candidate(sender, state, &chunk.candidates[0]);
        proof {
            let done = emission(*state, *sender);
            ids =
            choose|ids: Seq<PartIds>|
                valid_ids(ids, candidate_parts(chunk.candidates@[0]).len()) && done
                    == #[trigger] candidate_step(before, chunk.candidates@[0], ids);
        }
    }
    if let Some(meta) = &chunk.usage_metadata {
        state.usage = Some(map_usage(meta));
    }
    assert(emission(*state, *sender) == chunk_step(before, *chunk, ids));
}

/// Reasoning goes out before the text or the call that it led to, and none is left waiting behind
/// either.
pub proof fn law_reasoning_goes_first(
    e: Emission,
    text: Seq<char>,
    name: Seq<char>,
    args: Json,
    signature: Option<Seq<char>>,
    ids: PartIds,
)
    ensures
        flush_step(e, ids.reasoning).events.is_prefix_of(text_step(e, text, ids).events),
        !reasoning_pending(text_step(e, text, ids).state),
        flush_step(
            Emission { state: signed(e.state, signature), ..e },
            ids.reasoning,
        ).events == call_step(e, name, args, signature, ids).events,
        !reasoning_pending(call_step(e, name, args, signature, ids).state),
{
}

// ---------------------------------------------------------------------------------------------
// Events already emitted
// ---------------------------------------------------------------------------------------------

/// An emission with earlier events in front of its own.
pub open spec fn prefixed(earlier: Seq<StreamEventView>, e: Emission) -> Emission {
    Emission { events: earlier + e.events, ..e }
}

/// Flushing reasoning does not look at earlier events.
pub proof fn lemma_flush_prefixed(earlier: Seq<StreamEventView>, e: Emission, id: Seq<char>)
    ensures
        flush_step(prefixed(earlier, e), id) == prefixed(earlier, flush_step(e, id)),
{
    assert(flush_step(prefixed(earlier, e), id).events =~= prefixed(
        earlier,
        flush_step(e, id),
    ).events);
}

/// Visible text does not look at earlier events.
pub proof fn lemma_text_prefixed(
    earlier: Seq<StreamEventView>,
    e: Emission,
    text: Seq<char>,
    ids: PartIds,
)
    ensures
        text_step(prefixed(earlier, e), text, ids) == prefixed(earlier, text_step(e, text, ids)),
{
    lemma_flush_prefixed(earlier, e, ids.reasoning);
    assert(text_step(prefixed(earlier, e), text, ids).events =~= prefixed(
        earlier,
        text_step(e, text, ids),
    ).events);
}

/// A part does not look at earlier events.
pub proof fn lemma_part_prefixed(
    earlier: Seq<StreamEventView>,
    e: Emission,
    part: ReplyPart,
    ids: PartIds,
)
    ensures
        part_step(prefixed(earlier, e), part, ids) == prefixed(earlier, part_step(e, part, ids)),
{
    match part {
        ReplyPart::Text { text, thought, thought_signature } => {
            lemma_text_prefixed(earlier, e, text@, ids);
        },
        ReplyPart::FunctionCall { function_call, thought_signature } => {
            let taken = Emission { state: signed(e.state, thought_signature.deep_view()), ..e };
            lemma_flush_prefixed(earlier, taken, ids.reasoning);
            assert(prefixed(earlier, taken) == Emission {
                state: signed(prefixed(earlier, e).state, thought_signature.deep_view()),
                ..prefixed(earlier, e)
            });
        },
        _ => {},
    }
}

/// Parts do not look at earlier events.
pub proof fn lemma_parts_prefixed(
    earlier: Seq<StreamEventView>,
    e: Emission,
    parts: Seq<ReplyPart>,
    ids: Seq<PartIds>,
)
    ensures
        parts_step(prefixed(earlier, e), parts, ids) == prefixed(
            earlier,
            parts_step(e, parts, ids),
        ),
    decreases parts.len(),
{
    if parts.len() > 0 {
        lemma_parts_prefixed(earlier, e, parts.drop_last(), ids.drop_last());
        lemma_part_prefixed(
            earlier,
            parts_step(e, parts.drop_last(), ids.drop_last()),
            parts.last(),
            ids.last(),
        );
    }
}

/// A chunk does not look at earlier events.
pub proof fn lemma_chunk_prefixed(
    earlier: Seq<StreamEventView>,
    e: Emission,
    chunk: GenerationResponse,
    ids: Seq<PartIds>,
)
    ensures
        chunk_step(prefixed(earlier, e), chunk, ids) == prefixed(
            earlier,
            chunk_step(e, chunk, ids),
        ),
{
    lemma_parts_prefixed(earlier, e, chunk_parts(chunk), ids);
}

} // verus!
