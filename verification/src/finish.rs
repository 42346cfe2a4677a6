//! The end of a response stream: the open message, the queued function calls, the terminal event.
use vstd::prelude::*;

use crate::clock::{is_reading, now_unix};
use crate::ids::{is_id, new_id};
use crate::responses::{
    bare_failure, envelope, failed_event, failure_event_at, failure_text, finish_outcome,
    make_response_at, outcome_of, with_cause, FunctionToolCall, FunctionToolCallView, OutputItem,
    OutputItemView, OutputMessage, OutputMessageView, OutputStatus, RespMeta, RespMetaView,
    Response, ResponseView, Status, StreamEvent, StreamEventView, TerminalOutcome,
    TerminalOutcomeView,
};
use crate::stream::{
    after, emission, flush_reasoning, flush_step, lemma_flush_prefixed, next_index, prefixed,
    record, send, Emission, FinishObserved, MsgOpen, StreamState, StreamStateView,
};

verus! {

// ---------------------------------------------------------------------------------------------
// The open message
// ---------------------------------------------------------------------------------------------

/// The whole message of an accumulator.
pub open spec fn whole_message(s: StreamStateView) -> OutputItemView {
    OutputItemView::Message(
        OutputMessageView {
            content: seq![s.text],
            id: s.msg_id,
            status: OutputStatus::Completed,
        },
    )
}

/// Finish the open message, if there is one.
pub open spec fn close_step(e: Emission) -> Emission {
    let s = e.state;
    if s.msg_open == MsgOpen::Closed {
        e
    } else {
        let n = after(s.seq);
        let item = whole_message(s);
        Emission {
            state: StreamStateView {
                msg_open: MsgOpen::Closed,
                seq: n,
                out_items: s.out_items.push((s.msg_oi, item)),
                ..s
            },
            events: e.events.push(
                StreamEventView::OutputItemDone {
                    sequence_number: n,
                    output_index: s.msg_oi,
                    item,
                },
            ),
        }
    }
}

/// Close the open assistant message.
pub fn close_message(sender: &mut Vec<StreamEvent>, state: &mut StreamState)
    ensures
        emission(*final(state), *final(sender)) == close_step(emission(*old(state), *old(sender))),
{
    if state.msg_open == MsgOpen::Closed {
        return ;
    }
    let content: Vec<String> = vec![state.text.clone()];
    let message = OutputMessage {
        content,
        id: state.msg_id.clone(),
        status: OutputStatus::Completed,
    };
    assert(message@.content =~= seq![state.text@]);
    state.seq = state.seq.wrapping_add(1);
    let done = StreamEvent::OutputItemDone {
        sequence_number: state.seq,
        output_index: state.msg_oi,
        item: OutputItem::Message(message.clone()),
    };
    send(sender, done);
    let output_index = state.msg_oi;
    record(state, output_index, OutputItem::Message(message));
    state.msg_open = MsgOpen::Closed;
}

/// A closed message is announced once: closing again does nothing.
pub proof fn law_a_message_closes_once(e: Emission)
    ensures
        close_step(e).state.msg_open == MsgOpen::Closed,
        close_step(close_step(e)) == close_step(e),
{
}

// ---------------------------------------------------------------------------------------------
// Function calls
// ---------------------------------------------------------------------------------------------

/// The identifiers of one function call: of the item and of the call.
pub struct CallIds {
    pub item: Seq<char>,
    pub call: Seq<char>,
}

impl CallIds {
    /// Whether each identifier has the form of its kind.
    pub open spec fn valid(self) -> bool {
        is_id("fc_"@, self.item) && is_id("call_"@, self.call)
    }
}

/// Whether there is one valid pair of identifiers for each of a number of calls.
pub open spec fn valid_call_ids(ids: Seq<CallIds>, calls: nat) -> bool {
    &&& ids.len() == calls
    &&& forall|i: int| 0 <= i < ids.len() ==> (#[trigger] ids[i]).valid()
}

/// The item of a function call.
pub open spec fn call_item(name: Seq<char>, arguments: Seq<char>, ids: CallIds) -> OutputItemView {
    OutputItemView::FunctionCall(
        FunctionToolCallView {
            arguments,
            call_id: ids.call,
            id: ids.item,
            name,
            status: OutputStatus::Completed,
        },
    )
}

/// The four events of a function call, numbered from a sequence number on.
pub open spec fn call_events(
    seq: u64,
    output_index: u32,
    item: OutputItemView,
    item_id: Seq<char>,
    arguments: Seq<char>,
) -> Seq<StreamEventView> {
    let n1 = after(seq);
    let n2 = after(n1);
    let n3 = after(n2);
    let n4 = after(n3);
    seq![
        StreamEventView::OutputItemAdded { sequence_number: n1, output_index, item },
        StreamEventView::FunctionCallArgumentsDelta {
            sequence_number: n2,
            item_id,
            output_index,
            delta: arguments,
        },
        StreamEventView::FunctionCallArgumentsDone {
            sequence_number: n3,
            item_id,
            output_index,
            arguments,
        },
        StreamEventView::OutputItemDone { sequence_number: n4, output_index, item },
    ]
}

/// Emit one function call.
pub open spec fn function_call_step(
    e: Emission,
    name: Seq<char>,
    arguments: Seq<char>,
    ids: CallIds,
) -> Emission {
    let s = e.state;
    let item = call_item(name, arguments, ids);
    Emission {
        state: StreamStateView {
            seq: after(after(after(after(s.seq)))),
            out_items: s.out_items.push((s.output_index, item)),
            output_index: next_index(s.output_index),
            ..s
        },
        events: e.events + call_events(s.seq, s.output_index, item, ids.item, arguments),
    }
}

/// Emit function calls in order.
pub open spec fn function_calls_from(
    e: Emission,
    calls: Seq<(Seq<char>, Seq<char>)>,
    ids: Seq<CallIds>,
) -> Emission
    decreases calls.len(),
{
    if calls.len() == 0 {
        e
    } else {
        function_call_step(
            function_calls_from(e, calls.drop_last(), ids.drop_last()),
            calls.last().0,
            calls.last().1,
            ids.last(),
        )
    }
}

/// Emit every queued function call, and empty the queue.
pub open spec fn function_calls_step(e: Emission, ids: Seq<CallIds>) -> Emission {
    function_calls_from(
        Emission { state: StreamStateView { fcs: Seq::empty(), ..e.state }, ..e },
        e.state.fcs,
        ids,
    )
}

/// Build the four ordered SSE events one pending function call emits, bumping the sequence.
pub fn function_call_events(
    state: &mut StreamState,
    function_call: &FunctionToolCall,
    fc_id: &str,
    args: &str,
) -> (events: Vec<StreamEvent>)
    ensures
        final(state)@ == (StreamStateView {
            seq: after(after(after(after(old(state)@.seq)))),
            ..old(state)@
        }),
        events.deep_view() == call_events(
            old(state)@.seq,
            old(state)@.output_index,
            OutputItemView::FunctionCall(function_call@),
            fc_id@,
            args@,
        ),
{
    let mut events: Vec<StreamEvent> = Vec::new();
    state.seq = state.seq.wrapping_add(1);
    events.push(
        StreamEvent::OutputItemAdded {
            sequence_number: state.seq,
            output_index: state.output_index,
            item: OutputItem::FunctionCall(function_call.clone()),
        },
    );
    state.seq = state.seq.wrapping_add(1);
    events.push(
        StreamEvent::FunctionCallArgumentsDelta {
            sequence_number: state.seq,
            item_id: fc_id.to_owned(),
            output_index: state.output_index,
            delta: args.to_owned(),
        },
    );
    state.seq = state.seq.wrapping_add(1);
    events.push(
        StreamEvent::FunctionCallArgumentsDone {
            sequence_number: state.seq,
            item_id: fc_id.to_owned(),
            output_index: state.output_index,
            arguments: args.to_owned(),
        },
    );
    state.seq = state.seq.wrapping_add(1);
    events.push(
        StreamEvent::OutputItemDone {
            sequence_number: state.seq,
            output_index: state.output_index,
            item: OutputItem::FunctionCall(function_call.clone()),
        },
    );
    assert(events.deep_view() =~= call_events(
        old(state)@.seq,
        old(state)@.output_index,
        OutputItemView::FunctionCall(function_call@),
        fc_id@,
        args@,
    ));
    events
}

/// Emit the four events for one pending function call under given ids.
pub fn emit_function_call_as(
    sender: &mut Vec<StreamEvent>,
    state: &mut StreamState,
    name: String,
    args: String,
    fc_id: String,
    call_id: String,
)
    ensures
        emission(*final(state), *final(sender)) == function_call_step(
            emission(*old(state), *old(sender)),
            name@,
            args@,
            CallIds { item: fc_id@, call: call_id@ },
        ),
{
    let function_call = FunctionToolCall {
        arguments: args.clone(),
        call_id,
        id: fc_id.clone(),
        name,
        status: OutputStatus::Completed,
    };
    let mut events = function_call_events(state, &function_call, fc_id.as_str(), args.as_str());
    let ghost emitted = events.deep_view();
    let ghost before = sender.deep_view();
    sender.append(&mut events);
    assert(sender.deep_view() =~= before + emitted);
    let output_index = state.output_index;
    record(state, output_index, OutputItem::FunctionCall(function_call));
    state.output_index = state.output_index.wrapping_add(1);
}

/// Emit the four events for one pending function call.
pub fn emit_function_call(
    sender: &mut Vec<StreamEvent>,
    state: &mut StreamState,
    name: String,
    args: String,
)
    ensures
        exists|ids: CallIds|
            ids.valid() && emission(*final(state), *final(sender))
                == #[trigger] function_call_step(
                emission(*old(state), *old(sender)),
                name@,
                args@,
                ids,
            ),
{
    let fc_id = new_id("fc_");
    let call_id = new_id("call_");
    let ghost ids = CallIds { item: fc_id@, call: call_id@ };
    assert(ids.valid());
    emit_function_call_as(sender, state, name, args, fc_id, call_id);
}

/// Emit every queued function call in order.
pub fn emit_function_calls(sender: &mut Vec<StreamEvent>, state: &mut StreamState)
    ensures
        exists|ids: Seq<CallIds>|
            valid_call_ids(ids, old(state)@.fcs.len()) && emission(*final(state), *final(sender))
                == #[trigger] function_calls_step(emission(*old(state), *old(sender)), ids),
{
    let ghost before = emission(*state, *sender);
    let mut calls: Vec<(String, String)> = Vec::new();
    std::mem::swap(&mut calls, &mut state.fcs);
    let ghost queue = calls.deep_view();
    let ghost start = emission(*state, *sender);
    let ghost mut ids: Seq<CallIds> = Seq::empty();
    assert(state@.fcs =~= Seq::empty());
    let mut i: usize = 0;
    while i < calls.len()
        invariant
            i <= calls.len(),
            queue == calls.deep_view(),
            valid_call_ids(ids, i as nat),
            emission(*state, *sender) == function_calls_from(start, queue.take(i as int), ids),
        decreases calls.len() - i,
    {
        let ghost current = emission(*state, *sender);
        let name = calls[i].0.clone();
        let args = calls[i].1.clone();
        emit_function_call(sender, state, name, args);
        proof {
            let done = emission(*state, *sender);
            let call_ids = choose|call_ids: CallIds|
                call_ids.valid() && done == #[trigger] function_call_step(
                    current,
                    name@,
                    args@,
                    call_ids,
                );
            let next = ids.push(call_ids);
            assert(next.drop_last() =~= ids);
            assert(queue.take(i + 1).drop_last() =~= queue.take(i as int));
            ids = next;
        }
        i += 1;
    }
    assert(queue.take(i as int) =~= queue);
    assert(emission(*state, *sender) == function_calls_step(before, ids));
}

// ---------------------------------------------------------------------------------------------
// Output order
// ---------------------------------------------------------------------------------------------

/// A list ordered by index with one more entry in front of those with an index no smaller.
pub open spec fn inserted(
    ordered: Seq<(u32, OutputItemView)>,
    entry: (u32, OutputItemView),
) -> Seq<(u32, OutputItemView)>
    decreases ordered.len(),
{
    if ordered.len() == 0 || entry.0 <= ordered.first().0 {
        seq![entry] + ordered
    } else {
        seq![ordered.first()] + inserted(ordered.drop_first(), entry)
    }
}

/// The entries ordered by index; those of one index keep their order.
pub open spec fn index_ordered(entries: Seq<(u32, OutputItemView)>) -> Seq<(u32, OutputItemView)>
    decreases entries.len(),
{
    if entries.len() == 0 {
        Seq::empty()
    } else {
        inserted(index_ordered(entries.drop_first()), entries.first())
    }
}

/// The items of entries.
pub open spec fn items_of(entries: Seq<(u32, OutputItemView)>) -> Seq<OutputItemView> {
    Seq::new(entries.len(), |i: int| entries[i].1)
}

/// Inserting is placing behind the entries of a smaller index.
proof fn lemma_inserted_at(
    ordered: Seq<(u32, OutputItemView)>,
    entry: (u32, OutputItemView),
    at: int,
)
    requires
        0 <= at <= ordered.len(),
        forall|i: int| 0 <= i < at ==> (#[trigger] ordered[i]).0 < entry.0,
        at < ordered.len() ==> entry.0 <= ordered[at].0,
    ensures
        inserted(ordered, entry) == ordered.insert(at, entry),
    decreases ordered.len(),
{
    if ordered.len() == 0 || entry.0 <= ordered.first().0 {
        assert(at == 0) by {
            if at > 0 {
                assert(ordered[0].0 < entry.0);
            }
        }
        assert(seq![entry] + ordered =~= ordered.insert(0, entry));
    } else {
        let rest = ordered.drop_first();
        assert(at > 0);
        assert forall|i: int| 0 <= i < at - 1 implies (#[trigger] rest[i]).0 < entry.0 by {
            assert(rest[i] == ordered[i + 1]);
        }
        lemma_inserted_at(rest, entry, at - 1);
        assert(seq![ordered.first()] + rest.insert(at - 1, entry) =~= ordered.insert(at, entry));
    }
}

/// Whether entries stand in order of their index.
pub open spec fn is_ordered(entries: Seq<(u32, OutputItemView)>) -> bool {
    forall|i: int, j: int|
        0 <= i < j < entries.len() ==> (#[trigger] entries[i]).0 <= (#[trigger] entries[j]).0
}

/// Inserting into ordered entries keeps their order, and adds the one entry.
proof fn lemma_inserted(ordered: Seq<(u32, OutputItemView)>, entry: (u32, OutputItemView))
    requires
        is_ordered(ordered),
    ensures
        is_ordered(inserted(ordered, entry)),
        inserted(ordered, entry).to_multiset() == ordered.to_multiset().insert(entry),
    decreases ordered.len(),
{
    broadcast use vstd::seq_lib::group_to_multiset_ensures;

    let done = inserted(ordered, entry);
    if ordered.len() == 0 || entry.0 <= ordered.first().0 {
        assert(done =~= ordered.insert(0, entry));
        assert forall|i: int, j: int| 0 <= i < j < done.len() implies (#[trigger] done[i]).0 <= (
        #[trigger] done[j]).0 by {
            if i == 0 {
                assert(ordered[j - 1].0 >= ordered[0].0);
            }
        }
    } else {
        let first = ordered.first();
        let rest = ordered.drop_first();
        assert(is_ordered(rest)) by {
            assert forall|i: int, j: int| 0 <= i < j < rest.len() implies (
            #[trigger] rest[i]).0 <= (#[trigger] rest[j]).0 by {
                assert(rest[i] == ordered[i + 1] && rest[j] == ordered[j + 1]);
            }
        }
        lemma_inserted(rest, entry);
        let tail = inserted(rest, entry);
        assert(ordered =~= rest.insert(0, first));
        assert(done =~= tail.insert(0, first));
        assert(done.to_multiset() =~= ordered.to_multiset().insert(entry));
        assert forall|i: int, j: int| 0 <= i < j < done.len() implies (#[trigger] done[i]).0 <= (
        #[trigger] done[j]).0 by {
            if i == 0 {
                assert(done[j] == tail[j - 1]);
                assert(tail.to_multiset().contains(tail[j - 1]));
                if tail[j - 1] != entry {
                    assert(rest.to_multiset().contains(tail[j - 1]));
                    assert(rest.contains(tail[j - 1]));
                    let k = choose|k: int| 0 <= k < rest.len() && rest[k] == tail[j - 1];
                    assert(ordered[k + 1] == rest[k]);
                    assert(ordered[0].0 <= ordered[k + 1].0);
                }
            } else {
                assert(done[i] == tail[i - 1] && done[j] == tail[j - 1]);
            }
        }
    }
}

/// The output of a response is sorted by index, and holds each recorded item once.
pub proof fn law_output_is_sorted(entries: Seq<(u32, OutputItemView)>)
    ensures
        is_ordered(index_ordered(entries)),
        index_ordered(entries).to_multiset() == entries.to_multiset(),
    decreases entries.len(),
{
    broadcast use vstd::seq_lib::group_to_multiset_ensures;

    if entries.len() == 0 {
        assert(index_ordered(entries) =~= entries);
    } else {
        let rest = entries.drop_first();
        law_output_is_sorted(rest);
        lemma_inserted(index_ordered(rest), entries.first());
        assert(entries =~= rest.insert(0, entries.first()));
    }
}

/// The items of an accumulator in order of their output index.
fn order_items(entries: Vec<(u32, OutputItem)>) -> (output: Vec<OutputItem>)
    ensures
        output.deep_view() == items_of(index_ordered(entries.deep_view())),
{
    let mut rest = entries;
    let ghost all = rest.deep_view();
    let mut indices: Vec<u32> = Vec::new();
    let mut output: Vec<OutputItem> = Vec::new();
    let ghost mut ordered: Seq<(u32, OutputItemView)> = Seq::empty();
    assert(all.skip(rest.len() as int) =~= Seq::empty());
    assert(rest.deep_view() =~= all.take(rest.len() as int));
    while rest.len() > 0
        invariant
            rest.len() <= all.len(),
            rest.deep_view() == all.take(rest.len() as int),
            ordered == index_ordered(all.skip(rest.len() as int)),
            indices.len() == ordered.len(),
            output.len() == ordered.len(),
            forall|i: int| 0 <= i < ordered.len() ==> (#[trigger] ordered[i]).0 == indices@[i],
            forall|i: int|
                0 <= i < ordered.len() ==> (#[trigger] ordered[i]).1 == output@[i].deep_view(),
        decreases rest.len(),
    {
        let ghost len = rest.len() as int;
        let ghost last_view = rest.deep_view()[len - 1];
        if let Some((index, item)) = rest.pop() {
            let ghost entry = (index, item.deep_view());
            let mut at: usize = 0;
            while at < indices.len() && indices[at] < index
                invariant
                    at <= indices.len(),
                    indices.len() == ordered.len(),
                    forall|i: int|
                        0 <= i < ordered.len() ==> (#[trigger] ordered[i]).0 == indices@[i],
                    forall|i: int| 0 <= i < at ==> (#[trigger] ordered[i]).0 < index,
                decreases indices.len() - at,
            {
                at += 1;
            }
            proof {
                assert(entry == last_view);
                assert(entry == all[len - 1]);
                lemma_inserted_at(ordered, entry, at as int);
                assert(all.skip(len - 1).first() == entry);
                assert(all.skip(len - 1).drop_first() =~= all.skip(len));
                assert(rest.deep_view() =~= all.take(len - 1));
                ordered = ordered.insert(at as int, entry);
            }
            indices.insert(at, index);
            output.insert(at, item);
        }
    }
    assert(all.skip(0) =~= all);
    assert(output.deep_view() =~= items_of(ordered));
    output
}

// ---------------------------------------------------------------------------------------------
// The terminal event
// ---------------------------------------------------------------------------------------------

/// How a stream ends: failed where no finish was observed, else as the finish reason says.
pub open spec fn ending(s: StreamStateView) -> TerminalOutcomeView {
    if s.got_finish == FinishObserved::No {
        TerminalOutcomeView::Failed
    } else {
        outcome_of(s.finish)
    }
}

/// The terminal event of an accumulator for an outcome, at a time.
pub open spec fn closing_event(
    s: StreamStateView,
    meta: RespMetaView,
    outcome: TerminalOutcomeView,
    now: u64,
) -> StreamEventView {
    let sequence_number = after(s.seq);
    let output = items_of(index_ordered(s.out_items));
    match outcome {
        TerminalOutcomeView::Completed => StreamEventView::ResponseCompleted {
            sequence_number,
            response: envelope(meta, Status::Completed, output, s.usage, now),
        },
        TerminalOutcomeView::Failed => StreamEventView::ResponseFailed {
            sequence_number,
            response: with_cause(
                envelope(meta, Status::Failed, output, s.usage, now),
                failure_text(s.finish),
            ),
        },
        TerminalOutcomeView::Incomplete(reason) => StreamEventView::ResponseIncomplete {
            sequence_number,
            response: ResponseView {
                incomplete_reason: Some(reason),
                ..envelope(meta, Status::Incomplete, output, s.usage, now)
            },
        },
    }
}

/// Emit the terminal event for an outcome; the items and the usage go with it.
pub open spec fn closing_step(
    e: Emission,
    meta: RespMetaView,
    outcome: TerminalOutcomeView,
    now: u64,
) -> Emission {
    Emission {
        state: StreamStateView {
            out_items: Seq::empty(),
            usage: None,
            seq: after(e.state.seq),
            ..e.state
        },
        events: e.events.push(closing_event(e.state, meta, outcome, now)),
    }
}

/// Emit the terminal event that the finish state calls for.
pub open spec fn terminal_step(e: Emission, meta: RespMetaView, now: u64) -> Emission {
    closing_step(e, meta, ending(e.state), now)
}

/// Emit the terminal event of a stream that stalled: a failure, whatever was seen before.
pub open spec fn stall_step(e: Emission, meta: RespMetaView, now: u64) -> Emission {
    closing_step(e, meta, TerminalOutcomeView::Failed, now)
}

/// Emit the terminal lifecycle event for an outcome, at a given time.
fn emit_closing_at(
    sender: &mut Vec<StreamEvent>,
    state: &mut StreamState,
    meta: RespMeta<'_>,
    outcome: TerminalOutcome,
    now: u64,
)
    ensures
        emission(*final(state), *final(sender)) == closing_step(
            emission(*old(state), *old(sender)),
            meta@,
            outcome@,
            now,
        ),
{
    let mut tagged: Vec<(u32, OutputItem)> = Vec::new();
    std::mem::swap(&mut tagged, &mut state.out_items);
    assert(state@.out_items =~= Seq::empty());
    let out_items = order_items(tagged);
    let usage = state.usage.take();
    state.seq = state.seq.wrapping_add(1);
    let event = match outcome {
        TerminalOutcome::Completed => StreamEvent::ResponseCompleted {
            sequence_number: state.seq,
            response: make_response_at(meta, Status::Completed, out_items, usage, now),
        },
        TerminalOutcome::Failed => failed_event(
            state.seq,
            make_response_at(meta, Status::Failed, out_items, usage, now),
            state.finish,
        ),
        TerminalOutcome::Incomplete(reason) => {
            let response = make_response_at(meta, Status::Incomplete, out_items, usage, now);
            StreamEvent::ResponseIncomplete {
                sequence_number: state.seq,
                response: Response { incomplete_reason: Some(reason.to_owned()), ..response },
            }
        },
    };
    send(sender, event);
}

/// Emit the terminal lifecycle event based on finish state, at a given time.
pub fn emit_terminal_at(
    sender: &mut Vec<StreamEvent>,
    state: &mut StreamState,
    meta: RespMeta<'_>,
    now: u64,
)
    ensures
        emission(*final(state), *final(sender)) == terminal_step(
            emission(*old(state), *old(sender)),
            meta@,
            now,
        ),
{
    let outcome = if state.got_finish == FinishObserved::No {
        TerminalOutcome::Failed
    } else {
        finish_outcome(state.finish)
    };
    emit_closing_at(sender, state, meta, outcome, now);
}

/// Emit the terminal lifecycle event based on finish state.
pub fn emit_terminal(sender: &mut Vec<StreamEvent>, state: &mut StreamState, meta: RespMeta<'_>)
    ensures
        exists|now: u64|
            is_reading(now) && emission(*final(state), *final(sender)) == #[trigger] terminal_step(
                emission(*old(state), *old(sender)),
                meta@,
                now,
            ),
{
    emit_terminal_at(sender, state, meta, now_unix());
}

/// Emit `response.failed` for a stream that stalled, at a given time.
pub fn emit_stall_at(
    sender: &mut Vec<StreamEvent>,
    state: &mut StreamState,
    meta: RespMeta<'_>,
    now: u64,
)
    ensures
        emission(*final(state), *final(sender)) == stall_step(
            emission(*old(state), *old(sender)),
            meta@,
            now,
        ),
{
    emit_closing_at(sender, state, meta, TerminalOutcome::Failed, now);
}

/// Emit `response.failed` for a stream that stalled.
pub fn emit_stall(sender: &mut Vec<StreamEvent>, state: &mut StreamState, meta: RespMeta<'_>)
    ensures
        exists|now: u64|
            is_reading(now) && emission(*final(state), *final(sender)) == #[trigger] stall_step(
                emission(*old(state), *old(sender)),
                meta@,
                now,
            ),
{
    emit_stall_at(sender, state, meta, now_unix());
}

/// Emit a terminal failure with a given cause.
pub open spec fn failure_step(
    e: Emission,
    meta: RespMetaView,
    message: Seq<char>,
    now: u64,
) -> Emission {
    Emission {
        state: StreamStateView { seq: after(e.state.seq), ..e.state },
        events: e.events.push(bare_failure(meta, after(e.state.seq), message, now)),
    }
}

/// Emit `response.failed` with a given cause, at a given time.
pub fn fail_stream_at(
    sender: &mut Vec<StreamEvent>,
    state: &mut StreamState,
    meta: RespMeta<'_>,
    message: String,
    now: u64,
)
    ensures
        emission(*final(state), *final(sender)) == failure_step(
            emission(*old(state), *old(sender)),
            meta@,
            message@,
            now,
        ),
{
    state.seq = state.seq.wrapping_add(1);
    let failed = failure_event_at(meta, state.seq, message, now);
    send(sender, failed);
}

/// Emit `response.failed` with a given cause.
pub fn fail_stream(
    sender: &mut Vec<StreamEvent>,
    state: &mut StreamState,
    meta: RespMeta<'_>,
    message: String,
)
    ensures
        exists|now: u64|
            is_reading(now) && emission(*final(state), *final(sender)) == #[trigger] failure_step(
                emission(*old(state), *old(sender)),
                meta@,
                message@,
                now,
            ),
{
    fail_stream_at(sender, state, meta, message, now_unix());
}

// ---------------------------------------------------------------------------------------------
// The stages after the last chunk
// ---------------------------------------------------------------------------------------------

/// The stages after the last chunk: pending reasoning, the open message, the queued calls, the
/// terminal event.
pub open spec fn end_step(
    e: Emission,
    meta: RespMetaView,
    reasoning: Seq<char>,
    calls: Seq<CallIds>,
    now: u64,
) -> Emission {
    terminal_step(
        function_calls_step(close_step(flush_step(e, reasoning)), calls),
        meta,
        now,
    )
}

/// Whether identifiers fit the end of an accumulator.
pub open spec fn valid_end_ids(
    s: StreamStateView,
    reasoning: Seq<char>,
    calls: Seq<CallIds>,
) -> bool {
    is_id("rs_"@, reasoning) && valid_call_ids(calls, s.fcs.len())
}

/// Run the flush->close->function-call stages, then emit the terminal lifecycle event.
pub fn drive_end(sender: &mut Vec<StreamEvent>, state: &mut StreamState, meta: RespMeta<'_>)
    ensures
        exists|reasoning: Seq<char>, calls: Seq<CallIds>, now: u64|
            valid_end_ids(old(state)@, reasoning, calls) && is_reading(now) && emission(
                *final(state),
                *final(sender),
            ) == #[trigger] end_step(
                emission(*old(state), *old(sender)),
                meta@,
                reasoning,
                calls,
                now,
            ),
{
    let ghost before = emission(*state, *sender);
    flush_reasoning(sender, state);
    let ghost flushed = emission(*state, *sender);
    let ghost reasoning = choose|id: Seq<char>|
        is_id("rs_"@, id) && flushed == #[trigger] flush_step(before, id);
    close_message(sender, state);
    let ghost closed = emission(*state, *sender);
    emit_function_calls(sender, state);
    let ghost called = emission(*state, *sender);
    let ghost calls = choose|ids: Seq<CallIds>|
        valid_call_ids(ids, closed.state.fcs.len()) && called == #[trigger] function_calls_step(
            closed,
            ids,
        );
    emit_terminal(sender, state, meta);
    proof {
        let done = emission(*state, *sender);
        let now = choose|now: u64|
            is_reading(now) && done == #[trigger] terminal_step(called, meta@, now);
        assert(done == end_step(before, meta@, reasoning, calls, now));
    }
}

/// Function calls do not look at earlier events.
proof fn lemma_calls_prefixed(
    earlier: Seq<StreamEventView>,
    e: Emission,
    calls: Seq<(Seq<char>, Seq<char>)>,
    ids: Seq<CallIds>,
)
    ensures
        function_calls_from(prefixed(earlier, e), calls, ids) == prefixed(
            earlier,
            function_calls_from(e, calls, ids),
        ),
    decreases calls.len(),
{
    if calls.len() > 0 {
        lemma_calls_prefixed(earlier, e, calls.drop_last(), ids.drop_last());
        assert(function_calls_from(prefixed(earlier, e), calls, ids).events =~= prefixed(
            earlier,
            function_calls_from(e, calls, ids),
        ).events);
    }
}

/// The terminal event does not look at earlier events.
pub proof fn lemma_closing_prefixed(
    earlier: Seq<StreamEventView>,
    e: Emission,
    meta: RespMetaView,
    outcome: TerminalOutcomeView,
    now: u64,
)
    ensures
        closing_step(prefixed(earlier, e), meta, outcome, now) == prefixed(
            earlier,
            closing_step(e, meta, outcome, now),
        ),
{
    assert(closing_step(prefixed(earlier, e), meta, outcome, now).events =~= prefixed(
        earlier,
        closing_step(e, meta, outcome, now),
    ).events);
}

/// A terminal failure does not look at earlier events.
pub proof fn lemma_failure_prefixed(
    earlier: Seq<StreamEventView>,
    e: Emission,
    meta: RespMetaView,
    message: Seq<char>,
    now: u64,
)
    ensures
        failure_step(prefixed(earlier, e), meta, message, now) == prefixed(
            earlier,
            failure_step(e, meta, message, now),
        ),
{
    assert(failure_step(prefixed(earlier, e), meta, message, now).events =~= prefixed(
        earlier,
        failure_step(e, meta, message, now),
    ).events);
}

/// The stages after the last chunk do not look at earlier events.
pub proof fn lemma_end_prefixed(
    earlier: Seq<StreamEventView>,
    e: Emission,
    meta: RespMetaView,
    reasoning: Seq<char>,
    calls: Seq<CallIds>,
    now: u64,
)
    ensures
        end_step(prefixed(earlier, e), meta, reasoning, calls, now) == prefixed(
            earlier,
            end_step(e, meta, reasoning, calls, now),
        ),
{
    lemma_flush_prefixed(earlier, e, reasoning);
    let flushed = flush_step(e, reasoning);
    assert(close_step(prefixed(earlier, flushed)).events =~= prefixed(
        earlier,
        close_step(flushed),
    ).events);
    let closed = close_step(flushed);
    let emptied = Emission {
        state: StreamStateView { fcs: Seq::empty(), ..closed.state },
        ..closed
    };
    lemma_calls_prefixed(earlier, emptied, closed.state.fcs, calls);
    let called = function_calls_step(closed, calls);
    lemma_closing_prefixed(earlier, called, meta, ending(called.state), now);
}

} // verus!
