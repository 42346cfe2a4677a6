//! What every stream of events looks like, whatever upstream does.
use vstd::prelude::*;

use crate::finish::{
    call_events, call_item, close_step, closing_event, closing_step, end_step, ending,
    failure_step, function_call_step, function_calls_from, function_calls_step, index_ordered,
    is_ordered, items_of, law_output_is_sorted, lemma_end_prefixed, whole_message, CallIds,
};
use crate::gemini::{FinishReason, GenerationResponse, ReplyPart};
use crate::json::json;
use crate::responses::{
    bare_failure, law_failures_have_a_cause, OutputItemView, OutputStatus, RespMetaView,
    ResponseView, StreamEventView, TerminalOutcomeView,
};
use crate::session::{
    action_step, closed_step, connect_error, next_of, started, stream_error, upstream_step,
    valid_draw, ActionView, Draw, SessionPhase, SessionView, Upstream,
};
use crate::stream::{
    after, arguments_text, blank_state, chunk_parts, chunk_step, delta_step, flush_step, lemma_chunk_prefixed,
    open_message_step, open_step, part_step, parts_step, prefixed, reasoning_item, reasoning_pending, signed,
    text_step, Emission, FinishObserved, MsgOpen, PartIds, StreamStateView,
};

verus! {

// ---------------------------------------------------------------------------------------------
// Readings of a stream
// ---------------------------------------------------------------------------------------------

/// A count as a sequence number.
pub open spec fn as_number(count: nat) -> u64 {
    (count % 0x1_0000_0000_0000_0000) as u64
}

/// A count as an output index.
pub open spec fn as_index(count: nat) -> u32 {
    (count % 0x1_0000_0000) as u32
}

/// The id of an item.
pub open spec fn id_of(item: OutputItemView) -> Seq<char> {
    match item {
        OutputItemView::FunctionCall(call) => call.id,
        OutputItemView::Message(message) => message.id,
        OutputItemView::Reasoning(reasoning) => reasoning.id,
    }
}

/// The items that a stream announces as whole, with their indices, in order.
pub open spec fn done_entries(events: Seq<StreamEventView>) -> Seq<(u32, OutputItemView)>
    decreases events.len(),
{
    if events.len() == 0 {
        Seq::empty()
    } else {
        let earlier = done_entries(events.drop_last());
        match events.last() {
            StreamEventView::OutputItemDone { output_index, item, .. } => earlier.push(
                (output_index, item),
            ),
            _ => earlier,
        }
    }
}

/// The text that the deltas of a stream make up.
pub open spec fn text_of(events: Seq<StreamEventView>) -> Seq<char>
    decreases events.len(),
{
    if events.len() == 0 {
        Seq::empty()
    } else {
        let earlier = text_of(events.drop_last());
        match events.last() {
            StreamEventView::OutputTextDelta { delta, .. } => earlier + delta,
            _ => earlier,
        }
    }
}

/// How many items a stream adds.
pub open spec fn added_count(events: Seq<StreamEventView>) -> nat
    decreases events.len(),
{
    if events.len() == 0 {
        0
    } else {
        added_count(events.drop_last()) + if events.last() is OutputItemAdded {
            1nat
        } else {
            0nat
        }
    }
}

/// Whether an event adds an item of an id at an index.
pub open spec fn adds(event: StreamEventView, index: u32, id: Seq<char>) -> bool {
    match event {
        StreamEventView::OutputItemAdded { output_index, item, .. } => output_index == index
            && id_of(item) == id,
        _ => false,
    }
}

/// Whether a stream adds an item of an id at an index.
#[verifier::opaque]
pub open spec fn added(events: Seq<StreamEventView>, index: u32, id: Seq<char>) -> bool {
    exists|i: int| 0 <= i < events.len() && adds(#[trigger] events[i], index, id)
}

/// Whether an event announces a whole message.
pub open spec fn ends_message(event: StreamEventView) -> bool {
    match event {
        StreamEventView::OutputItemDone { item, .. } => item is Message,
        _ => false,
    }
}

/// Whether a stream has no terminal event.
#[verifier::opaque]
pub open spec fn unended(events: Seq<StreamEventView>) -> bool {
    forall|i: int| 0 <= i < events.len() ==> !(#[trigger] events[i]).is_terminal()
}

/// Whether a stream announces no whole message.
#[verifier::opaque]
pub open spec fn message_free(events: Seq<StreamEventView>) -> bool {
    forall|i: int| 0 <= i < events.len() ==> !ends_message(#[trigger] events[i])
}

/// Whether a response gives the cause of its failure.
pub open spec fn has_cause(response: ResponseView) -> bool {
    match response.error {
        Some(error) => error.code == "upstream_failure"@ && error.message.len() > 0,
        None => false,
    }
}

/// Whether an event adds this item at an index.
pub open spec fn adds_item(event: StreamEventView, index: u32, item: OutputItemView) -> bool {
    match event {
        StreamEventView::OutputItemAdded { output_index, item: held, .. } => output_index == index
            && held == item,
        _ => false,
    }
}

/// Whether an event says what the events just before it lead to.
///
/// A message is added empty and in progress, and grows by text that is not empty, in its first
/// part. Reasoning and function calls are added whole and end as they were added: reasoning at
/// once, a call behind its arguments, which come as one delta and once more as a whole. Whatever
/// ends is completed.
pub open spec fn follows(earlier: Seq<StreamEventView>, event: StreamEventView) -> bool {
    let n = earlier.len() as int;
    match event {
        StreamEventView::OutputItemAdded { item, .. } => match item {
            OutputItemView::Message(message) => message.content.len() == 0 && message.status
                == OutputStatus::InProgress,
            OutputItemView::Reasoning(reasoning) => reasoning.status == OutputStatus::Completed,
            OutputItemView::FunctionCall(call) => call.status == OutputStatus::Completed,
        },
        StreamEventView::OutputItemDone { output_index, item, .. } => match item {
            OutputItemView::Message(message) => message.status == OutputStatus::Completed,
            OutputItemView::Reasoning(_) => n >= 1 && adds_item(earlier[n - 1], output_index, item),
            OutputItemView::FunctionCall(call) => {
                &&& n >= 3
                &&& adds_item(earlier[n - 3], output_index, item)
                &&& earlier[n - 1] matches StreamEventView::FunctionCallArgumentsDone {
                    item_id,
                    output_index: index,
                    arguments,
                    ..
                } && item_id == call.id && index == output_index && arguments == call.arguments
            },
        },
        StreamEventView::OutputTextDelta { content_index, delta, .. } => content_index == 0
            && delta.len() > 0,
        StreamEventView::FunctionCallArgumentsDelta { item_id, output_index, delta, .. } => {
            &&& n >= 1
            &&& earlier[n - 1] matches StreamEventView::OutputItemAdded {
                output_index: index,
                item: OutputItemView::FunctionCall(call),
                ..
            } && index == output_index && call.id == item_id && call.arguments == delta
        },
        StreamEventView::FunctionCallArgumentsDone { item_id, output_index, arguments, .. } => {
            &&& n >= 1
            &&& earlier[n - 1] matches StreamEventView::FunctionCallArgumentsDelta {
                item_id: id,
                output_index: index,
                delta,
                ..
            } && id == item_id && index == output_index && delta == arguments
        },
        _ => true,
    }
}

/// Whether an event may follow a stream.
///
/// Sequence numbers count up from one. The stream opens with `created` and `in_progress`, and
/// nothing follows a terminal event. Items are added under indices that count up from zero; only
/// an added item grows or ends. The text of a whole message is the text of all deltas, and none
/// follows it. A completed or incomplete response lists the whole items in order of their index;
/// a failed one gives its cause.
pub open spec fn fits(earlier: Seq<StreamEventView>, event: StreamEventView) -> bool {
    &&& event.number() == as_number(earlier.len() + 1)
    &&& event is ResponseCreated <==> earlier.len() == 0
    &&& event is ResponseInProgress <==> earlier.len() == 1
    &&& unended(earlier)
    &&& follows(earlier, event)
    &&& match event {
        StreamEventView::OutputItemAdded { output_index, .. } => output_index == as_index(
            added_count(earlier),
        ),
        StreamEventView::OutputItemDone { output_index, item, .. } => {
            &&& added(earlier, output_index, id_of(item))
            &&& item matches OutputItemView::Message(message) ==> message.content == seq![
                text_of(earlier),
            ]
        },
        StreamEventView::OutputTextDelta { item_id, output_index, .. } => {
            &&& added(earlier, output_index, item_id)
            &&& message_free(earlier)
        },
        StreamEventView::FunctionCallArgumentsDelta { item_id, output_index, .. } => added(
            earlier,
            output_index,
            item_id,
        ),
        StreamEventView::FunctionCallArgumentsDone { item_id, output_index, .. } => added(
            earlier,
            output_index,
            item_id,
        ),
        StreamEventView::ResponseCompleted { response, .. } => response.output == items_of(
            index_ordered(done_entries(earlier)),
        ),
        StreamEventView::ResponseIncomplete { response, .. } => response.output == items_of(
            index_ordered(done_entries(earlier)),
        ),
        StreamEventView::ResponseFailed { response, .. } => has_cause(response),
        _ => true,
    }
}

/// Whether every event of a stream may follow those before it.
#[verifier::opaque]
pub open spec fn orderly(events: Seq<StreamEventView>) -> bool {
    forall|i: int| 0 <= i < events.len() ==> fits(events.take(i), #[trigger] events[i])
}

/// One more event on a stream.
pub proof fn lemma_push(events: Seq<StreamEventView>, event: StreamEventView)
    ensures
        done_entries(events.push(event)) == (match event {
            StreamEventView::OutputItemDone { output_index, item, .. } => done_entries(
                events,
            ).push((output_index, item)),
            _ => done_entries(events),
        }),
        text_of(events.push(event)) == (match event {
            StreamEventView::OutputTextDelta { delta, .. } => text_of(events) + delta,
            _ => text_of(events),
        }),
        added_count(events.push(event)) == added_count(events) + if event is OutputItemAdded {
            1nat
        } else {
            0nat
        },
        orderly(events) && fits(events, event) ==> orderly(events.push(event)),
        unended(events.push(event)) == (unended(events) && !event.is_terminal()),
        message_free(events.push(event)) == (message_free(events) && !ends_message(event)),
        forall|index: u32, id: Seq<char>|
            added(events, index, id) ==> #[trigger] added(events.push(event), index, id),
        forall|index: u32, id: Seq<char>|
            adds(event, index, id) ==> #[trigger] added(events.push(event), index, id),
{
    reveal(orderly);
    reveal(added);
    reveal(unended);
    reveal(message_free);
    let longer = events.push(event);
    assert(longer.drop_last() =~= events);
    assert(longer.last() == event);
    assert(unended(longer) == (unended(events) && !event.is_terminal())) by {
        if unended(longer) {
            assert forall|i: int| 0 <= i < events.len() implies !(
            #[trigger] events[i]).is_terminal() by {
                assert(longer[i] == events[i]);
            }
        }
    }
    assert(message_free(longer) == (message_free(events) && !ends_message(event))) by {
        if message_free(longer) {
            assert forall|i: int| 0 <= i < events.len() implies !ends_message(
                #[trigger] events[i],
            ) by {
                assert(longer[i] == events[i]);
            }
        }
    }
    if orderly(events) && fits(events, event) {
        assert forall|i: int| 0 <= i < longer.len() implies fits(
            longer.take(i),
            #[trigger] longer[i],
        ) by {
            if i < events.len() {
                assert(longer.take(i) =~= events.take(i));
                assert(fits(events.take(i), events[i]));
            } else {
                assert(longer.take(i) =~= events);
            }
        }
    }
    assert forall|index: u32, id: Seq<char>| added(events, index, id) implies #[trigger] added(
        longer,
        index,
        id,
    ) by {
        let i = choose|i: int| 0 <= i < events.len() && adds(#[trigger] events[i], index, id);
        assert(adds(longer[i], index, id));
    }
    assert forall|index: u32, id: Seq<char>| adds(event, index, id) implies #[trigger] added(
        longer,
        index,
        id,
    ) by {
        assert(adds(longer[events.len() as int], index, id));
    }
}

/// A prefix of an orderly stream is orderly.
proof fn lemma_orderly_prefix(events: Seq<StreamEventView>, len: int)
    requires
        orderly(events),
        0 <= len <= events.len(),
    ensures
        orderly(events.take(len)),
{
    reveal(orderly);
    let prefix = events.take(len);
    assert forall|i: int| 0 <= i < prefix.len() implies fits(
        prefix.take(i),
        #[trigger] prefix[i],
    ) by {
        assert(prefix.take(i) =~= events.take(i));
        assert(fits(events.take(i), events[i]));
    }
}

// ---------------------------------------------------------------------------------------------
// The accumulator while its stream is live
// ---------------------------------------------------------------------------------------------

/// Whether an accumulator agrees with a stream that has opened and not ended.
pub open spec fn in_step(e: Emission) -> bool {
    &&& orderly(e.events)
    &&& e.events.len() >= 2
    &&& unended(e.events)
    &&& e.state.seq == as_number(e.events.len())
    &&& e.state.output_index == as_index(added_count(e.events))
    &&& e.state.out_items == done_entries(e.events)
    &&& e.state.text == text_of(e.events)
    &&& e.state.msg_open == MsgOpen::Open ==> added(
        e.events,
        e.state.msg_oi,
        e.state.msg_id,
    )
}

/// Whether moreover no message has ended.
pub open spec fn live(e: Emission) -> bool {
    &&& in_step(e)
    &&& message_free(e.events)
}

/// Opening a stream puts the accumulator in step with it.
proof fn lemma_open_live(meta: RespMetaView)
    ensures
        live(open_step(Emission { state: blank_state(), events: Seq::empty() }, meta)),
{
    let none = Seq::<StreamEventView>::empty();
    let opened = open_step(Emission { state: blank_state(), events: none }, meta);
    reveal(orderly);
    reveal(unended);
    reveal(message_free);
    assert(orderly(none) && unended(none) && message_free(none));
    lemma_push(none, opened.events[0]);
    let one = none.push(opened.events[0]);
    lemma_push(one, opened.events[1]);
    assert(opened.events =~= one.push(opened.events[1]));
}

/// Flushing reasoning keeps the accumulator in step.
pub proof fn lemma_flush_live(e: Emission, id: Seq<char>)
    requires
        in_step(e),
    ensures
        in_step(flush_step(e, id)),
        live(e) ==> live(flush_step(e, id)),
{
    if reasoning_pending(e.state) {
        let flushed = flush_step(e, id);
        let n = e.events.len() as int;
        lemma_push(e.events, flushed.events[n]);
        let one = e.events.push(flushed.events[n]);
        assert(adds(flushed.events[n], e.state.output_index, id));
        lemma_push(one, flushed.events[n + 1]);
        assert(flushed.events =~= one.push(flushed.events[n + 1]));
    }
}

/// Visible text keeps the accumulator in step.
proof fn lemma_text_live(e: Emission, text: Seq<char>, ids: PartIds)
    requires
        live(e),
        text.len() > 0,
    ensures
        live(text_step(e, text, ids)),
{
    lemma_flush_live(e, ids.reasoning);
    let flushed = flush_step(e, ids.reasoning);
    let opened = if flushed.state.msg_open == MsgOpen::Closed {
        open_message_step(flushed, ids.message)
    } else {
        flushed
    };
    if flushed.state.msg_open == MsgOpen::Closed {
        let event = opened.events.last();
        lemma_push(flushed.events, event);
        assert(adds(event, flushed.state.output_index, ids.message));
        assert(live(opened));
    }
    let done = delta_step(opened, text);
    lemma_push(opened.events, done.events.last());
}

/// A part keeps the accumulator in step.
proof fn lemma_part_live(e: Emission, part: ReplyPart, ids: PartIds)
    requires
        live(e),
    ensures
        live(part_step(e, part, ids)),
{
    match part {
        ReplyPart::Text { text, thought, thought_signature } => {
            if text@.len() > 0 {
                lemma_text_live(e, text@, ids);
            }
        },
        ReplyPart::FunctionCall { function_call, thought_signature } => {
            let taken = Emission { state: signed(e.state, thought_signature.deep_view()), ..e };
            assert(live(taken));
            lemma_flush_live(taken, ids.reasoning);
        },
        _ => {},
    }
}

/// Parts keep the accumulator in step.
proof fn lemma_parts_live(e: Emission, parts: Seq<ReplyPart>, ids: Seq<PartIds>)
    requires
        live(e),
    ensures
        live(parts_step(e, parts, ids)),
    decreases parts.len(),
{
    if parts.len() > 0 {
        lemma_parts_live(e, parts.drop_last(), ids.drop_last());
        lemma_part_live(
            parts_step(e, parts.drop_last(), ids.drop_last()),
            parts.last(),
            ids.last(),
        );
    }
}

/// A chunk keeps the accumulator in step.
proof fn lemma_chunk_live(e: Emission, chunk: GenerationResponse, ids: Seq<PartIds>)
    requires
        live(e),
    ensures
        live(chunk_step(e, chunk, ids)),
{
    lemma_parts_live(e, chunk_parts(chunk), ids);
}

/// A function call keeps the accumulator in step.
proof fn lemma_call_in_step(e: Emission, name: Seq<char>, arguments: Seq<char>, ids: CallIds)
    requires
        in_step(e),
    ensures
        in_step(function_call_step(e, name, arguments, ids)),
{
    let index = e.state.output_index;
    let item = call_item(name, arguments, ids);
    let four = call_events(e.state.seq, index, item, ids.item, arguments);
    let one = e.events.push(four[0]);
    let two = one.push(four[1]);
    let three = two.push(four[2]);
    lemma_push(e.events, four[0]);
    assert(adds(four[0], index, ids.item));
    assert(added(one, index, ids.item));
    lemma_push(one, four[1]);
    assert(orderly(two));
    lemma_push(two, four[2]);
    assert(orderly(three));
    lemma_push(three, four[3]);
    assert(orderly(three.push(four[3])));
    assert(function_call_step(e, name, arguments, ids).events =~= three.push(four[3]));
}

/// Function calls keep the accumulator in step.
proof fn lemma_calls_in_step(
    e: Emission,
    calls: Seq<(Seq<char>, Seq<char>)>,
    ids: Seq<CallIds>,
)
    requires
        in_step(e),
    ensures
        in_step(function_calls_from(e, calls, ids)),
    decreases calls.len(),
{
    if calls.len() > 0 {
        lemma_calls_in_step(e, calls.drop_last(), ids.drop_last());
        lemma_call_in_step(
            function_calls_from(e, calls.drop_last(), ids.drop_last()),
            calls.last().0,
            calls.last().1,
            ids.last(),
        );
    }
}

/// The end of a stream is orderly, and its last event terminal.
proof fn lemma_closing_orderly(
    e: Emission,
    meta: RespMetaView,
    outcome: TerminalOutcomeView,
    now: u64,
)
    requires
        in_step(e),
    ensures
        orderly(closing_step(e, meta, outcome, now).events),
        closing_step(e, meta, outcome, now).events.last().is_terminal(),
        closing_step(e, meta, outcome, now).events.len() == e.events.len() + 1,
{
    law_failures_have_a_cause(e.state.finish);
    lemma_push(e.events, closing_event(e.state, meta, outcome, now));
}

/// A failure ends a stream in order.
proof fn lemma_failure_orderly(e: Emission, meta: RespMetaView, message: Seq<char>, now: u64)
    requires
        in_step(e),
        message.len() > 0,
    ensures
        orderly(failure_step(e, meta, message, now).events),
        failure_step(e, meta, message, now).events.last().is_terminal(),
        failure_step(e, meta, message, now).events.len() == e.events.len() + 1,
{
    lemma_push(e.events, bare_failure(meta, after(e.state.seq), message, now));
}

/// The stages after the last chunk end a stream in order.
proof fn lemma_end_orderly(
    e: Emission,
    meta: RespMetaView,
    reasoning: Seq<char>,
    calls: Seq<CallIds>,
    now: u64,
)
    requires
        live(e),
    ensures
        orderly(end_step(e, meta, reasoning, calls, now).events),
        end_step(e, meta, reasoning, calls, now).events.last().is_terminal(),
        end_step(e, meta, reasoning, calls, now).events.len() >= 3,
{
    lemma_flush_live(e, reasoning);
    let flushed = flush_step(e, reasoning);
    let closed = close_step(flushed);
    if flushed.state.msg_open == MsgOpen::Open {
        lemma_push(flushed.events, closed.events.last());
    }
    assert(in_step(closed));
    let emptied = Emission {
        state: StreamStateView { fcs: Seq::empty(), ..closed.state },
        ..closed
    };
    assert(in_step(emptied));
    lemma_calls_in_step(emptied, closed.state.fcs, calls);
    let called = function_calls_step(closed, calls);
    lemma_closing_orderly(called, meta, ending(called.state), now);
}

// ---------------------------------------------------------------------------------------------
// Every session
// ---------------------------------------------------------------------------------------------

/// One turn of a session: it is asked what to do, told what upstream did, or told that its
/// receiver went away.
pub enum Turn {
    Asked,
    Closed,
    Told(Upstream, Draw),
}

/// A session after a turn.
pub open spec fn turn_step(session: SessionView, turn: Turn) -> SessionView {
    match turn {
        Turn::Asked => action_step(session),
        Turn::Closed => closed_step(session),
        Turn::Told(event, draw) => upstream_step(session, event, draw),
    }
}

/// A session from its start through turns.
pub open spec fn run(meta: RespMetaView, turns: Seq<Turn>) -> SessionView
    decreases turns.len(),
{
    if turns.len() == 0 {
        started(meta)
    } else {
        turn_step(run(meta, turns.drop_last()), turns.last())
    }
}

/// What holds of a session at all times.
pub open spec fn sound(session: SessionView) -> bool {
    &&& session.sent <= session.log.len()
    &&& orderly(session.log)
    &&& match session.phase {
        SessionPhase::Connecting | SessionPhase::Streaming => live(session.emitted()),
        SessionPhase::Finished => session.log.len() >= 3 && session.log.last().is_terminal(),
        SessionPhase::Closed => true,
    }
}

/// A turn keeps a session sound.
proof fn lemma_turn_sound(session: SessionView, turn: Turn)
    requires
        sound(session),
    ensures
        sound(turn_step(session, turn)),
{
    let e = session.emitted();
    match turn {
        Turn::Asked => {},
        Turn::Closed => {
            lemma_orderly_prefix(session.log, session.sent as int);
        },
        Turn::Told(event, draw) => {
            reveal_strlit("gemini connect error: ");
            reveal_strlit("gemini connect timeout 60s");
            reveal_strlit("gemini stream error: ");
            match session.phase {
                SessionPhase::Connecting => match event {
                    Upstream::ConnectFailed(error) => {
                        lemma_failure_orderly(e, session.meta, connect_error(error@), draw.now);
                    },
                    Upstream::ConnectTimedOut => {
                        lemma_failure_orderly(
                            e,
                            session.meta,
                            "gemini connect timeout 60s"@,
                            draw.now,
                        );
                    },
                    _ => {},
                },
                SessionPhase::Streaming => match event {
                    Upstream::Chunk(chunk) => {
                        lemma_chunk_live(e, chunk, draw.parts);
                        lemma_chunk_extends(e, chunk, draw.parts);
                    },
                    Upstream::Ended => {
                        lemma_end_orderly(
                            e,
                            session.meta,
                            draw.reasoning,
                            draw.calls,
                            draw.now,
                        );
                        lemma_end_extends(e, session.meta, draw.reasoning, draw.calls, draw.now);
                    },
                    Upstream::Errored(error) => {
                        lemma_failure_orderly(e, session.meta, stream_error(error@), draw.now);
                    },
                    Upstream::Stalled => {
                        lemma_closing_orderly(
                            e,
                            session.meta,
                            TerminalOutcomeView::Failed,
                            draw.now,
                        );
                    },
                    _ => {},
                },
                _ => {},
            }
        },
    }
}

/// A chunk only adds events.
pub proof fn lemma_chunk_extends(e: Emission, chunk: GenerationResponse, ids: Seq<PartIds>)
    ensures
        e.events.is_prefix_of(chunk_step(e, chunk, ids).events),
{
    let alone = Emission { events: Seq::empty(), ..e };
    assert(prefixed(e.events, alone).events =~= e.events);
    lemma_chunk_prefixed(e.events, alone, chunk, ids);
}

/// The stages after the last chunk only add events.
pub proof fn lemma_end_extends(
    e: Emission,
    meta: RespMetaView,
    reasoning: Seq<char>,
    calls: Seq<CallIds>,
    now: u64,
)
    ensures
        e.events.is_prefix_of(end_step(e, meta, reasoning, calls, now).events),
{
    let alone = Emission { events: Seq::empty(), ..e };
    assert(prefixed(e.events, alone).events =~= e.events);
    lemma_end_prefixed(e.events, alone, meta, reasoning, calls, now);
}

/// Every session is sound.
pub proof fn lemma_run_sound(meta: RespMetaView, turns: Seq<Turn>)
    ensures
        sound(run(meta, turns)),
    decreases turns.len(),
{
    if turns.len() == 0 {
        lemma_open_live(meta);
    } else {
        lemma_run_sound(meta, turns.drop_last());
        lemma_turn_sound(run(meta, turns.drop_last()), turns.last());
    }
}

/// The events of every session keep to the protocol, whatever happens to it; a session that
/// finished has emitted its terminal event, one that runs has not.
pub proof fn law_every_stream_is_orderly(meta: RespMetaView, turns: Seq<Turn>)
    ensures
        orderly(run(meta, turns).log),
        run(meta, turns).phase == SessionPhase::Finished ==> run(meta, turns).log.len() > 0
            && run(meta, turns).log.last().is_terminal(),
        run(meta, turns).phase == SessionPhase::Connecting || run(meta, turns).phase
            == SessionPhase::Streaming ==> unended(run(meta, turns).log),
{
    lemma_run_sound(meta, turns);
}

/// Sequence numbers count up from one, without a gap.
pub proof fn law_sequence_numbers_count_up(meta: RespMetaView, turns: Seq<Turn>, i: int)
    requires
        0 <= i < run(meta, turns).log.len(),
    ensures
        run(meta, turns).log[i].number() == as_number((i + 1) as nat),
{
    lemma_run_sound(meta, turns);
    reveal(orderly);
    let log = run(meta, turns).log;
    assert(fits(log.take(i), log[i]));
}

/// A terminal event is the last one, so there is at most one; a stream opens with
/// `response.created` and `response.in_progress`, and with these alone.
pub proof fn law_one_terminal_event(meta: RespMetaView, turns: Seq<Turn>, i: int)
    requires
        0 <= i < run(meta, turns).log.len(),
    ensures
        run(meta, turns).log[i].is_terminal() ==> i == run(meta, turns).log.len() - 1,
        run(meta, turns).log[i] is ResponseCreated <==> i == 0,
        run(meta, turns).log[i] is ResponseInProgress <==> i == 1,
{
    lemma_run_sound(meta, turns);
    reveal(orderly);
    reveal(unended);
    let log = run(meta, turns).log;
    assert(fits(log.take(i), log[i]));
    let last = log.len() - 1;
    assert(fits(log.take(last), log[last]));
    if i < last {
        assert(log.take(last)[i] == log[i]);
    }
}

/// Items are added under indices that count up from zero, and only an item that was added under
/// its index and id is announced as whole.
pub proof fn law_items_are_added_in_order(meta: RespMetaView, turns: Seq<Turn>, i: int)
    requires
        0 <= i < run(meta, turns).log.len(),
    ensures
        run(meta, turns).log[i] matches StreamEventView::OutputItemAdded { output_index, .. }
            ==> output_index == as_index(added_count(run(meta, turns).log.take(i))),
        run(meta, turns).log[i] matches StreamEventView::OutputItemDone { output_index, item, .. }
            ==> added(run(meta, turns).log.take(i), output_index, id_of(item)),
{
    lemma_run_sound(meta, turns);
    reveal(orderly);
    let log = run(meta, turns).log;
    assert(fits(log.take(i), log[i]));
}

/// What an event says follows from the events just before it: a message is added empty, reasoning
/// and calls end as they were added, and the arguments of a call are those of its item.
pub proof fn law_events_follow_on(meta: RespMetaView, turns: Seq<Turn>, i: int)
    requires
        0 <= i < run(meta, turns).log.len(),
    ensures
        follows(run(meta, turns).log.take(i), run(meta, turns).log[i]),
{
    lemma_run_sound(meta, turns);
    reveal(orderly);
    let log = run(meta, turns).log;
    assert(fits(log.take(i), log[i]));
}

/// A completed or incomplete response lists the items that the stream announced as whole, in order
/// of their index.
pub proof fn law_output_lists_the_whole_items(meta: RespMetaView, turns: Seq<Turn>, i: int)
    requires
        0 <= i < run(meta, turns).log.len(),
    ensures
        run(meta, turns).log[i] matches StreamEventView::ResponseCompleted { response, .. }
            ==> response.output == items_of(
            index_ordered(done_entries(run(meta, turns).log.take(i))),
        ),
        run(meta, turns).log[i] matches StreamEventView::ResponseIncomplete { response, .. }
            ==> response.output == items_of(
            index_ordered(done_entries(run(meta, turns).log.take(i))),
        ),
{
    lemma_run_sound(meta, turns);
    reveal(orderly);
    let log = run(meta, turns).log;
    assert(fits(log.take(i), log[i]));
}

/// The text of a whole message is the text of all deltas of its stream.
pub proof fn law_a_message_is_its_deltas(
    meta: RespMetaView,
    turns: Seq<Turn>,
    i: int,
    number: u64,
    index: u32,
    item: OutputItemView,
)
    requires
        0 <= i < run(meta, turns).log.len(),
        run(meta, turns).log[i] == (StreamEventView::OutputItemDone {
            sequence_number: number,
            output_index: index,
            item,
        }),
        item is Message,
    ensures
        item->Message_0.content == seq![text_of(run(meta, turns).log)],
{
    lemma_run_sound(meta, turns);
    reveal(orderly);
    let log = run(meta, turns).log;
    assert(fits(log.take(i), log[i]));
    lemma_no_text_behind(log, i, log.len() as int);
    assert(log.take(log.len() as int) =~= log);
}

/// Behind a whole message the text of a stream does not grow.
proof fn lemma_no_text_behind(events: Seq<StreamEventView>, i: int, len: int)
    requires
        orderly(events),
        0 <= i < len <= events.len(),
        ends_message(events[i]),
    ensures
        text_of(events.take(len)) == text_of(events.take(i)),
    decreases len,
{
    let last = len - 1;
    assert(events.take(len) =~= events.take(last).push(events[last]));
    lemma_push(events.take(last), events[last]);
    if i < last {
        lemma_no_text_behind(events, i, last);
        assert(!(events[last] is OutputTextDelta)) by {
            reveal(orderly);
            reveal(message_free);
            assert(fits(events.take(last), events[last]));
            assert(events.take(last)[i] == events[i]);
        }
    }
}

/// A failed response always gives its cause.
pub proof fn law_no_failure_without_a_cause(meta: RespMetaView, turns: Seq<Turn>, i: int)
    requires
        0 <= i < run(meta, turns).log.len(),
    ensures
        run(meta, turns).log[i] matches StreamEventView::ResponseFailed { response, .. }
            ==> has_cause(response),
{
    lemma_run_sound(meta, turns);
    reveal(orderly);
    let log = run(meta, turns).log;
    assert(fits(log.take(i), log[i]));
}

/// What was handed out is not taken back: a turn leaves those events, and their order, as they
/// are.
pub proof fn law_sent_events_stay(session: SessionView, turn: Turn)
    requires
        session.sent <= session.log.len(),
    ensures
        session.sent <= turn_step(session, turn).sent <= turn_step(session, turn).log.len(),
        turn_step(session, turn).log.take(session.sent as int) == session.log.take(
            session.sent as int,
        ),
{
    if let Turn::Told(event, draw) = turn {
        if session.phase == SessionPhase::Streaming {
            let e = session.emitted();
            match event {
                Upstream::Chunk(chunk) => {
                    lemma_chunk_extends(e, chunk, draw.parts);
                },
                Upstream::Ended => {
                    lemma_end_extends(e, session.meta, draw.reasoning, draw.calls, draw.now);
                },
                _ => {},
            }
        }
    }
    assert(turn_step(session, turn).log.take(session.sent as int) =~= session.log.take(
        session.sent as int,
    ));
}

/// A session that finished, or whose receiver went away, is not moved by anything upstream does.
pub proof fn law_an_ended_session_stays(session: SessionView, event: Upstream, draw: Draw)
    requires
        session.phase == SessionPhase::Finished || session.phase == SessionPhase::Closed,
    ensures
        upstream_step(session, event, draw) == session,
{
}

/// Once the receiver went away nothing more is sent or read.
pub proof fn law_a_closed_session_stops(session: SessionView)
    requires
        session.sent <= session.log.len(),
    ensures
        next_of(closed_step(session)) == ActionView::Stop,
{
}

/// A stream that cannot be opened, breaks off or stalls ends in `response.failed`.
pub proof fn law_upstream_faults_fail(session: SessionView, event: Upstream, draw: Draw)
    requires
        session.phase == SessionPhase::Connecting && (event is ConnectFailed
            || event is ConnectTimedOut) || session.phase == SessionPhase::Streaming && (
        event is Errored || event is Stalled),
    ensures
        upstream_step(session, event, draw).phase == SessionPhase::Finished,
        upstream_step(session, event, draw).log.len() == session.log.len() + 1,
        upstream_step(session, event, draw).log.last() is ResponseFailed,
{
}

// ---------------------------------------------------------------------------------------------
// Completion
// ---------------------------------------------------------------------------------------------

/// Whether two accumulators agree on the finish.
spec fn same_finish(a: StreamStateView, b: StreamStateView) -> bool {
    a.finish == b.finish && a.got_finish == b.got_finish
}

/// Parts leave the finish alone.
proof fn lemma_parts_same_finish(e: Emission, parts: Seq<ReplyPart>, ids: Seq<PartIds>)
    ensures
        same_finish(e.state, parts_step(e, parts, ids).state),
    decreases parts.len(),
{
    if parts.len() > 0 {
        lemma_parts_same_finish(e, parts.drop_last(), ids.drop_last());
    }
}

/// Function calls leave the finish alone.
proof fn lemma_calls_same_finish(
    e: Emission,
    calls: Seq<(Seq<char>, Seq<char>)>,
    ids: Seq<CallIds>,
)
    ensures
        same_finish(e.state, function_calls_from(e, calls, ids).state),
    decreases calls.len(),
{
    if calls.len() > 0 {
        lemma_calls_same_finish(e, calls.drop_last(), ids.drop_last());
    }
}

/// Whether a session reports completion only for a stop.
spec fn honest(session: SessionView) -> bool {
    &&& session.state.got_finish == FinishObserved::Yes <==> session.state.finish is Some
    &&& forall|i: int|
        0 <= i < session.log.len() && (#[trigger] session.log[i]) is ResponseCompleted
            ==> session.state.finish == Some(FinishReason::Stop)
}

/// A turn keeps a session honest.
proof fn lemma_turn_honest(session: SessionView, turn: Turn)
    requires
        sound(session),
        honest(session),
    ensures
        honest(turn_step(session, turn)),
{
    lemma_turn_sound(session, turn);
    let done = turn_step(session, turn);
    if let Turn::Told(event, draw) = turn {
        if session.phase == SessionPhase::Streaming {
            let e = session.emitted();
            match event {
                Upstream::Chunk(chunk) => {
                    lemma_parts_same_finish(e, chunk_parts(chunk), draw.parts);
                    assert(unended(done.log));
                    reveal(unended);
                },
                Upstream::Ended => {
                    let flushed = flush_step(e, draw.reasoning);
                    let closed = close_step(flushed);
                    let emptied = Emission {
                        state: StreamStateView { fcs: Seq::empty(), ..closed.state },
                        ..closed
                    };
                    lemma_calls_same_finish(emptied, closed.state.fcs, draw.calls);
                    let called = function_calls_step(closed, draw.calls);
                    assert(same_finish(e.state, called.state));
                    lemma_last_is_terminal(done.log);
                },
                _ => {},
            }
        }
    } else if turn is Closed {
        assert forall|i: int|
            0 <= i < done.log.len() && (#[trigger] done.log[i]) is ResponseCompleted implies
            done.state.finish == Some(FinishReason::Stop) by {
            assert(session.log[i] is ResponseCompleted);
        }
    }
}

/// In an orderly stream only the last event can be terminal.
proof fn lemma_last_is_terminal(events: Seq<StreamEventView>)
    requires
        orderly(events),
    ensures
        forall|i: int|
            0 <= i < events.len() && (#[trigger] events[i]).is_terminal() ==> i == events.len()
                - 1,
{
    reveal(orderly);
    reveal(unended);
    assert forall|i: int| 0 <= i < events.len() && (#[trigger] events[i]).is_terminal() implies i
        == events.len() - 1 by {
        let last = events.len() - 1;
        assert(fits(events.take(last), events[last]));
        if i < last {
            assert(events.take(last)[i] == events[i]);
        }
    }
}

/// Every session is honest.
proof fn lemma_run_honest(meta: RespMetaView, turns: Seq<Turn>)
    ensures
        honest(run(meta, turns)),
    decreases turns.len(),
{
    if turns.len() > 0 {
        lemma_run_honest(meta, turns.drop_last());
        lemma_run_sound(meta, turns.drop_last());
        lemma_turn_honest(run(meta, turns.drop_last()), turns.last());
    }
}

/// A response is reported as completed only where gemini stopped of itself.
pub proof fn law_completed_means_stopped(meta: RespMetaView, turns: Seq<Turn>, i: int)
    requires
        0 <= i < run(meta, turns).log.len(),
        run(meta, turns).log[i] is ResponseCompleted,
    ensures
        run(meta, turns).state.finish == Some(FinishReason::Stop),
{
    lemma_run_honest(meta, turns);
}

// ---------------------------------------------------------------------------------------------
// Identity
// ---------------------------------------------------------------------------------------------

/// The response that a lifecycle event carries.
pub open spec fn response_of(event: StreamEventView) -> Option<ResponseView> {
    match event {
        StreamEventView::ResponseCreated { response, .. } => Some(response),
        StreamEventView::ResponseInProgress { response, .. } => Some(response),
        StreamEventView::ResponseCompleted { response, .. } => Some(response),
        StreamEventView::ResponseFailed { response, .. } => Some(response),
        StreamEventView::ResponseIncomplete { response, .. } => Some(response),
        _ => None,
    }
}

/// Whether the response that an event carries, if any, has the identity of a request.
pub open spec fn is_stamped(event: StreamEventView, meta: RespMetaView) -> bool {
    response_of(event) matches Some(response) ==> {
        &&& response.created_at == meta.created
        &&& response.id == meta.response_id
        &&& response.model == meta.model
    }
}

/// Whether every event of a session has its identity.
spec fn stamped(session: SessionView, meta: RespMetaView) -> bool {
    &&& session.meta == meta
    &&& forall|i: int| 0 <= i < session.log.len() ==> is_stamped(#[trigger] session.log[i], meta)
}

/// Events behind the opening ones that are not terminal carry no response.
proof fn lemma_bare_between(events: Seq<StreamEventView>, i: int)
    requires
        orderly(events),
        2 <= i < events.len(),
        !events[i].is_terminal(),
    ensures
        response_of(events[i]) is None,
{
    reveal(orderly);
    assert(fits(events.take(i), events[i]));
}

/// A turn keeps the identity of a session.
proof fn lemma_turn_stamped(session: SessionView, meta: RespMetaView, turn: Turn)
    requires
        sound(session),
        stamped(session, meta),
    ensures
        stamped(turn_step(session, turn), meta),
{
    lemma_turn_sound(session, turn);
    let done = turn_step(session, turn);
    if let Turn::Told(event, draw) = turn {
        if session.phase == SessionPhase::Streaming && (event is Chunk || event is Ended) {
            let e = session.emitted();
            match event {
                Upstream::Chunk(chunk) => {
                    lemma_chunk_extends(e, chunk, draw.parts);
                    reveal(unended);
                },
                _ => {
                    lemma_end_extends(e, meta, draw.reasoning, draw.calls, draw.now);
                },
            }
            lemma_last_is_terminal(done.log);
            assert forall|i: int| 0 <= i < done.log.len() implies is_stamped(
                #[trigger] done.log[i],
                meta,
            ) by {
                if i < 2 {
                    assert(done.log[i] == session.log[i]);
                } else if !done.log[i].is_terminal() {
                    lemma_bare_between(done.log, i);
                }
            }
        }
    } else if turn is Closed {
        assert forall|i: int| 0 <= i < done.log.len() implies is_stamped(
            #[trigger] done.log[i],
            meta,
        ) by {
            assert(done.log[i] == session.log[i]);
        }
    }
}

/// Every session keeps its identity.
proof fn lemma_run_stamped(meta: RespMetaView, turns: Seq<Turn>)
    ensures
        stamped(run(meta, turns), meta),
    decreases turns.len(),
{
    if turns.len() > 0 {
        lemma_run_stamped(meta, turns.drop_last());
        lemma_run_sound(meta, turns.drop_last());
        lemma_turn_stamped(run(meta, turns.drop_last()), meta, turns.last());
    }
}

/// The id, the model and the arrival of a request are stamped on every response of its stream.
pub proof fn law_identity_is_stamped_on_every_event(meta: RespMetaView, turns: Seq<Turn>, i: int)
    requires
        0 <= i < run(meta, turns).log.len(),
    ensures
        is_stamped(run(meta, turns).log[i], meta),
{
    lemma_run_stamped(meta, turns);
}

// ---------------------------------------------------------------------------------------------
// Items
// ---------------------------------------------------------------------------------------------

/// How many items a stream can tell apart by their index.
pub const INDEX_COUNT: u64 = 0x1_0000_0000;

/// Whether entries have distinct indices.
pub open spec fn distinct_indices(entries: Seq<(u32, OutputItemView)>) -> bool {
    forall|i: int, j: int|
        0 <= i < j < entries.len() ==> (#[trigger] entries[i]).0 != (#[trigger] entries[j]).0
}

/// Whether, of a number of added items, each but the open one ended once.
pub open spec fn settled(added: nat, ended: Seq<(u32, OutputItemView)>, open: Option<u32>) -> bool {
    added <= INDEX_COUNT ==> {
        &&& ended.len() + (if open is Some {
            1nat
        } else {
            0nat
        }) == added
        &&& forall|i: int| 0 <= i < ended.len() ==> (#[trigger] ended[i]).0 < added
        &&& distinct_indices(ended)
        &&& open matches Some(index) ==> {
            &&& index < added
            &&& forall|i: int| 0 <= i < ended.len() ==> (#[trigger] ended[i]).0 != index
        }
    }
}

/// The index of the open message.
pub open spec fn open_index(s: StreamStateView) -> Option<u32> {
    if s.msg_open == MsgOpen::Open {
        Some(s.msg_oi)
    } else {
        None
    }
}

/// Whether each item that an accumulator added, but the open message, ended once.
pub open spec fn accounted(e: Emission) -> bool {
    settled(added_count(e.events), e.state.out_items, open_index(e.state))
}

/// An item is added and ends.
proof fn lemma_settle_whole(
    added: nat,
    ended: Seq<(u32, OutputItemView)>,
    open: Option<u32>,
    item: OutputItemView,
)
    requires
        settled(added, ended, open),
    ensures
        settled(added + 1, ended.push((as_index(added), item)), open),
{
}

/// An item is added.
proof fn lemma_settle_open(added: nat, ended: Seq<(u32, OutputItemView)>)
    requires
        settled(added, ended, None),
    ensures
        settled(added + 1, ended, Some(as_index(added))),
{
}

/// The open item ends.
proof fn lemma_settle_close(
    added: nat,
    ended: Seq<(u32, OutputItemView)>,
    open: u32,
    item: OutputItemView,
)
    requires
        settled(added, ended, Some(open)),
    ensures
        settled(added, ended.push((open, item)), None),
{
}

/// Flushing reasoning keeps the account.
proof fn lemma_flush_accounted(e: Emission, id: Seq<char>)
    requires
        in_step(e),
        accounted(e),
    ensures
        accounted(flush_step(e, id)),
        open_index(flush_step(e, id).state) == open_index(e.state),
{
    if reasoning_pending(e.state) {
        let flushed = flush_step(e, id);
        let n = e.events.len() as int;
        lemma_push(e.events, flushed.events[n]);
        lemma_push(e.events.push(flushed.events[n]), flushed.events[n + 1]);
        assert(flushed.events =~= e.events.push(flushed.events[n]).push(flushed.events[n + 1]));
        lemma_settle_whole(
            added_count(e.events),
            e.state.out_items,
            open_index(e.state),
            reasoning_item(e.state, id),
        );
    }
}

/// Visible text keeps the account.
proof fn lemma_text_accounted(e: Emission, text: Seq<char>, ids: PartIds)
    requires
        live(e),
        accounted(e),
    ensures
        accounted(text_step(e, text, ids)),
{
    lemma_flush_live(e, ids.reasoning);
    lemma_flush_accounted(e, ids.reasoning);
    let flushed = flush_step(e, ids.reasoning);
    let opened = if flushed.state.msg_open == MsgOpen::Closed {
        open_message_step(flushed, ids.message)
    } else {
        flushed
    };
    if flushed.state.msg_open == MsgOpen::Closed {
        lemma_push(flushed.events, opened.events.last());
        lemma_settle_open(added_count(flushed.events), flushed.state.out_items);
    }
    lemma_push(opened.events, delta_step(opened, text).events.last());
}

/// A part keeps the account.
proof fn lemma_part_accounted(e: Emission, part: ReplyPart, ids: PartIds)
    requires
        live(e),
        accounted(e),
    ensures
        accounted(part_step(e, part, ids)),
{
    match part {
        ReplyPart::Text { text, thought, thought_signature } => {
            lemma_text_accounted(e, text@, ids);
        },
        ReplyPart::FunctionCall { function_call, thought_signature } => {
            let taken = Emission { state: signed(e.state, thought_signature.deep_view()), ..e };
            assert(in_step(taken));
            lemma_flush_accounted(taken, ids.reasoning);
        },
        _ => {},
    }
}

/// Parts keep the account.
proof fn lemma_parts_accounted(e: Emission, parts: Seq<ReplyPart>, ids: Seq<PartIds>)
    requires
        live(e),
        accounted(e),
    ensures
        accounted(parts_step(e, parts, ids)),
    decreases parts.len(),
{
    if parts.len() > 0 {
        lemma_parts_accounted(e, parts.drop_last(), ids.drop_last());
        lemma_parts_live(e, parts.drop_last(), ids.drop_last());
        lemma_part_accounted(
            parts_step(e, parts.drop_last(), ids.drop_last()),
            parts.last(),
            ids.last(),
        );
    }
}

/// The calls among parts, as they are queued.
pub open spec fn calls_in(parts: Seq<ReplyPart>) -> Seq<(Seq<char>, Seq<char>)>
    decreases parts.len(),
{
    if parts.len() == 0 {
        Seq::empty()
    } else {
        let earlier = calls_in(parts.drop_last());
        match parts.last() {
            ReplyPart::FunctionCall { function_call, .. } => earlier.push(
                (function_call.name@, arguments_text(json(function_call.args))),
            ),
            _ => earlier,
        }
    }
}

/// The calls that gemini made in the course of turns.
pub open spec fn calls_heard(meta: RespMetaView, turns: Seq<Turn>) -> Seq<(Seq<char>, Seq<char>)>
    decreases turns.len(),
{
    if turns.len() == 0 {
        Seq::empty()
    } else {
        let earlier = calls_heard(meta, turns.drop_last());
        match turns.last() {
            Turn::Told(Upstream::Chunk(chunk), _) => if run(meta, turns.drop_last()).phase
                == SessionPhase::Streaming {
                earlier + calls_in(chunk_parts(chunk))
            } else {
                earlier
            },
            _ => earlier,
        }
    }
}

/// Parts queue their calls in order.
proof fn lemma_parts_queue(e: Emission, parts: Seq<ReplyPart>, ids: Seq<PartIds>)
    ensures
        parts_step(e, parts, ids).state.fcs == e.state.fcs + calls_in(parts),
    decreases parts.len(),
{
    if parts.len() == 0 {
        assert(e.state.fcs + calls_in(parts) =~= e.state.fcs);
    } else {
        lemma_parts_queue(e, parts.drop_last(), ids.drop_last());
        assert(parts_step(e, parts, ids).state.fcs =~= e.state.fcs + calls_in(parts));
    }
}

/// A running session keeps the account, and has every call queued.
pub proof fn lemma_run_accounted(meta: RespMetaView, turns: Seq<Turn>)
    ensures
        run(meta, turns).phase == SessionPhase::Connecting || run(meta, turns).phase
            == SessionPhase::Streaming ==> accounted(run(meta, turns).emitted()) && run(
            meta,
            turns,
        ).state.fcs == calls_heard(meta, turns),
    decreases turns.len(),
{
    if turns.len() == 0 {
        let none = Seq::<StreamEventView>::empty();
        let log = started(meta).log;
        lemma_push(none, log[0]);
        lemma_push(none.push(log[0]), log[1]);
        assert(log =~= none.push(log[0]).push(log[1]));
        assert(accounted(started(meta).emitted()));
    } else {
        let before = run(meta, turns.drop_last());
        lemma_run_accounted(meta, turns.drop_last());
        lemma_run_sound(meta, turns.drop_last());
        if let Turn::Told(Upstream::Chunk(chunk), draw) = turns.last() {
            if before.phase == SessionPhase::Streaming {
                lemma_parts_accounted(before.emitted(), chunk_parts(chunk), draw.parts);
                lemma_parts_queue(before.emitted(), chunk_parts(chunk), draw.parts);
                lemma_chunk_keeps(before.emitted(), chunk, draw.parts);
            }
        }
    }
}

/// The end of a chunk changes neither the items nor the calls.
pub proof fn lemma_chunk_keeps(e: Emission, chunk: GenerationResponse, ids: Seq<PartIds>)
    ensures
        chunk_step(e, chunk, ids).events == parts_step(e, chunk_parts(chunk), ids).events,
        chunk_step(e, chunk, ids).state.out_items == parts_step(
            e,
            chunk_parts(chunk),
            ids,
        ).state.out_items,
        chunk_step(e, chunk, ids).state.fcs == parts_step(e, chunk_parts(chunk), ids).state.fcs,
        open_index(chunk_step(e, chunk, ids).state) == open_index(
            parts_step(e, chunk_parts(chunk), ids).state,
        ),
{
}

/// The entries of function calls, from an index on.
pub open spec fn call_entries(
    first: nat,
    calls: Seq<(Seq<char>, Seq<char>)>,
    ids: Seq<CallIds>,
) -> Seq<(u32, OutputItemView)> {
    Seq::new(
        calls.len(),
        |j: int| (as_index((first + j) as nat), call_item(calls[j].0, calls[j].1, ids[j])),
    )
}

/// Function calls keep the account, and end in order behind the items before them.
proof fn lemma_calls_accounted(
    e: Emission,
    calls: Seq<(Seq<char>, Seq<char>)>,
    ids: Seq<CallIds>,
)
    requires
        in_step(e),
        accounted(e),
        ids.len() == calls.len(),
    ensures
        accounted(function_calls_from(e, calls, ids)),
        open_index(function_calls_from(e, calls, ids).state) == open_index(e.state),
        added_count(function_calls_from(e, calls, ids).events) == added_count(e.events)
            + calls.len(),
        function_calls_from(e, calls, ids).state.out_items == e.state.out_items + call_entries(
            added_count(e.events),
            calls,
            ids,
        ),
    decreases calls.len(),
{
    if calls.len() == 0 {
        assert(e.state.out_items + call_entries(added_count(e.events), calls, ids)
            =~= e.state.out_items);
    } else {
        let rest = calls.drop_last();
        lemma_calls_accounted(e, rest, ids.drop_last());
        lemma_calls_in_step(e, rest, ids.drop_last());
        let before = function_calls_from(e, rest, ids.drop_last());
        let item = call_item(calls.last().0, calls.last().1, ids.last());
        let four = call_events(
            before.state.seq,
            before.state.output_index,
            item,
            ids.last().item,
            calls.last().1,
        );
        let one = before.events.push(four[0]);
        let two = one.push(four[1]);
        let three = two.push(four[2]);
        lemma_push(before.events, four[0]);
        lemma_push(one, four[1]);
        lemma_push(two, four[2]);
        lemma_push(three, four[3]);
        let done = function_calls_from(e, calls, ids);
        assert(done.events =~= three.push(four[3]));
        lemma_settle_whole(
            added_count(before.events),
            before.state.out_items,
            open_index(before.state),
            item,
        );
        assert(done.state.out_items =~= e.state.out_items + call_entries(
            added_count(e.events),
            calls,
            ids,
        ));
    }
}

/// Ordered entries of distinct indices below their number stand at their index.
proof fn lemma_stand_at_their_index(ordered: Seq<(u32, OutputItemView)>, i: int)
    requires
        is_ordered(ordered),
        distinct_indices(ordered),
        forall|j: int| 0 <= j < ordered.len() ==> (#[trigger] ordered[j]).0 < ordered.len(),
        0 <= i < ordered.len(),
    ensures
        ordered[i].0 == i,
{
    lemma_not_below(ordered, i);
    lemma_not_above(ordered, i);
}

/// Strictly rising indices do not fall behind their place.
proof fn lemma_not_below(ordered: Seq<(u32, OutputItemView)>, i: int)
    requires
        is_ordered(ordered),
        distinct_indices(ordered),
        0 <= i < ordered.len(),
    ensures
        ordered[i].0 >= i,
    decreases i,
{
    if i > 0 {
        lemma_not_below(ordered, i - 1);
        assert(ordered[i - 1].0 <= ordered[i].0);
        assert(ordered[i - 1].0 != ordered[i].0);
    }
}

/// Strictly rising indices below their number do not run ahead of their place.
proof fn lemma_not_above(ordered: Seq<(u32, OutputItemView)>, i: int)
    requires
        is_ordered(ordered),
        distinct_indices(ordered),
        forall|j: int| 0 <= j < ordered.len() ==> (#[trigger] ordered[j]).0 < ordered.len(),
        0 <= i < ordered.len(),
    ensures
        ordered[i].0 <= i,
    decreases ordered.len() - i,
{
    if i + 1 < ordered.len() {
        lemma_not_above(ordered, i + 1);
        assert(ordered[i].0 <= ordered[i + 1].0);
        assert(ordered[i].0 != ordered[i + 1].0);
    } else {
        assert(ordered[i].0 < ordered.len());
    }
}

/// Of entries with distinct indices below their number, each item stands at its index in the
/// output.
proof fn lemma_output_by_index(entries: Seq<(u32, OutputItemView)>)
    requires
        distinct_indices(entries),
        forall|i: int| 0 <= i < entries.len() ==> (#[trigger] entries[i]).0 < entries.len(),
    ensures
        items_of(index_ordered(entries)).len() == entries.len(),
        forall|p: int|
            0 <= p < entries.len() ==> items_of(index_ordered(entries))[(
            #[trigger] entries[p]).0 as int] == entries[p].1,
{
    broadcast use vstd::seq_lib::group_to_multiset_ensures;

    law_output_is_sorted(entries);
    let ordered = index_ordered(entries);
    assert(ordered.len() == ordered.to_multiset().len() == entries.to_multiset().len()
        == entries.len());
    assert(entries.no_duplicates());
    entries.lemma_multiset_has_no_duplicates();
    assert(ordered.no_duplicates()) by {
        ordered.lemma_multiset_has_no_duplicates_conv();
    }
    assert forall|i: int| 0 <= i < ordered.len() implies entries.contains(
        #[trigger] ordered[i],
    ) by {
        assert(ordered.to_multiset().contains(ordered[i]));
        assert(entries.to_multiset().contains(ordered[i]));
    }
    assert forall|i: int| 0 <= i < ordered.len() implies (#[trigger] ordered[i]).0
        < ordered.len() by {
        let p = choose|p: int| 0 <= p < entries.len() && entries[p] == ordered[i];
        assert(entries[p].0 < entries.len());
    }
    assert(distinct_indices(ordered)) by {
        assert forall|i: int, j: int| 0 <= i < j < ordered.len() implies (
        #[trigger] ordered[i]).0 != (#[trigger] ordered[j]).0 by {
            let p = choose|p: int| 0 <= p < entries.len() && entries[p] == ordered[i];
            let q = choose|q: int| 0 <= q < entries.len() && entries[q] == ordered[j];
            if ordered[i].0 == ordered[j].0 {
                assert(p == q) by {
                    if p < q {
                        assert(entries[p].0 != entries[q].0);
                    } else if q < p {
                        assert(entries[q].0 != entries[p].0);
                    }
                }
                assert(ordered[i] == ordered[j]);
            }
        }
    }
    assert forall|p: int| 0 <= p < entries.len() implies items_of(ordered)[(
    #[trigger] entries[p]).0 as int] == entries[p].1 by {
        assert(entries.to_multiset().contains(entries[p]));
        assert(ordered.to_multiset().contains(entries[p]));
        assert(ordered.contains(entries[p]));
        let i = choose|i: int| 0 <= i < ordered.len() && ordered[i] == entries[p];
        lemma_stand_at_their_index(ordered, i);
    }
}

/// Closing the message keeps the accumulator in step, and settles the account.
proof fn lemma_close_accounted(e: Emission)
    requires
        live(e),
        accounted(e),
    ensures
        in_step(close_step(e)),
        accounted(close_step(e)),
        open_index(close_step(e).state) is None,
{
    if e.state.msg_open == MsgOpen::Open {
        lemma_push(e.events, close_step(e).events.last());
        lemma_settle_close(
            added_count(e.events),
            e.state.out_items,
            e.state.msg_oi,
            whole_message(e.state),
        );
    }
}

/// The stages after the last chunk, up to the terminal event.
pub open spec fn before_terminal(
    e: Emission,
    reasoning: Seq<char>,
    calls: Seq<CallIds>,
) -> Emission {
    function_calls_step(close_step(flush_step(e, reasoning)), calls)
}

/// The stages after the last chunk settle the account, the calls last.
pub proof fn lemma_end_accounted(e: Emission, reasoning: Seq<char>, ids: Seq<CallIds>)
    requires
        live(e),
        accounted(e),
        ids.len() == e.state.fcs.len(),
    ensures
        in_step(before_terminal(e, reasoning, ids)),
        accounted(before_terminal(e, reasoning, ids)),
        open_index(before_terminal(e, reasoning, ids).state) is None,
        ({
            let added = added_count(before_terminal(e, reasoning, ids).events);
            let whole = before_terminal(e, reasoning, ids).state.out_items;
            let calls = e.state.fcs;
            let first = (added - calls.len()) as nat;
            added <= INDEX_COUNT ==> {
                &&& calls.len() <= added
                &&& whole.skip(first as int) == call_entries(first, calls, ids)
            }
        }),
{
    let flushed = flush_step(e, reasoning);
    lemma_flush_live(e, reasoning);
    lemma_flush_accounted(e, reasoning);
    lemma_close_accounted(flushed);
    let closed = close_step(flushed);
    let calls = e.state.fcs;
    assert(closed.state.fcs == calls);
    let emptied = Emission {
        state: StreamStateView { fcs: Seq::empty(), ..closed.state },
        ..closed
    };
    assert(in_step(emptied) && accounted(emptied));
    lemma_calls_in_step(emptied, calls, ids);
    lemma_calls_accounted(emptied, calls, ids);
    let before = closed.state.out_items;
    let added = added_count(closed.events);
    let entries = call_entries(added, calls, ids);
    assert((before + entries).skip(before.len() as int) =~= entries);
}

/// A session in the course of streaming after upstream ended cleanly.
pub open spec fn ended_cleanly(meta: RespMetaView, turns: Seq<Turn>, draw: Draw) -> SessionView {
    upstream_step(run(meta, turns), Upstream::Ended, draw)
}

/// A stream that ends cleanly ends every item that it added, each once: the whole items have the
/// indices from zero up to their number, and the terminal response lists each at its index. The
/// function calls stand behind everything else, in the order in which gemini made them.
pub proof fn law_every_item_ends_once(meta: RespMetaView, turns: Seq<Turn>, draw: Draw)
    requires
        run(meta, turns).phase == SessionPhase::Streaming,
        valid_draw(run(meta, turns), Upstream::Ended, draw),
        added_count(ended_cleanly(meta, turns, draw).log) <= INDEX_COUNT,
    ensures
        ({
            let log = ended_cleanly(meta, turns, draw).log;
            let whole = done_entries(log);
            let calls = calls_heard(meta, turns);
            let first = (whole.len() - calls.len()) as nat;
            &&& whole.len() == added_count(log)
            &&& distinct_indices(whole)
            &&& forall|i: int| 0 <= i < whole.len() ==> (#[trigger] whole[i]).0 < whole.len()
            &&& response_of(log.last()) matches Some(response) && {
                &&& response.output.len() == whole.len()
                &&& forall|i: int|
                    0 <= i < whole.len() ==> response.output[(#[trigger] whole[i]).0 as int]
                        == whole[i].1
            }
            &&& calls.len() <= whole.len()
            &&& whole.skip(first as int) == call_entries(first, calls, draw.calls)
        }),
{
    lemma_run_sound(meta, turns);
    lemma_run_accounted(meta, turns);
    let session = run(meta, turns);
    let e = session.emitted();
    lemma_end_accounted(e, draw.reasoning, draw.calls);
    let called = before_terminal(e, draw.reasoning, draw.calls);
    let last = closing_event(called.state, session.meta, ending(called.state), draw.now);
    lemma_push(called.events, last);
    let log = ended_cleanly(meta, turns, draw).log;
    assert(log == called.events.push(last));
    lemma_output_by_index(called.state.out_items);
    assert(log.last() == last);
}

/// No two items of a stream are added under one index.
pub proof fn law_no_index_is_added_twice(meta: RespMetaView, turns: Seq<Turn>, i: int, j: int)
    requires
        added_count(run(meta, turns).log) <= INDEX_COUNT,
        0 <= i < j < run(meta, turns).log.len(),
        run(meta, turns).log[i] is OutputItemAdded,
        run(meta, turns).log[j] is OutputItemAdded,
    ensures
        run(meta, turns).log[i]->OutputItemAdded_output_index != run(
            meta,
            turns,
        ).log[j]->OutputItemAdded_output_index,
{
    let log = run(meta, turns).log;
    law_items_are_added_in_order(meta, turns, i);
    law_items_are_added_in_order(meta, turns, j);
    lemma_added_rises(log, i + 1, j);
    lemma_added_rises(log, j + 1, log.len() as int);
    lemma_push(log.take(i), log[i]);
    assert(log.take(i + 1) =~= log.take(i).push(log[i]));
    lemma_push(log.take(j), log[j]);
    assert(log.take(j + 1) =~= log.take(j).push(log[j]));
    assert(log.take(log.len() as int) =~= log);
}

/// A longer stream has added no fewer items.
proof fn lemma_added_rises(events: Seq<StreamEventView>, from: int, to: int)
    requires
        0 <= from <= to <= events.len(),
    ensures
        added_count(events.take(from)) <= added_count(events.take(to)),
    decreases to,
{
    if from < to {
        lemma_added_rises(events, from, to - 1);
        assert(events.take(to) =~= events.take(to - 1).push(events[to - 1]));
        lemma_push(events.take(to - 1), events[to - 1]);
    }
}

} // verus!
