//! What gemini's chunks become, said of the chunks and the events alone.
use vstd::prelude::*;

use crate::finish::{
    call_item, close_step, closing_event, end_step, function_call_step, function_calls_from,
    function_calls_step, CallIds,
};
use crate::gemini::{FinishReason, FunctionCall, GenerationResponse, ReplyPart, UsageMetadata};
use crate::ids::is_id;
use crate::json::{json, parsed, written, Json};
use crate::protocol::{
    added_count, before_terminal, call_entries, calls_heard, calls_in, done_entries, ended_cleanly,
    law_a_message_is_its_deltas, law_every_item_ends_once, lemma_chunk_extends, lemma_chunk_keeps,
    lemma_end_accounted, lemma_end_extends, lemma_flush_live, lemma_push, lemma_run_accounted,
    lemma_run_sound, response_of, run, text_of, Turn, INDEX_COUNT,
};
use crate::responses::{
    outcome_of, OutputItemView, OutputStatus, ReasoningItemView, RespMetaView, ResponseUsage,
    ResponseView, Status, StreamEventView, TerminalOutcomeView,
};
use crate::session::{
    action_step, next_of, started, upstream_step, valid_draw, ActionView, Draw, SessionPhase, SessionView,
    Upstream,
};
use crate::stream::{
    after, chunk_parts, chunk_step, delta_step, flush_step, next_index, open_message_step,
    part_step, parts_step, text_step, Emission, FinishObserved, MsgOpen, PartIds, RsnEmitted,
    StreamStateView,
};

verus! {

// ---------------------------------------------------------------------------------------------
// What gemini sent
// ---------------------------------------------------------------------------------------------

/// The parts that a chunk sends: those of its first candidate.
pub open spec fn parts_sent(chunk: GenerationResponse) -> Seq<ReplyPart> {
    if chunk.candidates@.len() > 0 && chunk.candidates@[0].parts is Some {
        chunk.candidates@[0].parts->0@
    } else {
        Seq::empty()
    }
}

/// The chunks that reached a session while it was streaming, in order.
pub open spec fn chunks_read(meta: RespMetaView, turns: Seq<Turn>) -> Seq<GenerationResponse>
    decreases turns.len(),
{
    if turns.len() == 0 {
        Seq::empty()
    } else {
        let earlier = chunks_read(meta, turns.drop_last());
        match turns.last() {
            Turn::Told(Upstream::Chunk(chunk), _) => if run(meta, turns.drop_last()).phase
                == SessionPhase::Streaming {
                earlier.push(chunk)
            } else {
                earlier
            },
            _ => earlier,
        }
    }
}

/// All parts that chunks send, in order.
pub open spec fn all_parts(chunks: Seq<GenerationResponse>) -> Seq<ReplyPart>
    decreases chunks.len(),
{
    if chunks.len() == 0 {
        Seq::empty()
    } else {
        all_parts(chunks.drop_last()) + parts_sent(chunks.last())
    }
}

/// All parts that a session read, in order.
pub open spec fn parts_read(meta: RespMetaView, turns: Seq<Turn>) -> Seq<ReplyPart> {
    all_parts(chunks_read(meta, turns))
}

/// Whether a part is text that is meant to be seen.
pub open spec fn is_visible_text(part: ReplyPart) -> bool {
    part matches ReplyPart::Text { text, thought, .. } && thought != Some(true) && text@.len() > 0
}

/// The texts among parts that are meant to be seen, character for character.
pub open spec fn visible_texts(parts: Seq<ReplyPart>) -> Seq<Seq<char>>
    decreases parts.len(),
{
    if parts.len() == 0 {
        Seq::empty()
    } else if is_visible_text(parts.last()) {
        visible_texts(parts.drop_last()).push(parts.last()->text@)
    } else {
        visible_texts(parts.drop_last())
    }
}

/// Texts one behind the other.
pub open spec fn run_together(texts: Seq<Seq<char>>) -> Seq<char>
    decreases texts.len(),
{
    if texts.len() == 0 {
        Seq::empty()
    } else {
        run_together(texts.drop_last()) + texts.last()
    }
}

/// The calls among parts, in order.
pub open spec fn calls_among(parts: Seq<ReplyPart>) -> Seq<FunctionCall>
    decreases parts.len(),
{
    if parts.len() == 0 {
        Seq::empty()
    } else {
        match parts.last() {
            ReplyPart::FunctionCall { function_call, .. } => calls_among(parts.drop_last()).push(
                function_call,
            ),
            _ => calls_among(parts.drop_last()),
        }
    }
}

/// The token counts of the last chunk that has some.
pub open spec fn last_counts(chunks: Seq<GenerationResponse>) -> Option<UsageMetadata>
    decreases chunks.len(),
{
    if chunks.len() == 0 {
        None
    } else if chunks.last().usage_metadata is Some {
        chunks.last().usage_metadata
    } else {
        last_counts(chunks.drop_last())
    }
}

/// The last finish reason of a first candidate.
pub open spec fn last_finish(chunks: Seq<GenerationResponse>) -> Option<FinishReason>
    decreases chunks.len(),
{
    if chunks.len() == 0 {
        None
    } else if chunks.last().candidates@.len() > 0 && chunks.last().candidates@[0].finish_reason
        is Some {
        chunks.last().candidates@[0].finish_reason
    } else {
        last_finish(chunks.drop_last())
    }
}

// ---------------------------------------------------------------------------------------------
// Visible text
// ---------------------------------------------------------------------------------------------

/// The texts that the deltas of a stream bring, in order.
pub open spec fn deltas_of(events: Seq<StreamEventView>) -> Seq<Seq<char>>
    decreases events.len(),
{
    if events.len() == 0 {
        Seq::empty()
    } else {
        match events.last() {
            StreamEventView::OutputTextDelta { delta, .. } => deltas_of(events.drop_last()).push(
                delta,
            ),
            _ => deltas_of(events.drop_last()),
        }
    }
}

/// One more event.
proof fn lemma_deltas_push(events: Seq<StreamEventView>, event: StreamEventView)
    ensures
        deltas_of(events.push(event)) == (match event {
            StreamEventView::OutputTextDelta { delta, .. } => deltas_of(events).push(delta),
            _ => deltas_of(events),
        }),
{
    assert(events.push(event).drop_last() =~= events);
}

/// The deltas of a prefix are a prefix of the deltas.
proof fn lemma_deltas_prefix(events: Seq<StreamEventView>, len: int)
    requires
        0 <= len <= events.len(),
    ensures
        deltas_of(events.take(len)).is_prefix_of(deltas_of(events)),
    decreases events.len(),
{
    if len == events.len() {
        assert(events.take(len) =~= events);
    } else {
        let rest = events.drop_last();
        lemma_deltas_prefix(rest, len);
        assert(rest.take(len) =~= events.take(len));
    }
}

/// Flushing reasoning brings no text.
proof fn lemma_flush_deltas(e: Emission, id: Seq<char>)
    ensures
        deltas_of(flush_step(e, id).events) == deltas_of(e.events),
        flush_step(e, id).state.msg_open == e.state.msg_open,
{
    let flushed = flush_step(e, id);
    if flushed.events != e.events {
        let n = e.events.len() as int;
        let one = e.events.push(flushed.events[n]);
        lemma_deltas_push(e.events, flushed.events[n]);
        lemma_deltas_push(one, flushed.events[n + 1]);
        assert(flushed.events =~= one.push(flushed.events[n + 1]));
    }
}

/// A part brings its text where it is meant to be seen, and a message is open once any was.
proof fn lemma_part_deltas(e: Emission, part: ReplyPart, ids: PartIds)
    ensures
        deltas_of(part_step(e, part, ids).events) == (if is_visible_text(part) {
            deltas_of(e.events).push(part->text@)
        } else {
            deltas_of(e.events)
        }),
        part_step(e, part, ids).state.msg_open == if is_visible_text(part) {
            MsgOpen::Open
        } else {
            e.state.msg_open
        },
{
    match part {
        ReplyPart::Text { text, thought, thought_signature } => {
            if is_visible_text(part) {
                lemma_flush_deltas(e, ids.reasoning);
                let flushed = flush_step(e, ids.reasoning);
                let opened = if flushed.state.msg_open == MsgOpen::Closed {
                    open_message_step(flushed, ids.message)
                } else {
                    flushed
                };
                if flushed.state.msg_open == MsgOpen::Closed {
                    lemma_deltas_push(flushed.events, opened.events.last());
                }
                lemma_deltas_push(opened.events, delta_step(opened, text@).events.last());
            }
        },
        ReplyPart::FunctionCall { function_call, thought_signature } => {
            let taken = Emission {
                state: crate::stream::signed(e.state, thought_signature.deep_view()),
                ..e
            };
            lemma_flush_deltas(taken, ids.reasoning);
        },
        _ => {},
    }
}

/// Parts bring their visible texts in order.
proof fn lemma_parts_deltas(e: Emission, parts: Seq<ReplyPart>, ids: Seq<PartIds>)
    ensures
        deltas_of(parts_step(e, parts, ids).events) == deltas_of(e.events) + visible_texts(parts),
        parts_step(e, parts, ids).state.msg_open == if visible_texts(parts).len() > 0 {
            MsgOpen::Open
        } else {
            e.state.msg_open
        },
    decreases parts.len(),
{
    if parts.len() == 0 {
        assert(deltas_of(e.events) + visible_texts(parts) =~= deltas_of(e.events));
    } else {
        lemma_parts_deltas(e, parts.drop_last(), ids.drop_last());
        let before = parts_step(e, parts.drop_last(), ids.drop_last());
        lemma_part_deltas(before, parts.last(), ids.last());
        assert(deltas_of(parts_step(e, parts, ids).events) =~= deltas_of(e.events)
            + visible_texts(parts));
    }
}

/// Visible texts of parts behind others.
proof fn lemma_visible_texts_add(left: Seq<ReplyPart>, right: Seq<ReplyPart>)
    ensures
        visible_texts(left + right) == visible_texts(left) + visible_texts(right),
    decreases right.len(),
{
    if right.len() == 0 {
        assert(left + right =~= left);
        assert(visible_texts(left) + visible_texts(right) =~= visible_texts(left));
    } else {
        lemma_visible_texts_add(left, right.drop_last());
        assert((left + right).drop_last() =~= left + right.drop_last());
        assert(visible_texts(left + right) =~= visible_texts(left) + visible_texts(right));
    }
}

/// Function calls bring no text.
proof fn lemma_calls_deltas(e: Emission, calls: Seq<(Seq<char>, Seq<char>)>, ids: Seq<CallIds>)
    ensures
        deltas_of(function_calls_from(e, calls, ids).events) == deltas_of(e.events),
    decreases calls.len(),
{
    if calls.len() > 0 {
        lemma_calls_deltas(e, calls.drop_last(), ids.drop_last());
        let before = function_calls_from(e, calls.drop_last(), ids.drop_last());
        let done = function_calls_from(e, calls, ids);
        let n = before.events.len() as int;
        let one = before.events.push(done.events[n]);
        let two = one.push(done.events[n + 1]);
        let three = two.push(done.events[n + 2]);
        lemma_deltas_push(before.events, done.events[n]);
        lemma_deltas_push(one, done.events[n + 1]);
        lemma_deltas_push(two, done.events[n + 2]);
        lemma_deltas_push(three, done.events[n + 3]);
        assert(done.events =~= three.push(done.events[n + 3]));
    }
}

/// The stages after the last chunk bring no text.
proof fn lemma_end_deltas(e: Emission, meta: RespMetaView, draw: Draw)
    ensures
        deltas_of(end_step(e, meta, draw.reasoning, draw.calls, draw.now).events) == deltas_of(
            e.events,
        ),
{
    lemma_flush_deltas(e, draw.reasoning);
    let flushed = flush_step(e, draw.reasoning);
    let closed = close_step(flushed);
    if flushed.state.msg_open == MsgOpen::Open {
        lemma_deltas_push(flushed.events, closed.events.last());
    }
    let emptied = Emission {
        state: StreamStateView { fcs: Seq::empty(), ..closed.state },
        ..closed
    };
    lemma_calls_deltas(emptied, closed.state.fcs, draw.calls);
    let called = function_calls_step(closed, draw.calls);
    let done = end_step(e, meta, draw.reasoning, draw.calls, draw.now);
    lemma_deltas_push(called.events, done.events.last());
    assert(done.events =~= called.events.push(done.events.last()));
}

/// A prefix of a prefix.
proof fn lemma_prefix_of_prefix(a: Seq<Seq<char>>, b: Seq<Seq<char>>, c: Seq<Seq<char>>)
    requires
        a.is_prefix_of(b),
        b.is_prefix_of(c),
    ensures
        a.is_prefix_of(c),
{
    assert(c.take(a.len() as int) =~= b.take(a.len() as int));
}

/// The deltas of a session are the visible texts that gemini sent, one for one, in order and
/// character for character; where the receiver went away, the first ones of them.
pub proof fn law_deltas_are_the_visible_texts(meta: RespMetaView, turns: Seq<Turn>)
    ensures
        run(meta, turns).phase != SessionPhase::Closed ==> deltas_of(run(meta, turns).log)
            == visible_texts(parts_read(meta, turns)),
        deltas_of(run(meta, turns).log).is_prefix_of(visible_texts(parts_read(meta, turns))),
        run(meta, turns).phase == SessionPhase::Connecting || run(meta, turns).phase
            == SessionPhase::Streaming ==> (run(meta, turns).state.msg_open == MsgOpen::Open
            <==> visible_texts(parts_read(meta, turns)).len() > 0),
    decreases turns.len(),
{
    let session = run(meta, turns);
    if turns.len() == 0 {
        let none = Seq::<StreamEventView>::empty();
        let log = started(meta).log;
        lemma_deltas_push(none, log[0]);
        lemma_deltas_push(none.push(log[0]), log[1]);
        assert(log =~= none.push(log[0]).push(log[1]));
        assert(deltas_of(log) =~= Seq::empty());
    } else {
        let before = run(meta, turns.drop_last());
        law_deltas_are_the_visible_texts(meta, turns.drop_last());
        lemma_run_sound(meta, turns.drop_last());
        let e = before.emitted();
        let texts = visible_texts(parts_read(meta, turns.drop_last()));
        match turns.last() {
            Turn::Asked => {},
            Turn::Closed => {
                lemma_deltas_prefix(before.log, before.sent as int);
                lemma_prefix_of_prefix(deltas_of(session.log), deltas_of(before.log), texts);
            },
            Turn::Told(event, draw) => match before.phase {
                SessionPhase::Connecting => {
                    if event is ConnectFailed || event is ConnectTimedOut {
                        lemma_deltas_push(before.log, session.log.last());
                        assert(session.log =~= before.log.push(session.log.last()));
                    }
                },
                SessionPhase::Streaming => match event {
                    Upstream::Chunk(chunk) => {
                        lemma_parts_deltas(e, chunk_parts(chunk), draw.parts);
                        lemma_chunk_keeps(e, chunk, draw.parts);
                        assert(chunk_parts(chunk) == parts_sent(chunk));
                        let chunks = chunks_read(meta, turns);
                        assert(chunks.drop_last() =~= chunks_read(meta, turns.drop_last()));
                        lemma_visible_texts_add(
                            parts_read(meta, turns.drop_last()),
                            parts_sent(chunk),
                        );
                    },
                    Upstream::Ended => {
                        lemma_end_deltas(e, before.meta, draw);
                    },
                    Upstream::Errored(_) | Upstream::Stalled => {
                        lemma_deltas_push(before.log, session.log.last());
                        assert(session.log =~= before.log.push(session.log.last()));
                    },
                    _ => {},
                },
                _ => {},
            },
        }
    }
}

/// The text of a stream is its deltas one behind the other.
proof fn lemma_text_is_deltas(events: Seq<StreamEventView>)
    ensures
        text_of(events) == run_together(deltas_of(events)),
    decreases events.len(),
{
    if events.len() > 0 {
        lemma_text_is_deltas(events.drop_last());
        if let StreamEventView::OutputTextDelta { delta, .. } = events.last() {
            let earlier = deltas_of(events.drop_last());
            assert(earlier.push(delta).drop_last() =~= earlier);
        }
    }
}

/// A whole message reads as all that gemini meant to be seen, character for character.
pub proof fn law_a_message_reads_as_gemini_said(
    meta: RespMetaView,
    turns: Seq<Turn>,
    i: int,
    number: u64,
    index: u32,
    item: OutputItemView,
)
    requires
        run(meta, turns).phase != SessionPhase::Closed,
        0 <= i < run(meta, turns).log.len(),
        run(meta, turns).log[i] == (StreamEventView::OutputItemDone {
            sequence_number: number,
            output_index: index,
            item,
        }),
        item is Message,
    ensures
        item->Message_0.content == seq![run_together(visible_texts(parts_read(meta, turns)))],
        item->Message_0.status == OutputStatus::Completed,
{
    law_a_message_is_its_deltas(meta, turns, i, number, index, item);
    crate::protocol::law_events_follow_on(meta, turns, i);
    law_deltas_are_the_visible_texts(meta, turns);
    lemma_text_is_deltas(run(meta, turns).log);
}

/// Whether a response says a text, in one whole message.
pub open spec fn says(response: ResponseView, text: Seq<char>) -> bool {
    exists|i: int|
        0 <= i < response.output.len() && (#[trigger] response.output[i] matches
            OutputItemView::Message(message) && message.content == seq![text] && message.status
            == OutputStatus::Completed)
}

/// The terminal response of a stream that ended cleanly says all that gemini meant to be seen.
pub proof fn law_the_response_says_what_gemini_said(
    meta: RespMetaView,
    turns: Seq<Turn>,
    draw: Draw,
)
    requires
        run(meta, turns).phase == SessionPhase::Streaming,
        valid_draw(run(meta, turns), Upstream::Ended, draw),
        added_count(ended_cleanly(meta, turns, draw).log) <= INDEX_COUNT,
        visible_texts(parts_read(meta, turns)).len() > 0,
    ensures
        response_of(ended_cleanly(meta, turns, draw).log.last()) matches Some(response) && says(
            response,
            run_together(visible_texts(parts_read(meta, turns))),
        ),
{
    law_every_item_ends_once(meta, turns, draw);
    law_deltas_are_the_visible_texts(meta, turns);
    lemma_run_sound(meta, turns);
    lemma_run_accounted(meta, turns);
    let session = run(meta, turns);
    let e = session.emitted();
    let flushed = flush_step(e, draw.reasoning);
    lemma_flush_live(e, draw.reasoning);
    lemma_flush_deltas(e, draw.reasoning);
    lemma_text_is_deltas(flushed.events);
    let closed = close_step(flushed);
    let spoken = run_together(visible_texts(parts_read(meta, turns)));
    assert(closed.state.out_items.last().1 == crate::finish::whole_message(flushed.state));
    assert(flushed.state.text == spoken);
    lemma_end_accounted(e, draw.reasoning, draw.calls);
    let called = before_terminal(e, draw.reasoning, draw.calls);
    lemma_calls_keep_items(closed, draw.calls);
    let p = closed.state.out_items.len() - 1;
    let log = ended_cleanly(meta, turns, draw).log;
    lemma_push(called.events, log.last());
    assert(log =~= called.events.push(log.last()));
    let whole = done_entries(log);
    assert(whole == called.state.out_items);
    assert(whole[p] == closed.state.out_items[p]);
    let response = response_of(log.last())->0;
    assert(response.output[whole[p].0 as int] == whole[p].1);
}

/// Function calls leave earlier items as they are.
proof fn lemma_calls_keep_items(e: Emission, ids: Seq<CallIds>)
    ensures
        e.state.out_items.is_prefix_of(function_calls_step(e, ids).state.out_items),
        forall|p: int|
            0 <= p < e.state.out_items.len() ==> #[trigger] function_calls_step(
                e,
                ids,
            ).state.out_items[p] == e.state.out_items[p],
        function_calls_step(e, ids).state.usage == e.state.usage,
        function_calls_step(e, ids).state.finish == e.state.finish,
        function_calls_step(e, ids).state.got_finish == e.state.got_finish,
{
    let emptied = Emission { state: StreamStateView { fcs: Seq::empty(), ..e.state }, ..e };
    lemma_calls_from_keep(emptied, e.state.fcs, ids);
}

/// Function calls leave earlier items, the usage and the finish as they are.
proof fn lemma_calls_from_keep(e: Emission, calls: Seq<(Seq<char>, Seq<char>)>, ids: Seq<CallIds>)
    ensures
        e.state.out_items.len() <= function_calls_from(e, calls, ids).state.out_items.len(),
        forall|p: int|
            0 <= p < e.state.out_items.len() ==> #[trigger] function_calls_from(
                e,
                calls,
                ids,
            ).state.out_items[p] == e.state.out_items[p],
        function_calls_from(e, calls, ids).state.usage == e.state.usage,
        function_calls_from(e, calls, ids).state.finish == e.state.finish,
        function_calls_from(e, calls, ids).state.got_finish == e.state.got_finish,
    decreases calls.len(),
{
    if calls.len() > 0 {
        lemma_calls_from_keep(e, calls.drop_last(), ids.drop_last());
    }
}

// ---------------------------------------------------------------------------------------------
// Function calls
// ---------------------------------------------------------------------------------------------

/// Whether a text is that of call arguments: the JSON text of an object, and an empty object for
/// anything else.
pub open spec fn is_text_of_args(text: Seq<char>, args: Json) -> bool {
    &&& args is Object && written(args) is Some ==> written(args) == Some(text)
    &&& !(args is Object && written(args) is Some) ==> text == "{}"@
}

/// Whether an item is the whole of a call: under its name, with its arguments.
pub open spec fn is_whole_call(item: OutputItemView, call: FunctionCall) -> bool {
    item matches OutputItemView::FunctionCall(made) && {
        &&& made.name == call.name@
        &&& is_text_of_args(made.arguments, json(call.args))
        &&& made.status == OutputStatus::Completed
        &&& is_id("fc_"@, made.id)
        &&& is_id("call_"@, made.call_id)
    }
}

/// The queued calls are the calls among parts.
proof fn lemma_calls_in(parts: Seq<ReplyPart>)
    ensures
        calls_in(parts).len() == calls_among(parts).len(),
        forall|j: int|
            0 <= j < calls_among(parts).len() ==> (#[trigger] calls_in(parts)[j]).0 == calls_among(
                parts,
            )[j].name@ && is_text_of_args(
                calls_in(parts)[j].1,
                json(calls_among(parts)[j].args),
            ),
    decreases parts.len(),
{
    if parts.len() > 0 {
        lemma_calls_in(parts.drop_last());
    }
}

/// Calls among parts behind others.
proof fn lemma_calls_in_add(left: Seq<ReplyPart>, right: Seq<ReplyPart>)
    ensures
        calls_in(left + right) == calls_in(left) + calls_in(right),
    decreases right.len(),
{
    if right.len() == 0 {
        assert(left + right =~= left);
        assert(calls_in(left) + calls_in(right) =~= calls_in(left));
    } else {
        lemma_calls_in_add(left, right.drop_last());
        assert((left + right).drop_last() =~= left + right.drop_last());
        assert(calls_in(left + right) =~= calls_in(left) + calls_in(right));
    }
}

/// The calls heard are those among the parts read.
proof fn lemma_calls_heard(meta: RespMetaView, turns: Seq<Turn>)
    ensures
        calls_heard(meta, turns) == calls_in(parts_read(meta, turns)),
    decreases turns.len(),
{
    if turns.len() == 0 {
        assert(calls_heard(meta, turns) =~= calls_in(parts_read(meta, turns)));
    } else {
        lemma_calls_heard(meta, turns.drop_last());
        if let Turn::Told(Upstream::Chunk(chunk), _) = turns.last() {
            if run(meta, turns.drop_last()).phase == SessionPhase::Streaming {
                let chunks = chunks_read(meta, turns);
                assert(chunks.drop_last() =~= chunks_read(meta, turns.drop_last()));
                assert(chunk_parts(chunk) == parts_sent(chunk));
                lemma_calls_in_add(parts_read(meta, turns.drop_last()), parts_sent(chunk));
            }
        }
    }
}

/// Of a stream that ended cleanly, every call that gemini made is announced as a whole item, and
/// listed in the terminal response behind everything else, in order: under its name, with the JSON
/// text of its arguments, out of which they can be read where that text parses to them.
pub proof fn law_every_call_comes_out(
    meta: RespMetaView,
    turns: Seq<Turn>,
    draw: Draw,
    j: int,
)
    requires
        run(meta, turns).phase == SessionPhase::Streaming,
        valid_draw(run(meta, turns), Upstream::Ended, draw),
        added_count(ended_cleanly(meta, turns, draw).log) <= INDEX_COUNT,
        0 <= j < calls_among(parts_read(meta, turns)).len(),
    ensures
        ({
            let calls = calls_among(parts_read(meta, turns));
            let log = ended_cleanly(meta, turns, draw).log;
            let whole = done_entries(log);
            let at = whole.len() - calls.len() + j;
            &&& calls.len() <= whole.len()
            &&& whole[at].0 == at
            &&& is_whole_call(whole[at].1, calls[j])
            &&& response_of(log.last()) matches Some(response) && response.output.len()
                == whole.len() && is_whole_call(response.output[at], calls[j])
            &&& json(calls[j].args) is Object && written(json(calls[j].args)) is Some && parsed(
                written(json(calls[j].args))->0,
            ) == Some(json(calls[j].args)) ==> parsed(
                whole[at].1->FunctionCall_0.arguments,
            ) == Some(json(calls[j].args))
        }),
{
    law_every_item_ends_once(meta, turns, draw);
    lemma_run_accounted(meta, turns);
    lemma_calls_heard(meta, turns);
    lemma_calls_in(parts_read(meta, turns));
    let calls = calls_heard(meta, turns);
    let log = ended_cleanly(meta, turns, draw).log;
    let whole = done_entries(log);
    let first = (whole.len() - calls.len()) as nat;
    let at = first + j;
    assert(whole.skip(first as int)[j] == whole[at]);
    assert(call_entries(first, calls, draw.calls)[j] == whole[at]);
    assert(draw.calls[j].valid());
    assert(whole[at].0 < whole.len());
    let response = response_of(log.last())->0;
    assert(response.output[whole[at].0 as int] == whole[at].1);
}

/// A call comes out as one item in four events: added, its arguments, its arguments as done, and
/// whole; under its name, with its arguments, and under its own ids.
pub proof fn law_calls_come_out_in_four(
    e: Emission,
    name: Seq<char>,
    arguments: Seq<char>,
    ids: CallIds,
)
    ensures
        ({
            let after = function_call_step(e, name, arguments, ids);
            let n = e.events.len() as int;
            let index = e.state.output_index;
            &&& after.events.len() == n + 4
            &&& after.events.take(n) == e.events
            &&& after.events[n] matches StreamEventView::OutputItemAdded {
                output_index,
                item: OutputItemView::FunctionCall(made),
                ..
            } && output_index == index && made.name == name && made.arguments == arguments
                && made.id == ids.item && made.call_id == ids.call
            &&& after.events[n + 1] matches StreamEventView::FunctionCallArgumentsDelta {
                output_index,
                item_id,
                delta,
                ..
            } && output_index == index && item_id == ids.item && delta == arguments
            &&& after.events[n + 2] matches StreamEventView::FunctionCallArgumentsDone {
                output_index,
                item_id,
                arguments: whole,
                ..
            } && output_index == index && item_id == ids.item && whole == arguments
            &&& after.events[n + 3] matches StreamEventView::OutputItemDone {
                output_index,
                item: OutputItemView::FunctionCall(made),
                ..
            } && output_index == index && made.name == name && made.arguments == arguments
                && made.id == ids.item && made.call_id == ids.call
            &&& after.state.out_items.len() == e.state.out_items.len() + 1
        }),
{
    let after = function_call_step(e, name, arguments, ids);
    assert(after.events.take(e.events.len() as int) =~= e.events);
}

/// A text ends in its delta, in the message that is open, and goes behind the text so far.
pub proof fn law_texts_end_in_their_delta(e: Emission, text: Seq<char>, ids: PartIds)
    ensures
        ({
            let after = text_step(e, text, ids);
            &&& after.state.text == e.state.text + text
            &&& after.state.msg_open == MsgOpen::Open
            &&& after.events.last() matches StreamEventView::OutputTextDelta {
                item_id,
                output_index,
                content_index,
                delta,
                ..
            } && delta == text && item_id == after.state.msg_id && output_index
                == after.state.msg_oi && content_index == 0
            &&& e.state.msg_open == MsgOpen::Open ==> after.state.msg_id == e.state.msg_id
                && after.state.msg_oi == e.state.msg_oi
            &&& e.state.msg_open == MsgOpen::Closed ==> after.state.msg_id == ids.message
        }),
{
}

// ---------------------------------------------------------------------------------------------
// Usage and finish
// ---------------------------------------------------------------------------------------------

/// A token count, zero where it is missing or negative.
pub open spec fn tokens(count: Option<i32>) -> int {
    if count is Some && count->0 >= 0 {
        count->0 as int
    } else {
        0
    }
}

/// Whether a usage reports token counts: the output counts the thoughts in.
pub open spec fn reports(usage: ResponseUsage, counts: UsageMetadata) -> bool {
    &&& usage.input_tokens == tokens(counts.prompt_token_count)
    &&& usage.input_tokens_details.cached_tokens == tokens(counts.cached_content_token_count)
    &&& usage.output_tokens == tokens(counts.candidates_token_count) + tokens(
        counts.thoughts_token_count,
    )
    &&& usage.output_tokens_details.reasoning_tokens == tokens(counts.thoughts_token_count)
    &&& usage.total_tokens == tokens(counts.total_token_count)
}

/// Gemini's counts are reported as they are, the thoughts as a part of the output.
pub proof fn law_counts_are_reported(counts: UsageMetadata)
    ensures
        reports(crate::usage::usage_of(counts), counts),
{
}

/// Whether an optional usage reports optional counts.
pub open spec fn reports_opt(usage: Option<ResponseUsage>, counts: Option<UsageMetadata>) -> bool {
    match counts {
        Some(held) => usage is Some && reports(usage->0, held),
        None => usage is None,
    }
}

/// Parts leave the usage and the finish alone.
proof fn lemma_parts_leave(e: Emission, parts: Seq<ReplyPart>, ids: Seq<PartIds>)
    ensures
        parts_step(e, parts, ids).state.usage == e.state.usage,
        parts_step(e, parts, ids).state.finish == e.state.finish,
        parts_step(e, parts, ids).state.got_finish == e.state.got_finish,
    decreases parts.len(),
{
    if parts.len() > 0 {
        lemma_parts_leave(e, parts.drop_last(), ids.drop_last());
    }
}

/// A running session holds the last counts and the last finish that it read.
proof fn lemma_run_holds(meta: RespMetaView, turns: Seq<Turn>)
    ensures
        run(meta, turns).phase == SessionPhase::Connecting || run(meta, turns).phase
            == SessionPhase::Streaming ==> {
            &&& reports_opt(
                run(meta, turns).state.usage,
                last_counts(chunks_read(meta, turns)),
            )
            &&& run(meta, turns).state.finish == last_finish(chunks_read(meta, turns))
            &&& run(meta, turns).state.got_finish == FinishObserved::Yes <==> run(
                meta,
                turns,
            ).state.finish is Some
        },
    decreases turns.len(),
{
    if turns.len() > 0 {
        lemma_run_holds(meta, turns.drop_last());
        let before = run(meta, turns.drop_last());
        if let Turn::Told(Upstream::Chunk(chunk), draw) = turns.last() {
            if before.phase == SessionPhase::Streaming {
                lemma_parts_leave(before.emitted(), chunk_parts(chunk), draw.parts);
                let chunks = chunks_read(meta, turns);
                assert(chunks.drop_last() =~= chunks_read(meta, turns.drop_last()));
                if let Some(counts) = chunk.usage_metadata {
                    law_counts_are_reported(counts);
                }
            }
        }
    }
}

/// The name that a finish reason has in gemini's own enumeration.
pub open spec fn shown(reason: FinishReason) -> Seq<char> {
    if reason == FinishReason::FinishReasonUnspecified {
        "FinishReasonUnspecified"@
    } else if reason == FinishReason::Stop {
        "Stop"@
    } else if reason == FinishReason::MaxTokens {
        "MaxTokens"@
    } else if reason == FinishReason::Safety {
        "Safety"@
    } else if reason == FinishReason::Recitation {
        "Recitation"@
    } else if reason == FinishReason::Language {
        "Language"@
    } else if reason == FinishReason::Other {
        "Other"@
    } else if reason == FinishReason::Blocklist {
        "Blocklist"@
    } else if reason == FinishReason::ProhibitedContent {
        "ProhibitedContent"@
    } else if reason == FinishReason::Spii {
        "Spii"@
    } else if reason == FinishReason::MalformedFunctionCall {
        "MalformedFunctionCall"@
    } else if reason == FinishReason::ImageSafety {
        "ImageSafety"@
    } else if reason == FinishReason::UnexpectedToolCall {
        "UnexpectedToolCall"@
    } else {
        "TooManyToolCalls"@
    }
}

/// Whether a response failed for a cause.
pub open spec fn failed_for(response: ResponseView, cause: Seq<char>) -> bool {
    &&& response.status == Status::Failed
    &&& response.incomplete_reason is None
    &&& response.error matches Some(error) && error.code == "upstream_failure"@ && error.message
        == cause
}

/// Whether a response was bounded for a reason.
pub open spec fn bounded_for(response: ResponseView, reason: Seq<char>) -> bool {
    &&& response.status == Status::Incomplete
    &&& response.error is None
    &&& response.incomplete_reason == Some(reason)
}

/// Whether a failure names a finish reason, or says that there was none.
pub open spec fn names_the_finish(response: ResponseView, finish: Option<FinishReason>) -> bool {
    match finish {
        None => failed_for(response, "gemini stream ended without a finish reason"@),
        Some(reason) => failed_for(response, "gemini terminated abnormally: "@ + shown(reason)),
    }
}

/// Whether an event ends a stream as a finish reason calls for: completed for a stop, incomplete
/// for a token cap or blocked content, failed for anything else.
pub open spec fn ends_for(event: StreamEventView, finish: Option<FinishReason>) -> bool {
    if finish == Some(FinishReason::Stop) {
        event matches StreamEventView::ResponseCompleted { response, .. } && response.status
            == Status::Completed && response.error is None && response.incomplete_reason is None
    } else if finish == Some(FinishReason::MaxTokens) {
        event matches StreamEventView::ResponseIncomplete { response, .. } && bounded_for(
            response,
            "max_output_tokens"@,
        )
    } else if finish == Some(FinishReason::Blocklist) || finish == Some(FinishReason::ImageSafety)
        || finish == Some(FinishReason::ProhibitedContent) || finish == Some(
        FinishReason::Recitation,
    ) || finish == Some(FinishReason::Safety) || finish == Some(FinishReason::Spii) {
        event matches StreamEventView::ResponseIncomplete { response, .. } && bounded_for(
            response,
            "content_filter"@,
        )
    } else {
        event matches StreamEventView::ResponseFailed { response, .. } && names_the_finish(
            response,
            finish,
        )
    }
}

/// A stream that ended cleanly ends as the last finish reason calls for, and its terminal response
/// carries the last token counts that gemini sent, none only where it sent none, stamped with the
/// time of its end.
pub proof fn law_the_end_is_as_gemini_said(meta: RespMetaView, turns: Seq<Turn>, draw: Draw)
    requires
        run(meta, turns).phase == SessionPhase::Streaming,
    ensures
        ends_for(
            ended_cleanly(meta, turns, draw).log.last(),
            last_finish(chunks_read(meta, turns)),
        ),
        response_of(ended_cleanly(meta, turns, draw).log.last()) matches Some(response) && {
            &&& reports_opt(response.usage, last_counts(chunks_read(meta, turns)))
            &&& response.completed_at == Some(draw.now)
            &&& response.object == "response"@
        },
{
    lemma_run_holds(meta, turns);
    let e = run(meta, turns).emitted();
    let closed = close_step(flush_step(e, draw.reasoning));
    lemma_calls_keep_items(closed, draw.calls);
}

/// The event that closes a stream carries the usage that there is, whatever the outcome; only a
/// failure has an error, only a bounded response a reason.
pub proof fn law_closings_carry_the_usage(
    s: StreamStateView,
    meta: RespMetaView,
    outcome: TerminalOutcomeView,
    now: u64,
)
    ensures
        response_of(closing_event(s, meta, outcome, now)) matches Some(response) && {
            &&& response.usage == s.usage
            &&& response.output.len() == s.out_items.len()
            &&& response.completed_at == Some(now)
            &&& response.created_at == meta.created
            &&& response.id == meta.response_id
            &&& response.model == meta.model
            &&& outcome is Completed ==> response.status == Status::Completed
            &&& outcome is Failed ==> names_the_finish(response, s.finish)
            &&& outcome matches TerminalOutcomeView::Incomplete(reason) ==> bounded_for(
                response,
                reason,
            )
            &&& response.error is Some <==> outcome is Failed
            &&& response.incomplete_reason is Some <==> outcome is Incomplete
        },
{
    crate::finish::law_output_is_sorted(s.out_items);
    broadcast use vstd::seq_lib::group_to_multiset_ensures;
    let ordered = crate::finish::index_ordered(s.out_items);
    assert(ordered.len() == ordered.to_multiset().len());
    assert(s.out_items.len() == s.out_items.to_multiset().len());
}

/// A finish reason is judged by what gemini means by it, and a stream without one as completed.
pub proof fn law_finishes_are_judged(finish: Option<FinishReason>)
    ensures
        outcome_of(finish) is Completed <==> finish is None || finish == Some(FinishReason::Stop),
        outcome_of(finish) == TerminalOutcomeView::Incomplete("max_output_tokens"@) <==> finish
            == Some(FinishReason::MaxTokens),
        outcome_of(finish) == TerminalOutcomeView::Incomplete("content_filter"@) <==> finish
            == Some(FinishReason::Blocklist) || finish == Some(FinishReason::ImageSafety) || finish
            == Some(FinishReason::ProhibitedContent) || finish == Some(FinishReason::Recitation)
            || finish == Some(FinishReason::Safety) || finish == Some(FinishReason::Spii),
        outcome_of(finish) is Incomplete ==> outcome_of(finish)->Incomplete_0
            == "max_output_tokens"@ || outcome_of(finish)->Incomplete_0 == "content_filter"@,
{
    reveal_strlit("content_filter");
    reveal_strlit("max_output_tokens");
    assert("content_filter"@.len() != "max_output_tokens"@.len());
}

/// A stalled stream fails, naming the last finish reason; its response carries the items and the
/// last token counts so far.
pub proof fn law_a_stall_fails_with_what_there_is(
    meta: RespMetaView,
    turns: Seq<Turn>,
    draw: Draw,
)
    requires
        run(meta, turns).phase == SessionPhase::Streaming,
    ensures
        ({
            let stalled = upstream_step(run(meta, turns), Upstream::Stalled, draw);
            &&& stalled.log.len() == run(meta, turns).log.len() + 1
            &&& stalled.log.last() matches StreamEventView::ResponseFailed { response, .. } && {
                &&& names_the_finish(response, last_finish(chunks_read(meta, turns)))
                &&& reports_opt(response.usage, last_counts(chunks_read(meta, turns)))
                &&& response.completed_at == Some(draw.now)
                &&& response.output.len() == done_entries(run(meta, turns).log).len()
            }
        }),
{
    lemma_run_holds(meta, turns);
    lemma_run_sound(meta, turns);
    crate::finish::law_output_is_sorted(run(meta, turns).state.out_items);
    broadcast use vstd::seq_lib::group_to_multiset_ensures;
    let entries = run(meta, turns).state.out_items;
    let ordered = crate::finish::index_ordered(entries);
    assert(ordered.len() == ordered.to_multiset().len());
    assert(entries.len() == entries.to_multiset().len());
}

/// Whether an event is a failure for a cause, without output.
pub open spec fn is_bare_failure(event: StreamEventView, cause: Seq<char>, now: u64) -> bool {
    event matches StreamEventView::ResponseFailed { response, .. } && {
        &&& failed_for(response, cause)
        &&& response.output.len() == 0
        &&& response.usage is None
        &&& response.completed_at == Some(now)
    }
}

/// What went wrong upstream is said in the failure: one event, for that cause.
pub proof fn law_faults_say_why(session: SessionView, error: String, draw: Draw)
    ensures
        session.phase == SessionPhase::Connecting ==> {
            &&& is_bare_failure(
                upstream_step(session, Upstream::ConnectFailed(error), draw).log.last(),
                "gemini connect error: "@ + error@,
                draw.now,
            )
            &&& is_bare_failure(
                upstream_step(session, Upstream::ConnectTimedOut, draw).log.last(),
                "gemini connect timeout 60s"@,
                draw.now,
            )
        },
        session.phase == SessionPhase::Streaming ==> is_bare_failure(
            upstream_step(session, Upstream::Errored(error), draw).log.last(),
            "gemini stream error: "@ + error@,
            draw.now,
        ),
{
}

// ---------------------------------------------------------------------------------------------
// The opening
// ---------------------------------------------------------------------------------------------

/// Whether an event opens a stream: in progress, with nothing in it yet.
pub open spec fn is_opening(event: StreamEventView) -> bool {
    response_of(event) matches Some(response) && {
        &&& response.status == Status::InProgress
        &&& response.output.len() == 0
        &&& response.completed_at is None
        &&& response.error is None
        &&& response.incomplete_reason is None
        &&& response.usage is None
        &&& response.object == "response"@
    }
}

/// A stream opens in progress, with nothing in it yet.
pub proof fn law_streams_open_in_progress(meta: RespMetaView, turns: Seq<Turn>, i: int)
    requires
        0 <= i < 2,
        i < run(meta, turns).log.len(),
    ensures
        is_opening(run(meta, turns).log[i]),
    decreases turns.len(),
{
    if turns.len() > 0 {
        let before = run(meta, turns.drop_last());
        lemma_run_sound(meta, turns.drop_last());
        let e = before.emitted();
        if let Turn::Told(event, draw) = turns.last() {
            if before.phase == SessionPhase::Streaming {
                match event {
                    Upstream::Chunk(chunk) => {
                        lemma_chunk_extends(e, chunk, draw.parts);
                    },
                    Upstream::Ended => {
                        lemma_end_extends(
                            e,
                            before.meta,
                            draw.reasoning,
                            draw.calls,
                            draw.now,
                        );
                    },
                    _ => {},
                }
            }
        }
        assert(i < before.log.len());
        assert(run(meta, turns).log[i] == before.log[i]);
        law_streams_open_in_progress(meta, turns.drop_last(), i);
    }
}

/// Numbers and indices count up by one, and begin anew behind the last.
pub proof fn law_numbers_count_round(number: u64, index: u32)
    ensures
        number < u64::MAX ==> after(number) == number + 1,
        number == u64::MAX ==> after(number) == 0,
        index < u32::MAX ==> next_index(index) == index + 1,
        index == u32::MAX ==> next_index(index) == 0,
{
}

/// A session asks for what its stream needs next, once its events are handed out: to connect, for
/// the next chunk, or for nothing more once the stream ended or could not be opened.
pub proof fn law_sessions_ask_in_turn(session: SessionView, event: Upstream, draw: Draw)
    ensures
        session.sent < session.log.len() ==> next_of(session) == ActionView::Send(
            session.log[session.sent as int],
        ),
        ({
            let after = upstream_step(session, event, draw);
            let drained = SessionView { sent: after.log.len(), ..after };
            &&& session.phase == SessionPhase::Connecting && event is Connected ==> next_of(drained)
                == ActionView::NextChunk && after.log == session.log
            &&& session.phase == SessionPhase::Connecting && (event is ConnectFailed || event
                is ConnectTimedOut) ==> next_of(drained) == ActionView::Stop
            &&& session.phase == SessionPhase::Streaming && event is Chunk ==> next_of(drained)
                == ActionView::NextChunk
            &&& session.phase == SessionPhase::Streaming && (event is Ended || event is Errored
                || event is Stalled) ==> next_of(drained) == ActionView::Stop
            &&& after.sent == session.sent
            &&& after.meta == session.meta
            &&& session.phase == SessionPhase::Connecting && !(event is Connected || event
                is ConnectFailed || event is ConnectTimedOut) ==> after == session
            &&& session.phase == SessionPhase::Streaming && (event is Connected || event
                is ConnectFailed || event is ConnectTimedOut) ==> after == session
        }),
        ({
            let asked = action_step(session);
            &&& asked.log == session.log
            &&& asked.phase == session.phase
            &&& asked.meta == session.meta
            &&& asked.state == session.state
            &&& asked.sent == session.sent + if session.sent < session.log.len() {
                1int
            } else {
                0int
            }
        }),
        next_of(SessionView { sent: started(session.meta).log.len(), ..started(session.meta) })
            == ActionView::Connect,
{
}

// ---------------------------------------------------------------------------------------------
// Reasoning
// ---------------------------------------------------------------------------------------------

/// Whether a part is the summary of a thought.
pub open spec fn is_thought(part: ReplyPart) -> bool {
    part matches ReplyPart::Text { thought, .. } && thought == Some(true)
}

/// The summaries of thoughts, one behind the other.
pub open spec fn thought_text(thoughts: Seq<ReplyPart>) -> Seq<char>
    decreases thoughts.len(),
{
    if thoughts.len() == 0 {
        Seq::empty()
    } else {
        thought_text(thoughts.drop_last()) + thoughts.last()->Text_text@
    }
}

/// The last signature among thoughts, or an earlier one where none has any.
pub open spec fn last_signature(thoughts: Seq<ReplyPart>, earlier: Seq<char>) -> Seq<char>
    decreases thoughts.len(),
{
    if thoughts.len() == 0 {
        earlier
    } else if thoughts.last()->Text_thought_signature is Some {
        thoughts.last()->Text_thought_signature->0@
    } else {
        last_signature(thoughts.drop_last(), earlier)
    }
}

/// Thoughts are taken in without an event.
proof fn lemma_thoughts(e: Emission, thoughts: Seq<ReplyPart>, ids: Seq<PartIds>)
    requires
        forall|i: int| 0 <= i < thoughts.len() ==> is_thought(#[trigger] thoughts[i]),
    ensures
        parts_step(e, thoughts, ids) == (Emission {
            state: StreamStateView {
                reasoning: e.state.reasoning + thought_text(thoughts),
                rsn_sig: last_signature(thoughts, e.state.rsn_sig),
                ..e.state
            },
            ..e
        }),
    decreases thoughts.len(),
{
    if thoughts.len() == 0 {
        assert(e.state.reasoning + thought_text(thoughts) =~= e.state.reasoning);
    } else {
        let rest = thoughts.drop_last();
        assert forall|i: int| 0 <= i < rest.len() implies is_thought(#[trigger] rest[i]) by {
            assert(rest[i] == thoughts[i]);
        }
        lemma_thoughts(e, rest, ids.drop_last());
        assert(is_thought(thoughts[thoughts.len() - 1]));
        let done = parts_step(e, thoughts, ids);
        assert(done.state.reasoning =~= e.state.reasoning + thought_text(thoughts));
    }
}

/// Whether events bring a whole reasoning item next, behind earlier ones.
pub open spec fn brings_reasoning(
    events: Seq<StreamEventView>,
    earlier: nat,
    index: u32,
    item: ReasoningItemView,
) -> bool {
    &&& events.len() >= earlier + 2
    &&& events[earlier as int] matches StreamEventView::OutputItemAdded {
        output_index,
        item: added,
        ..
    } && output_index == index && added == OutputItemView::Reasoning(item)
    &&& events[earlier as int + 1] matches StreamEventView::OutputItemDone {
        output_index,
        item: done,
        ..
    } && output_index == index && done == OutputItemView::Reasoning(item)
}

/// Thoughts that were not shown yet come out before the text or the call that they led to, or at
/// the end: one whole item, with all their summaries and the last signature.
pub proof fn law_thoughts_come_out_whole(
    e: Emission,
    thoughts: Seq<ReplyPart>,
    ids: Seq<PartIds>,
    part: ReplyPart,
    next: PartIds,
    meta: RespMetaView,
    draw: Draw,
)
    requires
        forall|i: int| 0 <= i < thoughts.len() ==> is_thought(#[trigger] thoughts[i]),
        e.state.rsn_emitted == RsnEmitted::No,
        e.state.reasoning.len() + thought_text(thoughts).len() > 0 || last_signature(
            thoughts,
            e.state.rsn_sig,
        ).len() > 0,
        is_visible_text(part) || (part is FunctionCall && part->FunctionCall_thought_signature
            is None),
    ensures
        ({
            let taken = parts_step(e, thoughts, ids);
            let item = ReasoningItemView {
                encrypted_content: last_signature(thoughts, e.state.rsn_sig),
                id: next.reasoning,
                status: OutputStatus::Completed,
                summary_text: e.state.reasoning + thought_text(thoughts),
            };
            let index = e.state.output_index;
            let n = e.events.len();
            &&& taken.events == e.events
            &&& brings_reasoning(part_step(taken, part, next).events, n, index, item)
            &&& brings_reasoning(
                end_step(taken, meta, next.reasoning, draw.calls, draw.now).events,
                n,
                index,
                item,
            )
        }),
{
    lemma_thoughts(e, thoughts, ids);
    let taken = parts_step(e, thoughts, ids);
    let flushed = flush_step(taken, next.reasoning);
    let done = end_step(taken, meta, next.reasoning, draw.calls, draw.now);
    lemma_rest_extends(flushed, meta, draw);
    let n = e.events.len() as int;
    assert(done.events[n] == flushed.events[n]);
    assert(done.events[n + 1] == flushed.events[n + 1]);
}

/// The stages behind the reasoning only add events.
proof fn lemma_rest_extends(flushed: Emission, meta: RespMetaView, draw: Draw)
    ensures
        ({
            let called = function_calls_step(close_step(flushed), draw.calls);
            &&& flushed.events.len() <= called.events.len()
            &&& forall|i: int|
                0 <= i < flushed.events.len() ==> #[trigger] called.events[i] == flushed.events[i]
        }),
{
    let closed = close_step(flushed);
    let emptied = Emission {
        state: StreamStateView { fcs: Seq::empty(), ..closed.state },
        ..closed
    };
    lemma_calls_from_extend(emptied, closed.state.fcs, draw.calls);
    let called = function_calls_step(closed, draw.calls);
    assert forall|i: int| 0 <= i < flushed.events.len() implies #[trigger] called.events[i]
        == flushed.events[i] by {
        assert(closed.events[i] == flushed.events[i]);
        assert(called.events[i] == emptied.events[i]);
    }
}

/// Function calls only add events.
proof fn lemma_calls_from_extend(
    e: Emission,
    calls: Seq<(Seq<char>, Seq<char>)>,
    ids: Seq<CallIds>,
)
    ensures
        e.events.len() <= function_calls_from(e, calls, ids).events.len(),
        forall|i: int|
            0 <= i < e.events.len() ==> #[trigger] function_calls_from(e, calls, ids).events[i]
                == e.events[i],
    decreases calls.len(),
{
    if calls.len() > 0 {
        lemma_calls_from_extend(e, calls.drop_last(), ids.drop_last());
    }
}

/// A signed call brings its signature out with it: with the thoughts that wait, or alone where they
/// were shown before.
pub proof fn law_signed_calls_bring_their_signature(
    e: Emission,
    call: FunctionCall,
    signature: String,
    next: PartIds,
)
    requires
        signature@.len() > 0 || (e.state.rsn_emitted == RsnEmitted::No && e.state.reasoning.len()
            > 0),
    ensures
        ({
            let part = ReplyPart::FunctionCall {
                function_call: call,
                thought_signature: Some(signature),
            };
            let after = part_step(e, part, next);
            &&& after.events.len() == e.events.len() + 2
            &&& brings_reasoning(
                after.events,
                e.events.len(),
                e.state.output_index,
                ReasoningItemView {
                    encrypted_content: signature@,
                    id: next.reasoning,
                    status: OutputStatus::Completed,
                    summary_text: if e.state.rsn_emitted == RsnEmitted::Yes {
                        Seq::empty()
                    } else {
                        e.state.reasoning
                    },
                },
            )
        }),
{
}

/// Thoughts are shown once: behind a text, or behind a call, neither a further text nor a further
/// call without a signature shows any, and text goes on in the message that is open.
pub proof fn law_thoughts_are_shown_once(
    e: Emission,
    first: ReplyPart,
    second: ReplyPart,
    ids: PartIds,
    next: PartIds,
)
    requires
        is_visible_text(first) || first is FunctionCall,
    ensures
        ({
            let shown = part_step(e, first, ids);
            let after = part_step(shown, second, next);
            &&& second is FunctionCall && second->FunctionCall_thought_signature is None
                ==> after.events == shown.events
            &&& is_visible_text(second) && shown.state.msg_open == MsgOpen::Open
                ==> after.events.len() == shown.events.len() + 1
            &&& is_visible_text(second) && shown.state.msg_open == MsgOpen::Closed
                ==> after.events.len() == shown.events.len() + 2
            &&& is_visible_text(first) ==> shown.state.msg_open == MsgOpen::Open
        }),
{
}

/// Of a text that is meant to be seen only the text counts, and what is neither text nor a call is
/// passed over, as is an empty text.
pub proof fn law_only_text_and_calls_count(
    e: Emission,
    part: ReplyPart,
    other: ReplyPart,
    ids: PartIds,
)
    ensures
        is_visible_text(part) && is_visible_text(other) && part->Text_text@ == other->Text_text@
            ==> part_step(e, part, ids) == part_step(e, other, ids),
        !is_visible_text(part) && !is_thought(part) && !(part is FunctionCall) ==> part_step(
            e,
            part,
            ids,
        ) == e,
{
}

/// What the thoughts that were read come to: those that wait, whether they were shown, and the
/// summary and the signature of each item that shows some.
pub struct Musing {
    pub text: Seq<char>,
    pub signature: Seq<char>,
    pub shown: bool,
    pub items: Seq<(Seq<char>, Seq<char>)>,
}

/// What waits is shown, once.
pub open spec fn shown_now(m: Musing) -> Musing {
    if m.shown || (m.text.len() == 0 && m.signature.len() == 0) {
        m
    } else {
        Musing { shown: true, items: m.items.push((m.text, m.signature)), ..m }
    }
}

/// The thoughts after a part: one more waits; a text or a call shows those that wait; a signed call
/// begins anew where they were shown before.
pub open spec fn mused(m: Musing, part: ReplyPart) -> Musing {
    if is_thought(part) {
        Musing {
            text: m.text + part->Text_text@,
            signature: if part->Text_thought_signature is Some {
                part->Text_thought_signature->0@
            } else {
                m.signature
            },
            ..m
        }
    } else if is_visible_text(part) {
        shown_now(m)
    } else if part is FunctionCall {
        if part->FunctionCall_thought_signature is None {
            shown_now(m)
        } else {
            shown_now(
                Musing {
                    text: if m.shown {
                        Seq::empty()
                    } else {
                        m.text
                    },
                    signature: part->FunctionCall_thought_signature->0@,
                    shown: false,
                    items: m.items,
                },
            )
        }
    } else {
        m
    }
}

/// The thoughts after parts.
pub open spec fn mused_over(parts: Seq<ReplyPart>) -> Musing
    decreases parts.len(),
{
    if parts.len() == 0 {
        Musing {
            text: Seq::empty(),
            signature: Seq::empty(),
            shown: false,
            items: Seq::empty(),
        }
    } else {
        mused(mused_over(parts.drop_last()), parts.last())
    }
}

/// The summary and the signature of each whole reasoning item of a stream, in order.
pub open spec fn musings_of(events: Seq<StreamEventView>) -> Seq<(Seq<char>, Seq<char>)>
    decreases events.len(),
{
    if events.len() == 0 {
        Seq::empty()
    } else {
        match events.last() {
            StreamEventView::OutputItemDone { item: OutputItemView::Reasoning(item), .. } =>
                musings_of(events.drop_last()).push((item.summary_text, item.encrypted_content)),
            _ => musings_of(events.drop_last()),
        }
    }
}

/// One more event.
proof fn lemma_musings_push(events: Seq<StreamEventView>, event: StreamEventView)
    ensures
        musings_of(events.push(event)) == (match event {
            StreamEventView::OutputItemDone { item: OutputItemView::Reasoning(item), .. } =>
                musings_of(events).push((item.summary_text, item.encrypted_content)),
            _ => musings_of(events),
        }),
{
    assert(events.push(event).drop_last() =~= events);
}

/// Whether an emission is where its thoughts are.
spec fn muses(e: Emission, m: Musing) -> bool {
    &&& musings_of(e.events) == m.items
    &&& e.state.reasoning == m.text
    &&& e.state.rsn_sig == m.signature
    &&& e.state.rsn_emitted == RsnEmitted::Yes <==> m.shown
}

/// Flushing shows what waits.
proof fn lemma_flush_muses(e: Emission, m: Musing, id: Seq<char>)
    requires
        muses(e, m),
    ensures
        muses(flush_step(e, id), shown_now(m)),
{
    let flushed = flush_step(e, id);
    if flushed.events != e.events {
        let n = e.events.len() as int;
        let one = e.events.push(flushed.events[n]);
        lemma_musings_push(e.events, flushed.events[n]);
        lemma_musings_push(one, flushed.events[n + 1]);
        assert(flushed.events =~= one.push(flushed.events[n + 1]));
    }
}

/// A part keeps an emission where its thoughts are.
proof fn lemma_part_muses(e: Emission, m: Musing, part: ReplyPart, ids: PartIds)
    requires
        muses(e, m),
    ensures
        muses(part_step(e, part, ids), mused(m, part)),
{
    match part {
        ReplyPart::Text { text, thought, thought_signature } => {
            if is_visible_text(part) {
                lemma_flush_muses(e, m, ids.reasoning);
                let flushed = flush_step(e, ids.reasoning);
                let opened = if flushed.state.msg_open == MsgOpen::Closed {
                    open_message_step(flushed, ids.message)
                } else {
                    flushed
                };
                if flushed.state.msg_open == MsgOpen::Closed {
                    lemma_musings_push(flushed.events, opened.events.last());
                }
                lemma_musings_push(opened.events, delta_step(opened, text@).events.last());
            }
        },
        ReplyPart::FunctionCall { function_call, thought_signature } => {
            let taken = Emission {
                state: crate::stream::signed(e.state, thought_signature.deep_view()),
                ..e
            };
            let before = if thought_signature is None {
                m
            } else {
                Musing {
                    text: if m.shown {
                        Seq::empty()
                    } else {
                        m.text
                    },
                    signature: thought_signature->0@,
                    shown: false,
                    items: m.items,
                }
            };
            lemma_flush_muses(taken, before, ids.reasoning);
        },
        _ => {},
    }
}

/// Parts keep an emission where its thoughts are.
proof fn lemma_parts_muse(
    e: Emission,
    earlier: Seq<ReplyPart>,
    parts: Seq<ReplyPart>,
    ids: Seq<PartIds>,
)
    requires
        muses(e, mused_over(earlier)),
    ensures
        muses(parts_step(e, parts, ids), mused_over(earlier + parts)),
    decreases parts.len(),
{
    if parts.len() == 0 {
        assert(earlier + parts =~= earlier);
    } else {
        let rest = parts.drop_last();
        lemma_parts_muse(e, earlier, rest, ids.drop_last());
        assert((earlier + parts).drop_last() =~= earlier + rest);
        let before = parts_step(e, rest, ids.drop_last());
        lemma_part_muses(before, mused_over(earlier + rest), parts.last(), ids.last());
    }
}

/// A running session is where the thoughts that it read are.
proof fn lemma_run_muses(meta: RespMetaView, turns: Seq<Turn>)
    ensures
        run(meta, turns).phase == SessionPhase::Connecting || run(meta, turns).phase
            == SessionPhase::Streaming ==> muses(
            run(meta, turns).emitted(),
            mused_over(parts_read(meta, turns)),
        ),
    decreases turns.len(),
{
    if turns.len() == 0 {
        let none = Seq::<StreamEventView>::empty();
        let log = started(meta).log;
        lemma_musings_push(none, log[0]);
        lemma_musings_push(none.push(log[0]), log[1]);
        assert(log =~= none.push(log[0]).push(log[1]));
    } else {
        lemma_run_muses(meta, turns.drop_last());
        let before = run(meta, turns.drop_last());
        if let Turn::Told(Upstream::Chunk(chunk), draw) = turns.last() {
            if before.phase == SessionPhase::Streaming {
                let e = before.emitted();
                let earlier = parts_read(meta, turns.drop_last());
                lemma_parts_muse(e, earlier, chunk_parts(chunk), draw.parts);
                lemma_chunk_keeps(e, chunk, draw.parts);
                assert(chunk_parts(chunk) == parts_sent(chunk));
                let chunks = chunks_read(meta, turns);
                assert(chunks.drop_last() =~= chunks_read(meta, turns.drop_last()));
                let done = parts_step(e, chunk_parts(chunk), draw.parts);
                let after = chunk_step(e, chunk, draw.parts);
                assert(after.state.reasoning == done.state.reasoning);
                assert(after.state.rsn_sig == done.state.rsn_sig);
                assert(after.state.rsn_emitted == done.state.rsn_emitted);
            }
        }
    }
}

/// Function calls show no thoughts.
proof fn lemma_calls_muse_not(e: Emission, calls: Seq<(Seq<char>, Seq<char>)>, ids: Seq<CallIds>)
    ensures
        musings_of(function_calls_from(e, calls, ids).events) == musings_of(e.events),
    decreases calls.len(),
{
    if calls.len() > 0 {
        lemma_calls_muse_not(e, calls.drop_last(), ids.drop_last());
        let before = function_calls_from(e, calls.drop_last(), ids.drop_last());
        let done = function_calls_from(e, calls, ids);
        let n = before.events.len() as int;
        let one = before.events.push(done.events[n]);
        let two = one.push(done.events[n + 1]);
        let three = two.push(done.events[n + 2]);
        lemma_musings_push(before.events, done.events[n]);
        lemma_musings_push(one, done.events[n + 1]);
        lemma_musings_push(two, done.events[n + 2]);
        lemma_musings_push(three, done.events[n + 3]);
        assert(done.events =~= three.push(done.events[n + 3]));
    }
}

/// The whole reasoning items of a stream show the thoughts that gemini sent, over all its chunks:
/// each item the summaries that waited and their signature, and at a clean end those that still
/// wait.
pub proof fn law_every_thought_is_shown(meta: RespMetaView, turns: Seq<Turn>, draw: Draw)
    requires
        run(meta, turns).phase == SessionPhase::Streaming,
    ensures
        musings_of(run(meta, turns).log) == mused_over(parts_read(meta, turns)).items,
        musings_of(ended_cleanly(meta, turns, draw).log) == shown_now(
            mused_over(parts_read(meta, turns)),
        ).items,
{
    lemma_run_muses(meta, turns);
    let e = run(meta, turns).emitted();
    lemma_flush_muses(e, mused_over(parts_read(meta, turns)), draw.reasoning);
    let flushed = flush_step(e, draw.reasoning);
    let closed = close_step(flushed);
    if flushed.state.msg_open == MsgOpen::Open {
        lemma_musings_push(flushed.events, closed.events.last());
    }
    let emptied = Emission {
        state: StreamStateView { fcs: Seq::empty(), ..closed.state },
        ..closed
    };
    lemma_calls_muse_not(emptied, closed.state.fcs, draw.calls);
    let called = function_calls_step(closed, draw.calls);
    let done = ended_cleanly(meta, turns, draw).log;
    lemma_musings_push(called.events, done.last());
    assert(done =~= called.events.push(done.last()));
}

// ---------------------------------------------------------------------------------------------
// Identifiers
// ---------------------------------------------------------------------------------------------

/// Whether each draw of a session fits its turn.
pub open spec fn fair(meta: RespMetaView, turns: Seq<Turn>) -> bool
    decreases turns.len(),
{
    turns.len() > 0 ==> {
        &&& fair(meta, turns.drop_last())
        &&& turns.last() matches Turn::Told(event, draw) ==> valid_draw(
            run(meta, turns.drop_last()),
            event,
            draw,
        )
    }
}

/// Whether an item is identified as its kind is.
pub open spec fn is_identified(item: OutputItemView) -> bool {
    match item {
        OutputItemView::FunctionCall(call) => is_id("fc_"@, call.id) && is_id(
            "call_"@,
            call.call_id,
        ),
        OutputItemView::Message(message) => is_id("msg_"@, message.id),
        OutputItemView::Reasoning(reasoning) => is_id("rs_"@, reasoning.id),
    }
}

/// Whether the item that an event adds or ends is identified as its kind is.
pub open spec fn carries_an_id(event: StreamEventView) -> bool {
    match event {
        StreamEventView::OutputItemAdded { item, .. } => is_identified(item),
        StreamEventView::OutputItemDone { item, .. } => is_identified(item),
        _ => true,
    }
}

/// Whether all events of an emission, and its open message, are identified.
spec fn identified(e: Emission) -> bool {
    &&& forall|i: int| 0 <= i < e.events.len() ==> carries_an_id(#[trigger] e.events[i])
    &&& e.state.msg_open == MsgOpen::Open ==> is_id("msg_"@, e.state.msg_id)
}

/// Parts keep items identified.
proof fn lemma_parts_identified(e: Emission, parts: Seq<ReplyPart>, ids: Seq<PartIds>)
    requires
        identified(e),
        ids.len() == parts.len(),
        forall|i: int| 0 <= i < ids.len() ==> (#[trigger] ids[i]).valid(),
    ensures
        identified(parts_step(e, parts, ids)),
    decreases parts.len(),
{
    if parts.len() > 0 {
        let rest = ids.drop_last();
        assert forall|i: int| 0 <= i < rest.len() implies (#[trigger] rest[i]).valid() by {
            assert(rest[i] == ids[i]);
        }
        lemma_parts_identified(e, parts.drop_last(), rest);
        assert(ids[ids.len() - 1].valid());
        let before = parts_step(e, parts.drop_last(), rest);
        lemma_part_identified(before, parts.last(), ids.last());
    }
}

/// Flushing reasoning keeps items identified.
proof fn lemma_flush_identified(e: Emission, id: Seq<char>)
    requires
        identified(e),
        is_id("rs_"@, id),
    ensures
        identified(flush_step(e, id)),
{
}

/// A part keeps items identified.
proof fn lemma_part_identified(e: Emission, part: ReplyPart, ids: PartIds)
    requires
        identified(e),
        ids.valid(),
    ensures
        identified(part_step(e, part, ids)),
{
    match part {
        ReplyPart::Text { text, thought, thought_signature } => {
            lemma_flush_identified(e, ids.reasoning);
            let flushed = flush_step(e, ids.reasoning);
            assert(identified(open_message_step(flushed, ids.message)));
        },
        ReplyPart::FunctionCall { function_call, thought_signature } => {
            let taken = Emission {
                state: crate::stream::signed(e.state, thought_signature.deep_view()),
                ..e
            };
            assert(identified(taken));
            lemma_flush_identified(taken, ids.reasoning);
        },
        _ => {},
    }
}

/// Function calls keep items identified.
proof fn lemma_calls_identified(
    e: Emission,
    calls: Seq<(Seq<char>, Seq<char>)>,
    ids: Seq<CallIds>,
)
    requires
        identified(e),
        ids.len() == calls.len(),
        forall|i: int| 0 <= i < ids.len() ==> (#[trigger] ids[i]).valid(),
    ensures
        identified(function_calls_from(e, calls, ids)),
    decreases calls.len(),
{
    if calls.len() > 0 {
        let rest = ids.drop_last();
        assert forall|i: int| 0 <= i < rest.len() implies (#[trigger] rest[i]).valid() by {
            assert(rest[i] == ids[i]);
        }
        lemma_calls_identified(e, calls.drop_last(), rest);
        assert(ids[ids.len() - 1].valid());
        let item = call_item(calls.last().0, calls.last().1, ids.last());
        assert(is_identified(item));
    }
}

/// Every item of a session is identified as its kind is: `msg_`, `rs_`, `fc_` and `call_`, each
/// before a random UUID.
pub proof fn law_items_are_identified_by_kind(meta: RespMetaView, turns: Seq<Turn>)
    requires
        fair(meta, turns),
    ensures
        forall|i: int|
            0 <= i < run(meta, turns).log.len() ==> carries_an_id(
                #[trigger] run(meta, turns).log[i],
            ),
        run(meta, turns).phase == SessionPhase::Connecting || run(meta, turns).phase
            == SessionPhase::Streaming ==> (run(meta, turns).state.msg_open == MsgOpen::Open
            ==> is_id("msg_"@, run(meta, turns).state.msg_id)),
    decreases turns.len(),
{
    if turns.len() > 0 {
        law_items_are_identified_by_kind(meta, turns.drop_last());
        let before = run(meta, turns.drop_last());
        lemma_run_sound(meta, turns.drop_last());
        let e = before.emitted();
        let after = run(meta, turns);
        match turns.last() {
            Turn::Closed => {
                assert forall|i: int| 0 <= i < after.log.len() implies carries_an_id(
                    #[trigger] after.log[i],
                ) by {
                    assert(after.log[i] == before.log[i]);
                }
            },
            Turn::Told(event, draw) => {
                if before.phase == SessionPhase::Streaming {
                    match event {
                        Upstream::Chunk(chunk) => {
                            assert(identified(e));
                            lemma_parts_identified(e, chunk_parts(chunk), draw.parts);
                            lemma_chunk_keeps(e, chunk, draw.parts);
                            let done = parts_step(e, chunk_parts(chunk), draw.parts);
                            assert(after.log == done.events);
                            assert(chunk_step(e, chunk, draw.parts).state.msg_id
                                == done.state.msg_id);
                        },
                        Upstream::Ended => {
                            assert(identified(e));
                            lemma_flush_identified(e, draw.reasoning);
                            let flushed = flush_step(e, draw.reasoning);
                            let closed = close_step(flushed);
                            assert(identified(closed));
                            let emptied = Emission {
                                state: StreamStateView { fcs: Seq::empty(), ..closed.state },
                                ..closed
                            };
                            assert(identified(emptied));
                            lemma_calls_identified(emptied, closed.state.fcs, draw.calls);
                        },
                        _ => {},
                    }
                }
            },
            _ => {},
        }
    }
}

} // verus!
