//! What the client sends, captures and judges, said of its messages member by member.
use vstd::prelude::*;

use crate::auth::{admitted, first_text, header_values};
use crate::catalog::{entry_of, shared_levels, tiers, CatalogModelView};
use crate::clock::stamp;
use crate::driver::{
    drive_start, line_step, message_after, message_step, notification_step, result_line,
    turn_prompt, verdict_line, DriveStateView, Phase,
};
use crate::harness::{
    after_check, call_line_step, call_message_step, check_line, decimal, digit, harness_verdict,
    tally_line, Checker, ReactionView, RpcCallView,
};
use crate::ids::{is_hex_digit, is_id, is_simple_uuid};
use crate::json::{displayed, parsed, Json};
use crate::rpc::{
    ack_object, initialize_object, line_value, reply_of, request_line, request_object, server_args,
    thread_id_of, thread_object, turn_object,
};
use crate::text::{is_white_space, occurs_at, trimmed_end, trimmed_start};

verus! {

// ---------------------------------------------------------------------------------------------
// Messages
// ---------------------------------------------------------------------------------------------

/// What a message holds under a key.
pub open spec fn at(message: Json, key: Seq<char>) -> Option<Json> {
    if message is Object && message->Object_0.contains_key(key) {
        Some(message->Object_0[key])
    } else {
        None
    }
}

/// Whether a message holds a text under a key.
pub open spec fn says_at(message: Json, key: Seq<char>, text: Seq<char>) -> bool {
    at(message, key) == Some(Json::Str(text))
}

/// Whether a message holds some text under a key.
pub open spec fn has_text_at(message: Json, key: Seq<char>) -> bool {
    at(message, key) matches Some(found) && found is Str
}

/// What a message holds under a key of its parameters.
pub open spec fn param(message: Json, key: Seq<char>) -> Option<Json> {
    match at(message, "params"@) {
        Some(params) => at(params, key),
        None => None,
    }
}

/// The number of members of an object.
pub open spec fn size(message: Json) -> nat {
    if message is Object {
        message->Object_0.dom().len()
    } else {
        0
    }
}

/// The keys of the messages are told apart.
proof fn lemma_keys()
    ensures
        "method"@ != "id"@,
        "method"@ != "params"@,
        "id"@ != "params"@,
        "id"@ != "result"@,
        "clientInfo"@ != "capabilities"@,
        "name"@ != "version"@,
        "model"@ != "modelProvider"@,
        "model"@ != "cwd"@,
        "model"@ != "approvalPolicy"@,
        "model"@ != "sandbox"@,
        "modelProvider"@ != "cwd"@,
        "modelProvider"@ != "approvalPolicy"@,
        "modelProvider"@ != "sandbox"@,
        "cwd"@ != "approvalPolicy"@,
        "cwd"@ != "sandbox"@,
        "approvalPolicy"@ != "sandbox"@,
        "threadId"@ != "input"@,
        "type"@ != "text"@,
        "type"@ != "text_elements"@,
        "text"@ != "text_elements"@,
{
    reveal_strlit("method");
    reveal_strlit("id");
    reveal_strlit("params");
    reveal_strlit("result");
    reveal_strlit("clientInfo");
    reveal_strlit("capabilities");
    reveal_strlit("name");
    reveal_strlit("version");
    reveal_strlit("model");
    reveal_strlit("modelProvider");
    reveal_strlit("cwd");
    reveal_strlit("approvalPolicy");
    reveal_strlit("sandbox");
    reveal_strlit("threadId");
    reveal_strlit("input");
    reveal_strlit("type");
    reveal_strlit("text");
    reveal_strlit("text_elements");
    assert("method"@[0] == 'm' && "params"@[0] == 'p' && "id"@.len() == 2);
    assert("result"@.len() == 6);
    assert("clientInfo"@.len() == 10 && "capabilities"@.len() == 12);
    assert("name"@.len() == 4 && "version"@.len() == 7);
    assert("model"@.len() == 5 && "modelProvider"@.len() == 13 && "cwd"@.len() == 3);
    assert("approvalPolicy"@.len() == 14 && "sandbox"@.len() == 7);
    assert("threadId"@.len() == 8 && "input"@.len() == 5);
    assert("type"@[1] == 'y' && "text"@[1] == 'e' && "text_elements"@.len() == 13);
}

/// A request names its method, carries its id and its parameters as they are, and nothing else; it
/// goes out as one line.
pub proof fn law_requests_carry_everything(method: Seq<char>, id: u64, params: Json)
    ensures
        says_at(request_object(method, id, params), "method"@, method),
        at(request_object(method, id, params), "id"@) == Some(Json::PosInt(id)),
        at(request_object(method, id, params), "params"@) == Some(params),
        size(request_object(method, id, params)) == 3,
        request_line(method, id, params).last() == '\n',
        request_line(method, id, params).drop_last() == displayed(
            request_object(method, id, params),
        ),
{
    lemma_keys();
    reveal_strlit("\n");
    let text = displayed(request_object(method, id, params));
    assert((text + "\n"@).drop_last() =~= text);
    assert((text + "\n"@).last() == "\n"@[0]);
}

/// The client introduces itself by a name and a version, and asks for no capabilities.
pub proof fn law_the_client_introduces_itself()
    ensures
        at(initialize_object(), "clientInfo"@) matches Some(info) && says_at(info, "name"@, "x"@)
            && says_at(info, "version"@, "0"@) && size(info) == 2,
        at(initialize_object(), "capabilities"@) == Some(Json::Null),
        size(initialize_object()) == 2,
{
    lemma_keys();
}

/// A thread is started in its directory and sandbox, on the bridge's model, and never asks for
/// approval.
pub proof fn law_threads_start_where_asked(cwd: Seq<char>, sandbox: Seq<char>)
    ensures
        says_at(thread_object(cwd, sandbox), "cwd"@, cwd),
        says_at(thread_object(cwd, sandbox), "sandbox"@, sandbox),
        says_at(thread_object(cwd, sandbox), "model"@, "gemini-3.5-flash"@),
        says_at(thread_object(cwd, sandbox), "modelProvider"@, "r"@),
        says_at(thread_object(cwd, sandbox), "approvalPolicy"@, "never"@),
        size(thread_object(cwd, sandbox)) == 5,
{
    lemma_keys();
}

/// A turn is started on its thread with its text as the one input item.
pub proof fn law_turns_carry_their_text(thread: Seq<char>, text: Seq<char>)
    ensures
        says_at(turn_object(thread, text), "threadId"@, thread),
        size(turn_object(thread, text)) == 2,
        at(turn_object(thread, text), "input"@) matches Some(Json::Array(items)) && {
            &&& items.len() == 1
            &&& size(items[0]) == 3
            &&& says_at(items[0], "type"@, "text"@)
            &&& says_at(items[0], "text"@, text)
            &&& at(items[0], "text_elements"@) matches Some(Json::Array(elements))
                && elements.len() == 0
        },
{
    lemma_keys();
}

/// A message that has both an id and a method is a request of the server; it is acknowledged, in
/// one line, with an empty result under the very id. No other message is.
pub proof fn law_acks_echo_the_id(message: Json)
    ensures
        reply_of(message) is Some <==> at(message, "id"@) is Some && at(message, "method"@) is Some,
        reply_of(message) matches Some(line) ==> {
            let ack = ack_object(at(message, "id"@)->0);
            &&& line.last() == '\n'
            &&& line.drop_last() == displayed(ack)
            &&& at(ack, "id"@) == at(message, "id"@)
            &&& at(ack, "result"@) matches Some(result) && result is Object && size(result) == 0
            &&& size(ack) == 2
        },
{
    lemma_keys();
    reveal_strlit("\n");
    if reply_of(message) is Some {
        let text = displayed(ack_object(at(message, "id"@)->0));
        assert((text + "\n"@).drop_last() =~= text);
        assert((text + "\n"@).last() == "\n"@[0]);
    }
}

/// A thread's id is read from the result: from its thread where that has one, else from the result
/// itself, and it is empty where neither has one.
pub proof fn law_thread_ids_are_found(message: Json, result: Json, id: Seq<char>)
    requires
        at(message, "result"@) == Some(result),
    ensures
        at(result, "thread"@) matches Some(thread) && says_at(thread, "id"@, id) ==> thread_id_of(
            message,
        ) == id,
        !(at(result, "thread"@) matches Some(thread) && has_text_at(thread, "id"@)) && says_at(
            result,
            "threadId"@,
            id,
        ) ==> thread_id_of(message) == id,
        !(at(result, "thread"@) matches Some(thread) && has_text_at(thread, "id"@))
            && !has_text_at(result, "threadId"@) ==> thread_id_of(message).len() == 0,
{
}

/// A message without a result names no thread.
pub proof fn law_no_result_no_thread(message: Json)
    requires
        at(message, "result"@) is None,
    ensures
        thread_id_of(message).len() == 0,
{
}

/// White space before a text is dropped.
proof fn lemma_trimmed_start(before: Seq<char>, text: Seq<char>)
    requires
        forall|i: int| 0 <= i < before.len() ==> is_white_space(#[trigger] before[i]),
        text.len() == 0 || !is_white_space(text[0]),
    ensures
        trimmed_start(before + text) == text,
    decreases before.len(),
{
    if before.len() == 0 {
        assert(before + text =~= text);
    } else {
        let rest = before.drop_first();
        assert forall|i: int| 0 <= i < rest.len() implies is_white_space(#[trigger] rest[i]) by {
            assert(rest[i] == before[i + 1]);
        }
        lemma_trimmed_start(rest, text);
        assert((before + text).drop_first() =~= rest + text);
        assert(is_white_space(before[0]));
    }
}

/// White space behind a text is dropped.
proof fn lemma_trimmed_end(text: Seq<char>, behind: Seq<char>)
    requires
        forall|i: int| 0 <= i < behind.len() ==> is_white_space(#[trigger] behind[i]),
        text.len() == 0 || !is_white_space(text.last()),
    ensures
        trimmed_end(text + behind) == text,
    decreases behind.len(),
{
    if behind.len() == 0 {
        assert(text + behind =~= text);
    } else {
        let rest = behind.drop_last();
        assert forall|i: int| 0 <= i < rest.len() implies is_white_space(#[trigger] rest[i]) by {
            assert(rest[i] == behind[i]);
        }
        lemma_trimmed_end(text, rest);
        assert((text + behind).drop_last() =~= text + rest);
        assert(is_white_space(behind[behind.len() - 1]));
    }
}

/// White space round a line does not matter, and a line of white space says nothing.
pub proof fn law_white_space_round_a_line_is_dropped(
    before: Seq<char>,
    text: Seq<char>,
    behind: Seq<char>,
)
    requires
        forall|i: int| 0 <= i < before.len() ==> is_white_space(#[trigger] before[i]),
        forall|i: int| 0 <= i < behind.len() ==> is_white_space(#[trigger] behind[i]),
        text.len() > 0 ==> !is_white_space(text[0]) && !is_white_space(text.last()),
    ensures
        text.len() > 0 ==> line_value(before + text + behind) == parsed(text),
        line_value(before) is None,
{
    if text.len() > 0 {
        let rest = text + behind;
        assert(before + text + behind =~= before + rest);
        assert(rest[0] == text[0]);
        lemma_trimmed_start(before, rest);
        lemma_trimmed_end(text, behind);
    }
    let none = Seq::<char>::empty();
    lemma_trimmed_start(before, none);
    assert(before + none =~= before);
}

/// The app server is wired to the bridge on the very port: ten settings behind its name, each one
/// introduced as a setting.
pub proof fn law_the_server_is_wired_to_the_port(port: Seq<char>, i: int)
    requires
        0 <= i < 5,
    ensures
        server_args(port).len() == 11,
        server_args(port)[0] == "app-server"@,
        server_args(port)[2 * i + 1] == "-c"@,
        server_args(port)[2] == "model_provider=r"@,
        server_args(port)[4] == "model_providers.r.name=\"r\""@,
        server_args(port)[6] == "model_providers.r.base_url=\"http://localhost:"@ + port
            + "/v1\""@,
        server_args(port)[8] == "model_providers.r.wire_api=\"responses\""@,
        server_args(port)[10] == "model_providers.r.env_key=\"K\""@,
{
}

// ---------------------------------------------------------------------------------------------
// The reply that is captured
// ---------------------------------------------------------------------------------------------

/// Whether a message brings the whole text of an agent message.
pub open spec fn brings_message(message: Json, text: Seq<char>) -> bool {
    param(message, "item"@) matches Some(item) && says_at(item, "type"@, "agent_message"@)
        && says_at(item, "text"@, text)
}

/// Whether a message brings the whole text of some agent message.
pub open spec fn brings_any_message(message: Json) -> bool {
    param(message, "item"@) matches Some(item) && says_at(item, "type"@, "agent_message"@)
        && has_text_at(item, "text"@)
}

/// Whether a message brings more text.
pub open spec fn brings_more(method: Seq<char>, message: Json, text: Seq<char>) -> bool {
    method == "item/agentMessage/delta"@ && param(message, "delta"@) == Some(Json::Str(text))
}

/// Whether a message brings any more text.
pub open spec fn brings_any_more(method: Seq<char>, message: Json) -> bool {
    method == "item/agentMessage/delta"@ && (param(message, "delta"@) matches Some(found)
        && found is Str)
}

/// A delta goes behind what was captured, a whole agent message takes its place, and anything else
/// leaves it alone.
pub proof fn law_the_reply_is_captured(
    msg: Seq<char>,
    method: Seq<char>,
    message: Json,
    whole: Seq<char>,
    delta: Seq<char>,
)
    ensures
        !brings_any_message(message) && !brings_any_more(method, message) ==> message_after(
            msg,
            method,
            message,
        ) == msg,
        !brings_any_message(message) && brings_more(method, message, delta) ==> message_after(
            msg,
            method,
            message,
        ) == msg + delta,
        brings_message(message, whole) && !brings_any_more(method, message) ==> message_after(
            msg,
            method,
            message,
        ) == whole,
        brings_message(message, whole) && brings_more(method, message, delta) ==> message_after(
            msg,
            method,
            message,
        ) == whole + delta,
{
}

/// A notification captures the reply, and ends the turn exactly where it says that the turn is over;
/// what has no method changes nothing.
pub proof fn law_notifications_are_heeded(s: DriveStateView, message: Json, method: Seq<char>)
    ensures
        !has_text_at(message, "method"@) ==> notification_step(s, message) == s,
        says_at(message, "method"@, method) ==> {
            &&& notification_step(s, message).msg == message_after(s.msg, method, message)
            &&& notification_step(s, message).done <==> s.done || method == "turn/completed"@
                || method == "turn/failed"@
            &&& notification_step(s, message).counter == s.counter
            &&& notification_step(s, message).phase == s.phase
        },
{
}

/// Whether a message is a result.
pub open spec fn is_result(message: Json) -> bool {
    at(message, "id"@) is Some && at(message, "result"@) is Some
}

/// The driver starts with its introduction under the first id.
pub proof fn law_the_driver_starts_afresh()
    ensures
        drive_start().state.counter == 2,
        !drive_start().state.done,
        drive_start().state.msg.len() == 0,
        drive_start().state.phase == Phase::Idle,
        drive_start().write == Some(request_line("initialize"@, 1, initialize_object())),
{
}

/// The driver answers the first result by starting a thread in its directory, the second by
/// starting a turn on the thread that the result names, and no later one; each request takes the
/// next id. A request of the server is acknowledged, and changes nothing.
pub proof fn law_the_driver_asks_in_turn(s: DriveStateView, work_dir: Seq<char>, message: Json)
    ensures
        ({
            let stepped = message_step(s, work_dir, message);
            let asked = at(message, "method"@) is Some;
            &&& is_result(message) && !asked && s.phase == Phase::Idle ==> {
                &&& stepped.write == Some(
                    request_line("thread/start"@, s.counter, thread_object(work_dir, "read-only"@)),
                )
                &&& stepped.state.phase == Phase::Pending
                &&& stepped.state.counter == (if s.counter == u64::MAX {
                    0int
                } else {
                    s.counter + 1
                })
            }
            &&& is_result(message) && !asked && s.phase == Phase::Pending ==> {
                &&& stepped.write == Some(
                    request_line(
                        "turn/start"@,
                        s.counter,
                        turn_object(
                            thread_id_of(message),
                            "Reply with exactly: PURE_RUST_DRIVER_OK"@,
                        ),
                    ),
                )
                &&& stepped.state.phase == Phase::Started
                &&& stepped.state.counter == (if s.counter == u64::MAX {
                    0int
                } else {
                    s.counter + 1
                })
            }
            &&& (!is_result(message) || s.phase == Phase::Started) && !(at(message, "id"@) is Some
                && asked) ==> stepped.write is None && stepped.state == notification_step(
                s,
                message,
            )
            &&& at(message, "id"@) is Some && asked ==> stepped.write == reply_of(message)
                && stepped.state == s
            &&& !asked ==> stepped.state.msg == s.msg && stepped.state.done == s.done
        }),
{
}

/// A line is driven by what it says, and one that says nothing changes nothing.
pub proof fn law_lines_are_driven_by_their_message(
    s: DriveStateView,
    work_dir: Seq<char>,
    line: Seq<char>,
)
    ensures
        line_value(line) matches Some(message) ==> line_step(s, work_dir, line) == message_step(
            s,
            work_dir,
            message,
        ),
        line_value(line) is None ==> line_step(s, work_dir, line).state == s && line_step(
            s,
            work_dir,
            line,
        ).write is None,
{
}

/// The outcome shows the reply as it was captured, and is called proven only where the turn ended
/// and the reply holds the words that were asked for.
pub proof fn law_only_the_words_prove(s: DriveStateView, i: int)
    ensures
        occurs_at(turn_prompt(), "PURE_RUST_DRIVER_OK"@, 20),
        s.done && occurs_at(s.msg, "PURE_RUST_DRIVER_OK"@, i) ==> verdict_line(s) == "  >> "@
            + "PROVEN \u{2014} pure Rust drives codex app-server e2e (verify harnesses can be Rust)"@,
        !s.done ==> verdict_line(s) == "  >> "@ + "see above"@,
        (forall|k: int| !occurs_at(s.msg, "PURE_RUST_DRIVER_OK"@, k)) ==> verdict_line(s)
            == "  >> "@ + "see above"@,
        s.done ==> result_line(s) == "  pure-Rust driver: done=true reply="@ + s.msg,
        !s.done ==> result_line(s) == "  pure-Rust driver: done=false reply="@ + s.msg,
{
    reveal_strlit("Reply with exactly: PURE_RUST_DRIVER_OK");
    reveal_strlit("PURE_RUST_DRIVER_OK");
    reveal_strlit("  pure-Rust driver: done=true reply=");
    reveal_strlit("  pure-Rust driver: done=false reply=");
    reveal_strlit("  pure-Rust driver: done=");
    reveal_strlit("true");
    reveal_strlit("false");
    reveal_strlit(" reply=");
    assert(turn_prompt().subrange(20, 39) =~= "PURE_RUST_DRIVER_OK"@);
    assert("  pure-Rust driver: done=true reply="@ =~= "  pure-Rust driver: done="@ + "true"@
        + " reply="@);
    assert("  pure-Rust driver: done=false reply="@ =~= "  pure-Rust driver: done="@ + "false"@
        + " reply="@);
}

// ---------------------------------------------------------------------------------------------
// The harness
// ---------------------------------------------------------------------------------------------

/// A number after one more.
pub open spec fn one_more(n: u32) -> int {
    if n == u32::MAX {
        0
    } else {
        n + 1
    }
}

/// Whether a message announces an item of a kind.
pub open spec fn announces(message: Json, kind: Seq<char>) -> bool {
    param(message, "item"@) matches Some(item) && says_at(item, "type"@, kind)
}

/// A call counts each item that a notification announces once, under its kind: a kind with
/// `command` in its name as a shell call, `reasoning` as reasoning, and no other.
pub proof fn law_items_are_counted_by_kind(
    call: RpcCallView,
    message: Json,
    method: Seq<char>,
    kind: Seq<char>,
    i: int,
)
    requires
        says_at(message, "method"@, method),
        at(message, "id"@) is None,
        announces(message, kind),
    ensures
        ({
            let after = call_message_step(call, message).call;
            &&& occurs_at(kind, "command"@, i) ==> after.out.shell == one_more(call.out.shell)
                && after.out.reasoning == call.out.reasoning
            &&& kind == "reasoning"@ ==> after.out.reasoning == one_more(call.out.reasoning)
                && after.out.shell == call.out.shell
            &&& kind != "reasoning"@ ==> after.out.reasoning == call.out.reasoning
            &&& (forall|k: int| !occurs_at(kind, "command"@, k)) ==> after.out.shell
                == call.out.shell
            &&& after.out.msg == message_after(call.out.msg, method, message)
            &&& after.out.tid == call.out.tid
            &&& after.id == call.id
            &&& after.is_turn == call.is_turn
        }),
{
    reveal_strlit("command");
    reveal_strlit("reasoning");
    reveal_strlit("agent_message");
    assert(forall|k: int| !occurs_at("agent_message"@, "command"@, k)) by {
        assert forall|k: int| !occurs_at("agent_message"@, "command"@, k) by {
            if occurs_at("agent_message"@, "command"@, k) {
                let found = "agent_message"@.subrange(k, k + 7);
                assert(found[0] == "agent_message"@[k]);
                assert(found[0] == 'c');
            }
        }
    }
    assert(forall|k: int| !occurs_at("reasoning"@, "command"@, k)) by {
        assert forall|k: int| !occurs_at("reasoning"@, "command"@, k) by {
            if occurs_at("reasoning"@, "command"@, k) {
                let found = "reasoning"@.subrange(k, k + 7);
                assert(found[0] == "reasoning"@[k]);
                assert(found[0] == 'c');
            }
        }
    }
    assert("agent_message"@.len() != "reasoning"@.len());
    if occurs_at(kind, "command"@, i) {
        assert(crate::text::contains(kind, "command"@));
    }
}

/// A notification that announces no item of a named kind counts as nothing.
pub proof fn law_no_item_no_count(call: RpcCallView, message: Json, method: Seq<char>)
    requires
        says_at(message, "method"@, method),
        at(message, "id"@) is None,
        !(param(message, "item"@) matches Some(item) && has_text_at(item, "type"@)),
    ensures
        call_message_step(call, message).call.out.shell == call.out.shell,
        call_message_step(call, message).call.out.reasoning == call.out.reasoning,
        call_message_step(call, message).call.out.tid == call.out.tid,
        call_message_step(call, message).call.out.msg == message_after(
            call.out.msg,
            method,
            message,
        ),
{
}

/// A call takes the thread of its own result and of no other message; it ends at that result, or,
/// where it runs a turn, at the end of the turn.
pub proof fn law_calls_take_their_own_result(call: RpcCallView, message: Json)
    requires
        at(message, "method"@) is None,
    ensures
        ({
            let stepped = call_message_step(call, message);
            let own = at(message, "id"@) == Some(Json::PosInt(call.id)) && at(message, "result"@)
                is Some;
            &&& own ==> stepped.call.out.tid == thread_id_of(message)
            &&& !own ==> stepped.call == call
            &&& stepped.call.out.msg == call.out.msg
            &&& stepped.call.out.shell == call.out.shell
            &&& stepped.call.out.reasoning == call.out.reasoning
            &&& stepped.call.id == call.id
            &&& stepped.call.is_turn == call.is_turn
            &&& stepped.reaction is Finish <==> own && !call.is_turn
            &&& !(stepped.reaction is Finish) ==> stepped.reaction is Continue
        }),
{
}

/// A turn is over where a notification says that it completed or failed, and no other call is.
pub proof fn law_turns_end_by_notice(call: RpcCallView, message: Json, method: Seq<char>)
    requires
        says_at(message, "method"@, method),
        at(message, "id"@) is None,
    ensures
        call_message_step(call, message).reaction is Finish <==> call.is_turn && (method
            == "turn/completed"@ || method == "turn/failed"@),
        call_message_step(call, message).reaction is Ack ==> false,
{
}

/// A call acknowledges a request of the server and counts nothing of it.
pub proof fn law_calls_acknowledge(call: RpcCallView, message: Json)
    requires
        at(message, "id"@) is Some,
        at(message, "method"@) is Some,
    ensures
        reply_of(message) matches Some(line) && call_message_step(call, message).reaction
            == ReactionView::Ack(line),
        call_message_step(call, message).call == call,
{
}

/// A line is heard by what it says, and one that says nothing changes nothing.
pub proof fn law_lines_are_heard_by_their_message(call: RpcCallView, line: Seq<char>)
    ensures
        line_value(line) matches Some(message) ==> call_line_step(call, line) == call_message_step(
            call,
            message,
        ),
        line_value(line) is None ==> call_line_step(call, line).call == call && call_line_step(
            call,
            line,
        ).reaction is Continue,
{
}

/// The number that a decimal text reads as.
pub open spec fn number_in(text: Seq<char>) -> int
    decreases text.len(),
{
    if text.len() == 0 {
        0
    } else {
        number_in(text.drop_last()) * 10 + (text.last() as int - '0' as int)
    }
}

/// Whether a text is made of decimal digits, without a leading zero.
pub open spec fn is_number_text(text: Seq<char>) -> bool {
    &&& text.len() > 0
    &&& text[0] == '0' ==> text.len() == 1
    &&& forall|i: int| 0 <= i < text.len() ==> '0' <= #[trigger] text[i] <= '9'
}

/// A digit reads back.
proof fn lemma_digit(n: nat)
    requires
        n < 10,
    ensures
        digit(n).len() == 1,
        digit(n)[0] as int == '0' as int + n,
{
    reveal_strlit("0");
    reveal_strlit("1");
    reveal_strlit("2");
    reveal_strlit("3");
    reveal_strlit("4");
    reveal_strlit("5");
    reveal_strlit("6");
    reveal_strlit("7");
    reveal_strlit("8");
    reveal_strlit("9");
}

/// A number that is written out reads back.
pub proof fn law_numbers_read_back(n: nat)
    ensures
        is_number_text(decimal(n)),
        number_in(decimal(n)) == n,
        n > 0 ==> decimal(n)[0] != '0',
    decreases n,
{
    if n < 10 {
        lemma_digit(n);
        assert(decimal(n).drop_last() =~= Seq::empty());
        assert(number_in(decimal(n).drop_last()) == 0);
        assert(decimal(n).last() == decimal(n)[0]);
    } else {
        law_numbers_read_back(n / 10);
        lemma_digit(n % 10);
        let head = decimal(n / 10);
        let text = head + digit(n % 10);
        assert(text.drop_last() =~= head);
        assert(text.last() == digit(n % 10)[0]);
        assert(text[0] == head[0]);
        assert forall|i: int| 0 <= i < text.len() implies '0' <= #[trigger] text[i] <= '9' by {
            if i < head.len() {
                assert(text[i] == head[i]);
            } else {
                assert(text[i] == digit(n % 10)[0]);
            }
        }
    }
}

/// A check counts as made, and as passed exactly where it passed.
pub proof fn law_a_check_counts_once(checker: Checker, ok: bool)
    ensures
        after_check(checker, ok).total == one_more(checker.total),
        ok ==> after_check(checker, ok).pass == one_more(checker.pass),
        !ok ==> after_check(checker, ok).pass == checker.pass,
{
}

/// A check's line says whether it passed, and then its name and detail as they are.
pub proof fn law_check_lines_tell(name: Seq<char>, ok: bool, detail: Seq<char>)
    ensures
        ok ==> check_line(name, ok, detail).take(7) == "  PASS "@,
        !ok ==> check_line(name, ok, detail).take(7) == "  FAIL "@,
        check_line(name, ok, detail).skip(7) == name + " "@ + detail,
{
    reveal_strlit("  ");
    reveal_strlit(" ");
    reveal_strlit("PASS");
    reveal_strlit("FAIL");
    reveal_strlit("  PASS ");
    reveal_strlit("  FAIL ");
    let line = check_line(name, ok, detail);
    let word = if ok {
        "PASS"@
    } else {
        "FAIL"@
    };
    let head = "  "@ + word + " "@;
    assert(word.len() == 4);
    assert(line.take(7) =~= head);
    assert(line.skip(7) =~= name + " "@ + detail);
    if ok {
        assert(head =~= "  PASS "@);
    } else {
        assert(head =~= "  FAIL "@);
    }
}

/// The tally reads back as the checks that passed, of all that were made; only where they are as
/// many is the outcome called proven.
pub proof fn law_the_tally_reads_back(checker: Checker)
    ensures
        exists|passed: Seq<char>, made: Seq<char>|
            #![trigger number_in(passed), number_in(made)]
            is_number_text(passed) && is_number_text(made) && number_in(passed) == checker.pass
                && number_in(made) == checker.total && tally_line(checker)
                == "\n  pure-Rust harness: "@ + passed + "/"@ + made + " checks"@,
        checker.pass != checker.total ==> harness_verdict(checker) == "  >> "@ + "see failures"@,
        checker.pass == checker.total ==> harness_verdict(checker).take(10) == "  >> PROVEN"@.take(
            10,
        ) && harness_verdict(checker) != "  >> "@ + "see failures"@,
{
    law_numbers_read_back(checker.pass as nat);
    law_numbers_read_back(checker.total as nat);
    let passed = decimal(checker.pass as nat);
    let made = decimal(checker.total as nat);
    assert(number_in(passed) == checker.pass && number_in(made) == checker.total);
    if checker.pass == checker.total {
        reveal_strlit("  >> ");
        reveal_strlit("  >> PROVEN");
        reveal_strlit("see failures");
        reveal_strlit(
            "PROVEN \u{2014} pure-Rust harness runs the capability checks GREEN (verify suite ports to Rust, zero lose)",
        );
        assert(harness_verdict(checker).take(10) =~= "  >> PROVEN"@.take(10));
        assert(harness_verdict(checker)[5] == 'P');
        assert(("  >> "@ + "see failures"@)[5] == 's');
    }
}

// ---------------------------------------------------------------------------------------------
// Credentials and identifiers
// ---------------------------------------------------------------------------------------------

/// A bridge with a key admits that key as a bearer's, and nothing else: no other key, no bare key,
/// and nobody without a credential. One without a key admits everybody.
pub proof fn law_only_the_bearer_of_the_key_is_admitted(
    key: Seq<char>,
    other: Seq<char>,
    presented: Option<Seq<char>>,
)
    ensures
        admitted(presented, None),
        admitted(Some("Bearer "@ + key), Some(key)),
        other != key ==> !admitted(Some("Bearer "@ + other), Some(key)),
        !admitted(Some(key), Some(key)),
        !admitted(None, Some(key)),
        admitted(presented, Some(key)) ==> (presented matches Some(text) && text.take(7)
            == "Bearer "@ && text.skip(7) == key),
{
    reveal_strlit("Bearer ");
    assert(("Bearer "@ + key).skip(7) =~= key);
    assert(("Bearer "@ + other).skip(7) =~= other);
    assert(("Bearer "@ + key).take(7) =~= "Bearer "@);
    assert(("Bearer "@ + key).len() != key.len());
}

/// Only the first value of a header counts, and only where all of it is visible.
pub proof fn law_the_first_header_counts(
    headers: axum::http::HeaderMap<axum::http::HeaderValue>,
    name: Seq<char>,
)
    ensures
        header_values(headers, name).len() == 0 ==> first_text(headers, name) is None,
        first_text(headers, name) matches Some(text) ==> {
            let bytes = header_values(headers, name)[0];
            &&& text.len() == bytes.len()
            &&& forall|i: int| 0 <= i < text.len() ==> #[trigger] text[i] as int == bytes[i]
        },
{
}

/// An id is its prefix and then 32 hexadecimal digits.
pub proof fn law_ids_begin_with_their_prefix(prefix: Seq<char>, id: Seq<char>, i: int)
    requires
        is_id(prefix, id),
    ensures
        id.len() == prefix.len() + 32,
        id.take(prefix.len() as int) == prefix,
        prefix.len() <= i < id.len() ==> is_hex_digit(id[i]),
{
    let uuid = choose|uuid: Seq<char>| #[trigger] is_simple_uuid(uuid) && id == prefix + uuid;
    assert(id.take(prefix.len() as int) =~= prefix);
    if prefix.len() <= i < id.len() {
        assert(id[i] == uuid[i - prefix.len()]);
    }
}

/// A time before the epoch counts as the epoch, any other as its seconds.
pub proof fn law_no_time_before_the_epoch(seconds: u64)
    ensures
        stamp(Some(seconds)) == seconds,
        stamp(None) == 0,
{
}

// ---------------------------------------------------------------------------------------------
// The catalog
// ---------------------------------------------------------------------------------------------

/// Whether an entry offers what the bridge can do: a context of a million tokens, answers of up to
/// 65,536, images, parallel calls, search and reasoning summaries, edits by shell.
pub open spec fn offers_the_bridge(entry: CatalogModelView) -> bool {
    &&& entry.apply_patch_tool_type is None
    &&& entry.auto_compact_token_limit is None
    &&& entry.multi_agent_version is None
    &&& entry.experimental_supported_tools.len() == 0
    &&& entry.context_window == 1_048_576
    &&& entry.max_context_window == 1_048_576
    &&& entry.max_output_tokens == 65_536
    &&& entry.effective_context_window_percent == 90
    &&& entry.priority == 10
    &&& entry.truncation_policy.limit == 10_000
    &&& entry.truncation_policy.mode == "bytes"@
    &&& entry.default_reasoning_level == "medium"@
    &&& entry.default_reasoning_summary == "auto"@
    &&& entry.default_verbosity == "low"@
    &&& entry.shell_type == "shell_command"@
    &&& entry.tool_mode == "default"@
    &&& entry.visibility == "list"@
    &&& entry.web_search_tool_type == "text"@
    &&& entry.support_verbosity && entry.supported_in_api
    &&& entry.supports_image_detail_original && entry.supports_parallel_tool_calls
    &&& entry.supports_reasoning_summaries && entry.supports_search_tool
    &&& entry.supported_reasoning_levels.len() == 5
    &&& entry.supported_reasoning_levels[0].effort == "minimal"@
    &&& entry.supported_reasoning_levels[1].effort == "low"@
    &&& entry.supported_reasoning_levels[2].effort == "medium"@
    &&& entry.supported_reasoning_levels[3].effort == "high"@
    &&& entry.supported_reasoning_levels[4].effort == "xhigh"@
}

/// An entry keeps its identity and its instructions as they are given, and offers what the bridge
/// can do; two entries differ in nothing else.
pub proof fn law_entries_differ_in_identity_only(
    slug: Seq<char>,
    display_name: Seq<char>,
    description: Seq<char>,
    base_instructions: Seq<char>,
    other: CatalogModelView,
)
    ensures
        ({
            let entry = entry_of(slug, display_name, description, base_instructions);
            &&& entry.slug == slug
            &&& entry.display_name == display_name
            &&& entry.description == description
            &&& entry.base_instructions == base_instructions
            &&& offers_the_bridge(entry)
            &&& other == entry_of(
                other.slug,
                other.display_name,
                other.description,
                other.base_instructions,
            ) ==> entry == (CatalogModelView {
                slug,
                display_name,
                description,
                base_instructions,
                ..other
            })
        }),
{
}

/// The efforts are offered from the lightest to the heaviest, each with words of its own.
pub proof fn law_efforts_are_described()
    ensures
        shared_levels()[0].description
            == "Fastest, lightest reasoning for simple tasks where depth is unneeded"@,
        shared_levels()[1].description
            == "Balances speed with some reasoning; useful for straightforward queries and short explanations"@,
        shared_levels()[2].description
            == "Provides a solid balance of reasoning depth and latency for general-purpose tasks"@,
        shared_levels()[3].description
            == "Maximizes reasoning depth for complex or ambiguous problems"@,
        shared_levels()[4].description == "Extra high reasoning for complex problems"@,
{
}

/// The catalog offers the three tiers, each under its own name and all with the same instructions.
pub proof fn law_the_catalog_offers_three_tiers(base_instructions: Seq<char>, i: int)
    requires
        0 <= i < 3,
    ensures
        ({
            let models = tiers(base_instructions);
            &&& models.len() == 3
            &&& offers_the_bridge(models[i])
            &&& models[i].base_instructions == base_instructions
            &&& models[i].description == models[i].display_name + " via pure-Rust bridge"@
            &&& models[0].slug == "gemini-3.1-pro-preview"@
            &&& models[1].slug == "gemini-3.5-flash"@
            &&& models[2].slug == "gemini-3.1-flash-lite"@
            &&& models[0].display_name == "Gemini 3.1 Pro"@
            &&& models[1].display_name == "Gemini 3.5 Flash"@
            &&& models[2].display_name == "Gemini 3.1 Flash-Lite"@
        }),
{
    reveal_strlit(" via pure-Rust bridge");
    reveal_strlit("Gemini 3.1 Pro");
    reveal_strlit("Gemini 3.5 Flash");
    reveal_strlit("Gemini 3.1 Flash-Lite");
    reveal_strlit("Gemini 3.1 Pro via pure-Rust bridge");
    reveal_strlit("Gemini 3.5 Flash via pure-Rust bridge");
    reveal_strlit("Gemini 3.1 Flash-Lite via pure-Rust bridge");
    assert("Gemini 3.1 Pro via pure-Rust bridge"@ =~= "Gemini 3.1 Pro"@ + " via pure-Rust bridge"@);
    assert("Gemini 3.5 Flash via pure-Rust bridge"@ =~= "Gemini 3.5 Flash"@
        + " via pure-Rust bridge"@);
    assert("Gemini 3.1 Flash-Lite via pure-Rust bridge"@ =~= "Gemini 3.1 Flash-Lite"@
        + " via pure-Rust bridge"@);
}

} // verus!
