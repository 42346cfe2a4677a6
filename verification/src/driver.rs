//! One turn of `codex app-server`: the handshake, and the reply that is captured.
use serde_json::Value;
use vstd::prelude::*;

use crate::json::{
    get_str, get_str2, json, json_get, member, member2, parsed, string_member, string_member2,
    Json,
};
use crate::rpc::{
    initialize_object, initialize_params, is_server_request, lemma_initialize_plain,
    lemma_thread_plain, lemma_turn_plain, line_value, read_line, reads_back_as_ack, reply_of,
    reply_to_server_request, request_line, request_object, rpc_line, thread_id, thread_id_of,
    thread_object, thread_params, turn_object, turn_params,
};
use crate::text::{concat, contains, has, same};

verus! {

/// Where the thread/turn handshake stands.
#[derive(Clone, Copy, Debug, PartialEq, Eq, Structural)]
pub enum Phase {
    /// No `thread/start` issued yet.
    Idle,
    /// `thread/start` issued, awaiting its result.
    Pending,
    /// `turn/start` issued.
    Started,
}

/// State threaded through the JSON-RPC drive loop.
#[derive(Debug)]
pub struct DriveState {
    /// The monotonically advancing JSON-RPC request id.
    pub counter: u64,
    /// Whether a `turn/completed` or `turn/failed` notification arrived.
    pub done: bool,
    /// The captured agent message text.
    pub msg: String,
    /// How far the thread/turn handshake has progressed.
    pub phase: Phase,
}

/// The model of a `DriveState`.
pub struct DriveStateView {
    pub counter: u64,
    pub done: bool,
    pub msg: Seq<char>,
    pub phase: Phase,
}

impl View for DriveState {
    type V = DriveStateView;

    open spec fn view(&self) -> DriveStateView {
        DriveStateView {
            counter: self.counter,
            done: self.done,
            msg: self.msg@,
            phase: self.phase,
        }
    }
}

/// A drive and the line that it writes, if any.
pub struct Driven {
    pub state: DriveStateView,
    pub write: Option<Seq<char>>,
}

/// The prompt of the turn.
pub open spec fn turn_prompt() -> Seq<char> {
    "Reply with exactly: PURE_RUST_DRIVER_OK"@
}

/// The start of a drive: the `initialize` request goes out.
pub open spec fn drive_start() -> Driven {
    Driven {
        state: DriveStateView { counter: 2, done: false, msg: Seq::empty(), phase: Phase::Idle },
        write: Some(request_line("initialize"@, 1, initialize_object())),
    }
}

/// Advance the handshake on a result: start a thread, then a turn on it.
pub open spec fn result_step(
    s: DriveStateView,
    work_dir: Seq<char>,
    message: Json,
) -> Driven {
    if member(message, "id"@) is None || member(message, "result"@) is None {
        Driven { state: s, write: None }
    } else {
        match s.phase {
            Phase::Idle => Driven {
                state: DriveStateView {
                    counter: s.counter.wrapping_add(1),
                    phase: Phase::Pending,
                    ..s
                },
                write: Some(
                    request_line(
                        "thread/start"@,
                        s.counter,
                        thread_object(work_dir, "read-only"@),
                    ),
                ),
            },
            Phase::Pending => Driven {
                state: DriveStateView {
                    counter: s.counter.wrapping_add(1),
                    phase: Phase::Started,
                    ..s
                },
                write: Some(
                    request_line(
                        "turn/start"@,
                        s.counter,
                        turn_object(thread_id_of(message), turn_prompt()),
                    ),
                ),
            },
            Phase::Started => Driven { state: s, write: None },
        }
    }
}

/// The request that a result calls for.
pub open spec fn result_request(
    s: DriveStateView,
    work_dir: Seq<char>,
    message: Json,
) -> Option<Json> {
    if member(message, "id"@) is None || member(message, "result"@) is None {
        None
    } else {
        match s.phase {
            Phase::Idle => Some(
                request_object(
                    "thread/start"@,
                    s.counter,
                    thread_object(work_dir, "read-only"@),
                ),
            ),
            Phase::Pending => Some(
                request_object(
                    "turn/start"@,
                    s.counter,
                    turn_object(thread_id_of(message), turn_prompt()),
                ),
            ),
            Phase::Started => None,
        }
    }
}

/// Whether what a message calls for can be read back out of a line: the acknowledgement of a
/// request of the server, where its id is plain, else the request of the next step.
pub open spec fn reads_back(
    write: Seq<char>,
    s: DriveStateView,
    work_dir: Seq<char>,
    message: Json,
) -> bool {
    if is_server_request(message) {
        reads_back_as_ack(write, message)
    } else {
        parsed(write.drop_last()) == result_request(s, work_dir, message)
    }
}

/// Whether a notification ends the turn.
pub open spec fn ends_turn(method: Seq<char>) -> bool {
    method == "turn/completed"@ || method == "turn/failed"@
}

/// The agent message after a notification: an agent-message item replaces it, a delta adds to it.
pub open spec fn message_after(msg: Seq<char>, method: Seq<char>, message: Json) -> Seq<char> {
    let replaced = match member2(message, "params"@, "item"@) {
        Some(item) => if string_member(item, "type"@) == Some("agent_message"@) {
            match string_member(item, "text"@) {
                Some(text) => text,
                None => msg,
            }
        } else {
            msg
        },
        None => msg,
    };
    if method == "item/agentMessage/delta"@ {
        match string_member2(message, "params"@, "delta"@) {
            Some(delta) => replaced + delta,
            None => replaced,
        }
    } else {
        replaced
    }
}

/// Take in a notification.
pub open spec fn notification_step(s: DriveStateView, message: Json) -> DriveStateView {
    match string_member(message, "method"@) {
        None => s,
        Some(method) => DriveStateView {
            done: s.done || ends_turn(method),
            msg: message_after(s.msg, method, message),
            ..s
        },
    }
}

/// Take in a message: acknowledge a request of the server; else advance the handshake, then take
/// it in as a notification.
pub open spec fn message_step(s: DriveStateView, work_dir: Seq<char>, message: Json) -> Driven {
    match reply_of(message) {
        Some(reply) => Driven { state: s, write: Some(reply) },
        None => {
            let advanced = result_step(s, work_dir, message);
            Driven { state: notification_step(advanced.state, message), ..advanced }
        },
    }
}

/// Take in a line.
pub open spec fn line_step(s: DriveStateView, work_dir: Seq<char>, line: Seq<char>) -> Driven {
    match line_value(line) {
        Some(message) => message_step(s, work_dir, message),
        None => Driven { state: s, write: None },
    }
}

/// Start a drive: the state, and the `initialize` line to write, which can be read back.
pub fn start_session() -> (started: (DriveState, String))
    ensures
        started.0@ == drive_start().state,
        Some(started.1@) == drive_start().write,
        parsed(started.1@.drop_last()) == Some(
            request_object("initialize"@, 1, initialize_object()),
        ),
{
    proof {
        lemma_initialize_plain();
    }
    let mut counter: u64 = 1;
    let line = rpc_line("initialize", &initialize_params(), &mut counter);
    (DriveState { counter, done: false, msg: String::new(), phase: Phase::Idle }, line)
}

/// Issue `thread/start`, marking the thread id pending.
pub fn send_thread_start(state: &mut DriveState, work_dir: &str) -> (line: String)
    ensures
        final(state)@ == (DriveStateView {
            counter: old(state)@.counter.wrapping_add(1),
            phase: Phase::Pending,
            ..old(state)@
        }),
        line@ == request_line(
            "thread/start"@,
            old(state)@.counter,
            thread_object(work_dir@, "read-only"@),
        ),
        parsed(line@.drop_last()) == Some(
            request_object(
                "thread/start"@,
                old(state)@.counter,
                thread_object(work_dir@, "read-only"@),
            ),
        ),
{
    proof {
        lemma_thread_plain(work_dir@, "read-only"@);
    }
    let params = thread_params(work_dir, "read-only");
    let line = rpc_line("thread/start", &params, &mut state.counter);
    state.phase = Phase::Pending;
    line
}

/// Read the thread id from the result and issue `turn/start`.
pub fn send_turn_start(state: &mut DriveState, message: &Value) -> (line: String)
    ensures
        final(state)@ == (DriveStateView {
            counter: old(state)@.counter.wrapping_add(1),
            phase: Phase::Started,
            ..old(state)@
        }),
        line@ == request_line(
            "turn/start"@,
            old(state)@.counter,
            turn_object(thread_id_of(json(*message)), turn_prompt()),
        ),
        parsed(line@.drop_last()) == Some(
            request_object(
                "turn/start"@,
                old(state)@.counter,
                turn_object(thread_id_of(json(*message)), turn_prompt()),
            ),
        ),
{
    proof {
        lemma_turn_plain(thread_id_of(json(*message)), turn_prompt());
    }
    let tid = thread_id(message);
    let params = turn_params(tid.as_str(), "Reply with exactly: PURE_RUST_DRIVER_OK");
    let line = rpc_line("turn/start", &params, &mut state.counter);
    state.phase = Phase::Started;
    line
}

/// Advance the thread/turn handshake on a result line.
pub fn handle_result(state: &mut DriveState, work_dir: &str, message: &Value) -> (write: Option<
    String,
>)
    ensures
        (Driven { state: final(state)@, write: write.deep_view() }) == result_step(
            old(state)@,
            work_dir@,
            json(*message),
        ),
        write matches Some(request) ==> parsed(request@.drop_last()) == result_request(
            old(state)@,
            work_dir@,
            json(*message),
        ),
{
    if json_get(message, "id").is_none() || json_get(message, "result").is_none() {
        return None;
    }
    match state.phase {
        Phase::Idle => Some(send_thread_start(state, work_dir)),
        Phase::Pending => Some(send_turn_start(state, message)),
        Phase::Started => None,
    }
}

/// The agent message after a notification.
pub(crate) fn capture_message(msg: &mut String, method: &str, message: &Value)
    ensures
        final(msg)@ == message_after(old(msg)@, method@, json(*message)),
{
    if let Some(params) = json_get(message, "params") {
        if let Some(item) = json_get(params, "item") {
            if let Some(kind) = get_str(item, "type") {
                if same(kind, "agent_message") {
                    if let Some(text) = get_str(item, "text") {
                        *msg = text.to_owned();
                    }
                }
            }
        }
    }
    if same(method, "item/agentMessage/delta") {
        if let Some(delta) = get_str2(message, "params", "delta") {
            msg.append(delta);
        }
    }
}

/// Capture the agent message and completion flag from a notification line.
pub fn handle_notification(state: &mut DriveState, message: &Value)
    ensures
        final(state)@ == notification_step(old(state)@, json(*message)),
{
    let Some(method) = get_str(message, "method") else {
        return ;
    };
    capture_message(&mut state.msg, method, message);
    if same(method, "turn/completed") || same(method, "turn/failed") {
        state.done = true;
    }
}

/// Process one message; returns the line to write, if any, out of which it can be read back.
pub fn drive_message(state: &mut DriveState, work_dir: &str, message: &Value) -> (write: Option<
    String,
>)
    ensures
        (Driven { state: final(state)@, write: write.deep_view() }) == message_step(
            old(state)@,
            work_dir@,
            json(*message),
        ),
        write matches Some(sent) ==> reads_back(sent@, old(state)@, work_dir@, json(*message)),
{
    if let Some(reply) = reply_to_server_request(message) {
        return Some(reply);
    }
    let write = handle_result(state, work_dir, message);
    handle_notification(state, message);
    write
}

/// Process one raw input line; returns the line to write, if any.
pub fn drive_line(state: &mut DriveState, work_dir: &str, rawline: &str) -> (write: Option<String>)
    ensures
        (Driven { state: final(state)@, write: write.deep_view() }) == line_step(
            old(state)@,
            work_dir@,
            rawline@,
        ),
        write matches Some(sent) ==> line_value(rawline@) is Some && reads_back(
            sent@,
            old(state)@,
            work_dir@,
            line_value(rawline@)->0,
        ),
{
    match read_line(rawline) {
        Some(message) => drive_message(state, work_dir, &message),
        None => None,
    }
}

/// Whether a drive proved itself: the turn ended, and the reply holds what was asked for.
pub open spec fn proven(s: DriveStateView) -> bool {
    s.done && contains(s.msg, "PURE_RUST_DRIVER_OK"@)
}

/// The result line of a drive.
pub open spec fn result_line(s: DriveStateView) -> Seq<char> {
    "  pure-Rust driver: done="@ + (if s.done {
        "true"@
    } else {
        "false"@
    }) + " reply="@ + s.msg
}

/// The verdict line of a drive.
pub open spec fn verdict_line(s: DriveStateView) -> Seq<char> {
    "  >> "@ + if proven(s) {
        "PROVEN \u{2014} pure Rust drives codex app-server e2e (verify harnesses can be Rust)"@
    } else {
        "see above"@
    }
}

/// The driver result line and the proof verdict line.
pub fn print_outcome(outcome: &DriveState) -> (lines: (String, String))
    ensures
        lines.0@ == result_line(outcome@),
        lines.1@ == verdict_line(outcome@),
{
    let done = if outcome.done {
        "true"
    } else {
        "false"
    };
    let head = concat("  pure-Rust driver: done=", done);
    let result = concat(concat(head.as_str(), " reply=").as_str(), outcome.msg.as_str());
    let verdict = if outcome.done && has(outcome.msg.as_str(), "PURE_RUST_DRIVER_OK") {
        "PROVEN \u{2014} pure Rust drives codex app-server e2e (verify harnesses can be Rust)"
    } else {
        "see above"
    };
    (result, concat("  >> ", verdict))
}

/// A line that calls for a write changes neither the reply nor the completion.
pub proof fn law_writes_leave_the_reply(s: DriveStateView, work_dir: Seq<char>, line: Seq<char>)
    requires
        line_step(s, work_dir, line).write is Some,
    ensures
        line_step(s, work_dir, line).state.msg == s.msg,
        line_step(s, work_dir, line).state.done == s.done,
{
}

/// How far a phase is.
pub open spec fn rank(phase: Phase) -> int {
    match phase {
        Phase::Idle => 0,
        Phase::Pending => 1,
        Phase::Started => 2,
    }
}

/// The handshake goes one step at a time and never back; a request goes out with each step, under
/// the next id, and with none else. What is done stays done.
pub proof fn law_the_handshake_advances(s: DriveStateView, work_dir: Seq<char>, line: Seq<char>)
    ensures
        rank(s.phase) <= rank(line_step(s, work_dir, line).state.phase) <= rank(s.phase) + 1,
        line_step(s, work_dir, line).state.phase == s.phase <==> line_step(
            s,
            work_dir,
            line,
        ).state.counter == s.counter,
        line_step(s, work_dir, line).state.phase != s.phase ==> line_step(
            s,
            work_dir,
            line,
        ).state.counter == s.counter.wrapping_add(1) && line_step(s, work_dir, line).write is Some,
        s.done ==> line_step(s, work_dir, line).state.done,
{
}

} // verus!
