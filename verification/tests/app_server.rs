use cg_bridge::driver::{
    drive_line, drive_message, handle_notification, handle_result, print_outcome, send_thread_start,
    send_turn_start, start_session, DriveState, Phase,
};
use cg_bridge::harness::{Checker, Reaction, RpcCall, RpcOut};
use cg_bridge::rpc::{
    initialize_params, reply_to_server_request, rpc_line, spawn_args, thread_id, thread_params,
    turn_params,
};
use serde_json::Value;

fn json(text: &str) -> Value {
    serde_json::from_str(text).unwrap()
}

fn out(msg: &str, shell: u32, reasoning: u32) -> RpcOut {
    RpcOut { msg: msg.to_string(), reasoning, shell, tid: String::new() }
}

#[test]
fn requests_are_lines_under_rising_ids() {
    let mut counter = 7;
    let line = rpc_line("ping", &json("{\"a\":1}"), &mut counter);
    assert_eq!(line, "{\"id\":7,\"method\":\"ping\",\"params\":{\"a\":1}}\n");
    assert_eq!(counter, 8);
    counter = u64::MAX;
    rpc_line("ping", &Value::Null, &mut counter);
    assert_eq!(counter, 0);
}

#[test]
fn parameters_have_their_shapes() {
    assert_eq!(
        initialize_params(),
        json("{\"clientInfo\":{\"name\":\"x\",\"version\":\"0\"},\"capabilities\":null}"),
    );
    assert_eq!(
        thread_params("/w", "read-only"),
        json(
            "{\"model\":\"gemini-3.5-flash\",\"modelProvider\":\"r\",\"cwd\":\"/w\",\
             \"approvalPolicy\":\"never\",\"sandbox\":\"read-only\"}",
        ),
    );
    assert_eq!(
        turn_params("t", "hi"),
        json(
            "{\"threadId\":\"t\",\"input\":[{\"type\":\"text\",\"text\":\"hi\",\
             \"text_elements\":[]}]}",
        ),
    );
}

#[test]
fn the_server_is_wired_to_the_bridge() {
    let args = spawn_args("4011");
    assert_eq!(args.len(), 11);
    assert_eq!(args[0], "app-server");
    assert_eq!(args[6], "model_providers.r.base_url=\"http://localhost:4011/v1\"");
    assert_eq!(args[10], "model_providers.r.env_key=\"K\"");
}

#[test]
fn thread_ids_are_found_in_either_place() {
    assert_eq!(thread_id(&json("{\"result\":{\"thread\":{\"id\":\"a\"},\"threadId\":\"b\"}}")), "a");
    assert_eq!(thread_id(&json("{\"result\":{\"thread\":{\"id\":3},\"threadId\":\"b\"}}")), "b");
    assert_eq!(thread_id(&json("{\"result\":{\"threadId\":\"b\"}}")), "b");
    assert_eq!(thread_id(&json("{\"result\":{}}")), "");
    assert_eq!(thread_id(&json("{\"result\":[\"thread\"]}")), "");
    assert_eq!(thread_id(&json("{}")), "");
}

#[test]
fn server_requests_are_acknowledged() {
    assert_eq!(
        reply_to_server_request(&json("{\"id\":\"q\",\"method\":\"ask\"}")).as_deref(),
        Some("{\"id\":\"q\",\"result\":{}}\n"),
    );
    assert_eq!(
        reply_to_server_request(&json("{\"id\":null,\"method\":null}")).as_deref(),
        Some("{\"id\":null,\"result\":{}}\n"),
    );
    assert!(reply_to_server_request(&json("{\"id\":1,\"result\":{}}")).is_none());
    assert!(reply_to_server_request(&json("{\"method\":\"note\"}")).is_none());
    assert!(reply_to_server_request(&json("[]")).is_none());
}

#[test]
fn a_drive_shakes_hands_and_captures_the_reply() {
    let (mut state, line) = start_session();
    assert_eq!(json(&line)["method"], json("\"initialize\""));
    assert_eq!(json(&line)["id"], json("1"));
    assert_eq!(state.counter, 2);
    assert!(drive_line(&mut state, "/w", "   ").is_none());
    assert!(drive_line(&mut state, "/w", "not json").is_none());
    assert!(drive_line(&mut state, "/w", "{\"id\":1}").is_none());
    assert_eq!(state.phase, Phase::Idle);
    let write = drive_line(&mut state, "/w", " {\"id\":1,\"result\":{}} \n").unwrap();
    assert_eq!(json(&write)["method"], json("\"thread/start\""));
    assert_eq!(json(&write)["params"], thread_params("/w", "read-only"));
    assert_eq!((state.phase, state.counter), (Phase::Pending, 3));
    let result = "{\"id\":2,\"result\":{\"thread\":{\"id\":\"T\"}}}";
    let write = drive_line(&mut state, "/w", result).unwrap();
    assert_eq!(json(&write)["method"], json("\"turn/start\""));
    assert_eq!(
        json(&write)["params"],
        turn_params("T", "Reply with exactly: PURE_RUST_DRIVER_OK"),
    );
    assert_eq!((state.phase, state.counter), (Phase::Started, 4));
    assert!(drive_line(&mut state, "/w", "{\"id\":3,\"result\":{}}").is_none());
    let delta = "{\"method\":\"item/agentMessage/delta\",\"params\":{\"delta\":\"PURE_\"}}";
    assert!(drive_line(&mut state, "/w", delta).is_none());
    assert_eq!(state.msg, "PURE_");
    let item = "{\"method\":\"item/completed\",\"params\":{\"item\":\
                {\"type\":\"agent_message\",\"text\":\"PURE_RUST_DRIVER_OK\"}}}";
    drive_line(&mut state, "/w", item);
    assert_eq!(state.msg, "PURE_RUST_DRIVER_OK");
    let ask = "{\"id\":9,\"method\":\"turn/completed\"}";
    assert!(drive_line(&mut state, "/w", ask).is_some());
    assert!(!state.done);
    drive_line(&mut state, "/w", "{\"method\":\"turn/completed\"}");
    assert!(state.done);
    let (result, verdict) = print_outcome(&state);
    assert_eq!(result, "  pure-Rust driver: done=true reply=PURE_RUST_DRIVER_OK");
    assert_eq!(
        verdict,
        "  >> PROVEN \u{2014} pure Rust drives codex app-server e2e (verify harnesses can be Rust)",
    );
}

#[test]
fn a_failed_turn_is_done_but_not_proven() {
    let (mut state, _) = start_session();
    handle_notification(&mut state, &json("{\"method\":\"turn/failed\"}"));
    assert!(state.done);
    let (result, verdict) = print_outcome(&state);
    assert_eq!(result, "  pure-Rust driver: done=true reply=");
    assert_eq!(verdict, "  >> see above");
    handle_notification(&mut state, &json("{\"params\":{\"delta\":\"x\"}}"));
    assert_eq!(state.msg, "");
}

#[test]
fn messages_are_taken_in_without_a_line() {
    let (mut state, _) = start_session();
    let write = drive_message(&mut state, "/w", &json("{\"id\":1,\"result\":{}}")).unwrap();
    assert_eq!(json(&write)["id"], json("2"));
    assert_eq!(state.phase, Phase::Pending);
    assert_eq!(
        drive_message(&mut state, "/w", &json("{\"id\":5,\"method\":\"ask\"}")).as_deref(),
        Some("{\"id\":5,\"result\":{}}\n"),
    );
    assert!(drive_message(&mut state, "/w", &json("{\"method\":\"turn/failed\"}")).is_none());
    assert!(state.done);
    let mut counter = 1;
    let (mut call, _) = RpcCall::begin("thread/start", &json("{}"), false, &mut counter);
    assert!(matches!(call.on_message(&json("{\"id\":2,\"result\":{}}")), Reaction::Continue));
    assert!(matches!(call.on_message(&json("{\"id\":1,\"result\":{}}")), Reaction::Finish));
    let Reaction::Ack(ack) = call.on_message(&json("{\"id\":[1,\"a\"],\"method\":\"ask\"}"))
    else {
        panic!()
    };
    assert_eq!(json(&ack[..ack.len() - 1]), json("{\"id\":[1,\"a\"],\"result\":{}}"));
}

#[test]
fn requests_read_back_out_of_their_lines() {
    let params = json("{\"deep\":[{\"n\":-3},null,\"\\n\"]}");
    let mut counter = 9;
    let (_, sent) = RpcCall::begin("m", &params, true, &mut counter);
    let read = json(&sent[..sent.len() - 1]);
    assert_eq!((&read["method"], &read["id"]), (&json("\"m\""), &json("9")));
    assert_eq!(read["params"], params);
    let (_, init) = start_session();
    assert_eq!(json(&init[..init.len() - 1])["params"], initialize_params());
}

#[test]
fn handshake_steps_stand_alone() {
    let mut state =
        DriveState { counter: 5, done: false, msg: String::new(), phase: Phase::Idle };
    assert!(send_thread_start(&mut state, "/d").ends_with("}\n"));
    assert_eq!((state.counter, state.phase), (6, Phase::Pending));
    send_turn_start(&mut state, &json("{}"));
    assert_eq!((state.counter, state.phase), (7, Phase::Started));
    assert!(handle_result(&mut state, "/d", &json("{\"id\":1,\"result\":1}")).is_none());
}

#[test]
fn a_plain_call_ends_with_its_result() {
    let mut counter = 1;
    let (mut call, line) = RpcCall::begin("thread/start", &json("{}"), false, &mut counter);
    assert_eq!(line, "{\"id\":1,\"method\":\"thread/start\",\"params\":{}}\n");
    assert_eq!(counter, 2);
    assert!(matches!(call.on_line(""), Reaction::Continue));
    assert!(matches!(call.on_line("oops"), Reaction::Continue));
    let Reaction::Ack(ack) = call.on_line("{\"id\":4,\"method\":\"ask\"}") else { panic!() };
    assert_eq!(ack, "{\"id\":4,\"result\":{}}\n");
    assert!(matches!(call.on_line("{\"id\":2,\"result\":{}}"), Reaction::Continue));
    assert!(matches!(call.on_line("{\"id\":1}"), Reaction::Continue));
    assert!(matches!(call.on_line("{\"id\":-1,\"result\":{}}"), Reaction::Continue));
    assert!(matches!(call.on_line("{\"method\":\"turn/completed\"}"), Reaction::Continue));
    assert!(matches!(
        call.on_line("{\"id\":1,\"result\":{\"threadId\":\"T\"}}"),
        Reaction::Finish
    ));
    assert_eq!(call.out.tid, "T");
}

#[test]
fn a_turn_ends_with_the_turn() {
    let mut counter = 3;
    let (mut call, _) = RpcCall::begin("turn/start", &json("{}"), true, &mut counter);
    assert!(matches!(call.on_line("{\"id\":3,\"result\":{}}"), Reaction::Continue));
    let lines = [
        "{\"method\":\"m\",\"params\":{\"item\":{\"type\":\"reasoning\"}}}",
        "{\"method\":\"m\",\"params\":{\"item\":{\"type\":\"local_command_run\"}}}",
        "{\"method\":\"m\",\"params\":{\"item\":{\"type\":\"command\"}}}",
        "{\"method\":\"m\",\"params\":{\"item\":{\"type\":\"other\"}}}",
        "{\"method\":\"m\",\"params\":{\"item\":{\"type\":\"agent_message\",\"text\":\"ab\"}}}",
        "{\"method\":\"item/agentMessage/delta\",\"params\":{\"delta\":\"c\"}}",
    ];
    for line in lines {
        assert!(matches!(call.on_line(line), Reaction::Continue));
    }
    assert!(matches!(call.on_line("{\"method\":\"turn/failed\"}"), Reaction::Finish));
    assert_eq!((call.out.msg.as_str(), call.out.shell, call.out.reasoning), ("abc", 2, 1));
}

#[test]
fn checks_print_their_lines() {
    let mut checker = Checker::new();
    assert_eq!(checker.check("name", true, "(x)"), "  PASS name (x)");
    assert_eq!(checker.check("name", false, ""), "  FAIL name ");
    assert_eq!((checker.pass, checker.total), (1, 2));
    let (tally, verdict) = checker.summary();
    assert_eq!(tally, "\n  pure-Rust harness: 1/2 checks");
    assert_eq!(verdict, "  >> see failures");
}

#[test]
fn a_green_suite_is_proven() {
    let mut checker = Checker::new();
    let (first, second) = checker.check_first_turn(&out("0123456789 ALPHA_OK and more", 0, 12));
    assert_eq!(first, "  PASS turn completes + message (0123456789 ALPHA_OK )");
    assert_eq!(second, "  PASS reasoning surfaces (12 items)");
    let (first, second) = checker.check_shell_turn(&out("", 3, 0));
    assert_eq!(first, "  PASS shell tool executes (3)");
    assert_eq!(second, "  PASS shell output reported ");
    assert_eq!(
        checker.check_memory_turn(&out("31337", 0, 0)),
        "  PASS multi-turn continuity (31337)",
    );
    let (tally, verdict) = checker.summary();
    assert_eq!(tally, "\n  pure-Rust harness: 5/5 checks");
    assert_eq!(
        verdict,
        "  >> PROVEN \u{2014} pure-Rust harness runs the capability checks GREEN (verify suite ports to Rust, zero lose)",
    );
}

#[test]
fn a_failing_suite_says_so() {
    let mut checker = Checker::new();
    let (first, second) = checker.check_first_turn(&out("no", 0, 0));
    assert_eq!(first, "  FAIL turn completes + message (no)");
    assert_eq!(second, "  FAIL reasoning surfaces (0 items)");
    let (first, second) = checker.check_shell_turn(&out("SHELL_OK_42", 0, 0));
    assert_eq!(first, "  FAIL shell tool executes (0)");
    assert_eq!(second, "  PASS shell output reported ");
    assert_eq!(
        checker.check_memory_turn(&out("no idea", 0, 0)),
        "  FAIL multi-turn continuity (no idea)",
    );
    assert_eq!((checker.pass, checker.total), (1, 5));
}
