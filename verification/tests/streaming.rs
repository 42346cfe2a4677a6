use cg_bridge::finish::{
    close_message, drive_end, emit_function_call_as, emit_function_calls, emit_stall_at,
    emit_terminal_at, fail_stream_at,
};
use cg_bridge::gemini::{
    Candidate, FinishReason, FunctionCall, GenerationResponse, ReplyPart, UsageMetadata,
};
use cg_bridge::responses::{
    failed_message, finish_outcome, make_response, make_response_at, OutputItem, OutputStatus,
    RespMeta, Response, Status, StreamEvent, TerminalOutcome,
};
use cg_bridge::stream::{
    args_can_be_written, consume_chunk, emit_open, emit_text_part, fc_args_string, flush_reasoning_as, handle_part,
    open_message_as, FinishObserved, MsgOpen, RsnEmitted, StreamState,
};
use serde_json::Value;

const META: RespMeta<'static> =
    RespMeta { created: 11, model: "gemini-3.5-flash", response_id: "resp_1" };

fn json(text: &str) -> Value {
    serde_json::from_str(text).unwrap()
}

fn text(body: &str) -> ReplyPart {
    ReplyPart::Text { text: body.to_string(), thought: None, thought_signature: None }
}

fn thought(body: &str, signature: Option<&str>) -> ReplyPart {
    ReplyPart::Text {
        text: body.to_string(),
        thought: Some(true),
        thought_signature: signature.map(str::to_string),
    }
}

fn call(name: &str, args: &str, signature: Option<&str>) -> ReplyPart {
    ReplyPart::FunctionCall {
        function_call: FunctionCall { args: json(args), name: name.to_string() },
        thought_signature: signature.map(str::to_string),
    }
}

fn chunk(parts: Vec<ReplyPart>, finish_reason: Option<FinishReason>) -> GenerationResponse {
    GenerationResponse {
        candidates: vec![Candidate { finish_reason, parts: Some(parts) }],
        usage_metadata: None,
    }
}

fn number(event: &StreamEvent) -> u64 {
    match event {
        StreamEvent::ResponseCreated { sequence_number, .. }
        | StreamEvent::ResponseInProgress { sequence_number, .. }
        | StreamEvent::ResponseCompleted { sequence_number, .. }
        | StreamEvent::ResponseFailed { sequence_number, .. }
        | StreamEvent::ResponseIncomplete { sequence_number, .. }
        | StreamEvent::OutputItemAdded { sequence_number, .. }
        | StreamEvent::OutputItemDone { sequence_number, .. }
        | StreamEvent::OutputTextDelta { sequence_number, .. }
        | StreamEvent::FunctionCallArgumentsDelta { sequence_number, .. }
        | StreamEvent::FunctionCallArgumentsDone { sequence_number, .. } => *sequence_number,
    }
}

fn kinds(events: &[StreamEvent]) -> Vec<&'static str> {
    events
        .iter()
        .map(|event| match event {
            StreamEvent::ResponseCreated { .. } => "created",
            StreamEvent::ResponseInProgress { .. } => "in_progress",
            StreamEvent::ResponseCompleted { .. } => "completed",
            StreamEvent::ResponseFailed { .. } => "failed",
            StreamEvent::ResponseIncomplete { .. } => "incomplete",
            StreamEvent::OutputItemAdded { .. } => "added",
            StreamEvent::OutputItemDone { .. } => "done",
            StreamEvent::OutputTextDelta { .. } => "delta",
            StreamEvent::FunctionCallArgumentsDelta { .. } => "args_delta",
            StreamEvent::FunctionCallArgumentsDone { .. } => "args_done",
        })
        .collect()
}

fn terminal(event: &StreamEvent) -> &Response {
    match event {
        StreamEvent::ResponseCompleted { response, .. }
        | StreamEvent::ResponseFailed { response, .. }
        | StreamEvent::ResponseIncomplete { response, .. } => response,
        other => panic!("not terminal: {other:?}"),
    }
}

#[test]
fn a_fresh_accumulator_is_blank() {
    let state = StreamState::new();
    assert_eq!(state.seq, 0);
    assert_eq!(state.output_index, 0);
    assert_eq!(state.got_finish, FinishObserved::No);
    assert_eq!(state.msg_open, MsgOpen::Closed);
    assert_eq!(state.rsn_emitted, RsnEmitted::No);
    assert!(state.fcs.is_empty() && state.out_items.is_empty() && state.text.is_empty());
    assert!(state.finish.is_none() && state.usage.is_none());
}

#[test]
fn a_stream_opens_with_two_events() {
    let mut out = Vec::new();
    let mut state = StreamState::new();
    emit_open(&mut out, &mut state, META);
    assert_eq!(kinds(&out), ["created", "in_progress"]);
    assert_eq!((number(&out[0]), number(&out[1]), state.seq), (1, 2, 2));
    let StreamEvent::ResponseCreated { response, .. } = &out[0] else { panic!() };
    assert_eq!(response.created_at, 11);
    assert_eq!(response.id, "resp_1");
    assert_eq!(response.model, "gemini-3.5-flash");
    assert_eq!(response.object, "response");
    assert_eq!(response.status, Status::InProgress);
    assert_eq!(response.completed_at, None);
    assert!(response.output.is_empty());
}

#[test]
fn ended_responses_carry_the_time() {
    let response = make_response_at(META, Status::Completed, Vec::new(), None, 77);
    assert_eq!(response.completed_at, Some(77));
    assert!(response.error.is_none() && response.incomplete_reason.is_none());
    let now = make_response(META, Status::Failed, Vec::new(), None);
    assert!(now.completed_at.unwrap() > 1_600_000_000);
}

#[test]
fn sequence_numbers_wrap_at_the_end_of_their_range() {
    let mut out = Vec::new();
    let mut state = StreamState::new();
    state.seq = u64::MAX;
    emit_open(&mut out, &mut state, META);
    assert_eq!((number(&out[0]), number(&out[1])), (0, 1));
}

#[test]
fn reasoning_is_one_whole_item() {
    let mut out = Vec::new();
    let mut state = StreamState::new();
    handle_part(&mut out, &mut state, &thought("first ", None));
    handle_part(&mut out, &mut state, &thought("second", Some("sig")));
    assert!(out.is_empty());
    flush_reasoning_as(&mut out, &mut state, "rs_1".to_string());
    assert_eq!(kinds(&out), ["added", "done"]);
    let StreamEvent::OutputItemDone { output_index, item: OutputItem::Reasoning(item), .. } =
        &out[1]
    else {
        panic!()
    };
    assert_eq!(*output_index, 0);
    assert_eq!(item.id, "rs_1");
    assert_eq!(item.summary_text, "first second");
    assert_eq!(item.encrypted_content, "sig");
    assert_eq!(item.status, OutputStatus::Completed);
    assert_eq!(state.output_index, 1);
    flush_reasoning_as(&mut out, &mut state, "rs_2".to_string());
    assert_eq!(out.len(), 2);
}

#[test]
fn nothing_to_flush_without_thought_or_signature() {
    let mut out = Vec::new();
    let mut state = StreamState::new();
    flush_reasoning_as(&mut out, &mut state, "rs_1".to_string());
    assert!(out.is_empty());
    assert_eq!(state.rsn_emitted, RsnEmitted::No);
}

#[test]
fn text_follows_its_reasoning_into_one_message() {
    let mut out = Vec::new();
    let mut state = StreamState::new();
    handle_part(&mut out, &mut state, &thought("why", None));
    handle_part(&mut out, &mut state, &text("Hel"));
    handle_part(&mut out, &mut state, &text(""));
    emit_text_part(&mut out, &mut state, "lo");
    close_message(&mut out, &mut state);
    assert_eq!(kinds(&out), ["added", "done", "added", "delta", "delta", "done"]);
    let numbers: Vec<u64> = out.iter().map(number).collect();
    assert_eq!(numbers, [1, 2, 3, 4, 5, 6]);
    let StreamEvent::OutputTextDelta { output_index, content_index, delta, item_id, .. } = &out[3]
    else {
        panic!()
    };
    assert_eq!((*output_index, *content_index, delta.as_str()), (1, 0, "Hel"));
    let StreamEvent::OutputItemDone { item: OutputItem::Message(message), output_index, .. } =
        &out[5]
    else {
        panic!()
    };
    assert_eq!(*output_index, 1);
    assert_eq!(message.content, ["Hello"]);
    assert_eq!(&message.id, item_id);
    assert!(message.id.starts_with("msg_"));
    assert_eq!(message.status, OutputStatus::Completed);
}

#[test]
fn a_message_opens_empty_and_in_progress() {
    let mut out = Vec::new();
    let mut state = StreamState::new();
    open_message_as(&mut out, &mut state, "msg_1".to_string());
    let StreamEvent::OutputItemAdded { item: OutputItem::Message(message), .. } = &out[0] else {
        panic!()
    };
    assert!(message.content.is_empty());
    assert_eq!(message.status, OutputStatus::InProgress);
    assert_eq!((state.msg_oi, state.output_index), (0, 1));
}

#[test]
fn a_message_closes_once() {
    let mut out = Vec::new();
    let mut state = StreamState::new();
    emit_text_part(&mut out, &mut state, "hi");
    assert_eq!(state.msg_open, MsgOpen::Open);
    close_message(&mut out, &mut state);
    assert_eq!(state.msg_open, MsgOpen::Closed);
    assert_eq!(kinds(&out), ["added", "delta", "done"]);
    close_message(&mut out, &mut state);
    assert_eq!((out.len(), state.out_items.len()), (3, 1));
}

#[test]
fn closing_without_a_message_does_nothing() {
    let mut out = Vec::new();
    let mut state = StreamState::new();
    close_message(&mut out, &mut state);
    assert!(out.is_empty() && state.out_items.is_empty());
}

#[test]
fn call_arguments_are_written_as_json() {
    assert_eq!(fc_args_string(&Value::Null), "{}");
    assert_eq!(fc_args_string(&json("{ \"b\": [1, -2], \"a\": \"x\" }")), "{\"a\":\"x\",\"b\":[1,-2]}");
    assert_eq!(fc_args_string(&json("{}")), "{}");
    for other in ["7", "-1", "[1]", "\"x\"", "true", "1.5"] {
        assert_eq!(fc_args_string(&json(other)), "{}");
    }
    assert!(args_can_be_written(&Value::Null) && args_can_be_written(&json("{\"a\":[1.5]}")));
    let args = json("{\"path\":\"a\\nb\",\"n\":18446744073709551615}");
    assert_eq!(json(&fc_args_string(&args)), args);
}

#[test]
fn a_signed_call_is_queued_behind_its_reasoning() {
    let mut out = Vec::new();
    let mut state = StreamState::new();
    handle_part(&mut out, &mut state, &thought("plan", Some("old")));
    handle_part(&mut out, &mut state, &call("run", "{\"x\":1}", Some("sig1")));
    assert_eq!(kinds(&out), ["added", "done"]);
    let StreamEvent::OutputItemDone { item: OutputItem::Reasoning(item), .. } = &out[1] else {
        panic!()
    };
    assert_eq!((item.encrypted_content.as_str(), item.summary_text.as_str()), ("sig1", "plan"));
    assert_eq!(state.fcs, [("run".to_string(), "{\"x\":1}".to_string())]);
    handle_part(&mut out, &mut state, &call("run", "null", Some("sig2")));
    assert_eq!(kinds(&out), ["added", "done", "added", "done"]);
    let StreamEvent::OutputItemDone { item: OutputItem::Reasoning(item), .. } = &out[3] else {
        panic!()
    };
    assert_eq!((item.encrypted_content.as_str(), item.summary_text.as_str()), ("sig2", ""));
    assert_eq!(state.fcs[1].1, "{}");
}

#[test]
fn an_unsigned_call_behind_emitted_reasoning_adds_no_item() {
    let mut out = Vec::new();
    let mut state = StreamState::new();
    handle_part(&mut out, &mut state, &call("a", "{}", Some("s")));
    handle_part(&mut out, &mut state, &call("b", "{}", None));
    assert_eq!(kinds(&out), ["added", "done"]);
    assert_eq!(state.fcs.len(), 2);
}

#[test]
fn other_parts_are_passed_over() {
    let mut out = Vec::new();
    let mut state = StreamState::new();
    for part in [
        ReplyPart::CodeExecutionResult,
        ReplyPart::ExecutableCode,
        ReplyPart::FileData,
        ReplyPart::FunctionResponse,
        ReplyPart::InlineData,
        ReplyPart::ToolCall,
        ReplyPart::ToolResponse,
        text(""),
    ] {
        handle_part(&mut out, &mut state, &part);
    }
    assert!(out.is_empty());
    assert_eq!(state.seq, 0);
}

#[test]
fn a_function_call_is_four_events() {
    let mut out = Vec::new();
    let mut state = StreamState::new();
    emit_function_call_as(
        &mut out,
        &mut state,
        "run".to_string(),
        "{\"x\":1}".to_string(),
        "fc_1".to_string(),
        "call_1".to_string(),
    );
    assert_eq!(kinds(&out), ["added", "args_delta", "args_done", "done"]);
    let numbers: Vec<u64> = out.iter().map(number).collect();
    assert_eq!(numbers, [1, 2, 3, 4]);
    let StreamEvent::FunctionCallArgumentsDelta { item_id, delta, output_index, .. } = &out[1]
    else {
        panic!()
    };
    assert_eq!((item_id.as_str(), delta.as_str(), *output_index), ("fc_1", "{\"x\":1}", 0));
    let StreamEvent::FunctionCallArgumentsDone { arguments, .. } = &out[2] else { panic!() };
    assert_eq!(arguments, "{\"x\":1}");
    let StreamEvent::OutputItemDone { item: OutputItem::FunctionCall(done), .. } = &out[3] else {
        panic!()
    };
    assert_eq!(
        (done.id.as_str(), done.call_id.as_str(), done.name.as_str()),
        ("fc_1", "call_1", "run"),
    );
    assert_eq!(done.status, OutputStatus::Completed);
    assert_eq!(state.output_index, 1);
}

#[test]
fn queued_calls_go_out_in_order() {
    let mut out = Vec::new();
    let mut state = StreamState::new();
    handle_part(&mut out, &mut state, &call("first", "{}", None));
    handle_part(&mut out, &mut state, &call("second", "{}", None));
    emit_function_calls(&mut out, &mut state);
    assert_eq!(out.len(), 8);
    assert!(state.fcs.is_empty());
    let names: Vec<&str> = state
        .out_items
        .iter()
        .map(|(_, item)| match item {
            OutputItem::FunctionCall(call) => call.name.as_str(),
            other => panic!("{other:?}"),
        })
        .collect();
    assert_eq!(names, ["first", "second"]);
    assert_eq!(state.out_items[0].0, 0);
    assert_eq!(state.out_items[1].0, 1);
}

#[test]
fn only_the_first_candidate_is_read() {
    let mut out = Vec::new();
    let mut state = StreamState::new();
    let reply = GenerationResponse {
        candidates: vec![
            Candidate { finish_reason: None, parts: Some(vec![text("a")]) },
            Candidate { finish_reason: Some(FinishReason::Stop), parts: Some(vec![text("b")]) },
        ],
        usage_metadata: Some(UsageMetadata {
            cached_content_token_count: None,
            candidates_token_count: Some(1),
            prompt_token_count: Some(2),
            thoughts_token_count: None,
            total_token_count: Some(3),
        }),
    };
    consume_chunk(&mut out, &mut state, &reply);
    assert_eq!(state.text, "a");
    assert!(state.finish.is_none());
    assert_eq!(state.usage.unwrap().total_tokens, 3);
    consume_chunk(
        &mut out,
        &mut state,
        &GenerationResponse { candidates: Vec::new(), usage_metadata: None },
    );
    assert_eq!(state.usage.unwrap().total_tokens, 3);
    let bare = Candidate { finish_reason: Some(FinishReason::MaxTokens), parts: None };
    let reply = GenerationResponse { candidates: vec![bare], usage_metadata: None };
    consume_chunk(&mut out, &mut state, &reply);
    assert_eq!(state.finish, Some(FinishReason::MaxTokens));
    assert_eq!(state.got_finish, FinishObserved::Yes);
}

#[test]
fn every_finish_has_its_outcome() {
    assert!(matches!(finish_outcome(None), TerminalOutcome::Completed));
    assert!(matches!(finish_outcome(Some(FinishReason::Stop)), TerminalOutcome::Completed));
    assert!(matches!(
        finish_outcome(Some(FinishReason::MaxTokens)),
        TerminalOutcome::Incomplete("max_output_tokens")
    ));
    for reason in [
        FinishReason::Blocklist,
        FinishReason::ImageSafety,
        FinishReason::ProhibitedContent,
        FinishReason::Recitation,
        FinishReason::Safety,
        FinishReason::Spii,
    ] {
        assert!(matches!(
            finish_outcome(Some(reason)),
            TerminalOutcome::Incomplete("content_filter")
        ));
    }
    for reason in [
        FinishReason::FinishReasonUnspecified,
        FinishReason::Language,
        FinishReason::MalformedFunctionCall,
        FinishReason::Other,
        FinishReason::TooManyToolCalls,
        FinishReason::UnexpectedToolCall,
    ] {
        assert!(matches!(finish_outcome(Some(reason)), TerminalOutcome::Failed));
    }
}

#[test]
fn failures_name_their_reason() {
    assert_eq!(failed_message(None), "gemini stream ended without a finish reason");
    assert_eq!(
        failed_message(Some(FinishReason::MalformedFunctionCall)),
        "gemini terminated abnormally: MalformedFunctionCall",
    );
}

#[test]
fn the_output_stands_in_order_of_index() {
    let mut out = Vec::new();
    let mut state = StreamState::new();
    // The message opens first and closes last but for the calls.
    handle_part(&mut out, &mut state, &text("hi"));
    handle_part(&mut out, &mut state, &call("run", "{}", Some("sig")));
    state.got_finish = FinishObserved::Yes;
    state.finish = Some(FinishReason::Stop);
    close_message(&mut out, &mut state);
    assert_eq!(state.out_items[0].0, 1);
    assert_eq!(state.out_items[1].0, 0);
    emit_function_calls(&mut out, &mut state);
    emit_terminal_at(&mut out, &mut state, META, 99);
    let last = out.last().unwrap();
    assert!(matches!(last, StreamEvent::ResponseCompleted { .. }));
    let response = terminal(last);
    assert_eq!(response.completed_at, Some(99));
    assert_eq!(response.status, Status::Completed);
    assert_eq!(response.output.len(), 3);
    assert!(matches!(response.output[0], OutputItem::Message(_)));
    assert!(matches!(response.output[1], OutputItem::Reasoning(_)));
    assert!(matches!(response.output[2], OutputItem::FunctionCall(_)));
    assert!(state.out_items.is_empty() && state.usage.is_none());
}

#[test]
fn a_stream_without_a_finish_fails() {
    let mut out = Vec::new();
    let mut state = StreamState::new();
    emit_terminal_at(&mut out, &mut state, META, 5);
    let response = terminal(&out[0]);
    assert!(matches!(out[0], StreamEvent::ResponseFailed { .. }));
    assert_eq!(response.status, Status::Failed);
    let error = response.error.as_ref().unwrap();
    assert_eq!(error.code, "upstream_failure");
    assert_eq!(error.message, "gemini stream ended without a finish reason");
}

#[test]
fn a_bounded_stop_is_incomplete() {
    let mut out = Vec::new();
    let mut state = StreamState::new();
    consume_chunk(&mut out, &mut state, &chunk(vec![text("x")], Some(FinishReason::Safety)));
    drive_end(&mut out, &mut state, META);
    let response = terminal(out.last().unwrap());
    assert!(matches!(out.last().unwrap(), StreamEvent::ResponseIncomplete { .. }));
    assert_eq!(response.incomplete_reason.as_deref(), Some("content_filter"));
    assert_eq!(response.status, Status::Incomplete);
    assert_eq!(response.output.len(), 1);
    assert!(response.error.is_none());
}

#[test]
fn a_stall_fails_even_behind_a_stop() {
    let mut out = Vec::new();
    let mut state = StreamState::new();
    consume_chunk(&mut out, &mut state, &chunk(vec![text("x")], Some(FinishReason::Stop)));
    emit_stall_at(&mut out, &mut state, META, 8);
    let last = out.last().unwrap();
    assert!(matches!(last, StreamEvent::ResponseFailed { .. }));
    assert_eq!(
        terminal(last).error.as_ref().unwrap().message,
        "gemini terminated abnormally: Stop",
    );
}

#[test]
fn a_failure_carries_its_cause_and_no_output() {
    let mut out = Vec::new();
    let mut state = StreamState::new();
    state.seq = 4;
    fail_stream_at(&mut out, &mut state, META, "gone".to_string(), 6);
    assert_eq!(number(&out[0]), 5);
    let response = terminal(&out[0]);
    assert_eq!(response.error.as_ref().unwrap().message, "gone");
    assert!(response.output.is_empty() && response.usage.is_none());
}

#[test]
fn the_end_flushes_closes_calls_and_terminates() {
    let mut out = Vec::new();
    let mut state = StreamState::new();
    emit_open(&mut out, &mut state, META);
    consume_chunk(
        &mut out,
        &mut state,
        &chunk(vec![text("hi"), call("run", "{}", None)], Some(FinishReason::Stop)),
    );
    consume_chunk(&mut out, &mut state, &chunk(vec![thought("late", None)], None));
    drive_end(&mut out, &mut state, META);
    assert_eq!(
        kinds(&out),
        [
            "created",
            "in_progress",
            "added",
            "delta",
            "added",
            "done",
            "done",
            "added",
            "args_delta",
            "args_done",
            "done",
            "completed",
        ],
    );
    let numbers: Vec<u64> = out.iter().map(number).collect();
    let expected: Vec<u64> = (1..=12).collect();
    assert_eq!(numbers, expected);
    let response = terminal(out.last().unwrap());
    assert_eq!(response.output.len(), 3);
    let whole: Vec<(u32, &OutputItem)> = out
        .iter()
        .filter_map(|event| match event {
            StreamEvent::OutputItemDone { output_index, item, .. } => Some((*output_index, item)),
            _ => None,
        })
        .collect();
    let mut indices: Vec<u32> = whole.iter().map(|entry| entry.0).collect();
    assert_eq!(indices, [1, 0, 2]);
    indices.sort();
    assert_eq!(indices, [0, 1, 2]);
    for (index, item) in whole {
        assert_eq!(format!("{item:?}"), format!("{:?}", response.output[index as usize]));
    }
    assert!(matches!(response.output[2], OutputItem::FunctionCall(_)));
    for event in &out {
        if let StreamEvent::ResponseCreated { response, .. }
        | StreamEvent::ResponseInProgress { response, .. }
        | StreamEvent::ResponseCompleted { response, .. } = event
        {
            assert_eq!((response.id.as_str(), response.created_at), ("resp_1", 11));
            assert_eq!(response.model, "gemini-3.5-flash");
        }
    }
}
