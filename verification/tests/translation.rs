use cg_bridge::catalog::{catalog, model, reasoning_levels};
use cg_bridge::codex::{
    CodexContent, CodexEffort, CodexImageDetail, CodexInput, CodexOutput, CodexOutputItem,
    CodexReasoning, CodexReq, CodexRole, CodexText, CodexTextFormat, CodexTool, CodexToolChoice,
    CodexToolKind,
};
use cg_bridge::gemini::{
    Content, FunctionCallingMode, MediaResolutionLevel, Part, Role, ThinkingLevel, Tool,
};
use cg_bridge::launch::{
    api_model, bind_address, launch_stream, launch_stream_at, requested_model, responses,
    send_failed, spawn_failed, spawn_failed_at, Launch, Refusal, BODY_LIMIT,
};
use cg_bridge::request::{
    build_request, effort_level, function_tool, function_tools, response_schema, thinking_config,
    tool_choice_mode,
};
use cg_bridge::responses::{RespMeta, StreamEvent};
use cg_bridge::session::Action;
use cg_bridge::translate::{
    args_can_be_read, build_contents, capture_pending_sig, collect_call_names, content_part, image_blob,
    media_resolution, message_parts, output_item_image, output_item_text, output_parts,
    push_function_call, push_read_call,
};

use axum::http::{HeaderMap, HeaderValue};
use serde_json::Value;

fn json(text: &str) -> Value {
    serde_json::from_str(text).unwrap()
}

fn request(input: Vec<CodexInput>) -> CodexReq {
    CodexReq {
        input,
        instructions: None,
        max_output_tokens: None,
        model: Some("gemini-3.5-flash".to_string()),
        reasoning: None,
        text: None,
        tool_choice: None,
        tools: Vec::new(),
    }
}

fn message(role: CodexRole, text: &str) -> CodexInput {
    CodexInput::Message {
        content: vec![CodexContent::InputText { text: text.to_string() }],
        role,
    }
}

fn call(call_id: &str, name: &str, arguments: &str) -> CodexInput {
    CodexInput::FunctionCall {
        arguments: arguments.to_string(),
        call_id: call_id.to_string(),
        name: name.to_string(),
    }
}

fn output(call_id: &str, text: &str) -> CodexInput {
    CodexInput::FunctionCallOutput {
        call_id: call_id.to_string(),
        output: CodexOutput::Text(text.to_string()),
    }
}

fn reasoning(signature: Option<&str>) -> CodexInput {
    CodexInput::Reasoning { encrypted_content: signature.map(str::to_string) }
}

fn called(content: &Content) -> (String, Value, String) {
    assert_eq!(content.role, Role::Model);
    assert_eq!(content.parts.len(), 1);
    match &content.parts[0] {
        Part::FunctionCall { function_call, thought_signature } => (
            function_call.name.clone(),
            function_call.args.clone(),
            thought_signature.clone().unwrap(),
        ),
        other => panic!("{other:?}"),
    }
}

fn answered(content: &Content) -> (String, Value) {
    assert_eq!(content.role, Role::User);
    match &content.parts[0] {
        Part::FunctionResponse { function_response } => {
            (function_response.name.clone(), function_response.response.clone())
        }
        other => panic!("{other:?}"),
    }
}

#[test]
fn efforts_go_by_name() {
    assert_eq!(CodexEffort::from_name("high"), CodexEffort::High);
    assert_eq!(CodexEffort::from_name("low"), CodexEffort::Low);
    assert_eq!(CodexEffort::from_name("medium"), CodexEffort::Medium);
    assert_eq!(CodexEffort::from_name("minimal"), CodexEffort::Minimal);
    assert_eq!(CodexEffort::from_name("none"), CodexEffort::Off);
    assert_eq!(CodexEffort::from_name("xhigh"), CodexEffort::Xhigh);
    assert_eq!(CodexEffort::from_name("High"), CodexEffort::Custom);
    assert_eq!(CodexEffort::from_value(&json("\"low\"")), CodexEffort::Low);
    assert_eq!(CodexEffort::from_value(&json("7")), CodexEffort::Custom);
}

#[test]
fn efforts_have_levels() {
    assert_eq!(effort_level(CodexEffort::Minimal), ThinkingLevel::Minimal);
    assert_eq!(effort_level(CodexEffort::Off), ThinkingLevel::Minimal);
    assert_eq!(effort_level(CodexEffort::Low), ThinkingLevel::Low);
    assert_eq!(effort_level(CodexEffort::Medium), ThinkingLevel::Medium);
    assert_eq!(effort_level(CodexEffort::High), ThinkingLevel::High);
    assert_eq!(effort_level(CodexEffort::Xhigh), ThinkingLevel::High);
    assert_eq!(effort_level(CodexEffort::Custom), ThinkingLevel::High);
}

#[test]
fn an_absent_effort_is_the_advertised_default() {
    let mut req = request(Vec::new());
    let config = thinking_config(&req);
    assert!(config.include_thoughts);
    assert_eq!(config.thinking_level, ThinkingLevel::Medium);
    let entry = model("s", "n", "d", "base");
    assert_eq!(
        effort_level(CodexEffort::from_name(entry.default_reasoning_level)),
        config.thinking_level,
    );
    req.reasoning = Some(CodexReasoning { effort: None });
    assert_eq!(thinking_config(&req).thinking_level, ThinkingLevel::Medium);
    req.reasoning = Some(CodexReasoning { effort: Some(CodexEffort::Xhigh) });
    assert_eq!(thinking_config(&req).thinking_level, ThinkingLevel::High);
}

#[test]
fn tool_choices_take_every_shape() {
    assert_eq!(CodexToolChoice::from_value(&json("\"auto\"")), CodexToolChoice::Auto);
    assert_eq!(CodexToolChoice::from_value(&json("\"none\"")), CodexToolChoice::Forbidden);
    assert_eq!(CodexToolChoice::from_value(&json("\"required\"")), CodexToolChoice::Required);
    assert_eq!(
        CodexToolChoice::from_value(&json("{\"type\":\"function\",\"name\":\"f\"}")),
        CodexToolChoice::Named,
    );
    assert_eq!(CodexToolChoice::from_value(&json("[1]")), CodexToolChoice::Auto);
    assert_eq!(CodexToolChoice::from_value(&json("3")), CodexToolChoice::Auto);
    assert_eq!(tool_choice_mode(None), None);
    assert_eq!(tool_choice_mode(Some(CodexToolChoice::Auto)), Some(FunctionCallingMode::Auto));
    assert_eq!(tool_choice_mode(Some(CodexToolChoice::Named)), Some(FunctionCallingMode::Any));
    assert_eq!(tool_choice_mode(Some(CodexToolChoice::Required)), Some(FunctionCallingMode::Any));
    assert_eq!(
        tool_choice_mode(Some(CodexToolChoice::Forbidden)),
        Some(FunctionCallingMode::Never),
    );
}

#[test]
fn only_base64_data_urls_are_images() {
    let blob = image_blob("data:image/png;base64,AA;base64,BB").unwrap();
    assert_eq!((blob.mime_type.as_str(), blob.data.as_str()), ("image/png", "AA;base64,BB"));
    let bare = image_blob("data:;base64,").unwrap();
    assert_eq!((bare.mime_type.as_str(), bare.data.as_str()), ("", ""));
    assert!(image_blob("https://example.org/a.png").is_none());
    assert!(image_blob("data:image/png,AA").is_none());
    assert!(image_blob("xdata:image/png;base64,AA").is_none());
}

#[test]
fn image_details_have_resolutions() {
    assert!(media_resolution(None).is_none());
    let level = |detail| media_resolution(Some(detail)).unwrap().level;
    assert_eq!(
        level(CodexImageDetail::Auto),
        MediaResolutionLevel::MediaResolutionUnspecified,
    );
    assert_eq!(
        level(CodexImageDetail::Unknown),
        MediaResolutionLevel::MediaResolutionUnspecified,
    );
    assert_eq!(level(CodexImageDetail::High), MediaResolutionLevel::MediaResolutionHigh);
    assert_eq!(level(CodexImageDetail::Original), MediaResolutionLevel::MediaResolutionHigh);
    assert_eq!(level(CodexImageDetail::Low), MediaResolutionLevel::MediaResolutionLow);
}

#[test]
fn content_items_become_parts() {
    let image = CodexContent::InputImage {
        detail: Some(CodexImageDetail::Low),
        image_url: "data:image/png;base64,AA".to_string(),
    };
    let Some(Part::InlineData { inline_data, media_resolution }) = content_part(&image) else {
        panic!()
    };
    assert_eq!(inline_data.mime_type, "image/png");
    assert_eq!(media_resolution.unwrap().level, MediaResolutionLevel::MediaResolutionLow);
    let parts = message_parts(&vec![
        CodexContent::Unknown,
        CodexContent::InputText { text: String::new() },
        CodexContent::OutputText { text: "b".to_string() },
        CodexContent::InputImage { detail: None, image_url: "http://x".to_string() },
        CodexContent::InputText { text: "a".to_string() },
    ]);
    let texts: Vec<&str> = parts
        .iter()
        .map(|part| match part {
            Part::Text { text } => text.as_str(),
            other => panic!("{other:?}"),
        })
        .collect();
    assert_eq!(texts, ["b", "a"]);
}

#[test]
fn messages_keep_their_side() {
    let contents = build_contents(&request(vec![
        message(CodexRole::Other, "q"),
        message(CodexRole::Assistant, "a"),
        message(CodexRole::Other, ""),
        CodexInput::Unknown,
    ]));
    assert_eq!(contents.len(), 2);
    assert_eq!((contents[0].role, contents[1].role), (Role::User, Role::Model));
}

#[test]
fn output_items_split_into_text_and_images() {
    let text = CodexOutputItem::InputText { text: "t".to_string() };
    let image = CodexOutputItem::InputImage { image_url: "data:i/p;base64,AA".to_string() };
    assert_eq!(output_item_text(&text).as_deref(), Some("t"));
    assert!(output_item_text(&image).is_none());
    assert!(output_item_text(&CodexOutputItem::Unknown).is_none());
    assert!(output_item_image(&text).is_none());
    assert!(output_item_image(&image).is_some());
    let link = CodexOutputItem::InputImage { image_url: "http://x".to_string() };
    assert!(output_item_image(&link).is_none());
    let (joined, images) = output_parts(&CodexOutput::Items(vec![
        text,
        image,
        CodexOutputItem::Unknown,
        CodexOutputItem::InputText { text: "u".to_string() },
    ]));
    assert_eq!(joined, "t\nu");
    assert_eq!(images.len(), 1);
    let (plain, none) = output_parts(&CodexOutput::Text("as is\n".to_string()));
    assert_eq!((plain.as_str(), none.len()), ("as is\n", 0));
    let (empty, none) = output_parts(&CodexOutput::default());
    assert_eq!((empty.as_str(), none.len()), ("", 0));
    let (empty, _) = output_parts(&CodexOutput::Items(Vec::new()));
    assert_eq!(empty, "");
}

#[test]
fn outputs_answer_their_calls() {
    let contents = build_contents(&request(vec![
        call("c1", "read", "{\"p\":1}"),
        output("c1", "done"),
        output("c9", "orphan"),
    ]));
    assert_eq!(contents.len(), 2);
    assert_eq!(called(&contents[0]).0, "read");
    assert_eq!(answered(&contents[1]), ("read".to_string(), json("{\"output\":\"done\"}")));
}

#[test]
fn a_later_call_of_an_id_names_its_outputs() {
    let req = request(vec![
        output("c1", "early"),
        call("c1", "first", "{}"),
        call("c1", "second", "{}"),
    ]);
    assert_eq!(collect_call_names(&req).get("c1").map(String::as_str), Some("second"));
    assert!(collect_call_names(&req).get("c2").is_none());
    let contents = build_contents(&req);
    assert_eq!(contents.len(), 3);
    assert_eq!(answered(&contents[0]).0, "second");
}

#[test]
fn images_ride_behind_their_output() {
    let contents = build_contents(&request(vec![
        call("c", "shot", "{}"),
        CodexInput::FunctionCallOutput {
            call_id: "c".to_string(),
            output: CodexOutput::Items(vec![CodexOutputItem::InputImage {
                image_url: "data:image/png;base64,AA".to_string(),
            }]),
        },
    ]));
    assert_eq!(contents.len(), 3);
    assert_eq!(answered(&contents[1]).1, json("{\"output\":\"\"}"));
    assert_eq!(contents[2].role, Role::User);
    assert!(matches!(
        contents[2].parts[0],
        Part::InlineData { media_resolution: None, .. }
    ));
}

#[test]
fn signatures_come_back_with_their_calls() {
    let contents = build_contents(&request(vec![
        reasoning(Some("sig")),
        call("a", "f", "{\"x\":[1]}"),
        call("b", "g", "not json"),
        output("a", "1"),
        call("c", "h", "{}"),
    ]));
    assert_eq!(called(&contents[0]), ("f".to_string(), json("{\"x\":[1]}"), "sig".to_string()));
    assert_eq!(called(&contents[1]), ("g".to_string(), Value::Null, "sig".to_string()));
    assert_eq!(called(&contents[3]).2, "skip_thought_signature_validator");
}

#[test]
fn a_message_drops_the_waiting_signature() {
    let contents = build_contents(&request(vec![
        reasoning(Some("sig")),
        message(CodexRole::Assistant, "text"),
        reasoning(None),
        reasoning(Some("")),
        call("a", "f", "{}"),
    ]));
    assert_eq!(called(&contents[1]).2, "skip_thought_signature_validator");
}

#[test]
fn empty_signatures_are_not_captured() {
    let mut pending = Some("old".to_string());
    capture_pending_sig(&mut pending, None);
    capture_pending_sig(&mut pending, Some(&String::new()));
    assert_eq!(pending.as_deref(), Some("old"));
    capture_pending_sig(&mut pending, Some(&"new".to_string()));
    assert_eq!(pending.as_deref(), Some("new"));
}

#[test]
fn a_call_is_replayed_by_the_model() {
    let mut contents = Vec::new();
    push_function_call(&mut contents, Some(&"s".to_string()), "f", "[1,2]");
    assert_eq!(called(&contents[0]), ("f".to_string(), json("[1,2]"), "s".to_string()));
    push_read_call(&mut contents, None, "g", Some(json("{\"x\":1}")));
    push_read_call(&mut contents, Some(&"t".to_string()), "h", None);
    let skip = "skip_thought_signature_validator".to_string();
    assert_eq!(called(&contents[1]), ("g".to_string(), json("{\"x\":1}"), skip));
    assert_eq!(called(&contents[2]), ("h".to_string(), Value::Null, "t".to_string()));
    assert!(args_can_be_read("{}") && !args_can_be_read("{") && !args_can_be_read(""));
}

fn tool(kind: CodexToolKind, name: &str, description: &str, tools: Vec<CodexTool>) -> CodexTool {
    CodexTool {
        description: description.to_string(),
        kind,
        name: name.to_string(),
        parameters: None,
        tools,
    }
}

fn declarations(tools: &Vec<CodexTool>) -> Vec<(String, String)> {
    function_tools(tools)
        .iter()
        .map(|tool| match tool {
            Tool::Function(declaration) => {
                (declaration.name.clone(), declaration.description.clone())
            }
            other => panic!("{other:?}"),
        })
        .collect()
}

#[test]
fn groups_are_flattened_and_names_kept_once() {
    let tools = vec![
        tool(CodexToolKind::Function, "a", "top", Vec::new()),
        tool(
            CodexToolKind::Other,
            "group",
            "",
            vec![
                tool(CodexToolKind::Function, "b", "inner", Vec::new()),
                tool(CodexToolKind::Function, "a", "again", Vec::new()),
                tool(CodexToolKind::Other, "c", "", Vec::new()),
            ],
        ),
        tool(
            CodexToolKind::Function,
            "d",
            "parent",
            vec![tool(CodexToolKind::Function, "b", "twice", Vec::new())],
        ),
    ];
    let expected = [("a", "top"), ("b", "inner"), ("d", "parent")];
    let found = declarations(&tools);
    assert_eq!(found.len(), expected.len());
    for (one, (name, description)) in found.iter().zip(expected) {
        assert_eq!((one.0.as_str(), one.1.as_str()), (name, description));
    }
}

#[test]
fn a_function_without_parameters_takes_an_empty_object() {
    let Some(Tool::Function(declaration)) =
        function_tool(&tool(CodexToolKind::Function, "a", "d", Vec::new()))
    else {
        panic!()
    };
    assert_eq!(
        declaration.parameters_json_schema,
        json("{\"type\":\"object\",\"properties\":{}}"),
    );
    let schema = json("{\"type\":\"object\",\"properties\":{\"x\":{\"type\":\"string\"}}}");
    let mut with = tool(CodexToolKind::Function, "a", "d", Vec::new());
    with.parameters = Some(schema.clone());
    let Some(Tool::Function(declaration)) = function_tool(&with) else { panic!() };
    assert_eq!(declaration.parameters_json_schema, schema);
    assert!(function_tool(&tool(CodexToolKind::Other, "a", "d", Vec::new())).is_none());
}

#[test]
fn a_request_carries_every_control() {
    let mut req = request(vec![message(CodexRole::Other, "q")]);
    req.instructions = Some("be brief".to_string());
    req.max_output_tokens = Some(9);
    req.tool_choice = Some(CodexToolChoice::Required);
    req.tools = vec![tool(CodexToolKind::Function, "f", "d", Vec::new())];
    let schema = json("{\"type\":\"object\"}");
    req.text = Some(CodexText {
        format: Some(CodexTextFormat::JsonSchema { schema: schema.clone() }),
    });
    let contents = build_contents(&req);
    let built = build_request(&req, contents);
    assert_eq!(built.contents.len(), 1);
    assert_eq!(built.system_prompt.as_deref(), Some("be brief"));
    assert_eq!(built.max_output_tokens, Some(9));
    assert_eq!(built.response_mime_type.as_deref(), Some("application/json"));
    assert_eq!(built.response_json_schema, Some(schema));
    assert_eq!(built.tool_config.function_calling_mode, Some(FunctionCallingMode::Any));
    assert!(built.tool_config.include_server_side_tool_invocations);
    assert_eq!(built.tools.len(), 4);
    assert!(matches!(built.tools[1], Tool::GoogleSearch));
    assert!(matches!(built.tools[2], Tool::UrlContext));
    assert!(matches!(built.tools[3], Tool::CodeExecution));
}

#[test]
fn plain_text_asks_for_no_schema() {
    let mut req = request(Vec::new());
    assert!(response_schema(&req).is_none());
    req.text = Some(CodexText { format: None });
    assert!(response_schema(&req).is_none());
    req.text = Some(CodexText { format: Some(CodexTextFormat::Text) });
    assert!(response_schema(&req).is_none());
    let built = build_request(&req, Vec::new());
    assert!(built.response_mime_type.is_none() && built.response_json_schema.is_none());
    assert!(built.system_prompt.is_none() && built.max_output_tokens.is_none());
}

#[test]
fn models_are_named_under_models() {
    assert_eq!(api_model("gemini-3.5-flash"), "models/gemini-3.5-flash");
    assert_eq!(api_model("models/x"), "models/x");
    assert_eq!(api_model("models"), "models/models");
    assert_eq!(bind_address("4011"), "127.0.0.1:4011");
    assert_eq!(BODY_LIMIT, 67_108_864);
}

#[test]
fn a_request_without_a_model_is_rejected() {
    let mut req = request(Vec::new());
    req.model = None;
    assert!(requested_model(&req).is_none());
    let Launch::Rejected(event) = launch_stream_at(&req, 5, "resp_1".to_string(), 6) else {
        panic!()
    };
    let StreamEvent::ResponseFailed { sequence_number, response } = event else { panic!() };
    assert_eq!(sequence_number, 1);
    assert_eq!((response.created_at, response.completed_at), (5, Some(6)));
    assert_eq!((response.id.as_str(), response.model.as_str()), ("resp_1", ""));
    assert_eq!(response.error.unwrap().message, "request rejected before streaming");
    req.model = Some(String::new());
    assert!(matches!(launch_stream(&req), Launch::Rejected(_)));
}

#[test]
fn a_rejection_is_one_failure() {
    let StreamEvent::ResponseFailed { sequence_number, response } =
        spawn_failed_at("resp_2", "m", 1, 2)
    else {
        panic!()
    };
    assert_eq!((sequence_number, response.model.as_str()), (1, "m"));
    assert!(matches!(
        spawn_failed("resp_2", "m", 1),
        StreamEvent::ResponseFailed { sequence_number: 1, .. }
    ));
    let meta = RespMeta { created: 1, model: "m", response_id: "r" };
    let StreamEvent::ResponseFailed { sequence_number, response } =
        send_failed(meta, 8, "why".to_string())
    else {
        panic!()
    };
    assert_eq!((sequence_number, response.error.unwrap().message.as_str()), (8, "why"));
}

#[test]
fn a_request_with_a_model_is_launched() {
    let req = request(vec![message(CodexRole::Other, "q")]);
    let Launch::Stream(plan) = launch_stream_at(&req, 5, "resp_1".to_string(), 6) else {
        panic!()
    };
    assert_eq!(plan.api_model, "models/gemini-3.5-flash");
    assert_eq!(plan.model, "gemini-3.5-flash");
    assert_eq!(plan.created, 5);
    assert_eq!(plan.request.contents.len(), 1);
    let (mut session, sent) = plan.into_session();
    assert_eq!(sent.tools.len(), 3);
    let Action::Send(StreamEvent::ResponseCreated { response, .. }) = session.next_action() else {
        panic!()
    };
    assert_eq!((response.created_at, response.id.as_str()), (5, "resp_1"));
    let Launch::Stream(plan) = launch_stream(&req) else { panic!() };
    assert!(plan.response_id.starts_with("resp_"));
}

#[test]
fn a_wrong_credential_is_refused() {
    let req = request(Vec::new());
    let key = "k".to_string();
    let mut headers: HeaderMap<HeaderValue> = HeaderMap::new();
    let Err(refusal) = responses(&headers, Some(&key), &req) else { panic!() };
    assert_eq!(refusal, Refusal::Unauthorized);
    assert_eq!(refusal.status(), 401);
    headers.insert("authorization", HeaderValue::from_static("Bearer k"));
    assert!(matches!(responses(&headers, Some(&key), &req), Ok(Launch::Stream(_))));
    assert!(responses(&HeaderMap::new(), None, &req).is_ok());
}

#[test]
fn every_tier_offers_the_known_efforts() {
    let levels = reasoning_levels();
    let efforts: Vec<&str> = levels.iter().map(|level| level.effort).collect();
    assert_eq!(efforts, ["minimal", "low", "medium", "high", "xhigh"]);
    for effort in efforts {
        assert_ne!(CodexEffort::from_name(effort), CodexEffort::Custom);
    }
    assert_eq!(
        levels[1].description,
        "Balances speed with some reasoning; useful for straightforward queries and short explanations",
    );
}

#[test]
fn the_catalog_has_three_tiers() {
    let found = catalog("prompt");
    let slugs: Vec<&str> = found.models.iter().map(|entry| entry.slug).collect();
    assert_eq!(slugs, ["gemini-3.1-pro-preview", "gemini-3.5-flash", "gemini-3.1-flash-lite"]);
    let entry = &found.models[1];
    assert_eq!(entry.display_name, "Gemini 3.5 Flash");
    assert_eq!(entry.description, "Gemini 3.5 Flash via pure-Rust bridge");
    assert_eq!(entry.base_instructions, "prompt");
    assert_eq!((entry.context_window, entry.max_output_tokens), (1_048_576, 65_536));
    assert_eq!(entry.effective_context_window_percent, 90);
    assert_eq!((entry.truncation_policy.limit, entry.truncation_policy.mode), (10_000, "bytes"));
    assert!(entry.experimental_supported_tools.is_empty());
    assert!(entry.apply_patch_tool_type.is_none() && entry.multi_agent_version.is_none());
    assert_eq!(entry.supported_reasoning_levels.len(), 5);
    assert_eq!(entry.default_reasoning_level, "medium");
}
