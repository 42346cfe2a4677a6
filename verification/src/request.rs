//! The gemini request that a codex request calls for.
use serde_json::Value;
use vstd::hash_set::StringHashSet;
use vstd::prelude::*;

use crate::codex::{
    CodexEffort, CodexReq, CodexTextFormat, CodexTool, CodexToolChoice, CodexToolKind,
};
use crate::gemini::{
    Content, ContentView, FunctionCallingMode, FunctionDeclaration, GenerateRequest,
    GenerateRequestView, ThinkingConfig, ThinkingLevel, Tool, ToolConfig, ToolView,
};
use crate::json::{json, json_clone, json_object, json_opt, json_string, object2, Json};

verus! {

// ---------------------------------------------------------------------------------------------
// Thinking
// ---------------------------------------------------------------------------------------------

/// The thinking level of an effort: the closest that gemini has.
pub open spec fn level_of(effort: CodexEffort) -> ThinkingLevel {
    match effort {
        CodexEffort::Minimal | CodexEffort::Off => ThinkingLevel::Minimal,
        CodexEffort::Low => ThinkingLevel::Low,
        CodexEffort::Medium => ThinkingLevel::Medium,
        CodexEffort::Custom | CodexEffort::High | CodexEffort::Xhigh => ThinkingLevel::High,
    }
}

/// The effort that a request asks for.
pub open spec fn requested_effort(req: CodexReq) -> Option<CodexEffort> {
    match req.reasoning {
        Some(reasoning) => reasoning.effort,
        None => None,
    }
}

/// How the model is to think: with thoughts shown, at the level of the requested effort, and at
/// the medium one where none is requested.
pub open spec fn thinking_of(req: CodexReq) -> ThinkingConfig {
    ThinkingConfig {
        include_thoughts: true,
        thinking_level: match requested_effort(req) {
            Some(effort) => level_of(effort),
            None => ThinkingLevel::Medium,
        },
    }
}

/// Map reasoning effort onto the gemini thinking level.
pub fn effort_level(effort: CodexEffort) -> (level: ThinkingLevel)
    ensures
        level == level_of(effort),
{
    match effort {
        CodexEffort::Minimal | CodexEffort::Off => ThinkingLevel::Minimal,
        CodexEffort::Low => ThinkingLevel::Low,
        CodexEffort::Medium => ThinkingLevel::Medium,
        CodexEffort::Custom | CodexEffort::High | CodexEffort::Xhigh => ThinkingLevel::High,
    }
}

/// The gemini thinking config for the request's reasoning effort; thoughts always included.
///
/// Absent effort defaults to the catalog's declared `default_reasoning_level` (Medium), never
/// gemini's own built-in default, so the advertised default and the wire stay consistent.
pub fn thinking_config(req: &CodexReq) -> (config: ThinkingConfig)
    ensures
        config == thinking_of(*req),
{
    let effort = match &req.reasoning {
        Some(reasoning) => reasoning.effort,
        None => None,
    };
    let thinking_level = match effort {
        Some(requested) => effort_level(requested),
        None => ThinkingLevel::Medium,
    };
    ThinkingConfig { include_thoughts: true, thinking_level }
}

// ---------------------------------------------------------------------------------------------
// Tools
// ---------------------------------------------------------------------------------------------

/// The function-calling mode of a tool choice; `None` leaves the gemini default.
pub open spec fn mode_of(choice: Option<CodexToolChoice>) -> Option<FunctionCallingMode> {
    match choice {
        None => None,
        Some(CodexToolChoice::Auto) => Some(FunctionCallingMode::Auto),
        Some(CodexToolChoice::Named) => Some(FunctionCallingMode::Any),
        Some(CodexToolChoice::Required) => Some(FunctionCallingMode::Any),
        Some(CodexToolChoice::Forbidden) => Some(FunctionCallingMode::Never),
    }
}

/// Map codex's `tool_choice` to a gemini function-calling mode; `None` leaves the gemini default.
pub fn tool_choice_mode(choice: Option<CodexToolChoice>) -> (mode: Option<FunctionCallingMode>)
    ensures
        mode == mode_of(choice),
{
    match choice {
        None => None,
        Some(CodexToolChoice::Auto) => Some(FunctionCallingMode::Auto),
        Some(CodexToolChoice::Named) | Some(CodexToolChoice::Required) => {
            Some(FunctionCallingMode::Any)
        },
        Some(CodexToolChoice::Forbidden) => Some(FunctionCallingMode::Never),
    }
}

/// The schema of a function without parameters: an object without properties.
pub open spec fn empty_schema() -> Json {
    Json::Object(
        Map::empty().insert("type"@, Json::Str("object"@)).insert(
            "properties"@,
            Json::Object(Map::empty()),
        ),
    )
}

/// The declaration of a function tool.
pub open spec fn declaration_of(tool: CodexTool) -> ToolView {
    ToolView::Function {
        name: tool.name@,
        description: tool.description@,
        parameters_json_schema: match json_opt(tool.parameters) {
            Some(schema) => schema,
            None => empty_schema(),
        },
    }
}

/// Tools and, behind each, those of its group.
pub open spec fn flattened(tools: Seq<CodexTool>) -> Seq<CodexTool>
    decreases tools.len(),
{
    if tools.len() == 0 {
        Seq::empty()
    } else {
        flattened(tools.drop_last()).push(tools.last()) + tools.last().tools@
    }
}

/// Whether a list holds a function tool of a name.
pub open spec fn has_function(list: Seq<CodexTool>, name: Seq<char>) -> bool {
    exists|i: int|
        0 <= i < list.len() && (#[trigger] list[i]).kind == CodexToolKind::Function
            && list[i].name@ == name
}

/// The function tools of a list, the first one of each name.
pub open spec fn first_functions(list: Seq<CodexTool>) -> Seq<CodexTool>
    decreases list.len(),
{
    if list.len() == 0 {
        Seq::empty()
    } else {
        let earlier = first_functions(list.drop_last());
        let tool = list.last();
        if tool.kind == CodexToolKind::Function && !has_function(list.drop_last(), tool.name@) {
            earlier.push(tool)
        } else {
            earlier
        }
    }
}

/// The declarations of function tools.
pub open spec fn declarations_of(tools: Seq<CodexTool>) -> Seq<ToolView> {
    Seq::new(tools.len(), |i: int| declaration_of(tools[i]))
}

/// The function declarations of a request's tools.
pub open spec fn declared(tools: Seq<CodexTool>) -> Seq<ToolView> {
    declarations_of(first_functions(flattened(tools)))
}

/// The schema of a function without parameters.
fn parameterless() -> (schema: Value)
    ensures
        json(schema) == empty_schema(),
{
    let none: Vec<(String, Value)> = Vec::new();
    let properties = json_object(none);
    assert(json(properties) == Json::Object(Map::empty()));
    object2("type", json_string("object".to_owned()), "properties", properties)
}

/// The gemini function-tool declaration for one codex tool; `None` for a non-function tool.
pub fn function_tool(tool: &CodexTool) -> (declaration: Option<Tool>)
    ensures
        declaration.deep_view() == if tool.kind == CodexToolKind::Function {
            Some(declaration_of(*tool))
        } else {
            None
        },
{
    if tool.kind != CodexToolKind::Function {
        return None;
    }
    let params = match &tool.parameters {
        Some(schema) => json_clone(schema),
        None => parameterless(),
    };
    Some(
        Tool::Function(
            FunctionDeclaration {
                description: tool.description.clone(),
                name: tool.name.clone(),
                parameters_json_schema: params,
            },
        ),
    )
}

/// Whether names are those of the function tools of a list.
spec fn names_seen(seen: Set<Seq<char>>, list: Seq<CodexTool>) -> bool {
    forall|name: Seq<char>| #[trigger] seen.contains(name) <==> has_function(list, name)
}

/// Declare one more tool of the flattened list, unless it is no function or its name was seen.
fn declare(
    seen: &mut StringHashSet,
    declarations: &mut Vec<Tool>,
    tool: &CodexTool,
    list: Ghost<Seq<CodexTool>>,
)
    requires
        names_seen(old(seen)@, list@),
        old(declarations).deep_view() == declarations_of(first_functions(list@)),
    ensures
        names_seen(final(seen)@, list@.push(*tool)),
        final(declarations).deep_view() == declarations_of(first_functions(list@.push(*tool))),
{
    let ghost longer = list@.push(*tool);
    let ghost before = seen@;
    let ghost declared_before = declarations.deep_view();
    assert(longer.drop_last() =~= list@);
    assert(longer.last() == *tool);
    assert(before.contains(tool.name@) == has_function(list@, tool.name@));
    if tool.kind == CodexToolKind::Function && seen.insert(tool.name.clone()) {
        if let Some(declaration) = function_tool(tool) {
            declarations.push(declaration);
        }
        assert(declarations.deep_view() =~= declared_before.push(declaration_of(*tool)));
        assert(declarations.deep_view() =~= declarations_of(first_functions(longer)));
    }
    assert forall|name: Seq<char>|
        #[trigger] seen@.contains(name) <==> has_function(longer, name) by {
        assert(before.contains(name) <==> has_function(list@, name));
        if has_function(list@, name) {
            let i = choose|i: int|
                0 <= i < list@.len() && (#[trigger] list@[i]).kind == CodexToolKind::Function
                    && list@[i].name@ == name;
            assert(longer[i] == list@[i]);
        } else if has_function(longer, name) {
            let i = choose|i: int|
                0 <= i < longer.len() && (#[trigger] longer[i]).kind == CodexToolKind::Function
                    && longer[i].name@ == name;
            if i < list@.len() {
                assert(list@[i] == longer[i]);
            }
        }
        if tool.kind == CodexToolKind::Function && name == tool.name@ {
            assert(longer[list@.len() as int] == *tool);
        }
    }
}

/// Flatten codex's tool list to gemini function tools, descending into `namespace` groups, keeping
/// the first declaration of each function name.
///
/// codex groups multi-agent / MCP tools under a `namespace` entry whose `tools[]` hold the real
/// function declarations; a flat scan that only reads top-level `function` tools silently drops
/// them. The same function name can surface twice (a tool present both top-level and inside a
/// namespace, or two MCP servers exposing the same name) and gemini rejects the whole request with
/// `400 Duplicate function declaration` — so dedupe by name, first declaration wins.
pub fn function_tools(tools: &Vec<CodexTool>) -> (declarations: Vec<Tool>)
    ensures
        declarations.deep_view() == declared(tools@),
{
    let mut seen = StringHashSet::new();
    let mut declarations: Vec<Tool> = Vec::new();
    let ghost mut list: Seq<CodexTool> = Seq::empty();
    assert(names_seen(seen@, list));
    assert(declarations.deep_view() =~= declarations_of(first_functions(list)));
    let mut i: usize = 0;
    while i < tools.len()
        invariant
            i <= tools.len(),
            list == flattened(tools@.take(i as int)),
            names_seen(seen@, list),
            declarations.deep_view() == declarations_of(first_functions(list)),
        decreases tools.len() - i,
    {
        let tool = &tools[i];
        declare(&mut seen, &mut declarations, tool, Ghost(list));
        let ghost parent = list.push(*tool);
        proof {
            list = parent;
        }
        assert(parent + tool.tools@.take(0) =~= parent);
        let mut j: usize = 0;
        while j < tool.tools.len()
            invariant
                j <= tool.tools.len(),
                list == parent + tool.tools@.take(j as int),
                names_seen(seen@, list),
                declarations.deep_view() == declarations_of(first_functions(list)),
            decreases tool.tools.len() - j,
        {
            declare(&mut seen, &mut declarations, &tool.tools[j], Ghost(list));
            proof {
                let longer = list.push(tool.tools@[j as int]);
                assert(longer =~= parent + tool.tools@.take(j + 1));
                list = longer;
            }
            j += 1;
        }
        assert(tool.tools@.take(j as int) =~= tool.tools@);
        assert(tools@.take(i + 1).drop_last() =~= tools@.take(i as int));
        i += 1;
    }
    assert(tools@.take(i as int) =~= tools@);
    declarations
}

// ---------------------------------------------------------------------------------------------
// The request
// ---------------------------------------------------------------------------------------------

/// The schema that a request constrains its output to.
pub open spec fn schema_of(req: CodexReq) -> Option<Json> {
    match req.text {
        Some(text) => match text.format {
            Some(CodexTextFormat::JsonSchema { schema }) => Some(json(schema)),
            _ => None,
        },
        None => None,
    }
}

/// The JSON schema codex requests for structured output (`text.format` = `json_schema`), if any.
///
/// The bridge constrains gemini's output to it via `responseJsonSchema`, so a structured-output
/// request is honored rather than silently dropped to free-form text.
pub fn response_schema(req: &CodexReq) -> (schema: Option<Value>)
    ensures
        json_opt(schema) == schema_of(*req),
{
    let Some(text) = &req.text else {
        return None;
    };
    let Some(CodexTextFormat::JsonSchema { schema }) = &text.format else {
        return None;
    };
    Some(json_clone(schema))
}

/// The gemini request of a codex request and its contents: the declared functions, then the
/// server-side tools, and JSON output where a schema is asked for.
pub open spec fn request_of(req: CodexReq, contents: Seq<ContentView>) -> GenerateRequestView {
    GenerateRequestView {
        contents,
        max_output_tokens: req.max_output_tokens,
        response_json_schema: schema_of(req),
        response_mime_type: match schema_of(req) {
            Some(_) => Some("application/json"@),
            None => None,
        },
        system_prompt: req.instructions.deep_view(),
        thinking_config: thinking_of(req),
        tool_config: ToolConfig {
            function_calling_mode: mode_of(req.tool_choice),
            include_server_side_tool_invocations: true,
        },
        tools: declared(req.tools@).push(ToolView::GoogleSearch).push(ToolView::UrlContext).push(
            ToolView::CodeExecution,
        ),
    }
}

/// Build the gemini request from the codex request + reconstructed contents.
pub fn build_request(req: &CodexReq, contents: Vec<Content>) -> (request: GenerateRequest)
    ensures
        request@ == request_of(*req, contents.deep_view()),
{
    let mut tools = function_tools(&req.tools);
    let ghost functions = tools.deep_view();
    tools.push(Tool::GoogleSearch);
    tools.push(Tool::UrlContext);
    tools.push(Tool::CodeExecution);
    assert(tools.deep_view() =~= functions.push(ToolView::GoogleSearch).push(
        ToolView::UrlContext,
    ).push(ToolView::CodeExecution));
    let system_prompt = match &req.instructions {
        Some(instructions) => Some(instructions.clone()),
        None => None,
    };
    let response_json_schema = response_schema(req);
    let response_mime_type = match &response_json_schema {
        Some(_) => Some("application/json".to_owned()),
        None => None,
    };
    GenerateRequest {
        contents,
        max_output_tokens: req.max_output_tokens,
        response_json_schema,
        response_mime_type,
        system_prompt,
        thinking_config: thinking_config(req),
        tool_config: ToolConfig {
            function_calling_mode: tool_choice_mode(req.tool_choice),
            include_server_side_tool_invocations: true,
        },
        tools,
    }
}

// ---------------------------------------------------------------------------------------------
// Laws
// ---------------------------------------------------------------------------------------------

/// The first functions of a list are functions of it.
proof fn lemma_first_functions(list: Seq<CodexTool>)
    ensures
        forall|i: int|
            0 <= i < first_functions(list).len() ==> (#[trigger] first_functions(list)[i]).kind
                == CodexToolKind::Function && list.contains(first_functions(list)[i]),
        forall|name: Seq<char>| #[trigger]
            has_function(list, name) == has_function(first_functions(list), name),
    decreases list.len(),
{
    if list.len() > 0 {
        let rest = list.drop_last();
        lemma_first_functions(rest);
        let earlier = first_functions(rest);
        let all = first_functions(list);
        assert forall|i: int| 0 <= i < all.len() implies (#[trigger] all[i]).kind
            == CodexToolKind::Function && list.contains(all[i]) by {
            if i < earlier.len() {
                assert(all[i] == earlier[i]);
                let k = choose|k: int| 0 <= k < rest.len() && rest[k] == earlier[i];
                assert(list[k] == earlier[i]);
            } else {
                assert(list[list.len() - 1] == all[i]);
            }
        }
        assert forall|name: Seq<char>| #[trigger] has_function(list, name) == has_function(
            all,
            name,
        ) by {
            assert(has_function(rest, name) == has_function(earlier, name));
            if has_function(list, name) {
                let i = choose|i: int|
                    0 <= i < list.len() && (#[trigger] list[i]).kind == CodexToolKind::Function
                        && list[i].name@ == name;
                if i < rest.len() {
                    assert(rest[i] == list[i]);
                    let k = choose|k: int|
                        0 <= k < earlier.len() && (#[trigger] earlier[k]).kind
                            == CodexToolKind::Function && earlier[k].name@ == name;
                    assert(all[k] == earlier[k]);
                } else if has_function(rest, name) {
                    let k = choose|k: int|
                        0 <= k < earlier.len() && (#[trigger] earlier[k]).kind
                            == CodexToolKind::Function && earlier[k].name@ == name;
                    assert(all[k] == earlier[k]);
                } else {
                    assert(all[earlier.len() as int] == list.last());
                }
            }
            if has_function(all, name) {
                let k = choose|k: int|
                    0 <= k < all.len() && (#[trigger] all[k]).kind == CodexToolKind::Function
                        && all[k].name@ == name;
                let i = choose|i: int| 0 <= i < list.len() && list[i] == all[k];
                assert(list[i].name@ == name);
            }
        }
    }
}

/// The name that a tool declares.
pub open spec fn declared_name(tool: ToolView) -> Option<Seq<char>> {
    match tool {
        ToolView::Function { name, .. } => Some(name),
        _ => None,
    }
}

/// The first functions of a list have distinct names.
proof fn lemma_first_names_are_distinct(list: Seq<CodexTool>, i: int, j: int)
    requires
        0 <= i < j < first_functions(list).len(),
    ensures
        first_functions(list)[i].name@ != first_functions(list)[j].name@,
    decreases list.len(),
{
    if list.len() > 0 {
        let rest = list.drop_last();
        let earlier = first_functions(rest);
        if j < earlier.len() {
            lemma_first_names_are_distinct(rest, i, j);
        } else {
            lemma_first_functions(rest);
            assert(first_functions(list)[i] == earlier[i]);
            assert(earlier[i].kind == CodexToolKind::Function);
            if earlier[i].name@ == list.last().name@ {
                assert(has_function(earlier, list.last().name@));
                assert(has_function(rest, list.last().name@));
            }
        }
    }
}

/// No function name is declared twice.
pub proof fn law_function_names_are_distinct(tools: Seq<CodexTool>, i: int, j: int)
    requires
        0 <= i < j < declared(tools).len(),
    ensures
        declared(tools)[i] is Function,
        declared(tools)[j] is Function,
        declared_name(declared(tools)[i]) != declared_name(declared(tools)[j]),
{
    lemma_first_names_are_distinct(flattened(tools), i, j);
}

/// A function tool, at the top or in a group, is declared under its name, as the first tool of
/// that name says.
pub proof fn law_every_function_is_declared(tools: Seq<CodexTool>, i: int)
    requires
        0 <= i < flattened(tools).len(),
        flattened(tools)[i].kind == CodexToolKind::Function,
        !has_function(flattened(tools).take(i), flattened(tools)[i].name@),
    ensures
        declared(tools).contains(declaration_of(flattened(tools)[i])),
{
    let list = flattened(tools);
    lemma_first_is_kept(list, i);
    let kept = first_functions(list);
    let k = choose|k: int| 0 <= k < kept.len() && kept[k] == list[i];
    assert(declared(tools)[k] == declaration_of(list[i]));
}

/// The first function of a name is kept.
proof fn lemma_first_is_kept(list: Seq<CodexTool>, i: int)
    requires
        0 <= i < list.len(),
        list[i].kind == CodexToolKind::Function,
        !has_function(list.take(i), list[i].name@),
    ensures
        first_functions(list).contains(list[i]),
    decreases list.len(),
{
    let rest = list.drop_last();
    let earlier = first_functions(rest);
    if i < rest.len() {
        assert(rest.take(i) =~= list.take(i));
        lemma_first_is_kept(rest, i);
        let k = choose|k: int| 0 <= k < earlier.len() && earlier[k] == list[i];
        assert(first_functions(list)[k] == list[i]);
    } else {
        assert(list.take(i) =~= rest);
        assert(first_functions(list)[earlier.len() as int] == list[i]);
    }
}

/// Every tool of a request, and every tool of its groups, is in the flattened list.
pub proof fn law_groups_are_flattened(tools: Seq<CodexTool>, i: int)
    requires
        0 <= i < tools.len(),
    ensures
        flattened(tools).contains(tools[i]),
        forall|j: int|
            0 <= j < tools[i].tools@.len() ==> flattened(tools).contains(
                #[trigger] tools[i].tools@[j],
            ),
    decreases tools.len(),
{
    let rest = tools.drop_last();
    let parent = flattened(rest).push(tools.last());
    let all = flattened(tools);
    assert(all == parent + tools.last().tools@);
    if i < rest.len() {
        law_groups_are_flattened(rest, i);
        assert forall|tool: CodexTool| flattened(rest).contains(tool) implies all.contains(
            tool,
        ) by {
            let k = choose|k: int| 0 <= k < flattened(rest).len() && flattened(rest)[k] == tool;
            assert(all[k] == tool);
        }
    } else {
        assert(all[parent.len() - 1] == tools[i]);
        assert forall|j: int| 0 <= j < tools[i].tools@.len() implies all.contains(
            #[trigger] tools[i].tools@[j],
        ) by {
            assert(all[parent.len() + j] == tools[i].tools@[j]);
        }
    }
}

} // verus!
