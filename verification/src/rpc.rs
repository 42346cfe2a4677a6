//! The JSON-RPC lines that drive `codex app-server`.
use serde_json::Value;
use vstd::prelude::*;

use crate::json::{
    displayed, get_str, json, json_array, json_clone, json_display, json_get, json_null,
    json_number, json_object, json_parse, json_string, member, members_of, object2, object3, parsed,
    plain, string_member, Json,
};
use crate::text::{concat, trim, trimmed};

verus! {

// ---------------------------------------------------------------------------------------------
// The child process
// ---------------------------------------------------------------------------------------------

/// The setting of the provider's base URL, on a port.
pub open spec fn base_url_setting(port: Seq<char>) -> Seq<char> {
    "model_providers.r.base_url=\"http://localhost:"@ + port + "/v1\""@
}

/// The arguments of `codex` for an app server wired to the bridge on a port.
pub open spec fn server_args(port: Seq<char>) -> Seq<Seq<char>> {
    seq![
        "app-server"@,
        "-c"@,
        "model_provider=r"@,
        "-c"@,
        "model_providers.r.name=\"r\""@,
        "-c"@,
        base_url_setting(port),
        "-c"@,
        "model_providers.r.wire_api=\"responses\""@,
        "-c"@,
        "model_providers.r.env_key=\"K\""@,
    ]
}

/// The arguments of `codex` for an app server wired to the BYOK provider on the bridge port.
pub fn spawn_args(port: &str) -> (args: Vec<String>)
    ensures
        args.deep_view() == server_args(port@),
{
    let base_url = concat(
        concat("model_providers.r.base_url=\"http://localhost:", port).as_str(),
        "/v1\"",
    );
    let args: Vec<String> = vec![
        "app-server".to_owned(),
        "-c".to_owned(),
        "model_provider=r".to_owned(),
        "-c".to_owned(),
        "model_providers.r.name=\"r\"".to_owned(),
        "-c".to_owned(),
        base_url,
        "-c".to_owned(),
        "model_providers.r.wire_api=\"responses\"".to_owned(),
        "-c".to_owned(),
        "model_providers.r.env_key=\"K\"".to_owned(),
    ];
    assert(args.deep_view() =~= server_args(port@));
    args
}

// ---------------------------------------------------------------------------------------------
// Requests
// ---------------------------------------------------------------------------------------------

/// The object of a request.
pub open spec fn request_object(method: Seq<char>, id: u64, params: Json) -> Json {
    Json::Object(
        Map::empty().insert("method"@, Json::Str(method)).insert("id"@, Json::PosInt(id)).insert(
            "params"@,
            params,
        ),
    )
}

/// The line of a request.
pub open spec fn request_line(method: Seq<char>, id: u64, params: Json) -> Seq<char> {
    displayed(request_object(method, id, params)) + "\n"@
}

/// A line without its newline.
proof fn lemma_ends_in_newline(text: Seq<char>)
    ensures
        (text + "\n"@).drop_last() == text,
{
    reveal_strlit("\n");
    assert((text + "\n"@).drop_last() =~= text);
}

/// The raw-value key is none of the keys of these objects.
proof fn lemma_plain_keys()
    ensures
        "method"@ != "$serde_json::private::RawValue"@,
        "id"@ != "$serde_json::private::RawValue"@,
        "params"@ != "$serde_json::private::RawValue"@,
        "result"@ != "$serde_json::private::RawValue"@,
{
    reveal_strlit("$serde_json::private::RawValue");
    reveal_strlit("method");
    reveal_strlit("id");
    reveal_strlit("params");
    reveal_strlit("result");
    let raw = "$serde_json::private::RawValue"@;
    assert("method"@.len() != raw.len());
    assert("id"@.len() != raw.len());
    assert("params"@.len() != raw.len());
    assert("result"@.len() != raw.len());
}

/// A request with plain parameters is plain.
proof fn lemma_request_plain(method: Seq<char>, id: u64, params: Json)
    requires
        plain(params, 126),
    ensures
        plain(request_object(method, id, params), 127),
{
    lemma_plain_keys();
    reveal_with_fuel(plain, 2);
}

/// The parameters of `initialize` are plain.
pub proof fn lemma_initialize_plain()
    ensures
        plain(initialize_object(), 126),
{
    reveal_strlit("$serde_json::private::RawValue");
    reveal_strlit("clientInfo");
    reveal_strlit("capabilities");
    reveal_strlit("name");
    reveal_strlit("version");
    let raw = "$serde_json::private::RawValue"@;
    assert("clientInfo"@.len() != raw.len());
    assert("capabilities"@.len() != raw.len());
    assert("name"@.len() != raw.len());
    assert("version"@.len() != raw.len());
    reveal_with_fuel(plain, 3);
}

/// The parameters of `thread/start` are plain.
pub proof fn lemma_thread_plain(cwd: Seq<char>, sandbox: Seq<char>)
    ensures
        plain(thread_object(cwd, sandbox), 126),
{
    reveal_strlit("$serde_json::private::RawValue");
    reveal_strlit("model");
    reveal_strlit("modelProvider");
    reveal_strlit("cwd");
    reveal_strlit("approvalPolicy");
    reveal_strlit("sandbox");
    let raw = "$serde_json::private::RawValue"@;
    assert("model"@.len() != raw.len());
    assert("modelProvider"@.len() != raw.len());
    assert("cwd"@.len() != raw.len());
    assert("approvalPolicy"@.len() != raw.len());
    assert("sandbox"@.len() != raw.len());
    reveal_with_fuel(plain, 2);
}

/// The parameters of `turn/start` are plain.
pub proof fn lemma_turn_plain(thread: Seq<char>, text: Seq<char>)
    ensures
        plain(turn_object(thread, text), 126),
{
    reveal_strlit("$serde_json::private::RawValue");
    reveal_strlit("threadId");
    reveal_strlit("input");
    reveal_strlit("type");
    reveal_strlit("text");
    reveal_strlit("text_elements");
    let raw = "$serde_json::private::RawValue"@;
    assert("threadId"@.len() != raw.len());
    assert("input"@.len() != raw.len());
    assert("type"@.len() != raw.len());
    assert("text"@.len() != raw.len());
    assert("text_elements"@.len() != raw.len());
    reveal_with_fuel(plain, 5);
}

/// An acknowledgement of a plain id is plain.
proof fn lemma_ack_plain(id: Json)
    requires
        plain(id, 126),
    ensures
        plain(ack_object(id), 127),
{
    lemma_plain_keys();
    reveal_with_fuel(plain, 3);
}

/// Build one JSON-RPC request line and advance the request id counter. A request with plain
/// parameters can be read back out of its line.
pub fn rpc_line(method: &str, params: &Value, counter: &mut u64) -> (line: String)
    ensures
        line@ == request_line(method@, *old(counter), json(*params)),
        *final(counter) == old(counter).wrapping_add(1),
        plain(json(*params), 126) ==> parsed(line@.drop_last()) == Some(
            request_object(method@, *old(counter), json(*params)),
        ),
{
    let request = object3(
        "method",
        json_string(method.to_owned()),
        "id",
        json_number(*counter),
        "params",
        json_clone(params),
    );
    let text = json_display(&request);
    let line = concat(text.as_str(), "\n");
    proof {
        lemma_ends_in_newline(text@);
        if plain(json(*params), 126) {
            lemma_request_plain(method@, *counter, json(*params));
        }
    }
    *counter = (*counter).wrapping_add(1);
    line
}

/// The parameters of `initialize`.
pub open spec fn initialize_object() -> Json {
    Json::Object(
        Map::empty().insert(
            "clientInfo"@,
            Json::Object(
                Map::empty().insert("name"@, Json::Str("x"@)).insert("version"@, Json::Str("0"@)),
            ),
        ).insert("capabilities"@, Json::Null),
    )
}

/// The parameters of `initialize`.
pub fn initialize_params() -> (params: Value)
    ensures
        json(params) == initialize_object(),
{
    let client = object2(
        "name",
        json_string("x".to_owned()),
        "version",
        json_string("0".to_owned()),
    );
    object2("clientInfo", client, "capabilities", json_null())
}

/// The parameters of `thread/start`.
pub open spec fn thread_object(cwd: Seq<char>, sandbox: Seq<char>) -> Json {
    Json::Object(
        Map::empty().insert("model"@, Json::Str("gemini-3.5-flash"@)).insert(
            "modelProvider"@,
            Json::Str("r"@),
        ).insert("cwd"@, Json::Str(cwd)).insert("approvalPolicy"@, Json::Str("never"@)).insert(
            "sandbox"@,
            Json::Str(sandbox),
        ),
    )
}

/// The parameters of `thread/start`.
pub fn thread_params(cwd: &str, sandbox: &str) -> (params: Value)
    ensures
        json(params) == thread_object(cwd@, sandbox@),
{
    let entries: Vec<(String, Value)> = vec![
        ("model".to_owned(), json_string("gemini-3.5-flash".to_owned())),
        ("modelProvider".to_owned(), json_string("r".to_owned())),
        ("cwd".to_owned(), json_string(cwd.to_owned())),
        ("approvalPolicy".to_owned(), json_string("never".to_owned())),
        ("sandbox".to_owned(), json_string(sandbox.to_owned())),
    ];
    proof {
        reveal_with_fuel(members_of, 6);
        assert(entries@.drop_last().drop_last().drop_last().drop_last().drop_last()
            =~= Seq::empty());
    }
    json_object(entries)
}

/// The parameters of `turn/start`.
pub open spec fn turn_object(thread: Seq<char>, text: Seq<char>) -> Json {
    Json::Object(
        Map::empty().insert("threadId"@, Json::Str(thread)).insert(
            "input"@,
            Json::Array(
                seq![
                    Json::Object(
                        Map::empty().insert("type"@, Json::Str("text"@)).insert(
                            "text"@,
                            Json::Str(text),
                        ).insert("text_elements"@, Json::Array(Seq::empty())),
                    ),
                ],
            ),
        ),
    )
}

/// The parameters of `turn/start`.
pub fn turn_params(thread: &str, text: &str) -> (params: Value)
    ensures
        json(params) == turn_object(thread@, text@),
{
    let none: Vec<Value> = Vec::new();
    let text_elements = json_array(none);
    assert(json(text_elements)->Array_0 =~= Seq::empty());
    let item = object3(
        "type",
        json_string("text".to_owned()),
        "text",
        json_string(text.to_owned()),
        "text_elements",
        text_elements,
    );
    let items: Vec<Value> = vec![item];
    let input = json_array(items);
    assert(json(input)->Array_0 =~= seq![json(item)]);
    object2("threadId", json_string(thread.to_owned()), "input", input)
}

// ---------------------------------------------------------------------------------------------
// Replies
// ---------------------------------------------------------------------------------------------

/// What a line holds; `None` for a blank line and one that does not parse.
pub open spec fn line_value(line: Seq<char>) -> Option<Json> {
    if trimmed(line).len() == 0 {
        None
    } else {
        parsed(trimmed(line))
    }
}

/// Whether a message is a request of the server: it has an id and a method.
pub open spec fn is_server_request(message: Json) -> bool {
    member(message, "id"@) is Some && member(message, "method"@) is Some
}

/// The object that acknowledges a request of the server.
pub open spec fn ack_object(id: Json) -> Json {
    Json::Object(Map::empty().insert("id"@, id).insert("result"@, Json::Object(Map::empty())))
}

/// The line that acknowledges a request of the server.
pub open spec fn ack_line(id: Json) -> Seq<char> {
    displayed(ack_object(id)) + "\n"@
}

/// The reply to a message: an acknowledgement where it is a request of the server.
pub open spec fn reply_of(message: Json) -> Option<Seq<char>> {
    if is_server_request(message) {
        Some(ack_line(member(message, "id"@)->0))
    } else {
        None
    }
}

/// Whether an acknowledgement of a message, where its id is plain, can be read back out of a line.
pub open spec fn reads_back_as_ack(ack: Seq<char>, message: Json) -> bool {
    plain(member(message, "id"@)->0, 126) ==> parsed(ack.drop_last()) == Some(
        ack_object(member(message, "id"@)->0),
    )
}

/// The thread id in a result: `/result/thread/id`, else `/result/threadId`, else empty.
pub open spec fn thread_id_of(message: Json) -> Seq<char> {
    let result = member(message, "result"@);
    let nested = match result {
        Some(found) => match member(found, "thread"@) {
            Some(thread) => string_member(thread, "id"@),
            None => None,
        },
        None => None,
    };
    let flat = match result {
        Some(found) => string_member(found, "threadId"@),
        None => None,
    };
    match nested {
        Some(id) => id,
        None => match flat {
            Some(id) => id,
            None => Seq::empty(),
        },
    }
}

/// Parse one raw input line.
pub(crate) fn read_line(rawline: &str) -> (message: Option<Value>)
    ensures
        (match message {
            Some(value) => Some(json(value)),
            None => None,
        }) == line_value(rawline@),
{
    let trimmed_line = trim(rawline);
    if trimmed_line.is_empty() {
        return None;
    }
    match json_parse(trimmed_line) {
        Ok(value) => Some(value),
        Err(_) => None,
    }
}

/// The reply line to a server->client request; `None` when the line was no such request. An
/// acknowledgement of a plain id can be read back out of its line.
pub fn reply_to_server_request(message: &Value) -> (reply: Option<String>)
    ensures
        reply.deep_view() == reply_of(json(*message)),
        reply matches Some(ack) ==> reads_back_as_ack(ack@, json(*message)),
{
    let Some(id) = json_get(message, "id") else {
        return None;
    };
    let Some(_) = json_get(message, "method") else {
        return None;
    };
    let none: Vec<(String, Value)> = Vec::new();
    let result = json_object(none);
    assert(json(result) == Json::Object(Map::empty()));
    let ack = object2("id", json_clone(id), "result", result);
    let text = json_display(&ack);
    proof {
        lemma_ends_in_newline(text@);
        if plain(json(*id), 126) {
            lemma_ack_plain(json(*id));
        }
    }
    Some(concat(text.as_str(), "\n"))
}

/// The thread id in a result.
pub fn thread_id(message: &Value) -> (id: String)
    ensures
        id@ == thread_id_of(json(*message)),
{
    let Some(result) = json_get(message, "result") else {
        return String::new();
    };
    if let Some(thread) = json_get(result, "thread") {
        if let Some(id) = get_str(thread, "id") {
            return id.to_owned();
        }
    }
    match get_str(result, "threadId") {
        Some(id) => id.to_owned(),
        None => String::new(),
    }
}

} // verus!
