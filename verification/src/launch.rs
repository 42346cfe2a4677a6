//! What a request is answered with: a refusal, a rejection, or a stream to open.
use axum::http::{HeaderMap, HeaderValue};
use vstd::prelude::*;

use crate::auth::{admitted, authorized, first_text};
use crate::clock::{is_reading, now_unix};
use crate::codex::CodexReq;
use crate::gemini::GenerateRequest;
use crate::ids::{is_id, new_id};
use crate::request::{build_request, request_of};
use crate::responses::{bare_failure, failure_event_at, RespMeta, RespMetaView, StreamEvent};
use crate::session::{started, Session};
use crate::text::{begins_with, concat, without_prefix};
use crate::translate::{build_contents, contents_of};

verus! {

/// The largest request body that is read, in bytes.
pub const BODY_LIMIT: usize = 0x400_0000;

/// A stream to open: the gemini request, and the identity of the response.
#[derive(Debug)]
pub struct LaunchPlan {
    /// The model as gemini names it.
    pub api_model: String,
    /// Unix seconds the request arrived.
    pub created: u64,
    /// The model as the request names it.
    pub model: String,
    /// What to send.
    pub request: GenerateRequest,
    /// The response id.
    pub response_id: String,
}

/// How a request starts.
#[derive(Debug)]
pub enum Launch {
    /// Rejected before streaming: the one event to send.
    Rejected(StreamEvent),
    /// A stream to open.
    Stream(LaunchPlan),
}

/// Why a request is not answered.
#[derive(Clone, Copy, Debug, PartialEq, Eq, Structural)]
pub enum Refusal {
    /// The credential does not match.
    Unauthorized,
}

impl Refusal {
    /// The HTTP status of the refusal.
    pub fn status(self) -> (code: u16)
        ensures
            code == 401,
    {
        match self {
            Refusal::Unauthorized => 401,
        }
    }
}

/// The model that a request names; `None` where it names none, as there is no fallback.
pub open spec fn model_of(req: CodexReq) -> Option<Seq<char>> {
    match req.model {
        Some(model) => if model@.len() == 0 {
            None
        } else {
            Some(model@)
        },
        None => None,
    }
}

/// A model as gemini names it: under `models/`.
pub open spec fn api_name(model: Seq<char>) -> Seq<char> {
    if begins_with(model, "models/"@) {
        model
    } else {
        "models/"@ + model
    }
}

/// The cause given for a request that was rejected before streaming.
pub open spec fn rejection_cause() -> Seq<char> {
    "request rejected before streaming"@
}

/// Whether a request that arrived at a time starts in a way: rejected for want of a model, else
/// as a stream of its translation.
pub open spec fn launched(
    req: CodexReq,
    launch: Launch,
    created: u64,
    response_id: Seq<char>,
    now: u64,
) -> bool {
    match model_of(req) {
        None => launch matches Launch::Rejected(event) && event@ == bare_failure(
            RespMetaView { created, model: Seq::empty(), response_id },
            1,
            rejection_cause(),
            now,
        ),
        Some(model) => launch matches Launch::Stream(plan) && {
            &&& plan.api_model@ == api_name(model)
            &&& plan.created == created
            &&& plan.model@ == model
            &&& plan.request@ == request_of(req, contents_of(req.input@))
            &&& plan.response_id@ == response_id
        },
    }
}

/// The model that a request names.
pub fn requested_model(req: &CodexReq) -> (model: Option<String>)
    ensures
        model.deep_view() == model_of(*req),
{
    match &req.model {
        Some(model) => if model.as_str().is_empty() {
            None
        } else {
            Some(model.clone())
        },
        None => None,
    }
}

/// A model as gemini names it.
pub fn api_model(model: &str) -> (name: String)
    ensures
        name@ == api_name(model@),
{
    match without_prefix(model, "models/") {
        Some(_) => {
            assert(model@.subrange(0, "models/"@.len() as int) =~= "models/"@);
            model.to_owned()
        },
        None => concat("models/", model),
    }
}

/// A terminal `response.failed` carrying the given sequence number and a populated error so codex
/// surfaces a cause; used for pre-stream rejections (no model, connect failure).
pub fn send_failed(meta: RespMeta<'_>, sequence_number: u64, message: String) -> (event:
    StreamEvent)
    ensures
        exists|now: u64|
            is_reading(now) && event@ == #[trigger] bare_failure(
                meta@,
                sequence_number,
                message@,
                now,
            ),
{
    failure_event_at(meta, sequence_number, message, now_unix())
}

/// The single `response.failed` of a request rejected before streaming starts, at a given time.
pub fn spawn_failed_at(response_id: &str, model: &str, created: u64, now: u64) -> (event:
    StreamEvent)
    ensures
        event@ == bare_failure(
            RespMetaView { created, model: model@, response_id: response_id@ },
            1,
            rejection_cause(),
            now,
        ),
{
    let meta = RespMeta { created, model, response_id };
    failure_event_at(meta, 1, "request rejected before streaming".to_owned(), now)
}

/// The single `response.failed` of a request rejected before streaming starts.
pub fn spawn_failed(response_id: &str, model: &str, created: u64) -> (event: StreamEvent)
    ensures
        exists|now: u64|
            is_reading(now) && event@ == #[trigger] bare_failure(
                RespMetaView { created, model: model@, response_id: response_id@ },
                1,
                rejection_cause(),
                now,
            ),
{
    let meta = RespMeta { created, model, response_id };
    let message = "request rejected before streaming".to_owned();
    let event = send_failed(meta, 1, message);
    proof {
        let now = choose|now: u64|
            is_reading(now) && event@ == #[trigger] bare_failure(meta@, 1, message@, now);
        assert(event@ == bare_failure(meta@, 1, rejection_cause(), now));
    }
    event
}

/// Resolve the model and translate the request, under a given arrival, id and time.
pub fn launch_stream_at(req: &CodexReq, created: u64, response_id: String, now: u64) -> (launch:
    Launch)
    ensures
        launched(*req, launch, created, response_id@, now),
{
    let Some(model) = requested_model(req) else {
        let no_model = "";
        proof {
            reveal_strlit("");
            assert(no_model@ =~= Seq::empty());
        }
        return Launch::Rejected(spawn_failed_at(response_id.as_str(), no_model, created, now));
    };
    let contents = build_contents(req);
    let api_model = api_model(model.as_str());
    let request = build_request(req, contents);
    Launch::Stream(LaunchPlan { api_model, created, model, request, response_id })
}

/// Resolve the model and translate the request; `response.failed` on a missing model.
pub fn launch_stream(req: &CodexReq) -> (launch: Launch)
    ensures
        exists|created: u64, response_id: Seq<char>, now: u64|
            is_reading(created) && is_reading(now) && is_id("resp_"@, response_id)
                && #[trigger] launched(
                *req,
                launch,
                created,
                response_id,
                now,
            ),
{
    let created = now_unix();
    let response_id = new_id("resp_");
    launch_stream_at(req, created, response_id, now_unix())
}

/// Codex `/v1/responses` handler: translate to gemini, or refuse when a configured key does not
/// match the request `Bearer`.
pub fn responses(
    headers: &HeaderMap<HeaderValue>,
    bridge_key: Option<&String>,
    req: &CodexReq,
) -> (result: Result<Launch, Refusal>)
    ensures
        result is Ok <==> admitted(
            first_text(*headers, "authorization"@),
            match bridge_key {
                Some(key) => Some(key@),
                None => None,
            },
        ),
        result matches Ok(launch) ==> exists|created: u64, response_id: Seq<char>, now: u64|
            is_reading(created) && is_reading(now) && is_id("resp_"@, response_id)
                && #[trigger] launched(
                *req,
                launch,
                created,
                response_id,
                now,
            ),
{
    if !authorized(headers, bridge_key) {
        return Err(Refusal::Unauthorized);
    }
    Ok(launch_stream(req))
}

impl LaunchPlan {
    /// The session that runs the stream, and the request that opens it.
    pub fn into_session(self) -> (opened: (Session, GenerateRequest))
        ensures
            opened.0@ == started(
                RespMetaView {
                    created: self.created,
                    model: self.model@,
                    response_id: self.response_id@,
                },
            ),
            opened.1 == self.request,
    {
        let session = Session::start(self.created, self.model, self.response_id);
        (session, self.request)
    }
}

/// The address that the bridge listens on: the loopback, at a port.
pub fn bind_address(port: &str) -> (address: String)
    ensures
        address@ == "127.0.0.1:"@ + port@,
{
    concat("127.0.0.1:", port)
}

/// A request without a model is answered with one event, a failure that gives its cause.
pub proof fn law_no_model_no_stream(
    req: CodexReq,
    launch: Launch,
    created: u64,
    response_id: Seq<char>,
    now: u64,
)
    requires
        launched(req, launch, created, response_id, now),
    ensures
        launch is Rejected <==> model_of(req) is None,
        rejection_cause().len() > 0,
{
    reveal_strlit("request rejected before streaming");
}

} // verus!
