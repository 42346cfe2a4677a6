//! One response from request to terminal event, as a state machine: it is told what upstream did,
//! and says what to do next.
use vstd::prelude::*;

use crate::clock::{is_reading, lemma_reading_exists};
use crate::finish::{
    drive_end, emit_stall, end_step, fail_stream, failure_step, lemma_closing_prefixed,
    lemma_end_prefixed, lemma_failure_prefixed, stall_step, valid_end_ids, CallIds,
};
use crate::gemini::GenerationResponse;
use crate::responses::{
    RespMeta, RespMetaView, StreamEvent, StreamEventView, TerminalOutcomeView,
};
use crate::stream::{
    blank_state, chunk_parts, chunk_step, consume_chunk, emission, emit_open,
    lemma_chunk_prefixed, open_step, prefixed, valid_ids, Emission, PartIds, StreamState,
    StreamStateView,
};
use crate::text::concat;

verus! {

/// Seconds that opening the upstream stream may take.
pub const CONNECT_SECONDS: u64 = 60;

/// Seconds that may pass between two chunks.
pub const STALL_SECONDS: u64 = 120;

/// What upstream did.
#[derive(Debug)]
pub enum Upstream {
    /// A chunk arrived within the stall window.
    Chunk(GenerationResponse),
    /// The stream could not be opened, for this reason.
    ConnectFailed(String),
    /// The stream was not opened within the connect deadline.
    ConnectTimedOut,
    /// The stream was opened.
    Connected,
    /// The stream ended cleanly.
    Ended,
    /// The stream yielded an error.
    Errored(String),
    /// No chunk arrived within the stall window.
    Stalled,
}

/// How far a session has come.
#[derive(Clone, Copy, Debug, PartialEq, Eq, Structural)]
pub enum SessionPhase {
    /// The receiver of the events went away.
    Closed,
    /// The upstream stream is being opened.
    Connecting,
    /// The terminal event was emitted.
    Finished,
    /// Chunks are being read.
    Streaming,
}

/// What to do next.
#[derive(Debug)]
pub enum Action {
    /// Open the upstream stream.
    Connect,
    /// Await the next chunk.
    NextChunk,
    /// Send this event to the receiver.
    Send(StreamEvent),
    /// Nothing more.
    Stop,
}

/// The model of an `Action`.
pub enum ActionView {
    Connect,
    NextChunk,
    Send(StreamEventView),
    Stop,
}

impl View for Action {
    type V = ActionView;

    open spec fn view(&self) -> ActionView {
        match self {
            Action::Connect => ActionView::Connect,
            Action::NextChunk => ActionView::NextChunk,
            Action::Send(event) => ActionView::Send(event@),
            Action::Stop => ActionView::Stop,
        }
    }
}

/// One response from request to terminal event.
pub struct Session {
    created: u64,
    model: String,
    pending: Vec<StreamEvent>,
    phase: SessionPhase,
    response_id: String,
    sent: Ghost<Seq<StreamEventView>>,
    state: StreamState,
}

/// The model of a `Session`: every event emitted so far, and how many of them were handed out.
pub struct SessionView {
    pub log: Seq<StreamEventView>,
    pub meta: RespMetaView,
    pub phase: SessionPhase,
    pub sent: nat,
    pub state: StreamStateView,
}

impl View for Session {
    type V = SessionView;

    closed spec fn view(&self) -> SessionView {
        SessionView {
            log: self.sent@ + self.pending.deep_view(),
            meta: RespMetaView {
                created: self.created,
                model: self.model@,
                response_id: self.response_id@,
            },
            phase: self.phase,
            sent: self.sent@.len(),
            state: self.state@,
        }
    }
}

impl SessionView {
    /// The accumulator with every event that it has emitted.
    pub open spec fn emitted(self) -> Emission {
        Emission { state: self.state, events: self.log }
    }

    /// The session with another accumulator and log, in another phase.
    pub open spec fn with(self, emitted: Emission, phase: SessionPhase) -> SessionView {
        SessionView { log: emitted.events, phase, state: emitted.state, ..self }
    }
}

/// What chance and the clock decide in one step of a session.
pub struct Draw {
    pub parts: Seq<PartIds>,
    pub reasoning: Seq<char>,
    pub calls: Seq<CallIds>,
    pub now: u64,
}

/// Whether drawn identifiers fit a step, and the time is a reading of the clock.
pub open spec fn valid_draw(session: SessionView, event: Upstream, draw: Draw) -> bool {
    &&& is_reading(draw.now)
    &&& session.phase == SessionPhase::Streaming ==> match event {
        Upstream::Chunk(chunk) => valid_ids(draw.parts, chunk_parts(chunk).len()),
        Upstream::Ended => valid_end_ids(session.state, draw.reasoning, draw.calls),
        _ => true,
    }
}

/// A session at its start: the opening events wait, the upstream stream is to be opened.
pub open spec fn started(meta: RespMetaView) -> SessionView {
    let opened = open_step(Emission { state: blank_state(), events: Seq::empty() }, meta);
    SessionView {
        log: opened.events,
        meta,
        phase: SessionPhase::Connecting,
        sent: 0,
        state: opened.state,
    }
}

/// The cause given for a stream that could not be opened.
pub open spec fn connect_error(error: Seq<char>) -> Seq<char> {
    "gemini connect error: "@ + error
}

/// The cause given for a stream that broke off.
pub open spec fn stream_error(error: Seq<char>) -> Seq<char> {
    "gemini stream error: "@ + error
}

/// A session after upstream did something; what does not fit the phase is passed over.
pub open spec fn upstream_step(session: SessionView, event: Upstream, draw: Draw) -> SessionView {
    let e = session.emitted();
    let meta = session.meta;
    let done = SessionPhase::Finished;
    match session.phase {
        SessionPhase::Connecting => match event {
            Upstream::Connected => session.with(e, SessionPhase::Streaming),
            Upstream::ConnectFailed(error) => session.with(
                failure_step(e, meta, connect_error(error@), draw.now),
                done,
            ),
            Upstream::ConnectTimedOut => session.with(
                failure_step(e, meta, "gemini connect timeout 60s"@, draw.now),
                done,
            ),
            _ => session,
        },
        SessionPhase::Streaming => match event {
            Upstream::Chunk(chunk) => session.with(
                chunk_step(e, chunk, draw.parts),
                SessionPhase::Streaming,
            ),
            Upstream::Ended => session.with(
                end_step(e, meta, draw.reasoning, draw.calls, draw.now),
                done,
            ),
            Upstream::Errored(error) => session.with(
                failure_step(e, meta, stream_error(error@), draw.now),
                done,
            ),
            Upstream::Stalled => session.with(stall_step(e, meta, draw.now), done),
            _ => session,
        },
        _ => session,
    }
}

/// What a session asks for next: the first event not handed out, else what its phase needs.
pub open spec fn next_of(session: SessionView) -> ActionView {
    if session.sent < session.log.len() {
        ActionView::Send(session.log[session.sent as int])
    } else {
        match session.phase {
            SessionPhase::Connecting => ActionView::Connect,
            SessionPhase::Streaming => ActionView::NextChunk,
            SessionPhase::Finished | SessionPhase::Closed => ActionView::Stop,
        }
    }
}

/// A session after it said what to do next: a waiting event is handed out.
pub open spec fn action_step(session: SessionView) -> SessionView {
    if session.sent < session.log.len() {
        SessionView { sent: session.sent + 1, ..session }
    } else {
        session
    }
}

/// A session whose receiver went away: what was not handed out is dropped.
pub open spec fn closed_step(session: SessionView) -> SessionView {
    SessionView {
        log: session.log.take(session.sent as int),
        phase: SessionPhase::Closed,
        ..session
    }
}

impl Session {
    /// Start a session: emit the opening events.
    pub fn start(created: u64, model: String, response_id: String) -> (session: Session)
        ensures
            session@ == started(
                RespMetaView { created, model: model@, response_id: response_id@ },
            ),
    {
        let mut state = StreamState::new();
        let mut pending: Vec<StreamEvent> = Vec::new();
        assert(pending.deep_view() =~= Seq::empty());
        let meta = RespMeta {
            created,
            model: model.as_str(),
            response_id: response_id.as_str(),
        };
        emit_open(&mut pending, &mut state, meta);
        let session = Session {
            created,
            model,
            pending,
            phase: SessionPhase::Connecting,
            response_id,
            sent: Ghost(Seq::empty()),
            state,
        };
        assert(session@.log =~= session.pending.deep_view());
        session
    }

    /// Take in what upstream did.
    pub fn on_upstream(&mut self, event: Upstream)
        ensures
            exists|draw: Draw|
                valid_draw(old(self)@, event, draw) && final(self)@ == #[trigger] upstream_step(
                    old(self)@,
                    event,
                    draw,
                ),
    {
        let ghost before = self@;
        let ghost earlier = self.sent@;
        let ghost waiting = emission(self.state, self.pending);
        assert(before.emitted() == prefixed(earlier, waiting));
        let ghost mut draw = Draw {
            parts: Seq::empty(),
            reasoning: Seq::empty(),
            calls: Seq::empty(),
            now: lemma_reading_exists(),
        };
        let model = self.model.clone();
        let response_id = self.response_id.clone();
        let meta = RespMeta {
            created: self.created,
            model: model.as_str(),
            response_id: response_id.as_str(),
        };
        match self.phase {
            SessionPhase::Connecting => match event {
                Upstream::Connected => {
                    self.phase = SessionPhase::Streaming;
                },
                Upstream::ConnectFailed(error) => {
                    let message = concat("gemini connect error: ", error.as_str());
                    fail_stream(&mut self.pending, &mut self.state, meta, message);
                    proof {
                        let done = emission(self.state, self.pending);
                        draw.now =
                        choose|now: u64|
                            is_reading(now) && done == #[trigger] failure_step(
                                waiting,
                                meta@,
                                message@,
                                now,
                            );
                        lemma_failure_prefixed(earlier, waiting, meta@, message@, draw.now);
                    }
                    self.phase = SessionPhase::Finished;
                },
                Upstream::ConnectTimedOut => {
                    let message = "gemini connect timeout 60s".to_owned();
                    fail_stream(&mut self.pending, &mut self.state, meta, message);
                    proof {
                        let done = emission(self.state, self.pending);
                        draw.now =
                        choose|now: u64|
                            is_reading(now) && done == #[trigger] failure_step(
                                waiting,
                                meta@,
                                message@,
                                now,
                            );
                        lemma_failure_prefixed(earlier, waiting, meta@, message@, draw.now);
                    }
                    self.phase = SessionPhase::Finished;
                },
                _ => {},
            },
            SessionPhase::Streaming => match event {
                Upstream::Chunk(chunk) => {
                    consume_chunk(&mut self.pending, &mut self.state, &chunk);
                    proof {
                        let done = emission(self.state, self.pending);
                        draw.parts =
                        choose|ids: Seq<PartIds>|
                            valid_ids(ids, chunk_parts(chunk).len()) && done
                                == #[trigger] chunk_step(waiting, chunk, ids);
                        lemma_chunk_prefixed(earlier, waiting, chunk, draw.parts);
                    }
                },
                Upstream::Ended => {
                    drive_end(&mut self.pending, &mut self.state, meta);
                    proof {
                        let done = emission(self.state, self.pending);
                        let (reasoning, calls, now) = choose|
                            reasoning: Seq<char>,
                            calls: Seq<CallIds>,
                            now: u64,
                        |
                            valid_end_ids(waiting.state, reasoning, calls) && is_reading(now)
                                && done == #[trigger] end_step(waiting, meta@, reasoning, calls, now);
                        draw = Draw { reasoning, calls, now, ..draw };
                        lemma_end_prefixed(earlier, waiting, meta@, reasoning, calls, now);
                    }
                    self.phase = SessionPhase::Finished;
                },
                Upstream::Errored(error) => {
                    let message = concat("gemini stream error: ", error.as_str());
                    fail_stream(&mut self.pending, &mut self.state, meta, message);
                    proof {
                        let done = emission(self.state, self.pending);
                        draw.now =
                        choose|now: u64|
                            is_reading(now) && done == #[trigger] failure_step(
                                waiting,
                                meta@,
                                message@,
                                now,
                            );
                        lemma_failure_prefixed(earlier, waiting, meta@, message@, draw.now);
                    }
                    self.phase = SessionPhase::Finished;
                },
                Upstream::Stalled => {
                    emit_stall(&mut self.pending, &mut self.state, meta);
                    proof {
                        let done = emission(self.state, self.pending);
                        draw.now = choose|now: u64|
                            is_reading(now) && done == #[trigger] stall_step(waiting, meta@, now);
                        lemma_closing_prefixed(
                            earlier,
                            waiting,
                            meta@,
                            TerminalOutcomeView::Failed,
                            draw.now,
                        );
                    }
                    self.phase = SessionPhase::Finished;
                },
                _ => {},
            },
            _ => {},
        }
        assert(self@ == upstream_step(before, event, draw));
    }

    /// Say what to do next; a waiting event is handed out to be sent.
    pub fn next_action(&mut self) -> (action: Action)
        ensures
            action@ == next_of(old(self)@),
            final(self)@ == action_step(old(self)@),
    {
        if self.pending.len() > 0 {
            let ghost before = self@;
            let event = self.pending.remove(0);
            proof {
                assert(event@ == before.log[before.sent as int]);
                self.sent@ = self.sent@.push(event@);
                assert(self@.log =~= before.log);
            }
            Action::Send(event)
        } else {
            match self.phase {
                SessionPhase::Connecting => Action::Connect,
                SessionPhase::Streaming => Action::NextChunk,
                SessionPhase::Finished | SessionPhase::Closed => Action::Stop,
            }
        }
    }

    /// Take in that the receiver went away: nothing more is sent.
    pub fn on_closed(&mut self)
        ensures
            final(self)@ == closed_step(old(self)@),
    {
        self.pending = Vec::new();
        self.phase = SessionPhase::Closed;
        assert(self@.log =~= old(self)@.log.take(old(self)@.sent as int));
    }
}

} // verus!
