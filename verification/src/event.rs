//! Lifecycle notifications sent to whoever listens to playback.
//!
//! Delivery is best effort and happens outside this library; here the events
//! are built, so that what is reported is fixed by contract.

use vstd::prelude::*;
use vstd::string::*;

verus! {

/// The kinds of notification.
#[derive(Clone, Copy, Debug, PartialEq, Eq, Structural)]
pub enum EventKind {
    /// A chunk arrived and waits for its turn.
    ChunkReady,
    /// A chunk was appended to the sink.
    ChunkQueued,
    /// Audio of a chunk began to flow.
    ChunkStarted,
    /// A chunk played to its end.
    ChunkFinished,
    /// Synthesis failed for a request.
    GenerationError,
    /// The playback side failed (decode, sink, device).
    Error,
}

/// The name under which a kind is reported.
pub open spec fn kind_name(kind: EventKind) -> Seq<char> {
    match kind {
        EventKind::ChunkReady => "chunk_ready"@,
        EventKind::ChunkQueued => "chunk_queued"@,
        EventKind::ChunkStarted => "chunk_started"@,
        EventKind::ChunkFinished => "chunk_finished"@,
        EventKind::GenerationError => "generation_error"@,
        EventKind::Error => "error"@,
    }
}

impl EventKind {
    /// The name under which this kind is reported.
    pub fn name(&self) -> (name: &'static str)
        ensures
            name@ == kind_name(*self),
    {
        match self {
            EventKind::ChunkReady => "chunk_ready",
            EventKind::ChunkQueued => "chunk_queued",
            EventKind::ChunkStarted => "chunk_started",
            EventKind::ChunkFinished => "chunk_finished",
            EventKind::GenerationError => "generation_error",
            EventKind::Error => "error",
        }
    }
}

/// One notification: which session, which chunk, what happened, and a
/// message where there is something to say.
#[derive(Clone, Debug)]
pub struct TtsPlaybackEvent {
    pub session_id: String,
    pub chunk_index: usize,
    pub event: EventKind,
    pub message: Option<String>,
}

/// A notification as plain values.
pub struct EventView {
    pub session_id: Seq<char>,
    pub chunk_index: usize,
    pub event: EventKind,
    pub message: Option<Seq<char>>,
}

impl View for TtsPlaybackEvent {
    type V = EventView;

    open spec fn view(&self) -> EventView {
        EventView {
            session_id: self.session_id@,
            chunk_index: self.chunk_index,
            event: self.event,
            message: match self.message {
                Some(m) => Some(m@),
                None => None,
            },
        }
    }
}

impl DeepView for TtsPlaybackEvent {
    type V = EventView;

    open spec fn deep_view(&self) -> EventView {
        self@
    }
}

/// A notification without a message.
pub open spec fn plain_event(session_id: Seq<char>, chunk_index: usize, event: EventKind)
    -> EventView {
    EventView { session_id, chunk_index, event, message: None }
}

/// A notification of kind `event` whose message is `prefix` followed by
/// `detail`.
pub open spec fn failure_event(
    session_id: Seq<char>,
    chunk_index: usize,
    event: EventKind,
    prefix: Seq<char>,
    detail: Seq<char>,
) -> EventView {
    EventView { session_id, chunk_index, event, message: Some(prefix + detail) }
}

/// What is reported when the audio output device cannot be opened.
pub open spec fn device_unavailable(detail: Seq<char>) -> EventView {
    failure_event(
        Seq::empty(),
        0,
        EventKind::Error,
        "Failed to create audio output stream: "@,
        detail,
    )
}

/// What is reported when the engine could not be made ready for a request.
pub open spec fn init_failed(session_id: Seq<char>, detail: Seq<char>) -> EventView {
    failure_event(session_id, 0, EventKind::GenerationError, "Echo init failed: "@, detail)
}

/// What is reported when synthesis failed for a request.
pub open spec fn generation_failed(session_id: Seq<char>, detail: Seq<char>) -> EventView {
    failure_event(
        session_id,
        0,
        EventKind::GenerationError,
        "Echo generation failed: "@,
        detail,
    )
}

impl TtsPlaybackEvent {
    /// A notification without a message.
    pub fn plain(session_id: &String, chunk_index: usize, event: EventKind) -> (ev: Self)
        ensures
            ev@ == plain_event(session_id@, chunk_index, event),
    {
        TtsPlaybackEvent { session_id: session_id.clone(), chunk_index, event, message: None }
    }

    /// A notification whose message is `prefix` followed by `detail`.
    pub fn failure(
        session_id: &String,
        chunk_index: usize,
        event: EventKind,
        prefix: &str,
        detail: &str,
    ) -> (ev: Self)
        ensures
            ev@ == failure_event(session_id@, chunk_index, event, prefix@, detail@),
    {
        let mut message = String::from_str(prefix);
        message.append(detail);
        TtsPlaybackEvent {
            session_id: session_id.clone(),
            chunk_index,
            event,
            message: Some(message),
        }
    }

    /// The event for an output device that cannot be opened. It belongs to
    /// no session.
    pub fn device_unavailable(detail: &str) -> (ev: Self)
        ensures
            ev@ == device_unavailable(detail@),
    {
        let nobody = String::new();
        Self::failure(&nobody, 0, EventKind::Error, "Failed to create audio output stream: ", detail)
    }

    /// The event for an engine that could not be made ready.
    pub fn init_failed(session_id: &String, detail: &str) -> (ev: Self)
        ensures
            ev@ == init_failed(session_id@, detail@),
    {
        Self::failure(session_id, 0, EventKind::GenerationError, "Echo init failed: ", detail)
    }

    /// The event for a synthesis that failed.
    pub fn generation_failed(session_id: &String, detail: &str) -> (ev: Self)
        ensures
            ev@ == generation_failed(session_id@, detail@),
    {
        Self::failure(
            session_id,
            0,
            EventKind::GenerationError,
            "Echo generation failed: ",
            detail,
        )
    }
}

} // verus!
