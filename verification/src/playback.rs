//! The decisions of the gapless playback driver.
//!
//! The driver owns the audio sink of a session. The sink itself, its output
//! device and the thread that polls it live outside this library; what is
//! decided here is what the driver does with each command, each chunk that
//! was decoded or could not be, and each look at the sink: the next state,
//! what to ask of the sink, and which events to send.

use crate::event::{failure_event, plain_event, EventKind, EventView, TtsPlaybackEvent};
use crate::reorder::{law_run_is_released, replay, ChunkReorderQueue, QueueOp, QueueView};
use vstd::prelude::*;

verus! {

/// What any thread may read of the playback of the current session.
#[derive(Clone, Copy, Debug, PartialEq, Eq, Structural)]
pub struct PlaybackStatus {
    pub is_playing: bool,
    pub is_paused: bool,
    /// How many chunks the sink holds.
    pub queued_count: usize,
    /// The index of the chunk that is playing.
    pub current_chunk: usize,
}

/// The status of a driver that plays nothing.
pub open spec fn idle_status() -> PlaybackStatus {
    PlaybackStatus { is_playing: false, is_paused: false, queued_count: 0, current_chunk: 0 }
}

impl Default for PlaybackStatus {
    fn default() -> (status: Self)
        ensures
            status == idle_status(),
    {
        PlaybackStatus { is_playing: false, is_paused: false, queued_count: 0, current_chunk: 0 }
    }
}

/// A command to the driver. `P` is whatever a chunk carries to the decoder.
#[derive(Debug)]
pub enum PlaybackCmd<P> {
    StartSession { session_id: String },
    EnqueueChunk { session_id: String, chunk_index: usize, payload: P },
    Stop,
    Pause,
    Resume,
}

/// A command as plain values.
pub enum CmdView<P> {
    StartSession { session_id: Seq<char> },
    EnqueueChunk { session_id: Seq<char>, chunk_index: usize, payload: P },
    Stop,
    Pause,
    Resume,
}

impl<P> View for PlaybackCmd<P> {
    type V = CmdView<P>;

    open spec fn view(&self) -> CmdView<P> {
        match *self {
            PlaybackCmd::StartSession { session_id } => CmdView::StartSession {
                session_id: session_id@,
            },
            PlaybackCmd::EnqueueChunk { session_id, chunk_index, payload } => CmdView::EnqueueChunk {
                session_id: session_id@,
                chunk_index,
                payload,
            },
            PlaybackCmd::Stop => CmdView::Stop,
            PlaybackCmd::Pause => CmdView::Pause,
            PlaybackCmd::Resume => CmdView::Resume,
        }
    }
}

/// What the driver asks of its surroundings after a command.
#[derive(Clone, Debug)]
pub enum DriverAction {
    /// Stop the sink and let go of it.
    StopSink,
    /// Open a fresh sink for the session, then report how that went.
    OpenSink,
    /// Pause the sink.
    PauseSink,
    /// Let the sink play on.
    ResumeSink,
    /// Send this event.
    Emit(TtsPlaybackEvent),
}

/// An action as plain values.
pub enum ActionView {
    StopSink,
    OpenSink,
    PauseSink,
    ResumeSink,
    Emit(EventView),
}

impl View for DriverAction {
    type V = ActionView;

    open spec fn view(&self) -> ActionView {
        match *self {
            DriverAction::StopSink => ActionView::StopSink,
            DriverAction::OpenSink => ActionView::OpenSink,
            DriverAction::PauseSink => ActionView::PauseSink,
            DriverAction::ResumeSink => ActionView::ResumeSink,
            DriverAction::Emit(event) => ActionView::Emit(event@),
        }
    }
}

impl DeepView for DriverAction {
    type V = ActionView;

    open spec fn deep_view(&self) -> ActionView {
        self@
    }
}

/// One look at the sink: how many chunks it holds and whether it is paused.
#[derive(Clone, Copy, Debug, PartialEq, Eq, Structural)]
pub struct SinkSnapshot {
    pub len: usize,
    pub paused: bool,
}

/// The next index, staying put at the largest one.
pub open spec fn bump(index: usize) -> usize {
    if index < usize::MAX {
        (index + 1) as usize
    } else {
        index
    }
}

/// The driver as plain values.
pub struct DriverView<P> {
    /// The session, the chunks that wait, and the watermark.
    pub queue: QueueView<P>,
    /// Whether a sink is open.
    pub has_sink: bool,
    /// How many chunks the sink was given in this session.
    pub appended: usize,
    /// The index of the chunk that is playing.
    pub playing: usize,
    /// The depth of the sink at the last look.
    pub last_depth: usize,
    pub status: PlaybackStatus,
}

impl<P> DriverView<P> {
    /// The driver before any session.
    pub open spec fn idle() -> Self {
        DriverView {
            queue: QueueView::idle(),
            has_sink: false,
            appended: 0,
            playing: 0,
            last_depth: 0,
            status: idle_status(),
        }
    }

    /// Whether chunks are handed on and the sink is watched: a session is
    /// current and its sink is open.
    pub open spec fn is_active(self) -> bool {
        self.queue.session is Some && self.has_sink
    }

    /// The token under which events are sent.
    pub open spec fn token(self) -> Seq<char> {
        match self.queue.session {
            Some(token) => token,
            None => Seq::empty(),
        }
    }

    /// A new session begins: the old sink goes, a new one is asked for, and
    /// queue, watermark, counters and status start from zero.
    pub open spec fn start_session(self, session_id: Seq<char>) -> (Self, Seq<ActionView>) {
        (
            DriverView {
                queue: QueueView::fresh(session_id),
                has_sink: false,
                appended: 0,
                playing: 0,
                last_depth: 0,
                status: idle_status(),
            },
            if self.has_sink {
                seq![ActionView::StopSink, ActionView::OpenSink]
            } else {
                seq![ActionView::OpenSink]
            },
        )
    }

    /// The sink that was asked for is open.
    pub open spec fn sink_opened(self) -> Self {
        DriverView { has_sink: true, ..self }
    }

    /// The sink that was asked for could not be opened.
    pub open spec fn sink_failed(self, detail: Seq<char>) -> (Self, Seq<EventView>) {
        (
            DriverView { has_sink: false, ..self },
            seq![
                failure_event(
                    self.token(),
                    0,
                    EventKind::Error,
                    "Failed to create audio sink: "@,
                    detail,
                ),
            ],
        )
    }

    /// A chunk arrives. One of another session is dropped without a word.
    pub open spec fn enqueue(self, session_id: Seq<char>, chunk_index: usize, payload: P) -> (
        Self,
        Seq<EventView>,
    ) {
        if self.queue.accepts(session_id) {
            (
                DriverView { queue: self.queue.submit(session_id, chunk_index, payload), ..self },
                seq![plain_event(session_id, chunk_index, EventKind::ChunkReady)],
            )
        } else {
            (self, Seq::empty())
        }
    }

    /// Playback stops: the sink goes, the queue and the session with it,
    /// and the status is that of a driver that plays nothing.
    pub open spec fn stop(self) -> (Self, Seq<ActionView>) {
        (
            DriverView::idle(),
            if self.has_sink {
                seq![ActionView::StopSink]
            } else {
                Seq::empty()
            },
        )
    }

    /// The sink is paused, where there is one.
    pub open spec fn pause(self) -> (Self, Seq<ActionView>) {
        if self.has_sink {
            (
                DriverView { status: PlaybackStatus { is_paused: true, ..self.status }, ..self },
                seq![ActionView::PauseSink],
            )
        } else {
            (self, Seq::empty())
        }
    }

    /// The sink plays on, where there is one.
    pub open spec fn resume(self) -> (Self, Seq<ActionView>) {
        if self.has_sink {
            (
                DriverView { status: PlaybackStatus { is_paused: false, ..self.status }, ..self },
                seq![ActionView::ResumeSink],
            )
        } else {
            (self, Seq::empty())
        }
    }

    /// The driver after `cmd`, and what it asks for.
    pub open spec fn command(self, cmd: CmdView<P>) -> (Self, Seq<ActionView>) {
        match cmd {
            CmdView::StartSession { session_id } => self.start_session(session_id),
            CmdView::EnqueueChunk { session_id, chunk_index, payload } => {
                let (next, events) = self.enqueue(session_id, chunk_index, payload);
                (next, events.map_values(|event: EventView| ActionView::Emit(event)))
            },
            CmdView::Stop => self.stop(),
            CmdView::Pause => self.pause(),
            CmdView::Resume => self.resume(),
        }
    }

    /// The chunk that is due leaves the queue, if the driver is active and
    /// the chunk has arrived.
    pub open spec fn pop_ready(self) -> (Self, Option<(usize, P)>) {
        if self.is_active() {
            (DriverView { queue: self.queue.advance(), ..self }, self.queue.due())
        } else {
            (self, None)
        }
    }

    /// Chunk `chunk_index` was decoded and appended, and the sink then held
    /// `depth` chunks. Where the sink was empty before, audio starts to
    /// flow, and that is said first.
    pub open spec fn chunk_appended(self, chunk_index: usize, depth: usize) -> (Self, Seq<EventView>) {
        if !self.is_active() {
            (self, Seq::empty())
        } else if self.last_depth == 0 {
            (
                DriverView {
                    appended: bump(self.appended),
                    last_depth: depth,
                    status: PlaybackStatus { is_playing: true, queued_count: depth, ..self.status },
                    ..self
                },
                seq![
                    plain_event(self.token(), self.playing, EventKind::ChunkStarted),
                    plain_event(self.token(), chunk_index, EventKind::ChunkQueued),
                ],
            )
        } else {
            (
                DriverView {
                    appended: bump(self.appended),
                    status: PlaybackStatus { queued_count: depth, ..self.status },
                    ..self
                },
                seq![plain_event(self.token(), chunk_index, EventKind::ChunkQueued)],
            )
        }
    }

    /// Chunk `chunk_index` could not be decoded. It is skipped for good:
    /// one error is sent, and nothing else changes.
    pub open spec fn chunk_rejected(self, chunk_index: usize, detail: Seq<char>) -> (
        Self,
        Seq<EventView>,
    ) {
        if self.is_active() {
            (
                self,
                seq![
                    failure_event(
                        self.token(),
                        chunk_index,
                        EventKind::Error,
                        "Failed to decode WAV: "@,
                        detail,
                    ),
                ],
            )
        } else {
            (self, Seq::empty())
        }
    }

    /// Whether a look that finds `depth` chunks shows that one chunk ended
    /// and the next one plays.
    pub open spec fn chunk_boundary(self, depth: usize) -> bool {
        0 < depth < self.last_depth
    }

    /// Whether a look that finds `depth` chunks shows that the sink ran
    /// empty after it had played.
    pub open spec fn ran_dry(self, depth: usize) -> bool {
        depth == 0 && self.last_depth > 0 && self.appended > 0
    }

    /// A look at the sink. A smaller depth that is not zero means the chunk
    /// that played has ended and the next one plays. A depth that fell to
    /// zero means the sink ran dry: the last chunk has ended, and indices
    /// and watermark stay, since more chunks may come.
    pub open spec fn tick(self, seen: SinkSnapshot) -> (Self, Seq<EventView>) {
        if !self.is_active() {
            (self, Seq::empty())
        } else if self.chunk_boundary(seen.len) {
            (
                DriverView {
                    playing: bump(self.playing),
                    last_depth: seen.len,
                    status: PlaybackStatus {
                        is_playing: true,
                        is_paused: seen.paused,
                        queued_count: seen.len,
                        current_chunk: bump(self.playing),
                    },
                    ..self
                },
                seq![
                    plain_event(self.token(), self.playing, EventKind::ChunkFinished),
                    plain_event(self.token(), bump(self.playing), EventKind::ChunkStarted),
                ],
            )
        } else if self.ran_dry(seen.len) {
            (
                DriverView {
                    playing: bump(self.playing),
                    last_depth: seen.len,
                    status: PlaybackStatus {
                        is_playing: false,
                        is_paused: seen.paused,
                        queued_count: seen.len,
                        current_chunk: bump(self.playing),
                    },
                    ..self
                },
                seq![plain_event(self.token(), self.playing, EventKind::ChunkFinished)],
            )
        } else {
            (
                DriverView {
                    last_depth: seen.len,
                    status: PlaybackStatus {
                        is_playing: if seen.len > 0 {
                            true
                        } else {
                            self.status.is_playing
                        },
                        is_paused: seen.paused,
                        queued_count: seen.len,
                        ..self.status
                    },
                    ..self
                },
                Seq::empty(),
            )
        }
    }
}


/// The next index, staying put at the largest one.
fn next_index(index: usize) -> (next: usize)
    ensures
        next == bump(index),
{
    if index < usize::MAX {
        index + 1
    } else {
        index
    }
}

/// The driver of one audio sink: a reorder queue, the counters that follow
/// the sink, and the status that others read.
pub struct PlaybackDriver<P> {
    queue: ChunkReorderQueue<P>,
    has_sink: bool,
    appended: usize,
    playing: usize,
    last_depth: usize,
    status: PlaybackStatus,
}

impl<P> View for PlaybackDriver<P> {
    type V = DriverView<P>;

    closed spec fn view(&self) -> DriverView<P> {
        DriverView {
            queue: self.queue@,
            has_sink: self.has_sink,
            appended: self.appended,
            playing: self.playing,
            last_depth: self.last_depth,
            status: self.status,
        }
    }
}

impl<P> PlaybackDriver<P> {
    /// A driver with no session and no sink.
    pub fn new() -> (driver: Self)
        ensures
            driver@ == DriverView::<P>::idle(),
    {
        PlaybackDriver {
            queue: ChunkReorderQueue::new(),
            has_sink: false,
            appended: 0,
            playing: 0,
            last_depth: 0,
            status: PlaybackStatus::default(),
        }
    }

    /// Begins session `session_id`. The caller stops the old sink where it
    /// is told to, opens a new one, and reports the outcome with
    /// `sink_opened` or `sink_failed`.
    pub fn start_session(&mut self, session_id: String) -> (actions: Vec<DriverAction>)
        ensures
            (final(self)@, actions.deep_view()) == old(self)@.start_session(session_id@),
    {
        let mut actions: Vec<DriverAction> = Vec::new();
        if self.has_sink {
            actions.push(DriverAction::StopSink);
        }
        actions.push(DriverAction::OpenSink);
        self.queue.start_session(session_id);
        self.has_sink = false;
        self.appended = 0;
        self.playing = 0;
        self.last_depth = 0;
        self.status = PlaybackStatus::default();
        assert(actions.deep_view() =~= old(self)@.start_session(session_id@).1);
        actions
    }

    /// Records that the sink asked for is open.
    pub fn sink_opened(&mut self)
        ensures
            final(self)@ == old(self)@.sink_opened(),
    {
        self.has_sink = true;
    }

    /// Records that no sink could be opened, and says so in an event. The
    /// session stays, without a sink, until it is stopped or replaced.
    pub fn sink_failed(&mut self, detail: &str) -> (events: Vec<TtsPlaybackEvent>)
        ensures
            (final(self)@, events.deep_view()) == old(self)@.sink_failed(detail@),
    {
        self.has_sink = false;
        let token = self.token();
        let mut events: Vec<TtsPlaybackEvent> = Vec::new();
        events.push(
            TtsPlaybackEvent::failure(
                &token,
                0,
                EventKind::Error,
                "Failed to create audio sink: ",
                detail,
            ),
        );
        assert(events.deep_view() =~= old(self)@.sink_failed(detail@).1);
        events
    }

    /// Takes in chunk `chunk_index` of session `session_id`, or drops it
    /// if that session is not the current one.
    pub fn enqueue(&mut self, session_id: String, chunk_index: usize, payload: P) -> (events: Vec<
        TtsPlaybackEvent,
    >)
        ensures
            (final(self)@, events.deep_view()) == old(self)@.enqueue(
                session_id@,
                chunk_index,
                payload,
            ),
    {
        let mut events: Vec<TtsPlaybackEvent> = Vec::new();
        if self.queue.submit(&session_id, chunk_index, payload) {
            events.push(TtsPlaybackEvent::plain(&session_id, chunk_index, EventKind::ChunkReady));
        }
        assert(events.deep_view() =~= old(self)@.enqueue(session_id@, chunk_index, payload).1);
        events
    }

    /// Stops playback and forgets the session.
    pub fn stop(&mut self) -> (actions: Vec<DriverAction>)
        ensures
            (final(self)@, actions.deep_view()) == old(self)@.stop(),
    {
        let mut actions: Vec<DriverAction> = Vec::new();
        if self.has_sink {
            actions.push(DriverAction::StopSink);
        }
        self.queue.stop();
        self.has_sink = false;
        self.appended = 0;
        self.playing = 0;
        self.last_depth = 0;
        self.status = PlaybackStatus::default();
        assert(actions.deep_view() =~= old(self)@.stop().1);
        actions
    }

    /// Pauses the sink, if there is one.
    pub fn pause(&mut self) -> (actions: Vec<DriverAction>)
        ensures
            (final(self)@, actions.deep_view()) == old(self)@.pause(),
    {
        let mut actions: Vec<DriverAction> = Vec::new();
        if self.has_sink {
            actions.push(DriverAction::PauseSink);
            self.status.is_paused = true;
        }
        assert(actions.deep_view() =~= old(self)@.pause().1);
        actions
    }

    /// Lets the sink play on, if there is one.
    pub fn resume(&mut self) -> (actions: Vec<DriverAction>)
        ensures
            (final(self)@, actions.deep_view()) == old(self)@.resume(),
    {
        let mut actions: Vec<DriverAction> = Vec::new();
        if self.has_sink {
            actions.push(DriverAction::ResumeSink);
            self.status.is_paused = false;
        }
        assert(actions.deep_view() =~= old(self)@.resume().1);
        actions
    }

    /// Carries out `cmd` on the driver's state and says what the caller
    /// has to do for it.
    pub fn handle_command(&mut self, cmd: PlaybackCmd<P>) -> (actions: Vec<DriverAction>)
        ensures
            (final(self)@, actions.deep_view()) == old(self)@.command(cmd@),
    {
        match cmd {
            PlaybackCmd::StartSession { session_id } => self.start_session(session_id),
            PlaybackCmd::EnqueueChunk { session_id, chunk_index, payload } => {
                let mut events = self.enqueue(session_id, chunk_index, payload);
                let ghost sent = events.deep_view();
                let mut actions: Vec<DriverAction> = Vec::new();
                match events.pop() {
                    Some(event) => {
                        actions.push(DriverAction::Emit(event));
                    },
                    None => {},
                }
                assert(actions.deep_view() =~= sent.map_values(
                    |event: EventView| ActionView::Emit(event),
                ));
                actions
            },
            PlaybackCmd::Stop => self.stop(),
            PlaybackCmd::Pause => self.pause(),
            PlaybackCmd::Resume => self.resume(),
        }
    }

    /// Whether a session is current and its sink is open.
    pub fn is_active(&self) -> (yes: bool)
        ensures
            yes == self@.is_active(),
    {
        self.has_sink && self.queue.session().is_some()
    }

    /// Hands out the chunk that is due, if the driver is active and the
    /// chunk has arrived, and moves the watermark past it. The caller
    /// decodes it and reports with `chunk_appended` or `chunk_rejected`.
    pub fn pop_ready(&mut self) -> (chunk: Option<(usize, P)>)
        ensures
            (final(self)@, chunk) == old(self)@.pop_ready(),
    {
        if self.is_active() {
            self.queue.pop_ready()
        } else {
            None
        }
    }

    /// Records that chunk `chunk_index` was appended to the sink, which
    /// then held `depth` chunks.
    pub fn chunk_appended(&mut self, chunk_index: usize, depth: usize) -> (events: Vec<
        TtsPlaybackEvent,
    >)
        ensures
            (final(self)@, events.deep_view()) == old(self)@.chunk_appended(chunk_index, depth),
    {
        let mut events: Vec<TtsPlaybackEvent> = Vec::new();
        if self.is_active() {
            let token = self.token();
            self.appended = next_index(self.appended);
            self.status.queued_count = depth;
            if self.last_depth == 0 {
                self.status.is_playing = true;
                events.push(TtsPlaybackEvent::plain(&token, self.playing, EventKind::ChunkStarted));
                self.last_depth = depth;
            }
            events.push(TtsPlaybackEvent::plain(&token, chunk_index, EventKind::ChunkQueued));
        }
        assert(events.deep_view() =~= old(self)@.chunk_appended(chunk_index, depth).1);
        events
    }

    /// Records that chunk `chunk_index` could not be decoded.
    pub fn chunk_rejected(&mut self, chunk_index: usize, detail: &str) -> (events: Vec<
        TtsPlaybackEvent,
    >)
        ensures
            (final(self)@, events.deep_view()) == old(self)@.chunk_rejected(chunk_index, detail@),
    {
        let mut events: Vec<TtsPlaybackEvent> = Vec::new();
        if self.is_active() {
            let token = self.token();
            events.push(
                TtsPlaybackEvent::failure(
                    &token,
                    chunk_index,
                    EventKind::Error,
                    "Failed to decode WAV: ",
                    detail,
                ),
            );
        }
        assert(events.deep_view() =~= old(self)@.chunk_rejected(chunk_index, detail@).1);
        events
    }

    /// Takes one look at the sink into account.
    pub fn tick(&mut self, seen: SinkSnapshot) -> (events: Vec<TtsPlaybackEvent>)
        ensures
            (final(self)@, events.deep_view()) == old(self)@.tick(seen),
    {
        let mut events: Vec<TtsPlaybackEvent> = Vec::new();
        if self.is_active() {
            let token = self.token();
            self.status.is_paused = seen.paused;
            if seen.len < self.last_depth && seen.len > 0 {
                events.push(TtsPlaybackEvent::plain(&token, self.playing, EventKind::ChunkFinished));
                self.playing = next_index(self.playing);
                self.status.current_chunk = self.playing;
                events.push(TtsPlaybackEvent::plain(&token, self.playing, EventKind::ChunkStarted));
            }
            if seen.len == 0 && self.last_depth > 0 && self.appended > 0 {
                events.push(TtsPlaybackEvent::plain(&token, self.playing, EventKind::ChunkFinished));
                self.playing = next_index(self.playing);
                self.status.current_chunk = self.playing;
                self.status.is_playing = false;
            } else if seen.len > 0 {
                self.status.is_playing = true;
            }
            self.last_depth = seen.len;
            self.status.queued_count = seen.len;
        }
        assert(events.deep_view() =~= old(self)@.tick(seen).1);
        events
    }

    /// What any thread may read of the playback.
    pub fn status(&self) -> (status: PlaybackStatus)
        ensures
            status == self@.status,
    {
        self.status
    }

    /// Whether audio flows.
    pub fn is_playing(&self) -> (yes: bool)
        ensures
            yes == self@.status.is_playing,
    {
        self.status.is_playing
    }

    /// Whether the sink is paused.
    pub fn is_paused(&self) -> (yes: bool)
        ensures
            yes == self@.status.is_paused,
    {
        self.status.is_paused
    }

    /// The index that is due next.
    pub fn watermark(&self) -> (index: usize)
        ensures
            index == self@.queue.watermark,
    {
        self.queue.watermark()
    }

    /// The token under which events are sent: the session's, or the empty
    /// one where there is none.
    fn token(&self) -> (token: String)
        ensures
            token@ == self@.token(),
    {
        match self.queue.session() {
            Some(token) => token,
            None => String::new(),
        }
    }
}


/// A chunk that cannot be decoded costs one error event and one step of the
/// watermark, and holds nothing up: with the `n` chunks from the watermark
/// on waiting, the first leaves, its rejection changes nothing but sends one
/// error under its index, and the `n - 1` chunks behind it then leave in
/// order as if nothing had happened.
pub proof fn law_corrupt_chunk_is_skipped<P>(driver: DriverView<P>, detail: Seq<char>, n: nat)
    requires
        driver.is_active(),
        driver.queue.run_is(n),
        n >= 1,
    ensures
        ({
            let k = driver.queue.watermark;
            let (popped, chunk) = driver.pop_ready();
            let (after, events) = popped.chunk_rejected(k, detail);
            &&& chunk == Some((k, driver.queue.pending[k]))
            &&& popped.queue.watermark == k + 1
            &&& after == popped
            &&& events == seq![
                failure_event(
                    driver.token(),
                    k,
                    EventKind::Error,
                    "Failed to decode WAV: "@,
                    detail,
                ),
            ]
            &&& after.queue.run_is((n - 1) as nat)
            &&& replay(after.queue, Seq::new((n - 1) as nat, |i: int| QueueOp::<P>::Release)).1
                == driver.queue.run(n).drop_first()
        }),
{
    let k = driver.queue.watermark;
    let m = (n - 1) as nat;
    assert(driver.queue.pending.contains_key((k + 0nat) as usize));
    let after = driver.pop_ready().0;
    assert(after.queue.run_is(m)) by {
        assert forall|i: nat| i < m implies #[trigger] after.queue.pending.contains_key(
            (after.queue.watermark + i) as usize,
        ) by {
            assert(driver.queue.pending.contains_key((k + (i + 1) as nat) as usize));
        }
    }
    law_run_is_released(after.queue, m);
    assert(after.queue.run(m) =~= driver.queue.run(n).drop_first());
}

/// Pause and resume keep the place. Pausing asks the sink to pause and
/// resuming asks it to play on; after both, the driver is as it was, but for
/// the pause flag, which is down. While paused, a look that finds the depth
/// unchanged sends no event and moves neither the queue nor any counter: no
/// chunk is dropped and none is played twice.
pub proof fn law_pause_resume_keeps_place<P>(driver: DriverView<P>, seen: SinkSnapshot)
    requires
        driver.has_sink,
        seen.len == driver.last_depth,
    ensures
        driver.pause().1 == seq![ActionView::PauseSink],
        driver.pause().0.resume().1 == seq![ActionView::ResumeSink],
        driver.pause().0.resume().0 == (DriverView {
            status: PlaybackStatus { is_paused: false, ..driver.status },
            ..driver
        }),
        driver.pause().0.tick(seen).1 == Seq::<EventView>::empty(),
        driver.pause().0.tick(seen).0.queue == driver.queue,
        driver.pause().0.tick(seen).0.appended == driver.appended,
        driver.pause().0.tick(seen).0.playing == driver.playing,
        driver.pause().0.tick(seen).0.last_depth == driver.last_depth,
{
}

/// Once the sink has run dry, further looks at the empty sink send nothing:
/// the end of the last chunk is reported once.
pub proof fn law_dry_sink_is_reported_once<P>(driver: DriverView<P>, paused: bool, again: bool)
    requires
        driver.is_active(),
        driver.ran_dry(0),
    ensures
        driver.tick(SinkSnapshot { len: 0, paused }).1 == seq![
            plain_event(driver.token(), driver.playing, EventKind::ChunkFinished),
        ],
        !driver.tick(SinkSnapshot { len: 0, paused }).0.status.is_playing,
        driver.tick(SinkSnapshot { len: 0, paused }).0.queue == driver.queue,
        driver.tick(SinkSnapshot { len: 0, paused }).0.tick(SinkSnapshot { len: 0, paused: again }).1
            == Seq::<EventView>::empty(),
{
}


/// One thing that can reach the driver.
pub enum DriverInput<P> {
    Command(CmdView<P>),
    SinkOpened,
    SinkFailed { detail: Seq<char> },
    PopReady,
    ChunkAppended { chunk_index: usize, depth: usize },
    ChunkRejected { chunk_index: usize, detail: Seq<char> },
    Tick(SinkSnapshot),
}

/// The driver after one input, and the chunk it handed to the decoder, if
/// it handed one.
pub open spec fn feed<P>(driver: DriverView<P>, input: DriverInput<P>) -> (
    DriverView<P>,
    Option<(usize, P)>,
) {
    match input {
        DriverInput::Command(cmd) => (driver.command(cmd).0, None),
        DriverInput::SinkOpened => (driver.sink_opened(), None),
        DriverInput::SinkFailed { detail } => (driver.sink_failed(detail).0, None),
        DriverInput::PopReady => driver.pop_ready(),
        DriverInput::ChunkAppended { chunk_index, depth } => (
            driver.chunk_appended(chunk_index, depth).0,
            None,
        ),
        DriverInput::ChunkRejected { chunk_index, detail } => (
            driver.chunk_rejected(chunk_index, detail).0,
            None,
        ),
        DriverInput::Tick(seen) => (driver.tick(seen).0, None),
    }
}

/// The driver after the inputs `inputs`, first to last, and the chunks it
/// handed to the decoder on the way, in that order.
pub open spec fn feed_all<P>(driver: DriverView<P>, inputs: Seq<DriverInput<P>>) -> (
    DriverView<P>,
    Seq<(usize, P)>,
)
    decreases inputs.len(),
{
    if inputs.len() == 0 {
        (driver, Seq::empty())
    } else {
        let (before, played) = feed_all(driver, inputs.drop_last());
        let (after, chunk) = feed(before, inputs.last());
        match chunk {
            Some(chunk) => (after, played.push(chunk)),
            None => (after, played),
        }
    }
}

/// Whether `inputs` holds the command that enqueues exactly this chunk
/// under this token.
pub open spec fn enqueued<P>(
    inputs: Seq<DriverInput<P>>,
    token: Seq<char>,
    index: usize,
    payload: P,
) -> bool {
    exists|j: int|
        0 <= j < inputs.len() && #[trigger] inputs[j] == DriverInput::Command(
            CmdView::EnqueueChunk { session_id: token, chunk_index: index, payload },
        )
}

/// Whether no input starts a session.
pub open spec fn starts_none<P>(inputs: Seq<DriverInput<P>>) -> bool {
    forall|j: int|
        0 <= j < inputs.len() ==> !(#[trigger] inputs[j] matches DriverInput::Command(
            CmdView::StartSession { .. },
        ))
}

proof fn lemma_enqueued_grows<P>(
    inputs: Seq<DriverInput<P>>,
    token: Seq<char>,
    index: usize,
    payload: P,
)
    requires
        inputs.len() > 0,
        enqueued(inputs.drop_last(), token, index, payload),
    ensures
        enqueued(inputs, token, index, payload),
{
    let earlier = inputs.drop_last();
    let j = choose|j: int|
        0 <= j < earlier.len() && #[trigger] earlier[j] == DriverInput::Command(
            CmdView::EnqueueChunk { session_id: token, chunk_index: index, payload },
        );
    assert(inputs[j] == earlier[j]);
}

proof fn lemma_played_were_enqueued<P>(
    driver: DriverView<P>,
    token: Seq<char>,
    inputs: Seq<DriverInput<P>>,
)
    requires
        starts_none(inputs),
    ensures
        ({
            let (after, played) = feed_all(driver.start_session(token).0, inputs);
            &&& after.queue.session == Some(token) || after.queue == QueueView::<P>::idle()
            &&& forall|index: usize| #[trigger]
                after.queue.pending.contains_key(index) ==> enqueued(
                    inputs,
                    token,
                    index,
                    after.queue.pending[index],
                )
            &&& forall|k: int|
                0 <= k < played.len() ==> enqueued(
                    inputs,
                    token,
                    (#[trigger] played[k]).0,
                    played[k].1,
                )
        }),
    decreases inputs.len(),
{
    if inputs.len() > 0 {
        let earlier = inputs.drop_last();
        assert(starts_none(earlier)) by {
            assert forall|j: int| 0 <= j < earlier.len() implies !(#[trigger] earlier[j] matches DriverInput::Command(
                CmdView::StartSession { .. },
            )) by {
                assert(earlier[j] == inputs[j]);
            }
        }
        lemma_played_were_enqueued(driver, token, earlier);
        let first = driver.start_session(token).0;
        let (before, played_before) = feed_all(first, earlier);
        let (after, played) = feed_all(first, inputs);
        let last = inputs[inputs.len() - 1];
        assert(!(last matches DriverInput::Command(CmdView::StartSession { .. })));
        assert forall|index: usize| #[trigger] after.queue.pending.contains_key(index) implies enqueued(
            inputs,
            token,
            index,
            after.queue.pending[index],
        ) by {
            let payload = after.queue.pending[index];
            if before.queue.pending.contains_key(index) && before.queue.pending[index] == payload {
                lemma_enqueued_grows(inputs, token, index, payload);
            } else {
                assert(last == DriverInput::Command(
                    CmdView::EnqueueChunk { session_id: token, chunk_index: index, payload },
                ));
            }
        }
        assert forall|k: int| 0 <= k < played.len() implies enqueued(
            inputs,
            token,
            (#[trigger] played[k]).0,
            played[k].1,
        ) by {
            let (index, payload) = played[k];
            if k < played_before.len() {
                assert(played[k] == played_before[k]);
            } else {
                assert(before.queue.pending.contains_key(index));
                assert(before.queue.pending[index] == payload);
            }
            lemma_enqueued_grows(inputs, token, index, payload);
        }
    }
}

/// Only the current session plays. Once the command that starts session
/// `token` is processed, a chunk that arrives under any other token leaves
/// the driver as it is and sends nothing; and whatever inputs follow, as
/// long as none of them starts another session, every chunk handed to the
/// decoder was enqueued under `token` after that start.
pub proof fn law_only_current_session_plays<P>(
    driver: DriverView<P>,
    token: Seq<char>,
    inputs: Seq<DriverInput<P>>,
)
    requires
        starts_none(inputs),
    ensures
        forall|stale: Seq<char>, index: usize, payload: P|
            stale != token ==> #[trigger] driver.start_session(token).0.enqueue(stale, index, payload)
                == (driver.start_session(token).0, Seq::<EventView>::empty()),
        forall|k: int|
            0 <= k < feed_all(driver.start_session(token).0, inputs).1.len() ==> enqueued(
                inputs,
                token,
                (#[trigger] feed_all(driver.start_session(token).0, inputs).1[k]).0,
                feed_all(driver.start_session(token).0, inputs).1[k].1,
            ),
{
    lemma_played_were_enqueued(driver, token, inputs);
}


/// Chunks reach the decoder in index order. Whatever arrives and in
/// whatever order, as long as no further session is started, the chunks
/// that the driver hands out carry the indices watermark, watermark + 1,
/// watermark + 2, ... without gap or repeat; after a stop it hands out
/// none.
pub proof fn law_chunks_play_in_order<P>(driver: DriverView<P>, inputs: Seq<DriverInput<P>>)
    requires
        starts_none(inputs),
    ensures
        forall|k: int|
            0 <= k < feed_all(driver, inputs).1.len() ==> (#[trigger] feed_all(driver, inputs).1[k]).0
                == driver.queue.watermark + k,
        feed_all(driver, inputs).0.queue.session is None || feed_all(driver, inputs).0.queue.watermark
            == driver.queue.watermark + feed_all(driver, inputs).1.len(),
    decreases inputs.len(),
{
    if inputs.len() > 0 {
        let earlier = inputs.drop_last();
        assert(starts_none(earlier)) by {
            assert forall|j: int| 0 <= j < earlier.len() implies !(#[trigger] earlier[j] matches DriverInput::Command(
                CmdView::StartSession { .. },
            )) by {
                assert(earlier[j] == inputs[j]);
            }
        }
        law_chunks_play_in_order(driver, earlier);
        let last = inputs[inputs.len() - 1];
        assert(!(last matches DriverInput::Command(CmdView::StartSession { .. })));
    }
}


/// Stop leaves nothing behind. Whatever the driver was doing, after a stop
/// it is the driver before any session: no session, no sink, nothing
/// waiting, watermark and counters at zero, and the status idle. A second
/// stop asks for nothing and changes nothing.
pub proof fn law_stop_resets<P>(driver: DriverView<P>)
    ensures
        driver.stop().0 == DriverView::<P>::idle(),
        driver.stop().0.status == idle_status(),
        driver.stop().0.stop() == (DriverView::<P>::idle(), Seq::<ActionView>::empty()),
{
}

} // verus!
