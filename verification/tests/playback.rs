use kokoro_reader::event::{EventKind, TtsPlaybackEvent};
use kokoro_reader::playback::{
    DriverAction, PlaybackCmd, PlaybackDriver, PlaybackStatus, SinkSnapshot,
};

fn brief(events: &[TtsPlaybackEvent]) -> Vec<(String, usize, EventKind, Option<String>)> {
    events
        .iter()
        .map(|e| (e.session_id.clone(), e.chunk_index, e.event, e.message.clone()))
        .collect()
}

fn plain(session: &str, index: usize, kind: EventKind) -> (String, usize, EventKind, Option<String>) {
    (session.to_string(), index, kind, None)
}

fn kinds(actions: &[DriverAction]) -> Vec<&'static str> {
    actions
        .iter()
        .map(|a| match a {
            DriverAction::StopSink => "stop",
            DriverAction::OpenSink => "open",
            DriverAction::PauseSink => "pause",
            DriverAction::ResumeSink => "resume",
            DriverAction::Emit(_) => "emit",
        })
        .collect()
}

fn look(len: usize) -> SinkSnapshot {
    SinkSnapshot { len, paused: false }
}

fn active(session: &str) -> PlaybackDriver<&'static str> {
    let mut driver = PlaybackDriver::new();
    assert_eq!(kinds(&driver.start_session(session.to_string())), vec!["open"]);
    driver.sink_opened();
    driver
}

#[test]
fn two_chunks_in_reverse_order_play_in_order() {
    let mut driver = active("s1");
    let ready1 = driver.enqueue("s1".to_string(), 1, "half a second");
    assert_eq!(brief(&ready1), vec![plain("s1", 1, EventKind::ChunkReady)]);
    assert_eq!(driver.pop_ready(), None);
    let ready0 = driver.enqueue("s1".to_string(), 0, "one second");
    assert_eq!(brief(&ready0), vec![plain("s1", 0, EventKind::ChunkReady)]);

    assert_eq!(driver.pop_ready(), Some((0, "one second")));
    let first = driver.chunk_appended(0, 1);
    assert_eq!(
        brief(&first),
        vec![plain("s1", 0, EventKind::ChunkStarted), plain("s1", 0, EventKind::ChunkQueued)]
    );
    assert_eq!(driver.pop_ready(), Some((1, "half a second")));
    let second = driver.chunk_appended(1, 2);
    assert_eq!(brief(&second), vec![plain("s1", 1, EventKind::ChunkQueued)]);
    assert_eq!(driver.pop_ready(), None);
    assert!(driver.is_playing());

    assert_eq!(brief(&driver.tick(look(2))), vec![]);
    let boundary = driver.tick(look(1));
    assert_eq!(
        brief(&boundary),
        vec![plain("s1", 0, EventKind::ChunkFinished), plain("s1", 1, EventKind::ChunkStarted)]
    );
    assert_eq!(driver.status().current_chunk, 1);
    assert_eq!(brief(&driver.tick(look(1))), vec![]);
    let end = driver.tick(look(0));
    assert_eq!(brief(&end), vec![plain("s1", 1, EventKind::ChunkFinished)]);
    assert!(!driver.is_playing());
    assert_eq!(driver.status().current_chunk, 2);
    assert_eq!(driver.watermark(), 2);
    assert_eq!(brief(&driver.tick(look(0))), vec![]);
    assert_eq!(brief(&driver.tick(look(0))), vec![]);
}

#[test]
fn a_new_session_silences_the_old_one() {
    let mut driver = active("a");
    driver.enqueue("a".to_string(), 1, "a1");
    let actions = driver.start_session("b".to_string());
    assert_eq!(kinds(&actions), vec!["stop", "open"]);
    assert!(!driver.is_active());
    driver.sink_opened();
    assert!(driver.is_active());
    assert_eq!(brief(&driver.enqueue("a".to_string(), 0, "a0")), vec![]);
    assert_eq!(driver.pop_ready(), None);
    assert_eq!(
        brief(&driver.enqueue("b".to_string(), 0, "b0")),
        vec![plain("b", 0, EventKind::ChunkReady)]
    );
    assert_eq!(driver.pop_ready(), Some((0, "b0")));
    assert_eq!(driver.pop_ready(), None);
}

#[test]
fn a_corrupt_chunk_is_skipped_with_one_error() {
    let mut driver = active("s");
    for (index, payload) in [(0, "good"), (1, "corrupt"), (2, "fine"), (3, "fine too")] {
        driver.enqueue("s".to_string(), index, payload);
    }
    assert_eq!(driver.pop_ready(), Some((0, "good")));
    driver.chunk_appended(0, 1);
    assert_eq!(driver.pop_ready(), Some((1, "corrupt")));
    assert_eq!(driver.watermark(), 2);
    let errors = driver.chunk_rejected(1, "bad header");
    assert_eq!(
        brief(&errors),
        vec![(
            "s".to_string(),
            1,
            EventKind::Error,
            Some("Failed to decode WAV: bad header".to_string())
        )]
    );
    assert_eq!(driver.watermark(), 2);
    assert_eq!(driver.pop_ready(), Some((2, "fine")));
    assert_eq!(brief(&driver.chunk_appended(2, 2)), vec![plain("s", 2, EventKind::ChunkQueued)]);
    assert_eq!(driver.pop_ready(), Some((3, "fine too")));
    assert_eq!(driver.watermark(), 4);
}

#[test]
fn pause_and_resume_keep_the_place() {
    let mut driver = active("s");
    driver.enqueue("s".to_string(), 0, "zero");
    driver.enqueue("s".to_string(), 1, "one");
    driver.pop_ready();
    driver.chunk_appended(0, 1);
    let before = driver.status();
    assert_eq!(kinds(&driver.pause()), vec!["pause"]);
    assert!(driver.is_paused());
    assert_eq!(brief(&driver.tick(SinkSnapshot { len: 1, paused: true })), vec![]);
    assert_eq!(brief(&driver.tick(SinkSnapshot { len: 1, paused: true })), vec![]);
    assert_eq!(kinds(&driver.resume()), vec!["resume"]);
    assert!(!driver.is_paused());
    assert_eq!(driver.status(), before);
    assert_eq!(driver.watermark(), 1);
    assert_eq!(driver.pop_ready(), Some((1, "one")));
}

#[test]
fn pause_and_resume_without_a_sink_do_nothing() {
    let mut driver: PlaybackDriver<u8> = PlaybackDriver::new();
    assert_eq!(kinds(&driver.pause()), Vec::<&str>::new());
    assert!(!driver.is_paused());
    assert_eq!(kinds(&driver.resume()), Vec::<&str>::new());
    assert_eq!(kinds(&driver.stop()), Vec::<&str>::new());
}

#[test]
fn the_look_at_the_sink_sets_the_pause_flag() {
    let mut driver = active("s");
    driver.tick(SinkSnapshot { len: 0, paused: true });
    assert!(driver.is_paused());
    driver.tick(SinkSnapshot { len: 0, paused: false });
    assert!(!driver.is_paused());
}

#[test]
fn stop_drops_sink_queue_and_session() {
    let mut driver = active("s");
    driver.enqueue("s".to_string(), 0, "zero");
    driver.enqueue("s".to_string(), 1, "one");
    driver.pop_ready();
    driver.chunk_appended(0, 1);
    driver.tick(look(1));
    assert_eq!(kinds(&driver.stop()), vec!["stop"]);
    assert!(!driver.is_active());
    assert_eq!(driver.watermark(), 0);
    assert_eq!(
        driver.status(),
        PlaybackStatus { is_playing: false, is_paused: false, queued_count: 0, current_chunk: 0 }
    );
    assert_eq!(brief(&driver.enqueue("s".to_string(), 1, "late")), vec![]);
    assert_eq!(driver.pop_ready(), None);
    assert_eq!(brief(&driver.tick(look(3))), vec![]);
}

#[test]
fn stop_resets_the_index_of_the_current_chunk() {
    let mut driver = active("s");
    for index in 0..4 {
        driver.enqueue("s".to_string(), index, "chunk");
        driver.pop_ready();
        driver.chunk_appended(index, index + 1);
    }
    driver.tick(look(4));
    driver.tick(look(3));
    driver.tick(look(2));
    driver.tick(look(1));
    assert_eq!(driver.status().current_chunk, 3);
    assert_eq!(kinds(&driver.stop()), vec!["stop"]);
    assert_eq!(driver.status(), PlaybackStatus::default());
    assert_eq!(driver.status().current_chunk, 0);
    assert_eq!(driver.watermark(), 0);
    assert_eq!(kinds(&driver.stop()), Vec::<&str>::new());
    assert_eq!(driver.status(), PlaybackStatus::default());
}

#[test]
fn a_sink_that_cannot_be_opened_is_reported_and_the_driver_stays_usable() {
    let mut driver: PlaybackDriver<&'static str> = PlaybackDriver::new();
    driver.start_session("s".to_string());
    let events = driver.sink_failed("no device");
    assert_eq!(
        brief(&events),
        vec![(
            "s".to_string(),
            0,
            EventKind::Error,
            Some("Failed to create audio sink: no device".to_string())
        )]
    );
    assert!(!driver.is_active());
    assert_eq!(brief(&driver.enqueue("s".to_string(), 0, "zero")).len(), 1);
    assert_eq!(driver.pop_ready(), None);
    assert_eq!(kinds(&driver.start_session("t".to_string())), vec!["open"]);
    driver.sink_opened();
    assert!(driver.is_active());
    assert_eq!(kinds(&driver.stop()), vec!["stop"]);
}

#[test]
fn playback_picks_up_after_an_underrun() {
    let mut driver = active("s");
    driver.enqueue("s".to_string(), 0, "zero");
    driver.pop_ready();
    driver.chunk_appended(0, 1);
    driver.tick(look(1));
    assert_eq!(brief(&driver.tick(look(0))), vec![plain("s", 0, EventKind::ChunkFinished)]);
    assert!(!driver.is_playing());
    driver.enqueue("s".to_string(), 1, "one");
    assert_eq!(driver.pop_ready(), Some((1, "one")));
    let resumed = driver.chunk_appended(1, 1);
    assert_eq!(
        brief(&resumed),
        vec![plain("s", 1, EventKind::ChunkStarted), plain("s", 1, EventKind::ChunkQueued)]
    );
    assert!(driver.is_playing());
    assert_eq!(driver.status().queued_count, 1);
}

#[test]
fn commands_are_carried_out_as_their_methods_are() {
    let mut driver: PlaybackDriver<&'static str> = PlaybackDriver::new();
    let opened = driver.handle_command(PlaybackCmd::StartSession { session_id: "s".to_string() });
    assert_eq!(kinds(&opened), vec!["open"]);
    driver.sink_opened();
    let ready = driver.handle_command(PlaybackCmd::EnqueueChunk {
        session_id: "s".to_string(),
        chunk_index: 0,
        payload: "zero",
    });
    assert_eq!(ready.len(), 1);
    match &ready[0] {
        DriverAction::Emit(event) => {
            assert_eq!(event.event, EventKind::ChunkReady);
            assert_eq!(event.chunk_index, 0);
            assert_eq!(event.session_id, "s");
            assert_eq!(event.message, None);
        }
        other => panic!("unexpected action {:?}", other),
    }
    let stale = driver.handle_command(PlaybackCmd::EnqueueChunk {
        session_id: "old".to_string(),
        chunk_index: 1,
        payload: "stale",
    });
    assert!(stale.is_empty());
    assert_eq!(kinds(&driver.handle_command(PlaybackCmd::Pause)), vec!["pause"]);
    assert_eq!(kinds(&driver.handle_command(PlaybackCmd::Resume)), vec!["resume"]);
    assert_eq!(kinds(&driver.handle_command(PlaybackCmd::Stop)), vec!["stop"]);
    assert!(!driver.is_active());
}

#[test]
fn reports_of_chunks_reach_no_driver_without_session() {
    let mut driver: PlaybackDriver<u8> = PlaybackDriver::new();
    assert_eq!(brief(&driver.chunk_appended(0, 1)), vec![]);
    assert_eq!(brief(&driver.chunk_rejected(0, "bad")), vec![]);
    assert_eq!(driver.status(), PlaybackStatus::default());
}

#[test]
fn a_fresh_status_is_idle() {
    assert_eq!(
        PlaybackStatus::default(),
        PlaybackStatus { is_playing: false, is_paused: false, queued_count: 0, current_chunk: 0 }
    );
}
