use kokoro_reader::echo_tts::{EchoError, EngineSlot, DEFAULT_SAMPLE_RATE};

#[test]
fn an_empty_slot_is_not_initialized() {
    let mut slot: EngineSlot<&'static str> = EngineSlot::new();
    assert!(slot.needs_engine());
    assert!(!slot.is_initialized());
    assert!(matches!(slot.checkout(), Err(EchoError::NotInitialized)));
}

#[test]
fn the_engine_serves_one_stream_at_a_time() {
    let mut slot = EngineSlot::new();
    assert_eq!(slot.install("engine"), None);
    assert!(slot.is_initialized());
    assert!(!slot.needs_engine());
    assert!(matches!(slot.checkout(), Ok("engine")));
    assert!(matches!(slot.checkout(), Err(EchoError::Busy)));
    assert!(slot.is_initialized());
    assert!(!slot.needs_engine());
    slot.give_back("engine");
    assert!(matches!(slot.checkout(), Ok("engine")));
}

#[test]
fn shutdown_forgets_the_engine() {
    let mut slot = EngineSlot::new();
    slot.install(1);
    assert_eq!(slot.shutdown(), Some(1));
    assert!(!slot.is_initialized());
    assert!(slot.needs_engine());
    assert!(matches!(slot.checkout(), Err(EchoError::NotInitialized)));
    assert_eq!(slot.shutdown(), None);
}

#[test]
fn an_engine_that_comes_back_after_shutdown_can_be_used() {
    let mut slot = EngineSlot::new();
    slot.install(1);
    let engine = slot.checkout().unwrap();
    assert_eq!(slot.shutdown(), None);
    slot.give_back(engine);
    assert!(!slot.is_initialized());
    assert!(matches!(slot.checkout(), Ok(1)));
}

#[test]
fn installing_twice_hands_out_the_first_engine() {
    let mut slot = EngineSlot::new();
    slot.install(1);
    assert_eq!(slot.install(2), Some(1));
    assert!(matches!(slot.checkout(), Ok(2)));
}

#[test]
fn engine_errors_say_what_failed() {
    assert_eq!(
        EchoError::InitError("no model".to_string()).message(),
        "Echo initialization failed: no model"
    );
    assert_eq!(EchoError::NotInitialized.message(), "Echo not initialized");
    assert_eq!(EchoError::GenerationError("oom".to_string()).message(), "Generation error: oom");
    assert_eq!(
        EchoError::Busy.message(),
        "Echo engine is busy (being used by another stream)"
    );
    assert_eq!(DEFAULT_SAMPLE_RATE, 24000);
}
