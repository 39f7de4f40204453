use kokoro_reader::kokoro::{KokoroTTS, TTSError};
use kokoro_reader::piper::{get_voice_download_url, PiperError, PiperVoice, PIPER_SAMPLE_RATE};
use kokoro_reader::tts::{TTSEngine, Voice};

#[test]
fn the_default_voice_is_ryan() {
    let voice = Voice::default_voice();
    assert_eq!(voice.id, "ryan");
    assert_eq!(voice.name, "Ryan (Deep Male)");
    assert_eq!(voice.language, "en");
}

#[test]
fn six_voices_are_on_offer() {
    let voices = Voice::get_voices();
    let ids: Vec<&str> = voices.iter().map(|v| v.id.as_str()).collect();
    assert_eq!(ids, vec!["ryan", "eric", "dylan", "aiden", "serena", "vivian"]);
    let names: Vec<&str> = voices.iter().map(|v| v.name.as_str()).collect();
    assert_eq!(
        names,
        vec![
            "Ryan (Deep Male)",
            "Eric (Male)",
            "Dylan (Male)",
            "Aiden (Young Male)",
            "Serena (Female)",
            "Vivian (Female)"
        ]
    );
    assert!(voices.iter().all(|v| v.language == "en"));
}

#[test]
fn engines_have_names_and_a_default() {
    assert_eq!(TTSEngine::default(), TTSEngine::Qwen3TTS);
    assert_eq!(TTSEngine::Chatterbox.name(), "Chatterbox");
    assert_eq!(TTSEngine::Qwen3TTS.name(), "Qwen3TTS");
    assert_eq!(TTSEngine::Echo.name(), "Echo");
}

#[test]
fn kokoro_has_eleven_voices() {
    let voices = KokoroTTS::get_voices();
    assert_eq!(voices.len(), 11);
    let ids: Vec<&str> = voices.iter().map(|v| v.id.as_str()).collect();
    assert_eq!(
        ids,
        vec![
            "af_heart", "af_bella", "af_nova", "af_sky", "am_adam", "am_echo", "am_michael",
            "bf_alice", "bf_emma", "bm_daniel", "bm_george"
        ]
    );
    assert_eq!(voices[0].name, "Heart");
    assert_eq!(voices[0].gender, "female");
    assert_eq!(voices[0].accent, "american");
    assert_eq!(voices[6].name, "Michael");
    assert_eq!(voices[6].gender, "male");
    assert_eq!(voices[10].name, "George");
    assert_eq!(voices[10].accent, "british");
    assert_eq!(voices.iter().filter(|v| v.gender == "female").count(), 6);
    assert_eq!(voices.iter().filter(|v| v.accent == "british").count(), 4);
}

#[test]
fn kokoro_loads_a_model_that_is_there() {
    let mut engine = KokoroTTS::new();
    assert!(!engine.is_initialized());
    assert_eq!(engine.sample_rate(), 24000);
    assert_eq!(KokoroTTS::model_file(), "model_q8f16.onnx");
    assert!(engine.load_model("/models", true).is_ok());
    assert!(engine.is_initialized());
}

#[test]
fn kokoro_reports_a_model_that_is_missing() {
    let expected = std::path::Path::new("/models")
        .join("model_q8f16.onnx")
        .to_string_lossy()
        .into_owned();
    assert_eq!(KokoroTTS::model_path("/models"), expected);
    let mut engine = KokoroTTS::new();
    match engine.load_model("/models", false) {
        Err(TTSError::ModelNotFound(path)) => assert_eq!(path, expected),
        other => panic!("unexpected outcome {:?}", other),
    }
    assert!(!engine.is_initialized());
}

#[test]
fn kokoro_errors_say_what_failed() {
    assert_eq!(
        TTSError::OrtError("a".to_string()).message(),
        "Failed to initialize ONNX runtime: a"
    );
    assert_eq!(TTSError::ModelNotFound("b".to_string()).message(), "Model not found at path: b");
    assert_eq!(TTSError::GenerationError("c".to_string()).message(), "Failed to generate audio: c");
    assert_eq!(TTSError::InvalidInput("d".to_string()).message(), "Invalid input: d");
}

#[test]
fn piper_ships_four_voices() {
    let voices = PiperVoice::available_voices();
    assert_eq!(voices.len(), 4);
    assert_eq!(voices[0].id, "en_US-amy-medium");
    assert_eq!(voices[0].name, "Amy");
    assert_eq!(voices[0].language, "en-US");
    assert_eq!(voices[0].quality, "medium");
    assert_eq!(voices[0].model_file, "en_US-amy-medium.onnx");
    assert_eq!(voices[1].id, "en_US-lessac-medium");
    assert_eq!(voices[1].name, "Lessac");
    assert_eq!(voices[2].id, "en_GB-alba-medium");
    assert_eq!(voices[2].name, "Alba (British)");
    assert_eq!(voices[2].language, "en-GB");
    assert_eq!(voices[2].model_file, "en_GB-alba-medium.onnx");
    assert_eq!(voices[3].id, "en_US-ryan-medium");
    assert_eq!(voices[3].name, "Ryan");
    assert_eq!(voices[3].model_file, "en_US-ryan-medium.onnx");
    assert_eq!(PIPER_SAMPLE_RATE, 22050);
}

#[test]
fn piper_voices_are_fetched_from_their_directories() {
    let base = "https://huggingface.co/rhasspy/piper-voices/resolve/main";
    assert_eq!(
        get_voice_download_url("en_US-amy-medium"),
        Some((
            format!("{}/en/en_US/amy/medium/en_US-amy-medium.onnx", base),
            format!("{}/en/en_US/amy/medium/en_US-amy-medium.onnx.json", base)
        ))
    );
    assert_eq!(
        get_voice_download_url("en_US-lessac-medium"),
        Some((
            format!("{}/en/en_US/lessac/medium/en_US-lessac-medium.onnx", base),
            format!("{}/en/en_US/lessac/medium/en_US-lessac-medium.onnx.json", base)
        ))
    );
    assert_eq!(
        get_voice_download_url("en_GB-alba-medium"),
        Some((
            format!("{}/en/en_GB/alba/medium/en_GB-alba-medium.onnx", base),
            format!("{}/en/en_GB/alba/medium/en_GB-alba-medium.onnx.json", base)
        ))
    );
    assert_eq!(
        get_voice_download_url("en_US-ryan-medium"),
        Some((
            format!("{}/en/en_US/ryan/medium/en_US-ryan-medium.onnx", base),
            format!("{}/en/en_US/ryan/medium/en_US-ryan-medium.onnx.json", base)
        ))
    );
}

#[test]
fn an_unknown_piper_voice_has_no_address() {
    assert_eq!(get_voice_download_url("en_US-amy-high"), None);
    assert_eq!(get_voice_download_url(""), None);
    assert_eq!(get_voice_download_url("EN_US-AMY-MEDIUM"), None);
}

#[test]
fn piper_errors_say_what_failed() {
    assert_eq!(PiperError::ModelNotFound("a".to_string()).message(), "Model not found: a");
    assert_eq!(PiperError::InitError("b".to_string()).message(), "Failed to initialize Piper: b");
    assert_eq!(
        PiperError::SynthesisError("c".to_string()).message(),
        "Failed to synthesize speech: c"
    );
    assert_eq!(PiperError::InvalidVoice("d".to_string()).message(), "Invalid voice: d");
    assert_eq!(PiperError::IoError("e".to_string()).message(), "IO error: e");
}

#[test]
fn a_piper_voice_is_found_by_its_identifier() {
    let voice = PiperVoice::find("en_GB-alba-medium").unwrap();
    assert_eq!(voice.name, "Alba (British)");
    assert_eq!(voice.model_file, "en_GB-alba-medium.onnx");
    match PiperVoice::find("en_US-nobody-medium") {
        Err(PiperError::InvalidVoice(id)) => assert_eq!(id, "en_US-nobody-medium"),
        other => panic!("unexpected outcome {:?}", other),
    }
    assert!(PiperVoice::find("").is_err());
}

#[test]
fn the_files_of_a_piper_voice_lie_in_the_model_directory() {
    let below = |rest: &str| {
        std::path::Path::new("/voices").join(rest).to_string_lossy().into_owned()
    };
    let voice = PiperVoice::find("en_US-amy-medium").unwrap();
    assert_eq!(voice.model_path("/voices"), below("en_US-amy-medium.onnx"));
    assert_eq!(voice.config_path("/voices"), below("en_US-amy-medium.json"));
    let mut odd = voice.clone();
    odd.model_file = "a.onnx.onnx".to_string();
    assert_eq!(odd.config_path("/voices"), below("a.json"));
    odd.model_file = "model.bin".to_string();
    assert_eq!(odd.config_path("/voices"), below("model.bin.json"));
    odd.model_file = ".onnx".to_string();
    assert_eq!(odd.config_path("/voices"), below(".json"));
    for name in ["x.onnx", "onnx", "x.onnxx", "", ".onnx.onnx.onn", "é.onnx"] {
        odd.model_file = name.to_string();
        assert_eq!(
            odd.config_path("/voices"),
            below(&format!("{}.json", name.trim_end_matches(".onnx")))
        );
    }
}
