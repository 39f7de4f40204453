use kokoro_reader::chatterbox::{
    decoded_audio, wav_to_samples, ChatterboxError, ChatterboxResult, ChatterboxTTS, TtsReply,
    WarmupPlan,
};
use kokoro_reader::tts::TTSEngine;
use kokoro_reader::python_bridge::{decoded_bytes, wav_bytes, PythonTTSError};
use kokoro_reader::wav::{decode_pcm16, encode_pcm16, WavError, HEADER_LEN};

const THREE_SAMPLES: [u8; 50] = [
    82, 73, 70, 70, 42, 0, 0, 0, 87, 65, 86, 69, 102, 109, 116, 32, 16, 0, 0, 0, 1, 0, 1, 0, 192,
    93, 0, 0, 128, 187, 0, 0, 2, 0, 16, 0, 100, 97, 116, 97, 6, 0, 0, 0, 1, 0, 254, 255, 44, 1,
];

const THREE_SAMPLES_BASE64: &str =
    "UklGRioAAABXQVZFZm10IBAAAAABAAEAwF0AAIC7AAACABAAZGF0YQYAAAABAP7/LAE=";

const NO_SAMPLES_BASE64: &str = "UklGRiQAAABXQVZFZm10IBAAAAABAAEAwF0AAIC7AAACABAAZGF0YQAAAAA=";

const NOT_A_WAV_BASE64: &str =
    "aGVsbG8gd29ybGQsIHRoaXMgaXMgbm90IGEgd2F2IGZpbGUgYXQgYWxsLCBidXQgaXQgaXMgbG9uZw==";

fn reply(status: &str, audio: Option<&str>) -> TtsReply {
    TtsReply {
        status: status.to_string(),
        action: "generate".to_string(),
        audio: audio.map(|a| a.to_string()),
        sample_rate: None,
        error: None,
        device: None,
        model_loaded: None,
    }
}

#[test]
fn samples_are_written_low_byte_first_behind_the_header() {
    assert_eq!(encode_pcm16(&vec![1, -2, 300], 24000), THREE_SAMPLES.to_vec());
    assert_eq!(HEADER_LEN, 44);
}

#[test]
fn the_extremes_are_written_as_they_are() {
    let bytes = encode_pcm16(&vec![0, 32767, -32768, -1], 8000);
    assert_eq!(bytes.len(), 52);
    assert_eq!(&bytes[4..8], &[44, 0, 0, 0]);
    assert_eq!(&bytes[24..28], &[0x40, 0x1f, 0, 0]);
    assert_eq!(&bytes[28..32], &[0x80, 0x3e, 0, 0]);
    assert_eq!(&bytes[40..44], &[8, 0, 0, 0]);
    assert_eq!(&bytes[44..], &[0, 0, 0xff, 0x7f, 0, 0x80, 0xff, 0xff]);
}

#[test]
fn what_is_written_reads_back() {
    let samples: Vec<i16> = vec![0, 1, -1, 255, 256, -256, 32767, -32768, 12345, -12345];
    assert_eq!(decode_pcm16(&encode_pcm16(&samples, 24000)), Ok(samples));
    assert_eq!(decode_pcm16(&THREE_SAMPLES), Ok(vec![1, -2, 300]));
}

#[test]
fn a_file_without_samples_has_no_data_chunk_that_counts() {
    let bytes = encode_pcm16(&vec![], 24000);
    assert_eq!(bytes.len(), 44);
    assert_eq!(decode_pcm16(&bytes), Err(WavError::NoData));
}

#[test]
fn short_bytes_are_no_wav_file() {
    assert_eq!(decode_pcm16(&[]), Err(WavError::TooShort));
    assert_eq!(decode_pcm16(&THREE_SAMPLES[..43]), Err(WavError::TooShort));
}

#[test]
fn a_wrong_heading_is_no_wav_file() {
    let mut riff = THREE_SAMPLES;
    riff[0] = b'r';
    assert_eq!(decode_pcm16(&riff), Err(WavError::BadHeader));
    let mut wave = THREE_SAMPLES;
    wave[11] = b'e';
    assert_eq!(decode_pcm16(&wave), Err(WavError::BadHeader));
}

#[test]
fn other_chunks_are_passed_over_and_odd_ones_padded() {
    let bytes: Vec<u8> = vec![
        82, 73, 70, 70, 0, 0, 0, 0, 87, 65, 86, 69, 102, 109, 116, 32, 16, 0, 0, 0, 1, 0, 1, 0,
        64, 31, 0, 0, 128, 62, 0, 0, 2, 0, 16, 0, 76, 73, 83, 84, 3, 0, 0, 0, 97, 98, 99, 0, 100,
        97, 116, 97, 100, 0, 0, 0, 5, 0, 251, 255, 9,
    ];
    assert_eq!(decode_pcm16(&bytes), Ok(vec![5, -5]));
}

#[test]
fn a_file_without_data_chunk_is_reported() {
    let mut bytes = THREE_SAMPLES.to_vec();
    bytes[36] = b'D';
    assert_eq!(decode_pcm16(&bytes), Err(WavError::NoData));
}

#[test]
fn complaints_about_a_wav_file_are_invalid_responses() {
    match wav_to_samples(&[1, 2, 3]) {
        Err(ChatterboxError::InvalidResponse(complaint)) => {
            assert_eq!(complaint, "WAV data too short")
        }
        other => panic!("unexpected outcome {:?}", other),
    }
    let mut riff = THREE_SAMPLES;
    riff[1] = 0;
    match wav_to_samples(&riff) {
        Err(ChatterboxError::InvalidResponse(complaint)) => {
            assert_eq!(complaint, "Invalid WAV header")
        }
        other => panic!("unexpected outcome {:?}", other),
    }
    match wav_to_samples(&THREE_SAMPLES[..44]) {
        Err(ChatterboxError::InvalidResponse(complaint)) => {
            assert_eq!(complaint, "No data chunk in WAV")
        }
        other => panic!("unexpected outcome {:?}", other),
    }
    assert_eq!(wav_to_samples(&THREE_SAMPLES).unwrap(), vec![1, -2, 300]);
}

#[test]
fn a_result_writes_itself_as_wav() {
    let result = ChatterboxResult { audio: vec![1, -2, 300], sample_rate: 24000 };
    assert_eq!(result.to_wav(), THREE_SAMPLES.to_vec());
}

#[test]
fn the_audio_of_a_reply_is_decoded() {
    let audio = reply("ok", Some(THREE_SAMPLES_BASE64)).audio().unwrap();
    assert_eq!(audio.audio, vec![1, -2, 300]);
    assert_eq!(audio.sample_rate, 24000);
    let mut named = reply("ok", Some(THREE_SAMPLES_BASE64));
    named.sample_rate = Some(22050);
    assert_eq!(named.audio().unwrap().sample_rate, 22050);
    assert_eq!(named.rate(), 22050);
}

#[test]
fn a_failed_request_reports_the_error_named() {
    let mut failed = reply("error", Some(THREE_SAMPLES_BASE64));
    match failed.audio() {
        Err(ChatterboxError::GenerationError(detail)) => assert_eq!(detail, "Unknown error"),
        other => panic!("unexpected outcome {:?}", other),
    }
    failed.error = Some("model crashed".to_string());
    match failed.audio() {
        Err(ChatterboxError::GenerationError(detail)) => assert_eq!(detail, "model crashed"),
        other => panic!("unexpected outcome {:?}", other),
    }
    match wav_bytes(&failed) {
        Err(PythonTTSError::GenerationError(detail)) => assert_eq!(detail, "model crashed"),
        other => panic!("unexpected outcome {:?}", other),
    }
}

#[test]
fn a_reply_without_audio_is_invalid() {
    match reply("ok", None).audio() {
        Err(ChatterboxError::InvalidResponse(detail)) => assert_eq!(detail, "No audio in response"),
        other => panic!("unexpected outcome {:?}", other),
    }
    match wav_bytes(&reply("ok", None)) {
        Err(PythonTTSError::InvalidResponse(detail)) => assert_eq!(detail, "No audio in response"),
        other => panic!("unexpected outcome {:?}", other),
    }
}

#[test]
fn audio_that_is_no_base64_is_invalid() {
    match reply("ok", Some("not base64!")).audio() {
        Err(ChatterboxError::InvalidResponse(detail)) => {
            assert!(detail.starts_with("Base64 decode error: "));
            assert!(detail.len() > "Base64 decode error: ".len());
        }
        other => panic!("unexpected outcome {:?}", other),
    }
    match wav_bytes(&reply("ok", Some("not base64!"))) {
        Err(PythonTTSError::InvalidResponse(detail)) => {
            assert!(detail.starts_with("Base64 decode error: "))
        }
        other => panic!("unexpected outcome {:?}", other),
    }
}

#[test]
fn audio_that_is_no_wav_is_invalid() {
    match reply("ok", Some(NOT_A_WAV_BASE64)).audio() {
        Err(ChatterboxError::InvalidResponse(detail)) => assert_eq!(detail, "Invalid WAV header"),
        other => panic!("unexpected outcome {:?}", other),
    }
    match reply("ok", Some(NO_SAMPLES_BASE64)).audio() {
        Err(ChatterboxError::InvalidResponse(detail)) => assert_eq!(detail, "No data chunk in WAV"),
        other => panic!("unexpected outcome {:?}", other),
    }
    match reply("ok", Some("")).audio() {
        Err(ChatterboxError::InvalidResponse(detail)) => assert_eq!(detail, "WAV data too short"),
        other => panic!("unexpected outcome {:?}", other),
    }
}

#[test]
fn the_python_sidecar_hands_on_the_wav_bytes() {
    assert_eq!(
        wav_bytes(&reply("ok", Some(THREE_SAMPLES_BASE64))).unwrap(),
        THREE_SAMPLES.to_vec()
    );
    assert_eq!(decoded_bytes(Ok(vec![1, 2, 3])).unwrap(), vec![1, 2, 3]);
    match decoded_bytes(Err("Invalid padding".to_string())) {
        Err(PythonTTSError::InvalidResponse(detail)) => {
            assert_eq!(detail, "Base64 decode error: Invalid padding")
        }
        other => panic!("unexpected outcome {:?}", other),
    }
}

#[test]
fn the_outcome_of_the_decoder_is_turned_into_audio() {
    let audio = decoded_audio(Ok(THREE_SAMPLES.to_vec()), Some(16000)).unwrap();
    assert_eq!(audio.audio, vec![1, -2, 300]);
    assert_eq!(audio.sample_rate, 16000);
    match decoded_audio(Err("Invalid padding".to_string()), None) {
        Err(ChatterboxError::InvalidResponse(detail)) => {
            assert_eq!(detail, "Base64 decode error: Invalid padding")
        }
        other => panic!("unexpected outcome {:?}", other),
    }
}

#[test]
fn the_sidecar_signals_that_it_is_up() {
    let mut up = reply("ok", None);
    up.action = "ready".to_string();
    assert!(up.expect_ready().is_ok());
    assert!(up.is_ok());
    match reply("ok", None).expect_ready() {
        Err(ChatterboxError::SpawnError(detail)) => {
            assert_eq!(detail, "TTS server did not signal ready")
        }
        other => panic!("unexpected outcome {:?}", other),
    }
    let mut down = reply("error", None);
    down.action = "ready".to_string();
    assert!(down.expect_ready().is_err());
    assert!(!down.is_ok());
}

#[test]
fn the_sidecar_names_its_device() {
    let mut loaded = reply("ok", None);
    assert_eq!(loaded.device("mps").unwrap(), "mps");
    loaded.device = Some("cuda".to_string());
    assert_eq!(loaded.device("mps").unwrap(), "cuda");
    let mut failed = reply("error", None);
    failed.device = Some("cuda".to_string());
    match failed.device("mps") {
        Err(ChatterboxError::GenerationError(detail)) => assert_eq!(detail, "Unknown error"),
        other => panic!("unexpected outcome {:?}", other),
    }
    match failed.expect_ok("Warmup failed") {
        Err(ChatterboxError::GenerationError(detail)) => assert_eq!(detail, "Warmup failed"),
        other => panic!("unexpected outcome {:?}", other),
    }
    assert!(loaded.expect_ok("Warmup failed").is_ok());
}

#[test]
fn the_sidecar_says_whether_its_model_is_loaded() {
    let mut answer = reply("ok", None);
    assert!(!answer.model_is_loaded());
    answer.model_loaded = Some(false);
    assert!(!answer.model_is_loaded());
    answer.model_loaded = Some(true);
    assert!(answer.model_is_loaded());
    assert_eq!(answer.rate(), 24000);
}

#[test]
fn sidecar_errors_say_what_failed() {
    assert_eq!(
        ChatterboxError::SpawnError("a".to_string()).message(),
        "Failed to spawn TTS process: a"
    );
    assert_eq!(ChatterboxError::ProcessNotRunning.message(), "TTS process not running");
    assert_eq!(
        ChatterboxError::CommunicationError("b".to_string()).message(),
        "Failed to communicate with TTS: b"
    );
    assert_eq!(
        ChatterboxError::GenerationError("c".to_string()).message(),
        "TTS generation failed: c"
    );
    assert_eq!(
        ChatterboxError::InvalidResponse("d".to_string()).message(),
        "Invalid response from TTS: d"
    );
    assert_eq!(ChatterboxError::SidecarNotFound("e".to_string()).message(), "Sidecar not found: e");
    assert_eq!(
        PythonTTSError::SpawnError("a".to_string()).message(),
        "Failed to spawn Python process: a"
    );
    assert_eq!(PythonTTSError::ProcessNotRunning.message(), "Python process not running");
    assert_eq!(
        PythonTTSError::CommunicationError("b".to_string()).message(),
        "Failed to communicate with Python: b"
    );
    assert_eq!(PythonTTSError::GenerationError("c".to_string()).message(), "TTS generation failed: c");
    assert_eq!(
        PythonTTSError::InvalidResponse("d".to_string()).message(),
        "Invalid response from Python: d"
    );
}

#[test]
fn a_sidecar_is_started_loaded_and_shut_down() {
    let mut tts = ChatterboxTTS::new(TTSEngine::Qwen3TTS);
    assert!(tts.needs_start());
    assert!(!tts.is_initialized());
    assert!(matches!(tts.generate(), Err(ChatterboxError::ProcessNotRunning)));
    assert_eq!(tts.warmup(), WarmupPlan::InitFirst);
    tts.spawned();
    assert!(!tts.needs_start());
    assert!(tts.init_model(&reply("error", None)).is_err());
    assert!(!tts.is_initialized());
    assert_eq!(tts.init_model(&reply("ok", None)).unwrap(), "mps");
    assert!(tts.is_initialized());
    assert!(tts.generate().is_ok());
    assert_eq!(tts.warmup(), WarmupPlan::Warm);
    tts.shutdown();
    assert!(tts.needs_start());
    assert!(!tts.is_initialized());
    tts.set_engine(TTSEngine::Chatterbox);
    assert_eq!(tts.warmup(), WarmupPlan::Skip);
}

#[test]
fn sidecars_are_named_after_engine_and_platform() {
    let chatterbox = ChatterboxTTS::new(TTSEngine::Chatterbox);
    assert_eq!(chatterbox.script_name(true), Some("chatterbox_tts.py"));
    assert_eq!(chatterbox.script_name(false), Some("chatterbox_tts.py"));
    assert_eq!(
        chatterbox.sidecar_name(false, "-x86_64-unknown-linux-gnu"),
        Some("chatterbox-tts-x86_64-unknown-linux-gnu".to_string())
    );
    let qwen = ChatterboxTTS::new(TTSEngine::Qwen3TTS);
    assert_eq!(qwen.script_name(true), Some("qwen3_tts.py"));
    assert_eq!(qwen.script_name(false), Some("qwen3_tts_cuda.py"));
    assert_eq!(
        qwen.sidecar_name(true, "-aarch64-apple-darwin"),
        Some("qwen3-tts-aarch64-apple-darwin".to_string())
    );
    assert_eq!(
        qwen.sidecar_name(false, "-x86_64-pc-windows-msvc.exe"),
        Some("qwen3-tts-cuda-x86_64-pc-windows-msvc.exe".to_string())
    );
    let echo = ChatterboxTTS::new(TTSEngine::Echo);
    assert_eq!(echo.script_name(true), None);
    assert_eq!(echo.sidecar_name(true, ""), None);
}
