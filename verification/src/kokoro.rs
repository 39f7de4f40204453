//! The Kokoro engine as far as the library decides about it: its errors,
//! its voices, whether a model is loaded, and the cutting of text.

use crate::chatterbox::chunks_of;
use crate::text::{glue, join_path, path_joined};
use vstd::prelude::*;
use vstd::string::*;

verus! {

/// What can go wrong with the Kokoro engine.
#[derive(Debug)]
pub enum TTSError {
    OrtError(String),
    ModelNotFound(String),
    GenerationError(String),
    InvalidInput(String),
}

impl TTSError {
    /// The message of the error.
    pub open spec fn text(&self) -> Seq<char> {
        match self {
            TTSError::OrtError(detail) => "Failed to initialize ONNX runtime: "@ + detail@,
            TTSError::ModelNotFound(detail) => "Model not found at path: "@ + detail@,
            TTSError::GenerationError(detail) => "Failed to generate audio: "@ + detail@,
            TTSError::InvalidInput(detail) => "Invalid input: "@ + detail@,
        }
    }

    /// The message of the error.
    pub fn message(&self) -> (message: String)
        ensures
            message@ == self.text(),
    {
        match self {
            TTSError::OrtError(detail) => glue(
                "Failed to initialize ONNX runtime: ",
                detail.as_str(),
            ),
            TTSError::ModelNotFound(detail) => glue("Model not found at path: ", detail.as_str()),
            TTSError::GenerationError(detail) => glue(
                "Failed to generate audio: ",
                detail.as_str(),
            ),
            TTSError::InvalidInput(detail) => glue("Invalid input: ", detail.as_str()),
        }
    }
}

/// A Kokoro voice.
#[derive(Debug, Clone)]
pub struct Voice {
    pub id: String,
    pub name: String,
    pub gender: String,
    pub accent: String,
}

/// A Kokoro voice as plain values.
pub struct VoiceView {
    pub id: Seq<char>,
    pub name: Seq<char>,
    pub gender: Seq<char>,
    pub accent: Seq<char>,
}

impl View for Voice {
    type V = VoiceView;

    open spec fn view(&self) -> VoiceView {
        VoiceView { id: self.id@, name: self.name@, gender: self.gender@, accent: self.accent@ }
    }
}

impl DeepView for Voice {
    type V = VoiceView;

    open spec fn deep_view(&self) -> VoiceView {
        self@
    }
}

/// The voice `id` shown as `name`.
pub open spec fn voice(id: Seq<char>, name: Seq<char>, gender: Seq<char>, accent: Seq<char>)
    -> VoiceView {
    VoiceView { id, name, gender, accent }
}

/// The voices of the Kokoro model.
pub open spec fn voices() -> Seq<VoiceView> {
    seq![
        voice("af_heart"@, "Heart"@, "female"@, "american"@),
        voice("af_bella"@, "Bella"@, "female"@, "american"@),
        voice("af_nova"@, "Nova"@, "female"@, "american"@),
        voice("af_sky"@, "Sky"@, "female"@, "american"@),
        voice("am_adam"@, "Adam"@, "male"@, "american"@),
        voice("am_echo"@, "Echo"@, "male"@, "american"@),
        voice("am_michael"@, "Michael"@, "male"@, "american"@),
        voice("bf_alice"@, "Alice"@, "female"@, "british"@),
        voice("bf_emma"@, "Emma"@, "female"@, "british"@),
        voice("bm_daniel"@, "Daniel"@, "male"@, "british"@),
        voice("bm_george"@, "George"@, "male"@, "british"@),
    ]
}

fn make_voice(id: &str, name: &str, gender: &str, accent: &str) -> (made: Voice)
    ensures
        made@ == voice(id@, name@, gender@, accent@),
{
    Voice {
        id: String::from_str(id),
        name: String::from_str(name),
        gender: String::from_str(gender),
        accent: String::from_str(accent),
    }
}

/// The sample rate of the Kokoro model.
pub const KOKORO_SAMPLE_RATE: u32 = 24000;

/// The Kokoro engine: where its model lies and whether it is loaded.
pub struct KokoroTTS {
    model_dir: String,
    sample_rate: u32,
    initialized: bool,
}

/// The engine as plain values.
pub struct KokoroView {
    pub model_dir: Seq<char>,
    pub sample_rate: u32,
    pub initialized: bool,
}

impl View for KokoroTTS {
    type V = KokoroView;

    closed spec fn view(&self) -> KokoroView {
        KokoroView {
            model_dir: self.model_dir@,
            sample_rate: self.sample_rate,
            initialized: self.initialized,
        }
    }
}

impl KokoroTTS {
    /// The name of the model file within the model directory.
    pub fn model_file() -> (name: &'static str)
        ensures
            name@ == "model_q8f16.onnx"@,
    {
        "model_q8f16.onnx"
    }

    /// An engine without a model.
    pub fn new() -> (engine: Self)
        ensures
            engine@ == (KokoroView {
                model_dir: Seq::empty(),
                sample_rate: KOKORO_SAMPLE_RATE,
                initialized: false,
            }),
    {
        KokoroTTS { model_dir: String::new(), sample_rate: KOKORO_SAMPLE_RATE, initialized: false }
    }

    /// The path of the model file in the directory `model_dir`.
    pub fn model_path(model_dir: &str) -> (path: String)
        ensures
            path@ == path_joined(model_dir@, "model_q8f16.onnx"@),
    {
        join_path(model_dir, "model_q8f16.onnx")
    }

    /// Takes the model in `model_dir` into use. The caller looks whether
    /// the model file is on disk and says so in `found`. Where it is not,
    /// the engine stays as it is and the path of the file is reported.
    pub fn load_model(&mut self, model_dir: &str, found: bool) -> (loaded: Result<(), TTSError>)
        ensures
            found ==> loaded is Ok && final(self)@ == (KokoroView {
                model_dir: model_dir@,
                initialized: true,
                ..old(self)@
            }),
            !found ==> final(self)@ == old(self)@ && (loaded matches Err(
                TTSError::ModelNotFound(path),
            ) && path@ == path_joined(model_dir@, "model_q8f16.onnx"@)),
    {
        if !found {
            return Err(TTSError::ModelNotFound(Self::model_path(model_dir)));
        }
        self.model_dir = String::from_str(model_dir);
        self.initialized = true;
        Ok(())
    }

    /// Whether a model is loaded.
    pub fn is_initialized(&self) -> (yes: bool)
        ensures
            yes == self@.initialized,
    {
        self.initialized
    }

    /// The sample rate of the engine.
    pub fn sample_rate(&self) -> (rate: u32)
        ensures
            rate == self@.sample_rate,
    {
        self.sample_rate
    }

    /// Cuts `text` into chunks of whole sentences of at most `max_chars`
    /// bytes, where a single sentence allows it.
    pub fn split_into_chunks(text: &str, max_chars: usize) -> (chunks: Vec<String>)
        ensures
            chunks.deep_view() == chunks_of(text@, max_chars),
    {
        crate::chatterbox::split_into_chunks(text, max_chars)
    }

    /// The voices of the Kokoro model.
    pub fn get_voices() -> (list: Vec<Voice>)
        ensures
            list.deep_view() == voices(),
    {
        let mut list: Vec<Voice> = Vec::new();
        list.push(make_voice("af_heart", "Heart", "female", "american"));
        list.push(make_voice("af_bella", "Bella", "female", "american"));
        list.push(make_voice("af_nova", "Nova", "female", "american"));
        list.push(make_voice("af_sky", "Sky", "female", "american"));
        list.push(make_voice("am_adam", "Adam", "male", "american"));
        list.push(make_voice("am_echo", "Echo", "male", "american"));
        list.push(make_voice("am_michael", "Michael", "male", "american"));
        list.push(make_voice("bf_alice", "Alice", "female", "british"));
        list.push(make_voice("bf_emma", "Emma", "female", "british"));
        list.push(make_voice("bm_daniel", "Daniel", "male", "british"));
        list.push(make_voice("bm_george", "George", "male", "british"));
        assert(list.deep_view() =~= voices());
        list
    }
}

} // verus!
