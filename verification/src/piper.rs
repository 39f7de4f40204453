//! The Piper engine as far as the library decides about it: its errors,
//! the voices it ships with, and where each voice is fetched from.

use crate::text::{
    chars_of, glue, join_path, path_joined, same_text, suffix_start, text_of, without_suffix,
};
use vstd::prelude::*;
use vstd::string::*;

verus! {

/// What can go wrong with the Piper engine.
#[derive(Debug)]
pub enum PiperError {
    ModelNotFound(String),
    InitError(String),
    SynthesisError(String),
    InvalidVoice(String),
    IoError(String),
}

impl PiperError {
    /// The message of the error.
    pub open spec fn text(&self) -> Seq<char> {
        match self {
            PiperError::ModelNotFound(detail) => "Model not found: "@ + detail@,
            PiperError::InitError(detail) => "Failed to initialize Piper: "@ + detail@,
            PiperError::SynthesisError(detail) => "Failed to synthesize speech: "@ + detail@,
            PiperError::InvalidVoice(detail) => "Invalid voice: "@ + detail@,
            PiperError::IoError(detail) => "IO error: "@ + detail@,
        }
    }

    /// The message of the error.
    pub fn message(&self) -> (message: String)
        ensures
            message@ == self.text(),
    {
        match self {
            PiperError::ModelNotFound(detail) => glue("Model not found: ", detail.as_str()),
            PiperError::InitError(detail) => glue("Failed to initialize Piper: ", detail.as_str()),
            PiperError::SynthesisError(detail) => glue(
                "Failed to synthesize speech: ",
                detail.as_str(),
            ),
            PiperError::InvalidVoice(detail) => glue("Invalid voice: ", detail.as_str()),
            PiperError::IoError(detail) => glue("IO error: ", detail.as_str()),
        }
    }
}

/// A Piper voice and the file of its model.
#[derive(Debug, Clone)]
pub struct PiperVoice {
    pub id: String,
    pub name: String,
    pub language: String,
    pub quality: String,
    pub model_file: String,
}

/// A Piper voice as plain values.
pub struct PiperVoiceView {
    pub id: Seq<char>,
    pub name: Seq<char>,
    pub language: Seq<char>,
    pub quality: Seq<char>,
    pub model_file: Seq<char>,
}

impl View for PiperVoice {
    type V = PiperVoiceView;

    open spec fn view(&self) -> PiperVoiceView {
        PiperVoiceView {
            id: self.id@,
            name: self.name@,
            language: self.language@,
            quality: self.quality@,
            model_file: self.model_file@,
        }
    }
}

impl DeepView for PiperVoice {
    type V = PiperVoiceView;

    open spec fn deep_view(&self) -> PiperVoiceView {
        self@
    }
}

/// The voice `id` of medium quality, whose model file is `id` with the
/// ending `.onnx`.
pub open spec fn medium(id: Seq<char>, name: Seq<char>, language: Seq<char>) -> PiperVoiceView {
    PiperVoiceView { id, name, language, quality: "medium"@, model_file: id + ".onnx"@ }
}

/// The voices Piper ships with.
pub open spec fn built_in() -> Seq<PiperVoiceView> {
    seq![
        medium("en_US-amy-medium"@, "Amy"@, "en-US"@),
        medium("en_US-lessac-medium"@, "Lessac"@, "en-US"@),
        medium("en_GB-alba-medium"@, "Alba (British)"@, "en-GB"@),
        medium("en_US-ryan-medium"@, "Ryan"@, "en-US"@),
    ]
}

fn make_medium(id: &str, name: &str, language: &str) -> (made: PiperVoice)
    ensures
        made@ == medium(id@, name@, language@),
{
    PiperVoice {
        id: String::from_str(id),
        name: String::from_str(name),
        language: String::from_str(language),
        quality: String::from_str("medium"),
        model_file: glue(id, ".onnx"),
    }
}

/// The sample rate of Piper models.
pub const PIPER_SAMPLE_RATE: u32 = 22050;

impl PiperVoice {
    /// The voices Piper ships with.
    pub fn available_voices() -> (list: Vec<PiperVoice>)
        ensures
            list.deep_view() == built_in(),
    {
        let mut list: Vec<PiperVoice> = Vec::new();
        list.push(make_medium("en_US-amy-medium", "Amy", "en-US"));
        list.push(make_medium("en_US-lessac-medium", "Lessac", "en-US"));
        list.push(make_medium("en_GB-alba-medium", "Alba (British)", "en-GB"));
        list.push(make_medium("en_US-ryan-medium", "Ryan", "en-US"));
        assert(list.deep_view() =~= built_in());
        list
    }
}

/// The first of `voices` whose identifier is `voice_id`, where there is
/// one.
pub open spec fn found_in(voices: Seq<PiperVoiceView>, voice_id: Seq<char>) -> Option<
    PiperVoiceView,
>
    decreases voices.len(),
{
    if voices.len() == 0 {
        None
    } else if voices.first().id == voice_id {
        Some(voices.first())
    } else {
        found_in(voices.drop_first(), voice_id)
    }
}

/// The name of the file that describes the model in `model_file`: the
/// ending `.onnx` gives way to `.json`.
pub open spec fn config_name(model_file: Seq<char>) -> Seq<char> {
    without_suffix(model_file, ".onnx"@) + ".json"@
}

impl PiperVoice {
    /// The voice `voice_id` among those that Piper ships with.
    pub fn find(voice_id: &str) -> (voice: Result<PiperVoice, PiperError>)
        ensures
            voice is Ok <==> found_in(built_in(), voice_id@) is Some,
            voice matches Ok(v) ==> found_in(built_in(), voice_id@) == Some(v@),
            voice matches Err(error) ==> error matches PiperError::InvalidVoice(id) && id@
                == voice_id@,
    {
        let mut voices = Self::available_voices();
        let ghost all = voices.deep_view();
        let mut i: usize = 0;
        assert(all.skip(0) =~= all);
        while i < voices.len()
            invariant
                i <= voices.len(),
                voices.deep_view() == all,
                all == built_in(),
                found_in(all.skip(i as int), voice_id@) == found_in(all, voice_id@),
            decreases voices.len() - i,
        {
            proof {
                assert(all.skip(i as int).first() == voices[i as int]@);
                assert(all.skip(i as int).drop_first() =~= all.skip(i + 1));
            }
            if same_text(voices[i].id.as_str(), voice_id) {
                let found = voices.swap_remove(i);
                return Ok(found);
            }
            i = i + 1;
        }
        Err(PiperError::InvalidVoice(String::from_str(voice_id)))
    }

    /// The path of the model file of the voice in the directory
    /// `model_dir`.
    pub fn model_path(&self, model_dir: &str) -> (path: String)
        ensures
            path@ == path_joined(model_dir@, self.model_file@),
    {
        join_path(model_dir, self.model_file.as_str())
    }

    /// The path of the file that describes the model of the voice, in the
    /// directory `model_dir`.
    pub fn config_path(&self, model_dir: &str) -> (path: String)
        ensures
            path@ == path_joined(model_dir@, config_name(self.model_file@)),
    {
        let chars = chars_of(self.model_file.as_str());
        let ending = chars_of(".onnx");
        let end = suffix_start(&chars, &ending);
        let mut name = text_of(&chars, 0, end);
        assert(chars@.subrange(0, end as int) =~= chars@.take(end as int));
        name.append(".json");
        join_path(model_dir, name.as_str())
    }
}

/// Where the voices are fetched from.
pub open spec fn voice_base_url() -> Seq<char> {
    "https://huggingface.co/rhasspy/piper-voices/resolve/main"@
}

/// The directory of voice `voice_id` below the base, for the voices that
/// can be fetched.
pub open spec fn voice_dir(voice_id: Seq<char>) -> Option<Seq<char>> {
    if voice_id == "en_US-amy-medium"@ {
        Some("/en/en_US/amy/medium/"@)
    } else if voice_id == "en_US-lessac-medium"@ {
        Some("/en/en_US/lessac/medium/"@)
    } else if voice_id == "en_GB-alba-medium"@ {
        Some("/en/en_GB/alba/medium/"@)
    } else if voice_id == "en_US-ryan-medium"@ {
        Some("/en/en_US/ryan/medium/"@)
    } else {
        None
    }
}

/// The addresses of the model of voice `voice_id` and of its description,
/// for the voices that can be fetched.
pub open spec fn download_urls(voice_id: Seq<char>) -> Option<(Seq<char>, Seq<char>)> {
    match voice_dir(voice_id) {
        Some(dir) => Some(
            (
                voice_base_url() + dir + voice_id + ".onnx"@,
                voice_base_url() + dir + voice_id + ".onnx.json"@,
            ),
        ),
        None => None,
    }
}

fn urls_in(dir: &str, voice_id: &str) -> (urls: (String, String))
    ensures
        urls.0@ == voice_base_url() + dir@ + voice_id@ + ".onnx"@,
        urls.1@ == voice_base_url() + dir@ + voice_id@ + ".onnx.json"@,
{
    let mut model = glue("https://huggingface.co/rhasspy/piper-voices/resolve/main", dir);
    model.append(voice_id);
    let mut config = model.clone();
    model.append(".onnx");
    config.append(".onnx.json");
    (model, config)
}

/// The addresses from which the model of voice `voice_id` and its
/// description are fetched; none for a voice that is not on offer.
pub fn get_voice_download_url(voice_id: &str) -> (urls: Option<(String, String)>)
    ensures
        urls is Some <==> download_urls(voice_id@) is Some,
        urls matches Some(pair) ==> download_urls(voice_id@) == Some((pair.0@, pair.1@)),
{
    if same_text(voice_id, "en_US-amy-medium") {
        Some(urls_in("/en/en_US/amy/medium/", voice_id))
    } else if same_text(voice_id, "en_US-lessac-medium") {
        Some(urls_in("/en/en_US/lessac/medium/", voice_id))
    } else if same_text(voice_id, "en_GB-alba-medium") {
        Some(urls_in("/en/en_GB/alba/medium/", voice_id))
    } else if same_text(voice_id, "en_US-ryan-medium") {
        Some(urls_in("/en/en_US/ryan/medium/", voice_id))
    } else {
        None
    }
}

} // verus!
