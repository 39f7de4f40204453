//! What the sidecar speech engines need from the library: the errors they
//! report and the cutting of text into chunks that one synthesis call can
//! take.

use crate::text::{
    blank, byte_len, char_width, chars_of, glue, lemma_byte_len_bound, same_text, text_of, trim,
    trim_bounds,
};
use crate::tts::TTSEngine;
use crate::wav::{decode_pcm16, decoded, encode_pcm16, encoded, WavError};
use base64::Engine;
use vstd::prelude::*;
use vstd::string::*;

verus! {

/// What can go wrong with the sidecar engine.
#[derive(Debug)]
pub enum ChatterboxError {
    SpawnError(String),
    ProcessNotRunning,
    CommunicationError(String),
    GenerationError(String),
    InvalidResponse(String),
    SidecarNotFound(String),
}

impl ChatterboxError {
    /// The message of the error.
    pub open spec fn text(&self) -> Seq<char> {
        match self {
            ChatterboxError::SpawnError(detail) => "Failed to spawn TTS process: "@ + detail@,
            ChatterboxError::ProcessNotRunning => "TTS process not running"@,
            ChatterboxError::CommunicationError(detail) => "Failed to communicate with TTS: "@
                + detail@,
            ChatterboxError::GenerationError(detail) => "TTS generation failed: "@ + detail@,
            ChatterboxError::InvalidResponse(detail) => "Invalid response from TTS: "@ + detail@,
            ChatterboxError::SidecarNotFound(detail) => "Sidecar not found: "@ + detail@,
        }
    }

    /// The message of the error.
    pub fn message(&self) -> (message: String)
        ensures
            message@ == self.text(),
    {
        match self {
            ChatterboxError::SpawnError(detail) => glue(
                "Failed to spawn TTS process: ",
                detail.as_str(),
            ),
            ChatterboxError::ProcessNotRunning => "TTS process not running".to_string(),
            ChatterboxError::CommunicationError(detail) => glue(
                "Failed to communicate with TTS: ",
                detail.as_str(),
            ),
            ChatterboxError::GenerationError(detail) => glue(
                "TTS generation failed: ",
                detail.as_str(),
            ),
            ChatterboxError::InvalidResponse(detail) => glue(
                "Invalid response from TTS: ",
                detail.as_str(),
            ),
            ChatterboxError::SidecarNotFound(detail) => glue("Sidecar not found: ", detail.as_str()),
        }
    }
}

/// Whether `c` ends a sentence.
pub open spec fn ends_sentence(c: char) -> bool {
    c == '.' || c == '!' || c == '?'
}

/// The sentences of `text`: each runs up to and with the next character
/// that ends a sentence; what follows the last such character is a
/// sentence of its own. None is empty, and in a row they give `text`.
pub open spec fn sentences(text: Seq<char>) -> Seq<Seq<char>>
    decreases text.len(),
{
    if text.len() == 0 {
        Seq::empty()
    } else {
        let before = sentences(text.drop_last());
        if before.len() > 0 && !ends_sentence(before.last().last()) {
            before.drop_last().push(before.last().push(text.last()))
        } else {
            before.push(seq![text.last()])
        }
    }
}

/// Chunks that are done, and the one that is being filled.
pub struct Packing {
    pub chunks: Seq<Seq<char>>,
    pub current: Seq<char>,
}

/// The packing after one more sentence. The sentence joins the current
/// chunk unless that would take the chunk beyond `max_chars` bytes; then
/// the current chunk is done, trimmed, and the sentence begins the next.
/// A sentence that is too long by itself still gets a chunk of its own.
pub open spec fn add_sentence(packing: Packing, sentence: Seq<char>, max_chars: usize) -> Packing {
    if byte_len(packing.current) + byte_len(sentence) > max_chars && packing.current.len() > 0 {
        Packing { chunks: packing.chunks.push(trim(packing.current)), current: sentence }
    } else {
        Packing { chunks: packing.chunks, current: packing.current + sentence }
    }
}

/// The packing of `sentences`, first to last.
pub open spec fn pack(sentences: Seq<Seq<char>>, max_chars: usize) -> Packing
    decreases sentences.len(),
{
    if sentences.len() == 0 {
        Packing { chunks: Seq::empty(), current: Seq::empty() }
    } else {
        add_sentence(pack(sentences.drop_last(), max_chars), sentences.last(), max_chars)
    }
}

/// The chunks of `text`: its sentences, packed greedily into chunks of at
/// most `max_chars` bytes where a single sentence allows it, each chunk
/// trimmed; a last chunk of nothing but white space is left out.
pub open spec fn chunks_of(text: Seq<char>, max_chars: usize) -> Seq<Seq<char>> {
    let packing = pack(sentences(text), max_chars);
    if blank(packing.current) {
        packing.chunks
    } else {
        packing.chunks.push(trim(packing.current))
    }
}

proof fn lemma_byte_len_sum(head: Seq<char>, tail: Seq<char>)
    ensures
        byte_len(head + tail) == byte_len(head) + byte_len(tail),
    decreases tail.len(),
{
    if tail.len() == 0 {
        assert(head + tail =~= head);
    } else {
        lemma_byte_len_sum(head, tail.drop_last());
        assert((head + tail).drop_last() =~= head + tail.drop_last());
    }
}

/// The sentence `chars[from..to]` joins the packing.
fn flush(
    chunks: &mut Vec<String>,
    current: &mut Vec<char>,
    current_bytes: &mut u128,
    chars: &Vec<char>,
    from: usize,
    to: usize,
    sentence_bytes: u128,
    max_chars: usize,
)
    requires
        from <= to <= chars@.len(),
        sentence_bytes == byte_len(chars@.subrange(from as int, to as int)),
        *old(current_bytes) == byte_len(old(current)@),
    ensures
        *final(current_bytes) == byte_len(final(current)@),
        (Packing { chunks: final(chunks).deep_view(), current: final(current)@ }) == add_sentence(
            Packing { chunks: old(chunks).deep_view(), current: old(current)@ },
            chars@.subrange(from as int, to as int),
            max_chars,
        ),
{
    let ghost sentence = chars@.subrange(from as int, to as int);
    let held = current.len();
    proof {
        lemma_byte_len_bound(current@);
        lemma_byte_len_bound(sentence);
        lemma_byte_len_sum(current@, sentence);
        assert(byte_len(current@) <= 4 * usize::MAX);
        assert(byte_len(sentence) <= 4 * usize::MAX);
    }
    if *current_bytes + sentence_bytes > max_chars as u128 && held > 0 {
        let (start, end) = trim_bounds(current);
        chunks.push(text_of(current, start, end));
        current.clear();
        *current_bytes = 0;
        assert(chunks.deep_view() =~= old(chunks).deep_view().push(trim(old(current)@)));
        assert(byte_len(Seq::<char>::empty()) == 0);
    } else {
        assert(chunks.deep_view() =~= old(chunks).deep_view());
    }
    let ghost base = current@;
    let mut i: usize = from;
    while i < to
        invariant
            from <= i <= to <= chars@.len(),
            current@ == base + chars@.subrange(from as int, i as int),
        decreases to - i,
    {
        current.push(chars[i]);
        i = i + 1;
        assert(current@ =~= base + chars@.subrange(from as int, i as int));
    }
    proof {
        lemma_byte_len_sum(base, sentence);
        if base.len() == 0 {
            assert(base + sentence =~= sentence);
        }
    }
    *current_bytes = *current_bytes + sentence_bytes;
}

/// Cuts `text` into chunks for synthesis: whole sentences, packed into
/// chunks of at most `max_chars` bytes where a single sentence allows it,
/// each without white space at its ends.
pub fn split_into_chunks(text: &str, max_chars: usize) -> (chunks: Vec<String>)
    ensures
        chunks.deep_view() == chunks_of(text@, max_chars),
{
    let chars = chars_of(text);
    let n = chars.len();
    let mut chunks: Vec<String> = Vec::new();
    let mut current: Vec<char> = Vec::new();
    let mut current_bytes: u128 = 0;
    let mut start: usize = 0;
    let mut open_bytes: u128 = 0;
    let mut i: usize = 0;
    let ghost mut closed: Seq<Seq<char>> = Seq::empty();
    assert(chars@.take(0) =~= Seq::<char>::empty());
    assert(chunks.deep_view() =~= Seq::<Seq<char>>::empty());
    while i < n
        invariant
            n == chars@.len(),
            chars@ == text@,
            start <= i <= n,
            start < i ==> !ends_sentence(chars@[i - 1]),
            closed.len() > 0 ==> closed.last().len() > 0 && ends_sentence(closed.last().last()),
            sentences(chars@.take(i as int)) == if start < i {
                closed.push(chars@.subrange(start as int, i as int))
            } else {
                closed
            },
            pack(closed, max_chars) == (Packing { chunks: chunks.deep_view(), current: current@ }),
            current_bytes == byte_len(current@),
            open_bytes == byte_len(chars@.subrange(start as int, i as int)),
        decreases n - i,
    {
        let c = chars[i];
        let ghost before = sentences(chars@.take(i as int));
        proof {
            let grown = chars@.take(i + 1);
            assert(grown.drop_last() =~= chars@.take(i as int));
            assert(grown.last() == c);
            lemma_byte_len_bound(chars@.subrange(start as int, i as int));
            assert(chars@.subrange(start as int, i + 1).drop_last() =~= chars@.subrange(
                start as int,
                i as int,
            ));
            if start < i {
                assert(before.last() == chars@.subrange(start as int, i as int));
                assert(before.drop_last() =~= closed);
                assert(chars@.subrange(start as int, i as int).push(c) =~= chars@.subrange(
                    start as int,
                    i + 1,
                ));
            } else {
                assert(seq![c] =~= chars@.subrange(start as int, i + 1));
            }
            assert(sentences(grown) == closed.push(chars@.subrange(start as int, i + 1)));
        }
        open_bytes = open_bytes + char_width(c) as u128;
        i = i + 1;
        if c == '.' || c == '!' || c == '?' {
            flush(
                &mut chunks,
                &mut current,
                &mut current_bytes,
                &chars,
                start,
                i,
                open_bytes,
                max_chars,
            );
            proof {
                let sentence = chars@.subrange(start as int, i as int);
                assert(closed.push(sentence).drop_last() =~= closed);
                closed = closed.push(sentence);
                assert(chars@.subrange(i as int, i as int) =~= Seq::<char>::empty());
            }
            start = i;
            open_bytes = 0;
        }
    }
    assert(chars@.take(n as int) =~= chars@);
    if start < n {
        flush(&mut chunks, &mut current, &mut current_bytes, &chars, start, n, open_bytes, max_chars);
        proof {
            let sentence = chars@.subrange(start as int, n as int);
            assert(closed.push(sentence).drop_last() =~= closed);
        }
    }
    assert(pack(sentences(text@), max_chars) == (Packing {
        chunks: chunks.deep_view(),
        current: current@,
    }));
    let ghost packed = chunks.deep_view();
    let (from, to) = trim_bounds(&current);
    if from != to {
        chunks.push(text_of(&current, from, to));
        assert(chunks.deep_view() =~= packed.push(trim(current@)));
    }
    chunks
}


/// Audio as the sidecar delivers it: mono samples of sixteen bits.
#[derive(Debug)]
pub struct ChatterboxResult {
    pub audio: Vec<i16>,
    pub sample_rate: u32,
}

impl ChatterboxResult {
    /// The audio as a WAV file.
    pub fn to_wav(&self) -> (bytes: Vec<u8>)
        requires
            2 * self.sample_rate <= u32::MAX,
        ensures
            bytes@ == encoded(self.audio@, self.sample_rate),
    {
        encode_pcm16(&self.audio, self.sample_rate)
    }
}

/// What is said of bytes that are no WAV file.
pub open spec fn wav_complaint(error: WavError) -> Seq<char> {
    match error {
        WavError::TooShort => "WAV data too short"@,
        WavError::BadHeader => "Invalid WAV header"@,
        WavError::NoData => "No data chunk in WAV"@,
    }
}

/// The samples of the WAV file `wav_bytes`, or the complaint about it.
pub fn wav_to_samples(wav_bytes: &[u8]) -> (samples: Result<Vec<i16>, ChatterboxError>)
    ensures
        samples matches Ok(list) ==> decoded(wav_bytes@) == Ok::<Seq<i16>, WavError>(list@),
        samples matches Err(error) ==> decoded(wav_bytes@) is Err && (error
            matches ChatterboxError::InvalidResponse(complaint) && complaint@ == wav_complaint(
            decoded(wav_bytes@)->Err_0,
        )),
{
    match decode_pcm16(wav_bytes) {
        Ok(list) => Ok(list),
        Err(WavError::TooShort) => Err(
            ChatterboxError::InvalidResponse("WAV data too short".to_string()),
        ),
        Err(WavError::BadHeader) => Err(
            ChatterboxError::InvalidResponse("Invalid WAV header".to_string()),
        ),
        Err(WavError::NoData) => Err(
            ChatterboxError::InvalidResponse("No data chunk in WAV".to_string()),
        ),
    }
}

/// What the standard Base64 alphabet with padding makes of `text`: the
/// bytes it stands for, or the decoder's complaint.
pub uninterp spec fn base64_standard(text: Seq<char>) -> Result<Seq<u8>, Seq<char>>;

/// The outcome of a decoder as plain values.
pub open spec fn plain(outcome: Result<Vec<u8>, String>) -> Result<Seq<u8>, Seq<char>> {
    match outcome {
        Ok(list) => Ok(list@),
        Err(complaint) => Err(complaint@),
    }
}

/// `base64::engine::general_purpose::STANDARD.decode`: the bytes that
/// `text` stands for, or the decoder's complaint as text.
#[verifier::external_body]
pub(crate) fn base64_decode(text: &str) -> (bytes: Result<Vec<u8>, String>)
    ensures
        plain(bytes) == base64_standard(text@),
{
    match base64::engine::general_purpose::STANDARD.decode(text) {
        Ok(list) => Ok(list),
        Err(error) => Err(error.to_string()),
    }
}

/// One answer of the sidecar.
#[derive(Debug)]
pub struct TtsReply {
    pub status: String,
    pub action: String,
    /// A WAV file in Base64.
    pub audio: Option<String>,
    pub sample_rate: Option<u32>,
    pub error: Option<String>,
    pub device: Option<String>,
    pub model_loaded: Option<bool>,
}

/// The sample rate assumed where the sidecar names none.
pub const SIDECAR_SAMPLE_RATE: u32 = 24000;

fn text_or(text: &Option<String>, fallback: &str) -> (chosen: String)
    ensures
        chosen@ == (match *text {
            Some(t) => t@,
            None => fallback@,
        }),
{
    match text {
        Some(t) => t.clone(),
        None => String::from_str(fallback),
    }
}

impl TtsReply {
    /// Whether the sidecar says all went well.
    pub open spec fn ok(&self) -> bool {
        self.status@ == "ok"@
    }

    /// The error the sidecar names, or `fallback` where it names none.
    pub open spec fn complaint(&self, fallback: Seq<char>) -> Seq<char> {
        match self.error {
            Some(error) => error@,
            None => fallback,
        }
    }

    /// Whether the sidecar says all went well.
    pub fn is_ok(&self) -> (yes: bool)
        ensures
            yes == self.ok(),
    {
        same_text(self.status.as_str(), "ok")
    }

    /// Whether this is the sign that the sidecar is up: all well, and the
    /// action is `ready`. Anything else is a failed start.
    pub fn expect_ready(&self) -> (ready: Result<(), ChatterboxError>)
        ensures
            ready is Ok <==> self.ok() && self.action@ == "ready"@,
            ready matches Err(error) ==> error matches ChatterboxError::SpawnError(detail)
                && detail@ == "TTS server did not signal ready"@,
    {
        if self.is_ok() && same_text(self.action.as_str(), "ready") {
            Ok(())
        } else {
            Err(ChatterboxError::SpawnError("TTS server did not signal ready".to_string()))
        }
    }

    /// What the answer to a request says: nothing where all went well,
    /// else the error named, or `fallback` where none is named.
    pub fn expect_ok(&self, fallback: &str) -> (done: Result<(), ChatterboxError>)
        ensures
            done is Ok <==> self.ok(),
            done matches Err(error) ==> error matches ChatterboxError::GenerationError(detail)
                && detail@ == self.complaint(fallback@),
    {
        if self.is_ok() {
            Ok(())
        } else {
            Err(ChatterboxError::GenerationError(text_or(&self.error, fallback)))
        }
    }

    /// The device on which the model was loaded, as the answer to the
    /// request to load it says; `fallback` where it names none.
    pub fn device(&self, fallback: &str) -> (device: Result<String, ChatterboxError>)
        ensures
            device is Ok <==> self.ok(),
            device matches Ok(name) ==> name@ == (match self.device {
                Some(d) => d@,
                None => fallback@,
            }),
            device matches Err(error) ==> error matches ChatterboxError::GenerationError(detail)
                && detail@ == self.complaint("Unknown error"@),
    {
        match self.expect_ok("Unknown error") {
            Ok(()) => Ok(text_or(&self.device, fallback)),
            Err(error) => Err(error),
        }
    }

    /// Whether the sidecar says its model is loaded.
    pub fn model_is_loaded(&self) -> (yes: bool)
        ensures
            yes == (self.model_loaded == Some(true)),
    {
        match self.model_loaded {
            Some(loaded) => loaded,
            None => false,
        }
    }

    /// The sample rate the answer names, or the usual one.
    pub fn rate(&self) -> (rate: u32)
        ensures
            rate == (match self.sample_rate {
                Some(r) => r,
                None => SIDECAR_SAMPLE_RATE,
            }),
    {
        match self.sample_rate {
            Some(r) => r,
            None => SIDECAR_SAMPLE_RATE,
        }
    }

    /// The audio text of an answer to a request for speech: the error
    /// named where the request failed, a complaint where the answer holds
    /// no audio.
    pub fn audio_text(&self) -> (text: Result<&String, ChatterboxError>)
        ensures
            text is Ok <==> self.ok() && self.audio is Some,
            text matches Ok(t) ==> self.audio == Some(*t),
            text matches Err(error) ==> (if self.ok() {
                error matches ChatterboxError::InvalidResponse(detail) && detail@
                    == "No audio in response"@
            } else {
                error matches ChatterboxError::GenerationError(detail) && detail@
                    == self.complaint("Unknown error"@)
            }),
    {
        match self.expect_ok("Unknown error") {
            Ok(()) => {},
            Err(error) => {
                return Err(error);
            },
        }
        match &self.audio {
            Some(text) => Ok(text),
            None => Err(ChatterboxError::InvalidResponse("No audio in response".to_string())),
        }
    }

    /// The audio of an answer to a request for speech: the audio text is
    /// decoded from Base64 and read as a WAV file.
    pub fn audio(&self) -> (audio: Result<ChatterboxResult, ChatterboxError>)
        ensures
            !self.ok() ==> (audio matches Err(ChatterboxError::GenerationError(detail)) && detail@
                == self.complaint("Unknown error"@)),
            self.ok() && self.audio is None ==> (audio matches Err(
                ChatterboxError::InvalidResponse(detail),
            ) && detail@ == "No audio in response"@),
            self.ok() && self.audio is Some ==> audio_of(
                base64_standard(self.audio->0@),
                self.sample_rate,
                audio,
            ),
    {
        let text = match self.audio_text() {
            Ok(text) => text,
            Err(error) => {
                return Err(error);
            },
        };
        let bytes = base64_decode(text.as_str());
        decoded_audio(bytes, self.sample_rate)
    }
}

/// Whether `audio` is what is made of the outcome `bytes` of the Base64
/// decoder and of the sample rate named.
pub open spec fn audio_of(
    bytes: Result<Seq<u8>, Seq<char>>,
    sample_rate: Option<u32>,
    audio: Result<ChatterboxResult, ChatterboxError>,
) -> bool {
    match bytes {
        Err(complaint) => audio matches Err(ChatterboxError::InvalidResponse(detail)) && detail@
            == "Base64 decode error: "@ + complaint,
        Ok(list) => match decoded(list) {
            Ok(samples) => audio matches Ok(result) && result.audio@ == samples
                && result.sample_rate == (match sample_rate {
                Some(r) => r,
                None => SIDECAR_SAMPLE_RATE,
            }),
            Err(error) => audio matches Err(ChatterboxError::InvalidResponse(detail)) && detail@
                == wav_complaint(error),
        },
    }
}

/// What is made of the outcome of the Base64 decoder: the samples of the
/// WAV file it gave, at the sample rate named or the usual one, or the
/// complaint of the decoder or about the file.
pub fn decoded_audio(bytes: Result<Vec<u8>, String>, sample_rate: Option<u32>) -> (audio: Result<
    ChatterboxResult,
    ChatterboxError,
>)
    ensures
        audio_of(plain(bytes), sample_rate, audio),
{
    match bytes {
        Err(complaint) => Err(
            ChatterboxError::InvalidResponse(glue("Base64 decode error: ", complaint.as_str())),
        ),
        Ok(list) => {
            match wav_to_samples(list.as_slice()) {
                Ok(samples) => Ok(
                    ChatterboxResult {
                        audio: samples,
                        sample_rate: match sample_rate {
                            Some(r) => r,
                            None => SIDECAR_SAMPLE_RATE,
                        },
                    },
                ),
                Err(error) => Err(error),
            }
        },
    }
}


/// The script that runs engine `engine` during development; none for an
/// engine that needs no sidecar. The Qwen engine has one script for macOS
/// and one for the other systems.
pub open spec fn script_of(engine: TTSEngine, macos: bool) -> Option<Seq<char>> {
    match engine {
        TTSEngine::Chatterbox => Some("chatterbox_tts.py"@),
        TTSEngine::Qwen3TTS => Some(
            if macos {
                "qwen3_tts.py"@
            } else {
                "qwen3_tts_cuda.py"@
            },
        ),
        TTSEngine::Echo => None,
    }
}

/// The name of the bundled sidecar of engine `engine`, without the ending
/// that names the platform; none for an engine that needs no sidecar.
pub open spec fn sidecar_of(engine: TTSEngine, macos: bool) -> Option<Seq<char>> {
    match engine {
        TTSEngine::Chatterbox => Some("chatterbox-tts"@),
        TTSEngine::Qwen3TTS => Some(
            if macos {
                "qwen3-tts"@
            } else {
                "qwen3-tts-cuda"@
            },
        ),
        TTSEngine::Echo => None,
    }
}

/// What is to be done when a warm-up is asked for.
#[derive(Clone, Copy, Debug, PartialEq, Eq, Structural)]
pub enum WarmupPlan {
    /// The engine needs no warm-up.
    Skip,
    /// The model is to be loaded first, then warmed up.
    InitFirst,
    /// The model is loaded: warm it up.
    Warm,
}

/// The sidecar engine as the library sees it: which engine it is, whether
/// its process runs, and whether its model is loaded.
pub struct ChatterboxTTS {
    running: bool,
    initialized: bool,
    engine: TTSEngine,
}

/// The sidecar engine as plain values.
pub struct SidecarView {
    pub running: bool,
    pub initialized: bool,
    pub engine: TTSEngine,
}

impl View for ChatterboxTTS {
    type V = SidecarView;

    closed spec fn view(&self) -> SidecarView {
        SidecarView { running: self.running, initialized: self.initialized, engine: self.engine }
    }
}

impl ChatterboxTTS {
    /// A sidecar for `engine` that does not run yet.
    pub fn new(engine: TTSEngine) -> (tts: Self)
        ensures
            tts@ == (SidecarView { running: false, initialized: false, engine }),
    {
        ChatterboxTTS { running: false, initialized: false, engine }
    }

    /// The script that runs the engine during development.
    pub fn script_name(&self, macos: bool) -> (name: Option<&'static str>)
        ensures
            name is Some <==> script_of(self@.engine, macos) is Some,
            name matches Some(n) ==> script_of(self@.engine, macos) == Some(n@),
    {
        match self.engine {
            TTSEngine::Chatterbox => Some("chatterbox_tts.py"),
            TTSEngine::Qwen3TTS => Some(
                if macos {
                    "qwen3_tts.py"
                } else {
                    "qwen3_tts_cuda.py"
                },
            ),
            TTSEngine::Echo => None,
        }
    }

    /// The name of the bundled sidecar on the platform whose ending is
    /// `suffix`.
    pub fn sidecar_name(&self, macos: bool, suffix: &str) -> (name: Option<String>)
        ensures
            name is Some <==> sidecar_of(self@.engine, macos) is Some,
            name matches Some(n) ==> n@ == sidecar_of(self@.engine, macos)->0 + suffix@,
    {
        match self.engine {
            TTSEngine::Chatterbox => Some(glue("chatterbox-tts", suffix)),
            TTSEngine::Qwen3TTS => Some(
                if macos {
                    glue("qwen3-tts", suffix)
                } else {
                    glue("qwen3-tts-cuda", suffix)
                },
            ),
            TTSEngine::Echo => None,
        }
    }

    /// Whether the process has to be started: it does not run.
    pub fn needs_start(&self) -> (yes: bool)
        ensures
            yes == !self@.running,
    {
        !self.running
    }

    /// Notes that the process was started. It counts as running from then
    /// on, whether or not it signals that it is up.
    pub fn spawned(&mut self)
        ensures
            final(self)@ == (SidecarView { running: true, ..old(self)@ }),
    {
        self.running = true;
    }

    /// Notes the answer to the request to load the model, and gives the
    /// device the model was loaded on.
    pub fn init_model(&mut self, answer: &TtsReply) -> (device: Result<String, ChatterboxError>)
        ensures
            device is Ok <==> answer.ok(),
            final(self)@ == (SidecarView {
                initialized: old(self)@.initialized || answer.ok(),
                ..old(self)@
            }),
            device matches Ok(name) ==> name@ == (match answer.device {
                Some(d) => d@,
                None => "mps"@,
            }),
            device matches Err(error) ==> error matches ChatterboxError::GenerationError(detail)
                && detail@ == answer.complaint("Unknown error"@),
    {
        let device = answer.device("mps");
        if device.is_ok() {
            self.initialized = true;
        }
        device
    }

    /// What a request for a warm-up calls for: only the Qwen engine is
    /// warmed up, and only with its model loaded.
    pub fn warmup(&self) -> (plan: WarmupPlan)
        ensures
            plan == (if self@.engine != TTSEngine::Qwen3TTS {
                WarmupPlan::Skip
            } else if !self@.initialized {
                WarmupPlan::InitFirst
            } else {
                WarmupPlan::Warm
            }),
    {
        match self.engine {
            TTSEngine::Qwen3TTS => if self.initialized {
                WarmupPlan::Warm
            } else {
                WarmupPlan::InitFirst
            },
            _ => WarmupPlan::Skip,
        }
    }

    /// Whether speech may be asked for: only with the model loaded.
    pub fn generate(&self) -> (may: Result<(), ChatterboxError>)
        ensures
            may is Ok <==> self@.initialized,
            may matches Err(error) ==> error matches ChatterboxError::ProcessNotRunning,
    {
        if self.initialized {
            Ok(())
        } else {
            Err(ChatterboxError::ProcessNotRunning)
        }
    }

    /// Whether the model is loaded.
    pub fn is_initialized(&self) -> (yes: bool)
        ensures
            yes == self@.initialized,
    {
        self.initialized
    }

    /// Notes that the process was shut down.
    pub fn shutdown(&mut self)
        ensures
            final(self)@ == (SidecarView { running: false, initialized: false, ..old(self)@ }),
    {
        self.running = false;
        self.initialized = false;
    }

    /// Changes the engine. The process of the old engine is shut down;
    /// the next start runs the new one.
    pub fn set_engine(&mut self, engine: TTSEngine)
        ensures
            final(self)@ == (SidecarView { running: false, initialized: false, engine }),
    {
        self.shutdown();
        self.engine = engine;
    }
}

} // verus!
