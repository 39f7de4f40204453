//! The speech engines the application knows and the voices it offers.

use vstd::prelude::*;
use vstd::string::*;

verus! {

/// The speech engines.
#[derive(Debug, Clone, Copy, PartialEq, Eq, Structural)]
pub enum TTSEngine {
    Chatterbox,
    Qwen3TTS,
    Echo,
}

impl Default for TTSEngine {
    fn default() -> (engine: Self)
        ensures
            engine == TTSEngine::Qwen3TTS,
    {
        TTSEngine::Qwen3TTS
    }
}

/// The name under which an engine is shown.
pub open spec fn engine_name(engine: TTSEngine) -> Seq<char> {
    match engine {
        TTSEngine::Chatterbox => "Chatterbox"@,
        TTSEngine::Qwen3TTS => "Qwen3TTS"@,
        TTSEngine::Echo => "Echo"@,
    }
}

impl TTSEngine {
    /// The name under which the engine is shown.
    pub fn name(&self) -> (name: &'static str)
        ensures
            name@ == engine_name(*self),
    {
        match self {
            TTSEngine::Chatterbox => "Chatterbox",
            TTSEngine::Qwen3TTS => "Qwen3TTS",
            TTSEngine::Echo => "Echo",
        }
    }
}

/// A voice: its identifier, the name shown, and its language.
#[derive(Debug, Clone)]
pub struct Voice {
    pub id: String,
    pub name: String,
    pub language: String,
}

/// A voice as plain values.
pub struct VoiceView {
    pub id: Seq<char>,
    pub name: Seq<char>,
    pub language: Seq<char>,
}

impl View for Voice {
    type V = VoiceView;

    open spec fn view(&self) -> VoiceView {
        VoiceView { id: self.id@, name: self.name@, language: self.language@ }
    }
}

impl DeepView for Voice {
    type V = VoiceView;

    open spec fn deep_view(&self) -> VoiceView {
        self@
    }
}

/// The English voice `id` shown as `name`.
pub open spec fn english(id: Seq<char>, name: Seq<char>) -> VoiceView {
    VoiceView { id, name, language: "en"@ }
}

/// The voice used where none is chosen.
pub open spec fn default_voice() -> VoiceView {
    english("ryan"@, "Ryan (Deep Male)"@)
}

/// The voices on offer, the default one first.
pub open spec fn voices() -> Seq<VoiceView> {
    seq![
        default_voice(),
        english("eric"@, "Eric (Male)"@),
        english("dylan"@, "Dylan (Male)"@),
        english("aiden"@, "Aiden (Young Male)"@),
        english("serena"@, "Serena (Female)"@),
        english("vivian"@, "Vivian (Female)"@),
    ]
}

impl Voice {
    fn english(id: &str, name: &str) -> (voice: Voice)
        ensures
            voice@ == english(id@, name@),
    {
        Voice { id: String::from_str(id), name: String::from_str(name), language: String::from_str("en") }
    }

    /// The voice used where none is chosen.
    pub fn default_voice() -> (voice: Self)
        ensures
            voice@ == default_voice(),
    {
        Self::english("ryan", "Ryan (Deep Male)")
    }

    /// The voices on offer, the default one first.
    pub fn get_voices() -> (list: Vec<Voice>)
        ensures
            list.deep_view() == voices(),
    {
        let mut list: Vec<Voice> = Vec::new();
        list.push(Self::default_voice());
        list.push(Self::english("eric", "Eric (Male)"));
        list.push(Self::english("dylan", "Dylan (Male)"));
        list.push(Self::english("aiden", "Aiden (Young Male)"));
        list.push(Self::english("serena", "Serena (Female)"));
        list.push(Self::english("vivian", "Vivian (Female)"));
        assert(list.deep_view() =~= voices());
        list
    }
}

} // verus!
