//! The Python sidecar as far as the library decides about it: its errors
//! and what is made of its answer to a request for speech.

use crate::chatterbox::{base64_decode, base64_standard, plain, TtsReply};
use crate::text::glue;
use vstd::prelude::*;

verus! {

/// What can go wrong with the Python sidecar.
#[derive(Debug)]
pub enum PythonTTSError {
    SpawnError(String),
    ProcessNotRunning,
    CommunicationError(String),
    GenerationError(String),
    InvalidResponse(String),
}

impl PythonTTSError {
    /// The message of the error.
    pub open spec fn text(&self) -> Seq<char> {
        match self {
            PythonTTSError::SpawnError(detail) => "Failed to spawn Python process: "@ + detail@,
            PythonTTSError::ProcessNotRunning => "Python process not running"@,
            PythonTTSError::CommunicationError(detail) => "Failed to communicate with Python: "@
                + detail@,
            PythonTTSError::GenerationError(detail) => "TTS generation failed: "@ + detail@,
            PythonTTSError::InvalidResponse(detail) => "Invalid response from Python: "@ + detail@,
        }
    }

    /// The message of the error.
    pub fn message(&self) -> (message: String)
        ensures
            message@ == self.text(),
    {
        match self {
            PythonTTSError::SpawnError(detail) => glue(
                "Failed to spawn Python process: ",
                detail.as_str(),
            ),
            PythonTTSError::ProcessNotRunning => "Python process not running".to_string(),
            PythonTTSError::CommunicationError(detail) => glue(
                "Failed to communicate with Python: ",
                detail.as_str(),
            ),
            PythonTTSError::GenerationError(detail) => glue(
                "TTS generation failed: ",
                detail.as_str(),
            ),
            PythonTTSError::InvalidResponse(detail) => glue(
                "Invalid response from Python: ",
                detail.as_str(),
            ),
        }
    }
}

/// Whether `wav` is what is made of the outcome `bytes` of the Base64
/// decoder: the bytes themselves, or the decoder's complaint.
pub open spec fn wav_of(bytes: Result<Seq<u8>, Seq<char>>, wav: Result<Vec<u8>, PythonTTSError>)
    -> bool {
    match bytes {
        Ok(list) => wav matches Ok(file) && file@ == list,
        Err(complaint) => wav matches Err(PythonTTSError::InvalidResponse(detail)) && detail@
            == "Base64 decode error: "@ + complaint,
    }
}

/// What is made of the outcome of the Base64 decoder.
pub fn decoded_bytes(bytes: Result<Vec<u8>, String>) -> (wav: Result<Vec<u8>, PythonTTSError>)
    ensures
        wav_of(plain(bytes), wav),
{
    match bytes {
        Ok(list) => Ok(list),
        Err(complaint) => Err(
            PythonTTSError::InvalidResponse(glue("Base64 decode error: ", complaint.as_str())),
        ),
    }
}

/// The WAV file in the answer `reply` to a request for speech. Where the
/// request failed the error named is reported, or an unknown one; where
/// the answer holds no audio, that; else what the Base64 decoder makes of
/// the audio text.
pub fn wav_bytes(reply: &TtsReply) -> (wav: Result<Vec<u8>, PythonTTSError>)
    ensures
        !reply.ok() ==> (wav matches Err(PythonTTSError::GenerationError(detail)) && detail@
            == reply.complaint("Unknown error"@)),
        reply.ok() && reply.audio is None ==> (wav matches Err(
            PythonTTSError::InvalidResponse(detail),
        ) && detail@ == "No audio in response"@),
        reply.ok() && reply.audio is Some ==> wav_of(base64_standard(reply.audio->0@), wav),
{
    if !reply.is_ok() {
        return Err(
            PythonTTSError::GenerationError(
                match &reply.error {
                    Some(error) => error.clone(),
                    None => "Unknown error".to_string(),
                },
            ),
        );
    }
    match &reply.audio {
        Some(text) => decoded_bytes(base64_decode(text.as_str())),
        None => Err(PythonTTSError::InvalidResponse("No audio in response".to_string())),
    }
}

} // verus!
