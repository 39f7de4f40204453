//! The verified core of a reading application that speaks book text aloud.
//!
//! The heart of the library is the playback pipeline: the session token
//! that gates every producer (`session`), the queue that puts synthesized
//! chunks back in order (`reorder`), the decisions of the gapless playback
//! driver (`playback`), the events it sends (`event`), and the buffered
//! source that turns a pushed stream of sample blocks into a pulled one
//! (`streaming_source`). Around it stand the rules of the engines
//! (`echo_tts`, `chatterbox`, `python_bridge`, `kokoro`, `piper`, `tts`),
//! of audio (`audio`, `speed`, `wav`), of books (`epub`), of model files
//! (`download`, `commands`) and of the clarifying service (`ai`).
//!
//! Devices, processes, files and the network are left to the caller. What
//! the library decides is stated in contracts and proved; the laws that
//! hold of the pipeline as a whole are the proof functions named `law_*`.

pub mod ai;
pub mod audio;
pub mod chatterbox;
pub mod commands;
pub mod download;
pub mod echo_tts;
pub mod epub;
pub mod event;
pub mod kokoro;
pub mod piper;
pub mod playback;
pub mod python_bridge;
pub mod reorder;
pub mod session;
pub mod speed;
pub mod streaming_source;
pub mod text;
pub mod tts;
pub mod wav;
