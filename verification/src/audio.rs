//! The simple player that plays one buffer at a time.
//!
//! Output device and decoder are outside this library; the player keeps
//! what is decided here: the speed, clamped to the permitted range, and the
//! flag that says whether something plays.

use crate::speed::{clamp_speed, Speed, NORMAL_SPEED};
use crate::text::glue;
use vstd::prelude::*;

verus! {

/// What can go wrong when a buffer is played.
#[derive(Debug)]
pub enum AudioError {
    /// The output device could not be opened.
    StreamError(String),
    /// The payload is no audio that can be decoded.
    DecodeError(String),
    /// Playback itself failed.
    PlaybackError(String),
}

impl AudioError {
    /// The message of the error.
    pub open spec fn text(&self) -> Seq<char> {
        match self {
            AudioError::StreamError(detail) => "Failed to create audio output stream: "@ + detail@,
            AudioError::DecodeError(detail) => "Failed to decode audio: "@ + detail@,
            AudioError::PlaybackError(detail) => "Playback error: "@ + detail@,
        }
    }

    /// The message of the error.
    pub fn message(&self) -> (message: String)
        ensures
            message@ == self.text(),
    {
        match self {
            AudioError::StreamError(detail) => glue(
                "Failed to create audio output stream: ",
                detail.as_str(),
            ),
            AudioError::DecodeError(detail) => glue("Failed to decode audio: ", detail.as_str()),
            AudioError::PlaybackError(detail) => glue("Playback error: ", detail.as_str()),
        }
    }
}

/// The state of the simple player.
pub struct AudioPlayer {
    speed: Speed,
    is_playing: bool,
}

impl AudioPlayer {
    /// The speed in thousandths of normal.
    pub closed spec fn speed(&self) -> int {
        self.speed@
    }

    /// Whether something plays.
    pub closed spec fn playing(&self) -> bool {
        self.is_playing
    }

    /// A player at normal speed that plays nothing.
    pub fn new() -> (player: Self)
        ensures
            player.speed() == NORMAL_SPEED,
            !player.playing(),
    {
        AudioPlayer { speed: Speed::normal(), is_playing: false }
    }

    /// Sets the speed to the one nearest to `speed` thousandths that is
    /// permitted.
    pub fn set_speed(&mut self, speed: i64)
        ensures
            final(self).speed() == clamp_speed(speed as int),
            final(self).playing() == old(self).playing(),
    {
        self.speed = Speed::clamped(speed);
    }

    /// The speed.
    pub fn get_speed(&self) -> (speed: Speed)
        ensures
            speed@ == self.speed(),
    {
        self.speed
    }

    /// Whether something plays.
    pub fn is_playing(&self) -> (yes: bool)
        ensures
            yes == self.playing(),
    {
        self.is_playing
    }

    /// Notes that a buffer began to play.
    pub fn playback_started(&mut self)
        ensures
            final(self).playing(),
            final(self).speed() == old(self).speed(),
    {
        self.is_playing = true;
    }

    /// Asks playback to stop: the flag goes down.
    pub fn request_stop(&mut self)
        ensures
            !final(self).playing(),
            final(self).speed() == old(self).speed(),
    {
        self.is_playing = false;
    }
}

} // verus!
