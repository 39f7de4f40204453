//! The token of the request that is currently authoritative.

use vstd::prelude::*;

verus! {

/// What a producer is told when it asks whether its request still stands.
#[derive(Clone, Copy, Debug, PartialEq, Eq, Structural)]
pub enum Checkpoint {
    /// The token is the current one: go on.
    Continue,
    /// Another session took over, or playback was stopped: drop the work.
    Abort,
}

/// Which session, if any, is current. Starting a session replaces the token
/// wholesale; there is no queue of sessions.
pub struct SessionState {
    current: Option<String>,
}

impl View for SessionState {
    type V = Option<Seq<char>>;

    closed spec fn view(&self) -> Option<Seq<char>> {
        match self.current {
            Some(token) => Some(token@),
            None => None,
        }
    }
}

/// The verdict of a checkpoint for `token` while `current` is the session.
pub open spec fn checkpoint_of(current: Option<Seq<char>>, token: Seq<char>) -> Checkpoint {
    if current == Some(token) {
        Checkpoint::Continue
    } else {
        Checkpoint::Abort
    }
}

impl SessionState {
    /// No session is current.
    pub fn new() -> (state: Self)
        ensures
            state@ is None,
    {
        SessionState { current: None }
    }

    /// Makes `token` the current session, whatever was current before.
    pub fn start(&mut self, token: String)
        ensures
            final(self)@ == Some(token@),
    {
        self.current = Some(token);
    }

    /// A snapshot of the current token.
    pub fn current(&self) -> (token: Option<String>)
        ensures
            token is Some <==> self@ is Some,
            token matches Some(t) ==> self@ == Some(t@),
    {
        match &self.current {
            Some(t) => Some(t.clone()),
            None => None,
        }
    }

    /// Ends the current session, if there is one.
    pub fn clear(&mut self)
        ensures
            final(self)@ is None,
    {
        self.current = None;
    }

    /// Whether `token` names the current session.
    pub fn is_current(&self, token: &String) -> (yes: bool)
        ensures
            yes == (self@ == Some(token@)),
    {
        match &self.current {
            Some(t) => *t == *token,
            None => false,
        }
    }

    /// The liveness check a producer makes before expensive work, after it
    /// got hold of the engine, and before it publishes a result.
    pub fn checkpoint(&self, token: &String) -> (verdict: Checkpoint)
        ensures
            verdict == checkpoint_of(self@, token@),
    {
        if self.is_current(token) {
            Checkpoint::Continue
        } else {
            Checkpoint::Abort
        }
    }
}

} // verus!
