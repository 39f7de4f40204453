//! The one synthesis engine and who holds it.
//!
//! Only one synthesis may run on the engine at a time. A generation task
//! checks the engine out of its slot, keeps it for as long as it streams,
//! and gives it back; whoever comes meanwhile is told that the engine is
//! busy. `E` is the engine, of which nothing is known here.

use crate::text::glue;
use vstd::prelude::*;

verus! {

/// What can go wrong around the engine.
#[derive(Debug)]
pub enum EchoError {
    /// The engine could not be made ready.
    InitError(String),
    /// No engine was ever made ready, or it was shut down.
    NotInitialized,
    /// The model or its runtime failed during synthesis.
    GenerationError(String),
    /// Another stream holds the engine.
    Busy,
}

impl EchoError {
    /// The message of the error.
    pub open spec fn text(&self) -> Seq<char> {
        match self {
            EchoError::InitError(detail) => "Echo initialization failed: "@ + detail@,
            EchoError::NotInitialized => "Echo not initialized"@,
            EchoError::GenerationError(detail) => "Generation error: "@ + detail@,
            EchoError::Busy => "Echo engine is busy (being used by another stream)"@,
        }
    }

    /// The message of the error.
    pub fn message(&self) -> (message: String)
        ensures
            message@ == self.text(),
    {
        match self {
            EchoError::InitError(detail) => glue("Echo initialization failed: ", detail.as_str()),
            EchoError::NotInitialized => "Echo not initialized".to_string(),
            EchoError::GenerationError(detail) => glue("Generation error: ", detail.as_str()),
            EchoError::Busy => "Echo engine is busy (being used by another stream)".to_string(),
        }
    }
}

/// The sample rate assumed while no engine says otherwise.
pub const DEFAULT_SAMPLE_RATE: u32 = 24000;

/// The slot as plain values.
pub struct SlotView<E> {
    /// The engine, while nobody holds it.
    pub engine: Option<E>,
    /// Whether an engine was made ready and not shut down since.
    pub initialized: bool,
}

/// Why a checkout fails on a slot without an engine.
pub open spec fn refusal(initialized: bool) -> EchoError {
    if initialized {
        EchoError::Busy
    } else {
        EchoError::NotInitialized
    }
}

impl<E> SlotView<E> {
    /// The slot before any engine.
    pub open spec fn empty() -> Self {
        SlotView { engine: None, initialized: false }
    }

    /// Whether an engine has to be made.
    pub open spec fn needs_engine(self) -> bool {
        self.engine is None && !self.initialized
    }

    /// The slot after `engine` was made ready and put in.
    pub open spec fn install(self, engine: E) -> Self {
        SlotView { engine: Some(engine), initialized: true }
    }

    /// The slot after a checkout, and what the checkout gave.
    pub open spec fn checkout(self) -> (Self, Result<E, EchoError>) {
        match self.engine {
            Some(engine) => (SlotView { engine: None, ..self }, Ok(engine)),
            None => (self, Err(refusal(self.initialized))),
        }
    }

    /// The slot after `engine` came back.
    pub open spec fn give_back(self, engine: E) -> Self {
        SlotView { engine: Some(engine), ..self }
    }
}

/// The place where the engine rests between syntheses.
pub struct EngineSlot<E> {
    engine: Option<E>,
    initialized: bool,
}

impl<E> View for EngineSlot<E> {
    type V = SlotView<E>;

    closed spec fn view(&self) -> SlotView<E> {
        SlotView { engine: self.engine, initialized: self.initialized }
    }
}

impl<E> EngineSlot<E> {
    /// A slot without an engine.
    pub fn new() -> (slot: Self)
        ensures
            slot@ == SlotView::<E>::empty(),
    {
        EngineSlot { engine: None, initialized: false }
    }

    /// Whether an engine has to be made: none rests in the slot and none
    /// is out with a synthesis. So an engine is made once, however often
    /// it is asked for.
    pub fn needs_engine(&self) -> (yes: bool)
        ensures
            yes == self@.needs_engine(),
    {
        self.engine.is_none() && !self.initialized
    }

    /// Puts a freshly made engine into the slot and hands out the one that
    /// rested there, if any.
    pub fn install(&mut self, engine: E) -> (displaced: Option<E>)
        ensures
            final(self)@ == old(self)@.install(engine),
            displaced == old(self)@.engine,
    {
        self.initialized = true;
        let displaced = self.engine.take();
        self.engine = Some(engine);
        displaced
    }

    /// Whether an engine was made ready and not shut down since.
    pub fn is_initialized(&self) -> (yes: bool)
        ensures
            yes == self@.initialized,
    {
        self.initialized
    }

    /// Takes the engine out for one synthesis. It fails with `Busy` while
    /// another synthesis holds the engine, and with `NotInitialized` where
    /// there is none to hold.
    pub fn checkout(&mut self) -> (engine: Result<E, EchoError>)
        ensures
            (final(self)@, engine) == old(self)@.checkout(),
    {
        match self.engine.take() {
            Some(engine) => Ok(engine),
            None => {
                if self.initialized {
                    Err(EchoError::Busy)
                } else {
                    Err(EchoError::NotInitialized)
                }
            },
        }
    }

    /// Puts the engine back after a synthesis.
    pub fn give_back(&mut self, engine: E)
        ensures
            final(self)@ == old(self)@.give_back(engine),
    {
        self.engine = Some(engine);
    }

    /// Lets go of the engine, if it rests in the slot, and forgets that one
    /// was ever ready.
    pub fn shutdown(&mut self) -> (engine: Option<E>)
        ensures
            final(self)@ == SlotView::<E>::empty(),
            engine == old(self)@.engine,
    {
        self.initialized = false;
        self.engine.take()
    }
}

/// The engine serves one synthesis at a time. While one checkout holds the
/// engine every further checkout fails with `Busy` and changes nothing;
/// once the engine is given back the next checkout gets that very engine.
pub proof fn law_engine_is_exclusive<E>(slot: SlotView<E>, engine: E)
    requires
        slot.engine == Some(engine),
        slot.initialized,
    ensures
        slot.checkout().1 == Ok::<E, EchoError>(engine),
        slot.checkout().0.checkout() == (slot.checkout().0, Err::<E, EchoError>(EchoError::Busy)),
        slot.checkout().0.give_back(engine) == slot,
        !slot.needs_engine(),
        !slot.checkout().0.needs_engine(),
{
}

} // verus!
