//! The source that turns a pushed stream of sample blocks into a pulled one.
//!
//! A generator pushes blocks of samples into a bounded channel as it makes
//! them; the audio side pulls one sample at a time. In between stands a
//! buffer with four regimes: it holds back until a minimum has gathered or
//! the generator is done (pre-roll), then hands out samples while taking in
//! what arrives (steady state), fills a gap with one silent sample rather
//! than wait for long (underrun), and after the generator is done plays
//! what is left and ends (drain).
//!
//! `T` is the type of a sample. A pull never waits without bound: where
//! pre-roll calls for another wait, or a block came that holds no sample,
//! the pull says `Retry` and the caller pulls again. The end is reported
//! only once the generator is done and nothing is left to play.

use crossbeam_channel::{Receiver, Sender};
use std::collections::VecDeque;
use vstd::prelude::*;

verus! {

/// Samples to gather before playback starts: about five seconds at 24 kHz.
pub const MIN_BUFFER_SAMPLES: usize = 120000;

/// How long one wait for a block lasts during pre-roll, in milliseconds.
pub const BUFFER_FILL_TIMEOUT_MS: u64 = 200;

/// How long an empty buffer waits for a block before it yields silence, in
/// milliseconds.
pub const UNDERRUN_TIMEOUT_MS: u64 = 100;

/// How many blocks the channel between generator and source holds.
pub const STREAM_CHANNEL_BLOCKS: usize = 32;

/// What a wait on the channel brought.
#[derive(Debug)]
pub enum RecvOutcome<T> {
    /// A block of samples.
    Block(Vec<T>),
    /// Nothing within the time allowed; the generator is still there.
    TimedOut,
    /// Nothing, and nothing will come: the generator is done.
    Closed,
}

/// What a wait on the channel brought, as plain values.
pub enum Arrival<T> {
    Block(Seq<T>),
    TimedOut,
    Closed,
}

impl<T> View for RecvOutcome<T> {
    type V = Arrival<T>;

    open spec fn view(&self) -> Arrival<T> {
        match *self {
            RecvOutcome::Block(block) => Arrival::Block(block@),
            RecvOutcome::TimedOut => Arrival::TimedOut,
            RecvOutcome::Closed => Arrival::Closed,
        }
    }
}

/// What one pull gives.
#[derive(Clone, Copy, Debug, PartialEq)]
pub enum Pull<T> {
    /// The next sample of the stream.
    Sample(T),
    /// No sample is at hand and the generator is still at work: play one
    /// sample of silence.
    Silence,
    /// The stream has ended for good: the generator is done and every
    /// sample was handed out.
    End,
    /// Nothing to play yet, and no time was lost: pull again.
    Retry,
}

/// Where a buffer stands.
#[derive(Clone, Copy, Debug, PartialEq, Eq, Structural)]
pub enum Stage {
    /// The stream has ended for good.
    Ended,
    /// Pre-roll: still gathering, nothing is handed out.
    Preroll,
    /// Samples are at hand.
    Ready,
    /// Playing, but nothing is at hand.
    Starved,
}

/// All samples of `blocks`, block after block.
pub open spec fn join<T>(blocks: Seq<Seq<T>>) -> Seq<T>
    decreases blocks.len(),
{
    if blocks.len() == 0 {
        Seq::empty()
    } else {
        join(blocks.drop_last()) + blocks.last()
    }
}

/// The blocks of `blocks` as sequences.
pub open spec fn views<T>(blocks: Seq<Vec<T>>) -> Seq<Seq<T>> {
    blocks.map_values(|block: Vec<T>| block@)
}

/// The buffer as plain values.
pub struct BufferView<T> {
    /// The samples at hand, oldest first.
    pub buffered: Seq<T>,
    /// How many samples pre-roll gathers.
    pub threshold: usize,
    /// Whether pre-roll is over.
    pub primed: bool,
    /// Whether the stream has ended for good.
    pub finished: bool,
}

impl<T> BufferView<T> {
    /// The buffer before anything arrived.
    pub open spec fn fresh(threshold: usize) -> Self {
        BufferView { buffered: Seq::empty(), threshold, primed: threshold == 0, finished: false }
    }

    /// While pre-roll lasts, less than the threshold is at hand.
    pub open spec fn wf(self) -> bool {
        !self.primed ==> self.buffered.len() < self.threshold
    }

    pub open spec fn stage(self) -> Stage {
        if self.finished {
            Stage::Ended
        } else if !self.primed {
            Stage::Preroll
        } else if self.buffered.len() > 0 {
            Stage::Ready
        } else {
            Stage::Starved
        }
    }

    /// The buffer after `block` arrived. Pre-roll is over once the
    /// threshold is reached.
    pub open spec fn absorb(self, block: Seq<T>) -> Self {
        BufferView {
            buffered: self.buffered + block,
            primed: self.primed || self.buffered.len() + block.len() >= self.threshold,
            ..self
        }
    }

    /// The buffer after the blocks `blocks` arrived, first to last.
    pub open spec fn absorb_all(self, blocks: Seq<Seq<T>>) -> Self
        decreases blocks.len(),
    {
        if blocks.len() == 0 {
            self
        } else {
            self.absorb_all(blocks.drop_last()).absorb(blocks.last())
        }
    }

    /// The buffer after the oldest sample left, and that sample.
    pub open spec fn take(self) -> (Self, Option<T>) {
        if self.buffered.len() > 0 {
            (BufferView { buffered: self.buffered.drop_first(), ..self }, Some(self.buffered[0]))
        } else {
            (self, None)
        }
    }

    /// A wait during pre-roll ended with `arrival`. A block is taken in, a
    /// timeout changes nothing, and the end of the generator ends pre-roll
    /// with whatever is at hand.
    pub open spec fn preroll(self, arrival: Arrival<T>) -> Self {
        match arrival {
            Arrival::Block(block) => self.absorb(block),
            Arrival::TimedOut => self,
            Arrival::Closed => BufferView { primed: true, ..self },
        }
    }

    /// Steady state: the blocks `late` that arrived meanwhile are taken in
    /// and the oldest sample is handed out.
    pub open spec fn serve(self, late: Seq<Seq<T>>) -> (Self, Pull<T>) {
        let (rest, sample) = self.absorb_all(late).take();
        match sample {
            Some(sample) => (rest, Pull::Sample(sample)),
            None => (rest, Pull::Retry),
        }
    }

    /// Underrun, and a block came in time: its first sample is handed out.
    /// A block without samples brings nothing: the pull is to be made
    /// again, and the stream goes on.
    pub open spec fn starved_block(self, block: Seq<T>) -> (Self, Pull<T>) {
        let (rest, sample) = self.absorb(block).take();
        match sample {
            Some(sample) => (rest, Pull::Sample(sample)),
            None => (rest, Pull::Retry),
        }
    }

    /// Underrun, and no block came in time: silence, and nothing changes.
    pub open spec fn starved_timeout(self) -> (Self, Pull<T>) {
        (self, Pull::Silence)
    }

    /// Underrun, and the generator is done: what is still found in the
    /// channel (`late`) is taken in; if that leaves a sample it is handed
    /// out, else the stream has ended for good.
    pub open spec fn starved_closed(self, late: Seq<Seq<T>>) -> (Self, Pull<T>) {
        let (rest, sample) = self.absorb_all(late).take();
        match sample {
            Some(sample) => (rest, Pull::Sample(sample)),
            None => (BufferView { finished: true, ..rest }, Pull::End),
        }
    }

    /// What a buffer past pre-roll does with a pull.
    pub open spec fn play(self, feed: Feed<T>) -> (Self, Pull<T>) {
        if self.buffered.len() > 0 {
            self.serve(feed.late)
        } else {
            match feed.starved {
                Arrival::Block(block) => self.starved_block(block),
                Arrival::TimedOut => self.starved_timeout(),
                Arrival::Closed => self.starved_closed(feed.late),
            }
        }
    }

    /// One pull: the buffer after it and what it gives, where the channel
    /// answers as `feed` says.
    pub open spec fn step(self, feed: Feed<T>) -> (Self, Pull<T>) {
        match self.stage() {
            Stage::Ended => (self, Pull::End),
            Stage::Preroll => {
                let gathered = self.preroll(feed.preroll);
                if gathered.primed {
                    gathered.play(feed)
                } else {
                    (gathered, Pull::Retry)
                }
            },
            _ => self.play(feed),
        }
    }
}

/// Whether a pull that found the buffer as `before` and got the answers
/// `feed` from the channel leaves it as `after` and gives `pull`.
pub open spec fn pulled<T>(before: BufferView<T>, feed: Feed<T>, after: BufferView<T>, pull: Pull<T>) -> bool {
    (after, pull) == before.step(feed)
}

/// What the channel answers to the questions one pull may ask of it.
pub struct Feed<T> {
    /// The answer to a wait during pre-roll.
    pub preroll: Arrival<T>,
    /// The answer to a wait with an empty buffer.
    pub starved: Arrival<T>,
    /// The blocks found when the channel is emptied without waiting.
    pub late: Seq<Seq<T>>,
}

/// The queue of samples between the channel and the audio side, with the
/// flags that say which regime it is in.
pub struct StreamingBuffer<T> {
    buffer: VecDeque<T>,
    threshold: usize,
    primed: bool,
    finished: bool,
}

impl<T> View for StreamingBuffer<T> {
    type V = BufferView<T>;

    closed spec fn view(&self) -> BufferView<T> {
        BufferView {
            buffered: self.buffer@,
            threshold: self.threshold,
            primed: self.primed,
            finished: self.finished,
        }
    }
}

impl<T: Copy> StreamingBuffer<T> {
    /// An empty buffer that gathers `threshold` samples before it plays.
    pub fn new(threshold: usize) -> (buffer: Self)
        ensures
            buffer@ == BufferView::<T>::fresh(threshold),
    {
        StreamingBuffer {
            buffer: VecDeque::new(),
            threshold,
            primed: threshold == 0,
            finished: false,
        }
    }

    /// Where the buffer stands.
    pub fn stage(&self) -> (stage: Stage)
        ensures
            stage == self@.stage(),
    {
        if self.finished {
            Stage::Ended
        } else if !self.primed {
            Stage::Preroll
        } else if self.buffer.len() > 0 {
            Stage::Ready
        } else {
            Stage::Starved
        }
    }

    /// How many samples are at hand.
    pub fn len(&self) -> (n: usize)
        ensures
            n == self@.buffered.len(),
    {
        self.buffer.len()
    }

    /// Takes `block` in behind what is at hand.
    pub fn absorb(&mut self, block: &Vec<T>)
        ensures
            final(self)@ == old(self)@.absorb(block@),
    {
        let held = self.buffer.len();
        if held >= self.threshold || block.len() >= self.threshold - held {
            self.primed = true;
        }
        let n = block.len();
        let mut i: usize = 0;
        while i < n
            invariant
                n == block@.len(),
                i <= n,
                self.buffer@ == old(self).buffer@ + block@.subrange(0, i as int),
                self.threshold == old(self).threshold,
                self.finished == old(self).finished,
                self.primed == (old(self).primed || old(self).buffer@.len() + n >= self.threshold),
            decreases n - i,
        {
            self.buffer.push_back(block[i]);
            i = i + 1;
            assert(self.buffer@ =~= old(self).buffer@ + block@.subrange(0, i as int));
        }
        assert(block@.subrange(0, n as int) =~= block@);
    }

    /// Takes the blocks `blocks` in, first to last.
    pub fn absorb_all(&mut self, blocks: &Vec<Vec<T>>)
        ensures
            final(self)@ == old(self)@.absorb_all(views(blocks@)),
    {
        let n = blocks.len();
        let mut i: usize = 0;
        while i < n
            invariant
                n == blocks@.len(),
                i <= n,
                self@ == old(self)@.absorb_all(views(blocks@).subrange(0, i as int)),
            decreases n - i,
        {
            let ghost done = views(blocks@).subrange(0, i as int);
            self.absorb(&blocks[i]);
            i = i + 1;
            proof {
                let now = views(blocks@).subrange(0, i as int);
                assert(now.drop_last() =~= done);
                assert(now.last() == blocks@[i - 1]@);
            }
        }
        assert(views(blocks@).subrange(0, n as int) =~= views(blocks@));
    }

    /// Hands out the oldest sample, if there is one.
    pub fn take(&mut self) -> (sample: Option<T>)
        ensures
            (final(self)@, sample) == old(self)@.take(),
    {
        let sample = self.buffer.pop_front();
        proof {
            if sample is Some {
                assert(self.buffer@ =~= old(self).buffer@.drop_first());
            }
        }
        sample
    }

    /// Takes the outcome of a wait during pre-roll into account.
    pub fn preroll(&mut self, outcome: RecvOutcome<T>)
        ensures
            final(self)@ == old(self)@.preroll(outcome@),
    {
        match outcome {
            RecvOutcome::Block(block) => self.absorb(&block),
            RecvOutcome::TimedOut => {},
            RecvOutcome::Closed => {
                self.primed = true;
            },
        }
    }

    /// Steady state: takes in the blocks that arrived meanwhile and hands
    /// out the oldest sample.
    pub fn serve(&mut self, late: Vec<Vec<T>>) -> (pull: Pull<T>)
        ensures
            (final(self)@, pull) == old(self)@.serve(views(late@)),
    {
        self.absorb_all(&late);
        match self.take() {
            Some(sample) => Pull::Sample(sample),
            None => Pull::Retry,
        }
    }

    /// Underrun, and `block` came in time.
    pub fn starved_block(&mut self, block: Vec<T>) -> (pull: Pull<T>)
        ensures
            (final(self)@, pull) == old(self)@.starved_block(block@),
    {
        self.absorb(&block);
        match self.take() {
            Some(sample) => Pull::Sample(sample),
            None => Pull::Retry,
        }
    }

    /// Underrun, and no block came in time.
    pub fn starved_timeout(&mut self) -> (pull: Pull<T>)
        ensures
            (final(self)@, pull) == old(self)@.starved_timeout(),
    {
        Pull::Silence
    }

    /// Underrun, and the generator is done; `late` is what the channel
    /// still held.
    pub fn starved_closed(&mut self, late: Vec<Vec<T>>) -> (pull: Pull<T>)
        ensures
            (final(self)@, pull) == old(self)@.starved_closed(views(late@)),
    {
        self.absorb_all(&late);
        match self.take() {
            Some(sample) => Pull::Sample(sample),
            None => {
                self.finished = true;
                Pull::End
            },
        }
    }
}


#[verifier::external_type_specification]
#[verifier::external_body]
#[verifier::reject_recursive_types(T)]
pub struct ExReceiver<T>(Receiver<T>);

#[verifier::external_type_specification]
#[verifier::external_body]
#[verifier::reject_recursive_types(T)]
pub struct ExSender<T>(Sender<T>);

/// `crossbeam_channel::Receiver::recv_timeout`: waits up to `millis`
/// milliseconds for a block. Nothing is claimed of the outcome: it depends
/// on what the other end does and when.
#[verifier::external_body]
fn recv_within<T>(rx: &Receiver<Vec<T>>, millis: u64) -> (outcome: RecvOutcome<T>) {
    match rx.recv_timeout(std::time::Duration::from_millis(millis)) {
        Ok(block) => RecvOutcome::Block(block),
        Err(crossbeam_channel::RecvTimeoutError::Timeout) => RecvOutcome::TimedOut,
        Err(crossbeam_channel::RecvTimeoutError::Disconnected) => RecvOutcome::Closed,
    }
}

/// `crossbeam_channel::Receiver::try_iter`: the blocks that can be had
/// without waiting, in the order in which they were sent. Nothing is
/// claimed of how many there are.
#[verifier::external_body]
fn drain_ready<T>(rx: &Receiver<Vec<T>>) -> (blocks: Vec<Vec<T>>) {
    rx.try_iter().collect()
}

/// `crossbeam_channel::Sender::send`: hands `block` to the channel, waiting
/// for room if it is full. The result says whether the block was taken; it
/// was not if the receiving end is gone.
#[verifier::external_body]
fn send_block<T>(tx: &Sender<Vec<T>>, block: Vec<T>) -> (delivered: bool) {
    tx.send(block).is_ok()
}

/// `crossbeam_channel::bounded`: a channel that holds up to `capacity`
/// blocks.
#[verifier::external_body]
fn bounded_blocks<T>(capacity: usize) -> (ends: (Sender<Vec<T>>, Receiver<Vec<T>>)) {
    crossbeam_channel::bounded(capacity)
}

/// A source as plain values.
pub struct SourceView<T> {
    pub buffer: BufferView<T>,
    pub sample_rate: u32,
}

/// The pull side of a stream: the receiving end of the channel and the
/// buffer behind it.
#[verifier::reject_recursive_types(T)]
pub struct StreamingSource<T> {
    rx: Receiver<Vec<T>>,
    buffer: StreamingBuffer<T>,
    sample_rate: u32,
}

impl<T> View for StreamingSource<T> {
    type V = SourceView<T>;

    closed spec fn view(&self) -> SourceView<T> {
        SourceView { buffer: self.buffer@, sample_rate: self.sample_rate }
    }
}

impl<T: Copy> StreamingSource<T> {
    /// A source on `rx` that gathers the usual minimum before it plays.
    pub fn new(rx: Receiver<Vec<T>>, sample_rate: u32) -> (source: Self)
        ensures
            source@ == (SourceView {
                buffer: BufferView::<T>::fresh(MIN_BUFFER_SAMPLES),
                sample_rate,
            }),
    {
        Self::with_threshold(rx, sample_rate, MIN_BUFFER_SAMPLES)
    }

    /// A source on `rx` that gathers `threshold` samples before it plays.
    pub fn with_threshold(rx: Receiver<Vec<T>>, sample_rate: u32, threshold: usize) -> (source: Self)
        ensures
            source@ == (SourceView { buffer: BufferView::<T>::fresh(threshold), sample_rate }),
    {
        StreamingSource { rx, buffer: StreamingBuffer::new(threshold), sample_rate }
    }

    /// One pull. It asks the channel what the regime calls for: during
    /// pre-roll one wait for a block; with samples at hand, whatever has
    /// arrived meanwhile, without waiting; with none at hand, one short wait
    /// and, if the generator is done, what the channel still holds. What
    /// comes of it is what `BufferView::step` says for the answers the
    /// channel gave.
    pub fn pull(&mut self) -> (pull: Pull<T>)
        ensures
            final(self)@.sample_rate == old(self)@.sample_rate,
            exists|feed: Feed<T>| #[trigger] pulled(old(self)@.buffer, feed, final(self)@.buffer, pull),
    {
        let ghost mut preroll: Arrival<T> = Arrival::TimedOut;
        match self.buffer.stage() {
            Stage::Ended => {
                proof {
                    let feed = Feed { preroll, starved: Arrival::TimedOut, late: Seq::empty() };
                    assert(pulled(old(self)@.buffer, feed, self@.buffer, Pull::<T>::End));
                }
                return Pull::End;
            },
            Stage::Preroll => {
                let outcome = recv_within(&self.rx, BUFFER_FILL_TIMEOUT_MS);
                proof {
                    preroll = outcome@;
                }
                self.buffer.preroll(outcome);
                match self.buffer.stage() {
                    Stage::Preroll => {
                        proof {
                            let feed = Feed { preroll, starved: Arrival::TimedOut, late: Seq::empty() };
                            assert(pulled(old(self)@.buffer, feed, self@.buffer, Pull::<T>::Retry));
                        }
                        return Pull::Retry;
                    },
                    _ => {},
                }
            },
            _ => {},
        }
        let ghost gathered = self.buffer@;
        if self.buffer.len() > 0 {
            let late = drain_ready(&self.rx);
            let pull = self.buffer.serve(late);
            proof {
                let feed = Feed { preroll, starved: Arrival::TimedOut, late: views(late@) };
                assert((self.buffer@, pull) == gathered.play(feed));
                assert(pulled(old(self)@.buffer, feed, self@.buffer, pull));
            }
            pull
        } else {
            match recv_within(&self.rx, UNDERRUN_TIMEOUT_MS) {
                RecvOutcome::Block(block) => {
                    let pull = self.buffer.starved_block(block);
                    proof {
                        let feed = Feed {
                            preroll,
                            starved: Arrival::Block(block@),
                            late: Seq::empty(),
                        };
                        assert((self.buffer@, pull) == gathered.play(feed));
                        assert(pulled(old(self)@.buffer, feed, self@.buffer, pull));
                    }
                    pull
                },
                RecvOutcome::TimedOut => {
                    let pull = self.buffer.starved_timeout();
                    proof {
                        let feed = Feed { preroll, starved: Arrival::TimedOut, late: Seq::empty() };
                        assert((self.buffer@, pull) == gathered.play(feed));
                        assert(pulled(old(self)@.buffer, feed, self@.buffer, pull));
                    }
                    pull
                },
                RecvOutcome::Closed => {
                    let late = drain_ready(&self.rx);
                    let pull = self.buffer.starved_closed(late);
                    proof {
                        let feed = Feed { preroll, starved: Arrival::Closed, late: views(late@) };
                        assert((self.buffer@, pull) == gathered.play(feed));
                        assert(pulled(old(self)@.buffer, feed, self@.buffer, pull));
                    }
                    pull
                },
            }
        }
    }

    /// Samples per second.
    pub fn sample_rate(&self) -> (rate: u32)
        ensures
            rate == self@.sample_rate,
    {
        self.sample_rate
    }

    /// The number of channels: the stream is mono.
    pub fn channels(&self) -> (n: u16)
        ensures
            n == 1,
    {
        1
    }

    /// The length of the current frame: unknown, since the stream is live.
    pub fn current_frame_len(&self) -> (len: Option<usize>)
        ensures
            len is None,
    {
        None
    }

    /// Where the buffer stands.
    pub fn stage(&self) -> (stage: Stage)
        ensures
            stage == self@.buffer.stage(),
    {
        self.buffer.stage()
    }

    /// How many samples are at hand.
    pub fn buffered(&self) -> (n: usize)
        ensures
            n == self@.buffer.buffered.len(),
    {
        self.buffer.len()
    }
}

/// Whether a generator goes on.
#[derive(Clone, Copy, Debug, PartialEq, Eq, Structural)]
pub enum Verdict {
    /// The block was taken: make the next one.
    Continue,
    /// Nobody listens any more: stop generating.
    Stop,
}

/// What a generator does after it tried to hand on a block.
pub open spec fn verdict_of(delivered: bool) -> Verdict {
    if delivered {
        Verdict::Continue
    } else {
        Verdict::Stop
    }
}

/// The push side of a stream. Once a block could not be handed on, the
/// producer is stopped and hands on nothing more.
#[verifier::reject_recursive_types(T)]
pub struct StreamProducer<T> {
    tx: Sender<Vec<T>>,
    stopped: bool,
}

impl<T> StreamProducer<T> {
    /// Whether the producer has stopped.
    pub closed spec fn is_stopped(&self) -> bool {
        self.stopped
    }

    /// Whether the producer has stopped.
    pub fn stopped(&self) -> (yes: bool)
        ensures
            yes == self.is_stopped(),
    {
        self.stopped
    }

    /// Takes note of how the handing on of a block went.
    pub fn sent(&mut self, delivered: bool) -> (verdict: Verdict)
        ensures
            verdict == verdict_of(delivered && !old(self).is_stopped()),
            final(self).is_stopped() == (old(self).is_stopped() || !delivered),
    {
        if !delivered {
            self.stopped = true;
        }
        if self.stopped {
            Verdict::Stop
        } else {
            Verdict::Continue
        }
    }

    /// Hands `block` to the source, unless the producer has stopped. The
    /// verdict is `Stop` from the first block on that the source did not
    /// take, and the producer is stopped exactly then.
    pub fn offer(&mut self, block: Vec<T>) -> (verdict: Verdict)
        ensures
            old(self).is_stopped() ==> verdict == Verdict::Stop,
            final(self).is_stopped() == (verdict == Verdict::Stop),
    {
        if self.stopped {
            return Verdict::Stop;
        }
        let delivered = send_block(&self.tx, block);
        self.sent(delivered)
    }
}

/// A fresh stream: the producer for the generator and the source for the
/// audio side, joined by a channel of `STREAM_CHANNEL_BLOCKS` blocks.
pub fn stream_pair<T: Copy>(sample_rate: u32) -> (ends: (StreamProducer<T>, StreamingSource<T>))
    ensures
        !ends.0.is_stopped(),
        ends.1@ == (SourceView {
            buffer: BufferView::<T>::fresh(MIN_BUFFER_SAMPLES),
            sample_rate,
        }),
{
    let (tx, rx) = bounded_blocks(STREAM_CHANNEL_BLOCKS);
    (StreamProducer { tx, stopped: false }, StreamingSource::new(rx, sample_rate))
}


/// The samples of the stream that a pull hands out: one for a sample, none
/// for silence, the end, or a retry.
pub open spec fn yielded<T>(pull: Pull<T>) -> Seq<T> {
    match pull {
        Pull::Sample(sample) => seq![sample],
        _ => Seq::empty(),
    }
}

/// The samples a block brings; none where no block came.
pub open spec fn brought<T>(arrival: Arrival<T>) -> Seq<T> {
    match arrival {
        Arrival::Block(block) => block,
        _ => Seq::empty(),
    }
}

impl<T> BufferView<T> {
    /// The samples that a pull past pre-roll takes off the channel.
    pub open spec fn play_intake(self, feed: Feed<T>) -> Seq<T> {
        if self.buffered.len() > 0 {
            join(feed.late)
        } else {
            match feed.starved {
                Arrival::Block(block) => block,
                Arrival::TimedOut => Seq::empty(),
                Arrival::Closed => join(feed.late),
            }
        }
    }

    /// The samples that one pull takes off the channel.
    pub open spec fn intake(self, feed: Feed<T>) -> Seq<T> {
        match self.stage() {
            Stage::Ended => Seq::empty(),
            Stage::Preroll => {
                let gathered = self.preroll(feed.preroll);
                if gathered.primed {
                    brought(feed.preroll) + gathered.play_intake(feed)
                } else {
                    brought(feed.preroll)
                }
            },
            _ => self.play_intake(feed),
        }
    }

    /// What has ended holds nothing back.
    pub open spec fn settled(self) -> bool {
        self.finished ==> self.buffered.len() == 0
    }
}

/// The buffer after the pulls that get the answers `feeds`, first to last,
/// and what those pulls give.
pub open spec fn run<T>(buffer: BufferView<T>, feeds: Seq<Feed<T>>) -> (BufferView<T>, Seq<Pull<T>>)
    decreases feeds.len(),
{
    if feeds.len() == 0 {
        (buffer, Seq::empty())
    } else {
        let (next, pull) = buffer.step(feeds.first());
        let (last, pulls) = run(next, feeds.drop_first());
        (last, seq![pull] + pulls)
    }
}

/// The samples taken off the channel over a run of pulls, in order.
pub open spec fn run_intake<T>(buffer: BufferView<T>, feeds: Seq<Feed<T>>) -> Seq<T>
    decreases feeds.len(),
{
    if feeds.len() == 0 {
        Seq::empty()
    } else {
        buffer.intake(feeds.first()) + run_intake(
            buffer.step(feeds.first()).0,
            feeds.drop_first(),
        )
    }
}

/// The samples of the stream handed out by `pulls`, in order.
pub open spec fn played<T>(pulls: Seq<Pull<T>>) -> Seq<T>
    decreases pulls.len(),
{
    if pulls.len() == 0 {
        Seq::empty()
    } else {
        yielded(pulls.first()) + played(pulls.drop_first())
    }
}

proof fn lemma_absorb_all<T>(buffer: BufferView<T>, blocks: Seq<Seq<T>>)
    ensures
        buffer.absorb_all(blocks).buffered == buffer.buffered + join(blocks),
        buffer.absorb_all(blocks).threshold == buffer.threshold,
        buffer.absorb_all(blocks).finished == buffer.finished,
        buffer.primed ==> buffer.absorb_all(blocks).primed,
        buffer.wf() ==> buffer.absorb_all(blocks).wf(),
    decreases blocks.len(),
{
    if blocks.len() > 0 {
        lemma_absorb_all(buffer, blocks.drop_last());
        assert(buffer.absorb_all(blocks).buffered =~= buffer.buffered + join(blocks));
    } else {
        assert(buffer.buffered =~= buffer.buffered + join(blocks));
    }
}

proof fn lemma_step_conserves<T>(buffer: BufferView<T>, feed: Feed<T>)
    requires
        buffer.wf(),
        buffer.settled(),
    ensures
        buffer.buffered + buffer.intake(feed) == yielded(buffer.step(feed).1) + buffer.step(feed).0.buffered,
        buffer.step(feed).0.wf(),
        buffer.step(feed).0.settled(),
        buffer.step(feed).0.threshold == buffer.threshold,
{
    let (after, pull) = buffer.step(feed);
    let gathered = if buffer.stage() == Stage::Preroll {
        buffer.preroll(feed.preroll)
    } else {
        buffer
    };
    lemma_absorb_all(gathered, feed.late);
    assert(gathered.buffered =~= buffer.buffered + (if buffer.stage() == Stage::Preroll {
        brought(feed.preroll)
    } else {
        Seq::empty()
    }));
    assert(buffer.buffered + buffer.intake(feed) =~= yielded(pull) + after.buffered);
}

/// Samples are neither lost, made up, nor put out of order. Over any run of
/// pulls, what was at hand at the outset followed by what was taken off the
/// channel equals what was handed out followed by what is still at hand.
/// The threshold stays, and so do the buffer's invariants.
pub proof fn law_samples_are_conserved<T>(buffer: BufferView<T>, feeds: Seq<Feed<T>>)
    requires
        buffer.wf(),
        buffer.settled(),
    ensures
        buffer.buffered + run_intake(buffer, feeds) == played(run(buffer, feeds).1) + run(
            buffer,
            feeds,
        ).0.buffered,
        run(buffer, feeds).0.wf(),
        run(buffer, feeds).0.settled(),
        run(buffer, feeds).0.threshold == buffer.threshold,
        run(buffer, feeds).1.len() == feeds.len(),
    decreases feeds.len(),
{
    if feeds.len() == 0 {
        assert(buffer.buffered + run_intake(buffer, feeds) =~= played(run(buffer, feeds).1) + buffer.buffered);
    } else {
        let (next, pull) = buffer.step(feeds.first());
        lemma_step_conserves(buffer, feeds.first());
        law_samples_are_conserved(next, feeds.drop_first());
        let (last, pulls) = run(next, feeds.drop_first());
        let all = seq![pull] + pulls;
        assert(all.first() == pull);
        assert(all.drop_first() =~= pulls);
        assert(played(all) == yielded(pull) + played(pulls));
        assert(buffer.buffered + run_intake(buffer, feeds) =~= (buffer.buffered + buffer.intake(
            feeds.first(),
        )) + run_intake(next, feeds.drop_first()));
        assert((yielded(pull) + next.buffered) + run_intake(next, feeds.drop_first()) =~= yielded(pull)
            + (next.buffered + run_intake(next, feeds.drop_first())));
        assert(yielded(pull) + (played(pulls) + last.buffered) =~= played(all) + last.buffered);
    }
}

/// A stream that has ended for good has played all it received: over any
/// run of pulls from a fresh buffer after which the stream has ended, the
/// samples handed out are exactly the samples taken off the channel, in
/// order. So a stream that received a sample never ends without one.
pub proof fn law_end_means_all_played<T>(threshold: usize, feeds: Seq<Feed<T>>)
    requires
        run(BufferView::<T>::fresh(threshold), feeds).0.finished,
    ensures
        played(run(BufferView::<T>::fresh(threshold), feeds).1) == run_intake(
            BufferView::<T>::fresh(threshold),
            feeds,
        ),
{
    let fresh = BufferView::<T>::fresh(threshold);
    law_samples_are_conserved(fresh, feeds);
    let (last, pulls) = run(fresh, feeds);
    assert(played(pulls) + last.buffered =~= played(pulls));
    assert(fresh.buffered + run_intake(fresh, feeds) =~= run_intake(fresh, feeds));
}

/// The answers of a channel whose generator is done and which holds nothing.
pub open spec fn closed_feed<T>() -> Feed<T> {
    Feed { preroll: Arrival::Closed, starved: Arrival::Closed, late: Seq::empty() }
}

/// The answers to `n` pulls on a channel that is closed and empty.
pub open spec fn closed_feeds<T>(n: nat) -> Seq<Feed<T>> {
    Seq::new(n, |i: int| closed_feed::<T>())
}

/// `n` pulls that ask for a retry.
pub open spec fn retries<T>(n: nat) -> Seq<Pull<T>> {
    Seq::new(n, |i: int| Pull::<T>::Retry)
}

/// The stream's samples `samples` as pulls, followed by the end.
pub open spec fn to_the_end<T>(samples: Seq<T>) -> Seq<Pull<T>> {
    samples.map_values(|sample: T| Pull::Sample(sample)).push(Pull::End)
}

/// After the generator is done the source drains and ends. With the channel
/// closed and empty, a buffer that holds `n` samples gives exactly those
/// `n` samples over the next `n` pulls, in order, and the end on the pull
/// after; it never asks for a retry, never plays silence, and the stream
/// has then ended for good.
pub proof fn law_drains_after_close<T>(buffer: BufferView<T>)
    requires
        !buffer.finished,
    ensures
        run(
            buffer,
            closed_feeds((buffer.buffered.len() + 1) as nat),
        ).1 == to_the_end(buffer.buffered),
        run(buffer, closed_feeds((buffer.buffered.len() + 1) as nat)).0.finished,
        run(
            buffer,
            closed_feeds((buffer.buffered.len() + 1) as nat),
        ).0.buffered.len() == 0,
        forall|feed: Feed<T>|
            (#[trigger] run(
                buffer,
                closed_feeds((buffer.buffered.len() + 1) as nat),
            ).0.step(feed)).1 == Pull::<T>::End,
    decreases buffer.buffered.len(),
{
    let n = buffer.buffered.len();
    let feeds = closed_feeds((n + 1) as nat);
    let (next, pull) = buffer.step(closed_feed());
    assert(feeds.first() == closed_feed::<T>());
    if n == 0 {
        assert(feeds.drop_first() =~= Seq::<Feed<T>>::empty());
        assert(run(next, feeds.drop_first()) == (next, Seq::<Pull<T>>::empty()));
        assert(pull == Pull::<T>::End);
        assert(run(buffer, feeds).1 =~= to_the_end(buffer.buffered));
    } else {
        assert(next.buffered == buffer.buffered.drop_first());
        assert(feeds.drop_first() =~= closed_feeds((next.buffered.len() + 1) as nat));
        law_drains_after_close(next);
        assert(run(buffer, feeds).1 =~= to_the_end(buffer.buffered));
    }
}

/// The answers of the channel to a pull during pre-roll whose wait brought
/// `arrival`.
pub open spec fn waiting_feed<T>(arrival: Arrival<T>) -> Feed<T> {
    Feed { preroll: arrival, starved: Arrival::TimedOut, late: Seq::empty() }
}

/// The answers of the channel to the pulls during pre-roll whose waits
/// brought `arrivals`.
pub open spec fn waiting_feeds<T>(arrivals: Seq<Arrival<T>>) -> Seq<Feed<T>> {
    arrivals.map_values(|a: Arrival<T>| waiting_feed(a))
}

/// All samples that `arrivals` bring, in order.
pub open spec fn gathered<T>(arrivals: Seq<Arrival<T>>) -> Seq<T>
    decreases arrivals.len(),
{
    if arrivals.len() == 0 {
        Seq::empty()
    } else {
        brought(arrivals.first()) + gathered(arrivals.drop_first())
    }
}

/// Whether the generator is still there through all of `arrivals`.
pub open spec fn all_open<T>(arrivals: Seq<Arrival<T>>) -> bool {
    forall|i: int| 0 <= i < arrivals.len() ==> !(#[trigger] arrivals[i] is Closed)
}

proof fn lemma_run_append<T>(buffer: BufferView<T>, first: Seq<Feed<T>>, then: Seq<Feed<T>>)
    ensures
        run(buffer, first + then).0 == run(run(buffer, first).0, then).0,
        run(buffer, first + then).1 == run(buffer, first).1 + run(run(buffer, first).0, then).1,
    decreases first.len(),
{
    if first.len() == 0 {
        assert(first + then =~= then);
        assert(run(buffer, first).1 + run(buffer, then).1 =~= run(buffer, then).1);
    } else {
        let all = first + then;
        assert(all.first() == first.first());
        assert(all.drop_first() =~= first.drop_first() + then);
        let next = buffer.step(first.first()).0;
        lemma_run_append(next, first.drop_first(), then);
        assert(run(buffer, all).1 =~= run(buffer, first).1 + run(run(buffer, first).0, then).1);
    }
}

proof fn lemma_preroll_gathers<T>(buffer: BufferView<T>, arrivals: Seq<Arrival<T>>)
    requires
        !buffer.finished,
        !buffer.primed,
        all_open(arrivals),
        buffer.buffered.len() + gathered(arrivals).len() < buffer.threshold,
    ensures
        run(buffer, waiting_feeds(arrivals)).0 == (BufferView {
            buffered: buffer.buffered + gathered(arrivals),
            ..buffer
        }),
        run(buffer, waiting_feeds(arrivals)).1 == retries::<T>(arrivals.len()),
    decreases arrivals.len(),
{
    let feeds = waiting_feeds(arrivals);
    if arrivals.len() == 0 {
        assert(buffer.buffered + gathered(arrivals) =~= buffer.buffered);
        assert(run(buffer, feeds).1 =~= retries::<T>(arrivals.len()));
    } else {
        let rest = arrivals.drop_first();
        assert(!(arrivals[0] is Closed));
        assert(all_open(rest)) by {
            assert forall|i: int| 0 <= i < rest.len() implies !(#[trigger] rest[i] is Closed) by {
                assert(rest[i] == arrivals[i + 1]);
            }
        }
        assert(feeds.first() == waiting_feed(arrivals.first()));
        assert(feeds.drop_first() =~= waiting_feeds(rest));
        let next = buffer.step(feeds.first()).0;
        assert(next.buffered == buffer.buffered + brought(arrivals.first()));
        lemma_preroll_gathers(next, rest);
        assert((buffer.buffered + brought(arrivals.first())) + gathered(rest) =~= buffer.buffered
            + gathered(arrivals));
        assert(run(buffer, feeds).1 =~= retries::<T>(arrivals.len()));
    }
}

/// A stream too short for pre-roll still plays in full. If the waits of
/// pre-roll bring blocks and timeouts that stay below the threshold and the
/// generator is then done, every pull during those waits asks for a retry,
/// and the pulls after them give exactly the samples that were sent, in
/// order, and then the end.
pub proof fn law_short_stream_plays_in_full<T>(threshold: usize, arrivals: Seq<Arrival<T>>)
    requires
        all_open(arrivals),
        gathered(arrivals).len() < threshold,
    ensures
        run(
            BufferView::<T>::fresh(threshold),
            waiting_feeds(arrivals) + closed_feeds((gathered(arrivals).len() + 1) as nat),
        ).1 == retries::<T>(arrivals.len()) + to_the_end(gathered(arrivals)),
        run(
            BufferView::<T>::fresh(threshold),
            waiting_feeds(arrivals) + closed_feeds((gathered(arrivals).len() + 1) as nat),
        ).0.finished,
{
    let fresh = BufferView::<T>::fresh(threshold);
    let waits = waiting_feeds(arrivals);
    assert(fresh.buffered + gathered(arrivals) =~= gathered(arrivals));
    lemma_preroll_gathers(fresh, arrivals);
    let held = run(fresh, waits).0;
    assert(held.buffered =~= gathered(arrivals));
    law_drains_after_close(held);
    lemma_run_append(fresh, waits, closed_feeds((gathered(arrivals).len() + 1) as nat));
}

/// Pre-roll holds back. While it lasts a pull hands out nothing: as long
/// as pre-roll is not over after its wait it asks for a retry, and
/// pre-roll is over only once the threshold is reached or the generator is
/// done.
pub proof fn law_preroll_holds_back<T>(buffer: BufferView<T>, feed: Feed<T>)
    requires
        buffer.wf(),
        buffer.stage() == Stage::Preroll,
    ensures
        !buffer.step(feed).0.primed ==> buffer.step(feed).1 is Retry,
        !(buffer.step(feed).1 is Retry) ==> buffer.step(feed).0.primed,
        buffer.step(feed).0.primed ==> feed.preroll is Closed || buffer.buffered.len() + brought(
            feed.preroll,
        ).len() >= buffer.threshold,
{
    lemma_absorb_all(buffer.preroll(feed.preroll), feed.late);
}

/// The end is the end. A pull reports the end exactly if the stream has
/// then ended for good; that happens only when the channel said that the
/// generator is done and nothing is left at hand; and from then on every
/// pull reports the end and changes nothing. While the generator lives no
/// pull reports the end.
pub proof fn law_end_is_final<T>(buffer: BufferView<T>, feed: Feed<T>)
    requires
        buffer.settled(),
    ensures
        buffer.step(feed).1 is End <==> buffer.step(feed).0.finished,
        buffer.step(feed).0.finished ==> buffer.step(feed).0.buffered.len() == 0,
        buffer.step(feed).1 is End && !buffer.finished ==> feed.starved is Closed,
        buffer.finished ==> buffer.step(feed) == (buffer, Pull::<T>::End),
{
    let gathered = if buffer.stage() == Stage::Preroll {
        buffer.preroll(feed.preroll)
    } else {
        buffer
    };
    lemma_absorb_all(gathered, feed.late);
}


/// What a channel whose generator is done answers to a wait: its next
/// block if it still holds one, else that it is closed.
pub open spec fn closed_answer<T>(left: Seq<Seq<T>>) -> Arrival<T> {
    if left.len() > 0 {
        Arrival::Block(left.first())
    } else {
        Arrival::Closed
    }
}

/// `left` without the block that a wait took, if it held one.
pub open spec fn after_wait<T>(left: Seq<Seq<T>>) -> Seq<Seq<T>> {
    if left.len() > 0 {
        left.drop_first()
    } else {
        left
    }
}

/// The answers that one pull gets from a channel whose generator is done
/// and which still holds the blocks `left`.
pub open spec fn closed_channel_feed<T>(buffer: BufferView<T>, left: Seq<Seq<T>>) -> Feed<T> {
    let later = if buffer.stage() == Stage::Preroll {
        after_wait(left)
    } else {
        left
    };
    Feed { preroll: closed_answer(left), starved: closed_answer(later), late: later }
}

/// The blocks that the channel still holds after that pull.
pub open spec fn closed_channel_rest<T>(buffer: BufferView<T>, left: Seq<Seq<T>>) -> Seq<Seq<T>> {
    match buffer.stage() {
        Stage::Ended => left,
        Stage::Preroll => {
            let gathered = buffer.preroll(closed_answer(left));
            if !gathered.primed {
                after_wait(left)
            } else if gathered.buffered.len() > 0 {
                Seq::empty()
            } else {
                after_wait(after_wait(left))
            }
        },
        _ => if buffer.buffered.len() > 0 {
            Seq::empty()
        } else {
            after_wait(left)
        },
    }
}

/// The buffer after `n` pulls on a channel whose generator is done and
/// which holds the blocks `left` at the outset, and what those pulls give.
pub open spec fn closed_run<T>(buffer: BufferView<T>, left: Seq<Seq<T>>, n: nat) -> (
    BufferView<T>,
    Seq<Pull<T>>,
)
    decreases n,
{
    if n == 0 {
        (buffer, Seq::empty())
    } else {
        let (next, pull) = buffer.step(closed_channel_feed(buffer, left));
        let (last, pulls) = closed_run(next, closed_channel_rest(buffer, left), (n - 1) as nat);
        (last, seq![pull] + pulls)
    }
}

/// What the audio side hears of `pulls`: all but the requests to pull
/// again, which it answers by pulling again.
pub open spec fn heard<T>(pulls: Seq<Pull<T>>) -> Seq<Pull<T>>
    decreases pulls.len(),
{
    if pulls.len() == 0 {
        Seq::empty()
    } else if pulls.first() is Retry {
        heard(pulls.drop_first())
    } else {
        seq![pulls.first()] + heard(pulls.drop_first())
    }
}

/// Whether `pulls` give exactly the samples `samples`, in order, and after
/// them nothing but the end; and at least once the end, where `ended` asks
/// for it.
pub open spec fn plays_out<T>(pulls: Seq<Pull<T>>, samples: Seq<T>, ended: bool) -> bool {
    &&& pulls.len() >= samples.len()
    &&& forall|i: int| 0 <= i < samples.len() ==> #[trigger] pulls[i] == Pull::Sample(samples[i])
    &&& forall|i: int| samples.len() <= i < pulls.len() ==> #[trigger] pulls[i] == Pull::<T>::End
    &&& ended ==> pulls.len() > samples.len()
}

proof fn lemma_join_front<T>(blocks: Seq<Seq<T>>)
    requires
        blocks.len() > 0,
    ensures
        join(blocks) == blocks.first() + join(blocks.drop_first()),
    decreases blocks.len(),
{
    if blocks.len() == 1 {
        assert(blocks.drop_last() =~= Seq::<Seq<T>>::empty());
        assert(blocks.drop_first() =~= Seq::<Seq<T>>::empty());
        assert(join(blocks.drop_last()) =~= Seq::<T>::empty());
        assert(join(blocks) =~= blocks.first() + join(blocks.drop_first()));
    } else {
        lemma_join_front(blocks.drop_last());
        assert(blocks.drop_last().drop_first() =~= blocks.drop_first().drop_last());
        assert(blocks.drop_last().first() == blocks.first());
        assert(blocks.drop_first().last() == blocks.last());
        assert(join(blocks) =~= blocks.first() + join(blocks.drop_first()));
    }
}

proof fn lemma_closed_step<T>(buffer: BufferView<T>, left: Seq<Seq<T>>)
    requires
        buffer.settled(),
        !buffer.finished,
    ensures
        ({
            let (next, pull) = buffer.step(closed_channel_feed(buffer, left));
            let rest = closed_channel_rest(buffer, left);
            let all = buffer.buffered + join(left);
            &&& next.settled()
            &&& rest.len() <= left.len()
            &&& match pull {
                Pull::Sample(sample) => all.len() > 0 && sample == all[0] && !next.finished
                    && next.buffered + join(rest) == all.drop_first(),
                Pull::Retry => !next.finished && rest.len() < left.len() && next.buffered + join(rest)
                    == all,
                Pull::End => next.finished && all.len() == 0,
                Pull::Silence => false,
            }
        }),
{
    let feed = closed_channel_feed(buffer, left);
    let (next, pull) = buffer.step(feed);
    let rest = closed_channel_rest(buffer, left);
    let all = buffer.buffered + join(left);
    let later = feed.late;
    if left.len() > 0 {
        lemma_join_front(left);
    } else {
        assert(join(left) =~= Seq::<T>::empty());
    }
    if later.len() > 0 {
        lemma_join_front(later);
    } else {
        assert(join(later) =~= Seq::<T>::empty());
    }
    let gathered = if buffer.stage() == Stage::Preroll {
        buffer.preroll(feed.preroll)
    } else {
        buffer
    };
    lemma_absorb_all(gathered, later);
    assert(gathered.buffered + join(later) =~= all);
    assert(join(Seq::<Seq<T>>::empty()) =~= Seq::<T>::empty());
    if buffer.stage() == Stage::Preroll && !gathered.primed {
        assert(next.buffered + join(rest) =~= all);
    } else if gathered.buffered.len() > 0 {
        assert(next.buffered + join(rest) =~= all.drop_first());
    } else if later.len() > 0 {
        assert(gathered.buffered + later.first() =~= later.first());
        if later.first().len() > 0 {
            assert(next.buffered + join(rest) =~= all.drop_first());
        } else {
            assert(next.buffered + join(rest) =~= all);
        }
    } else {
        assert(gathered.absorb_all(later) == gathered);
    }
}

proof fn lemma_heard_front<T>(pull: Pull<T>, pulls: Seq<Pull<T>>)
    ensures
        heard(seq![pull] + pulls) == if pull is Retry {
            heard(pulls)
        } else {
            seq![pull] + heard(pulls)
        },
{
    let all = seq![pull] + pulls;
    assert(all.first() == pull);
    assert(all.drop_first() =~= pulls);
}

proof fn lemma_closed_run<T>(buffer: BufferView<T>, left: Seq<Seq<T>>, n: nat)
    requires
        buffer.settled(),
        buffer.finished || n >= buffer.buffered.len() + join(left).len() + left.len() + 1,
    ensures
        n > 0 || buffer.finished ==> closed_run(buffer, left, n).0.finished,
        plays_out(
            heard(closed_run(buffer, left, n).1),
            if buffer.finished {
                Seq::empty()
            } else {
                buffer.buffered + join(left)
            },
            !buffer.finished,
        ),
    decreases n,
{
    if n > 0 {
        let feed = closed_channel_feed(buffer, left);
        let (next, pull) = buffer.step(feed);
        let rest = closed_channel_rest(buffer, left);
        let (last, pulls) = closed_run(next, rest, (n - 1) as nat);
        lemma_heard_front(pull, pulls);
        if buffer.finished {
            lemma_closed_run(next, rest, (n - 1) as nat);
        } else {
            lemma_closed_step(buffer, left);
            let all = buffer.buffered + join(left);
            assert(all.len() == buffer.buffered.len() + join(left).len());
            assert((next.buffered + join(rest)).len() == next.buffered.len() + join(rest).len());
            assert(next.finished || n - 1 >= next.buffered.len() + join(rest).len() + rest.len() + 1);
            lemma_closed_run(next, rest, (n - 1) as nat);
            let later = heard(pulls);
            match pull {
                Pull::Sample(sample) => {
                    let now = seq![pull] + later;
                    assert forall|i: int| 0 <= i < all.len() implies #[trigger] now[i] == Pull::Sample(
                        all[i],
                    ) by {
                        if i > 0 {
                            assert(now[i] == later[i - 1]);
                            assert(all.drop_first()[i - 1] == all[i]);
                        }
                    }
                    assert forall|i: int| all.len() <= i < now.len() implies #[trigger] now[i]
                        == Pull::<T>::End by {
                        assert(now[i] == later[i - 1]);
                    }
                },
                Pull::Retry => {},
                Pull::End => {
                    let now = seq![pull] + later;
                    assert forall|i: int| all.len() <= i < now.len() implies #[trigger] now[i]
                        == Pull::<T>::End by {
                        if i > 0 {
                            assert(now[i] == later[i - 1]);
                        }
                    }
                },
                Pull::Silence => {},
            }
        }
    } else {
        assert(heard(closed_run(buffer, left, n).1) =~= Seq::<Pull<T>>::empty());
    }
}

/// After the generator is done the source plays all that is left and ends,
/// whatever the channel still holds. With the channel closed, `left` the
/// blocks not yet received and the buffer not yet at its end, enough pulls
/// give the audio side exactly the samples at hand followed by the samples
/// of `left`, in order, then the end, and after the end nothing but the
/// end. No pull gives silence, and every request to pull again takes a
/// block off the channel, so their number is at most that of the blocks.
pub proof fn law_closed_channel_plays_out<T>(buffer: BufferView<T>, left: Seq<Seq<T>>, n: nat)
    requires
        buffer.settled(),
        !buffer.finished,
        n >= buffer.buffered.len() + join(left).len() + left.len() + 1,
    ensures
        closed_run(buffer, left, n).0.finished,
        plays_out(heard(closed_run(buffer, left, n).1), buffer.buffered + join(left), true),
{
    lemma_closed_run(buffer, left, n);
}

} // verus!
