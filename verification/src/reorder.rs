//! The session-scoped queue that puts chunks back in order.
//!
//! Chunks are generated by independent workers and may finish in any order.
//! The queue keeps them by sequence index and hands them on strictly in
//! ascending order: only the chunk whose index equals the watermark leaves,
//! and the watermark then moves on by one. A missing index stalls the queue
//! until it arrives or the session ends.

use crate::session::SessionState;
use std::collections::BTreeMap;
use vstd::prelude::*;

verus! {

/// The queue as plain values: the session it serves, the chunks that wait,
/// and the index that is due next.
pub struct QueueView<P> {
    pub session: Option<Seq<char>>,
    pub pending: Map<usize, P>,
    pub watermark: usize,
}

impl<P> QueueView<P> {
    /// The queue of nobody: no session, nothing waiting.
    pub open spec fn idle() -> Self {
        QueueView { session: None, pending: Map::empty(), watermark: 0 }
    }

    /// The queue at the start of session `token`.
    pub open spec fn fresh(token: Seq<char>) -> Self {
        QueueView { session: Some(token), pending: Map::empty(), watermark: 0 }
    }

    /// Whether a chunk tagged `token` is taken in.
    pub open spec fn accepts(self, token: Seq<char>) -> bool {
        self.session == Some(token)
    }

    /// The queue after a chunk tagged `token` was offered. One for another
    /// session leaves no trace.
    pub open spec fn submit(self, token: Seq<char>, index: usize, payload: P) -> Self {
        if self.accepts(token) {
            QueueView { pending: self.pending.insert(index, payload), ..self }
        } else {
            self
        }
    }

    /// Whether the chunk that is due has arrived.
    pub open spec fn has_ready(self) -> bool {
        self.watermark < usize::MAX && self.pending.contains_key(self.watermark)
    }

    /// The queue after the due chunk left, where there is one.
    pub open spec fn advance(self) -> Self {
        if self.has_ready() {
            QueueView {
                pending: self.pending.remove(self.watermark),
                watermark: (self.watermark + 1) as usize,
                ..self
            }
        } else {
            self
        }
    }

    /// What leaves when the due chunk is asked for.
    pub open spec fn due(self) -> Option<(usize, P)> {
        if self.has_ready() {
            Some((self.watermark, self.pending[self.watermark]))
        } else {
            None
        }
    }

    /// Whether exactly the `n` indices from the watermark on have arrived
    /// and the one after them has not (or cannot exist).
    pub open spec fn run_is(self, n: nat) -> bool {
        &&& self.watermark + n <= usize::MAX
        &&& forall|i: nat| i < n ==> #[trigger] self.pending.contains_key((self.watermark + i) as usize)
        &&& (self.watermark + n < usize::MAX ==> !self.pending.contains_key(
            (self.watermark + n) as usize,
        ))
    }

    /// Whether the `n` indices from the watermark on have arrived.
    pub open spec fn run_is_prefix(self, n: nat) -> bool {
        &&& self.watermark + n <= usize::MAX
        &&& forall|i: nat| i < n ==> #[trigger] self.pending.contains_key((self.watermark + i) as usize)
    }

    /// The `n` chunks from the watermark on, in order.
    pub open spec fn run(self, n: nat) -> Seq<(usize, P)> {
        Seq::new(
            n,
            |i: int| ((self.watermark + i) as usize, self.pending[(self.watermark + i) as usize]),
        )
    }

    /// The queue after the `n` chunks from the watermark on left.
    pub open spec fn after_run(self, n: nat) -> Self {
        QueueView {
            pending: self.pending.remove_keys(
                Set::new(|k: usize| self.watermark <= k < self.watermark + n),
            ),
            watermark: (self.watermark + n) as usize,
            ..self
        }
    }
}

/// Chunks of one session, kept by index until their turn comes.
pub struct ChunkReorderQueue<P> {
    session: SessionState,
    pending: BTreeMap<usize, P>,
    watermark: usize,
}

impl<P> View for ChunkReorderQueue<P> {
    type V = QueueView<P>;

    closed spec fn view(&self) -> QueueView<P> {
        QueueView { session: self.session@, pending: self.pending@, watermark: self.watermark }
    }
}

impl<P> ChunkReorderQueue<P> {
    /// A queue that serves no session yet.
    pub fn new() -> (queue: Self)
        ensures
            queue@ == QueueView::<P>::idle(),
    {
        ChunkReorderQueue { session: SessionState::new(), pending: BTreeMap::new(), watermark: 0 }
    }

    /// Binds the queue to session `token`: what waited for an earlier
    /// session is dropped and the watermark returns to zero.
    pub fn start_session(&mut self, token: String)
        ensures
            final(self)@ == QueueView::<P>::fresh(token@),
    {
        self.session.start(token);
        self.pending.clear();
        self.watermark = 0;
    }

    /// Ends the session: nothing waits, nothing is accepted.
    pub fn stop(&mut self)
        ensures
            final(self)@ == QueueView::<P>::idle(),
    {
        self.session.clear();
        self.pending.clear();
        self.watermark = 0;
    }

    /// Offers the chunk `index` of session `token`. It is kept if `token`
    /// is the session the queue serves, and dropped otherwise; the result
    /// says which.
    pub fn submit(&mut self, token: &String, index: usize, payload: P) -> (accepted: bool)
        ensures
            accepted == old(self)@.accepts(token@),
            final(self)@ == old(self)@.submit(token@, index, payload),
    {
        if self.session.is_current(token) {
            self.pending.insert(index, payload);
            true
        } else {
            false
        }
    }

    /// Releases the chunk at the watermark, if it has arrived, and moves
    /// the watermark past it.
    pub fn pop_ready(&mut self) -> (chunk: Option<(usize, P)>)
        ensures
            chunk == old(self)@.due(),
            final(self)@ == old(self)@.advance(),
    {
        if self.watermark == usize::MAX {
            return None;
        }
        let index = self.watermark;
        match self.pending.remove(&index) {
            Some(payload) => {
                self.watermark = index + 1;
                Some((index, payload))
            },
            None => {
                assert(self.pending@ =~= old(self).pending@);
                None
            },
        }
    }

    /// Releases every chunk that is ready: those at the watermark, the
    /// watermark plus one, and so on up to the first gap.
    pub fn take_ready(&mut self) -> (chunks: Vec<(usize, P)>)
        ensures
            old(self)@.run_is(chunks@.len()),
            chunks@ == old(self)@.run(chunks@.len()),
            final(self)@ == old(self)@.after_run(chunks@.len()),
    {
        let mut chunks: Vec<(usize, P)> = Vec::new();
        let ghost start = self@;
        assert(self@.pending =~= start.after_run(0).pending);
        loop
            invariant
                start == old(self)@,
                start.watermark + chunks@.len() <= usize::MAX,
                forall|i: nat| i < chunks@.len() ==> #[trigger] start.pending.contains_key(
                    (start.watermark + i) as usize,
                ),
                chunks@ == start.run(chunks@.len()),
                self@ == start.after_run(chunks@.len()),
            ensures
                start.run_is(chunks@.len()),
            decreases usize::MAX - self.watermark,
        {
            let ghost before = self@;
            let ghost n = chunks@.len();
            match self.pop_ready() {
                Some(chunk) => {
                    chunks.push(chunk);
                    proof {
                        assert(before.pending[before.watermark] == start.pending[before.watermark]);
                        assert(chunks@ =~= start.run(n + 1));
                        assert(self@.pending =~= start.after_run(n + 1).pending);
                        assert forall|i: nat| i < n + 1 implies #[trigger] start.pending.contains_key(
                            (start.watermark + i) as usize,
                        ) by {
                            if i == n {
                                assert(before.pending.contains_key(before.watermark));
                            }
                        }
                    }
                },
                None => {
                    proof {
                        if start.watermark + n < usize::MAX {
                            assert(!before.pending.contains_key(before.watermark));
                        }
                    }
                    break;
                },
            }
        }
        chunks
    }

    /// The index that is due next.
    pub fn watermark(&self) -> (index: usize)
        ensures
            index == self@.watermark,
    {
        self.watermark
    }

    /// How many chunks wait.
    pub fn pending_len(&self) -> (n: usize)
        ensures
            n == self@.pending.len(),
    {
        self.pending.len()
    }

    /// Whether chunk `index` waits.
    pub fn is_pending(&self, index: usize) -> (yes: bool)
        ensures
            yes == self@.pending.contains_key(index),
    {
        self.pending.contains_key(&index)
    }

    /// Whether `token` is the session the queue serves.
    pub fn serves(&self, token: &String) -> (yes: bool)
        ensures
            yes == self@.accepts(token@),
    {
        self.session.is_current(token)
    }

    /// The session the queue serves, if any.
    pub fn session(&self) -> (token: Option<String>)
        ensures
            token is Some <==> self@.session is Some,
            token matches Some(t) ==> self@.session == Some(t@),
    {
        self.session.current()
    }
}


/// One thing that can happen to a queue within a session.
pub enum QueueOp<P> {
    /// A chunk tagged `token` is offered.
    Submit { token: Seq<char>, index: usize, payload: P },
    /// The due chunk is asked for.
    Release,
}

/// The queue after one operation, and the chunk that left, if one did.
pub open spec fn apply<P>(queue: QueueView<P>, op: QueueOp<P>) -> (QueueView<P>, Option<(usize, P)>) {
    match op {
        QueueOp::Submit { token, index, payload } => (queue.submit(token, index, payload), None),
        QueueOp::Release => (queue.advance(), queue.due()),
    }
}

/// The queue after the operations `ops`, first to last, and the chunks that
/// left on the way, in the order in which they left.
pub open spec fn replay<P>(queue: QueueView<P>, ops: Seq<QueueOp<P>>) -> (QueueView<P>, Seq<(usize, P)>)
    decreases ops.len(),
{
    if ops.len() == 0 {
        (queue, Seq::empty())
    } else {
        let (before, released) = replay(queue, ops.drop_last());
        let (after, left) = apply(before, ops.last());
        match left {
            Some(chunk) => (after, released.push(chunk)),
            None => (after, released),
        }
    }
}

/// Whether `ops` holds the offer of exactly this chunk under this token.
pub open spec fn offered<P>(ops: Seq<QueueOp<P>>, token: Seq<char>, index: usize, payload: P) -> bool {
    exists|j: int|
        0 <= j < ops.len() && #[trigger] ops[j] == (QueueOp::Submit { token, index, payload })
}

proof fn lemma_offered_grows<P>(ops: Seq<QueueOp<P>>, token: Seq<char>, index: usize, payload: P)
    requires
        ops.len() > 0,
        offered(ops.drop_last(), token, index, payload),
    ensures
        offered(ops, token, index, payload),
{
    let j = choose|j: int|
        0 <= j < ops.drop_last().len() && #[trigger] ops.drop_last()[j] == (QueueOp::Submit {
            token,
            index,
            payload,
        });
    assert(ops[j] == ops.drop_last()[j]);
}

/// Chunks leave in index order. Whatever is offered and in whatever order,
/// the chunks released over a run of operations carry the indices
/// watermark, watermark + 1, watermark + 2, ... without gap or repeat, and
/// the watermark ends just past the last of them.
pub proof fn law_release_order<P>(queue: QueueView<P>, ops: Seq<QueueOp<P>>)
    ensures
        replay(queue, ops).0.session == queue.session,
        replay(queue, ops).0.watermark == queue.watermark + replay(queue, ops).1.len(),
        forall|k: int|
            0 <= k < replay(queue, ops).1.len() ==> (#[trigger] replay(queue, ops).1[k]).0
                == queue.watermark + k,
    decreases ops.len(),
{
    if ops.len() > 0 {
        law_release_order(queue, ops.drop_last());
    }
}

/// Where a waiting or released chunk came from: it waited at the outset, or
/// it was offered under the queue's own token.
spec fn accounted<P>(
    queue: QueueView<P>,
    ops: Seq<QueueOp<P>>,
    token: Seq<char>,
    index: usize,
    payload: P,
) -> bool {
    ||| queue.pending.contains_key(index) && queue.pending[index] == payload
    ||| offered(ops, token, index, payload)
}

proof fn lemma_provenance<P>(queue: QueueView<P>, ops: Seq<QueueOp<P>>, token: Seq<char>)
    requires
        queue.session == Some(token),
    ensures
        forall|index: usize| #[trigger]
            replay(queue, ops).0.pending.contains_key(index) ==> accounted(
                queue,
                ops,
                token,
                index,
                replay(queue, ops).0.pending[index],
            ),
        forall|k: int|
            0 <= k < replay(queue, ops).1.len() ==> accounted(
                queue,
                ops,
                token,
                (#[trigger] replay(queue, ops).1[k]).0,
                replay(queue, ops).1[k].1,
            ),
    decreases ops.len(),
{
    if ops.len() > 0 {
        let earlier = ops.drop_last();
        lemma_provenance(queue, earlier, token);
        law_release_order(queue, earlier);
        let (before, released) = replay(queue, earlier);
        let (after, out) = replay(queue, ops);
        assert forall|index: usize| #[trigger] after.pending.contains_key(index) implies accounted(
            queue,
            ops,
            token,
            index,
            after.pending[index],
        ) by {
            let payload = after.pending[index];
            if before.pending.contains_key(index) && before.pending[index] == payload {
                assert(accounted(queue, earlier, token, index, payload));
                if offered(earlier, token, index, payload) {
                    lemma_offered_grows(ops, token, index, payload);
                }
            } else {
                assert(ops[ops.len() - 1] == (QueueOp::Submit { token, index, payload }));
            }
        }
        assert forall|k: int| 0 <= k < out.len() implies accounted(
            queue,
            ops,
            token,
            (#[trigger] out[k]).0,
            out[k].1,
        ) by {
            let (index, payload) = out[k];
            if k < released.len() {
                assert(out[k] == released[k]);
            } else {
                assert(before.pending.contains_key(index));
                assert(before.pending[index] == payload);
            }
            assert(accounted(queue, earlier, token, index, payload));
            if offered(earlier, token, index, payload) {
                lemma_offered_grows(ops, token, index, payload);
            }
        }
    }
}

/// A superseded session is silent. Once session `token` has started, a
/// chunk that arrives under any other token changes nothing, and every
/// chunk that is ever released was offered under `token` after that start.
pub proof fn law_superseded_session_is_silent<P>(token: Seq<char>, ops: Seq<QueueOp<P>>)
    ensures
        forall|stale: Seq<char>, index: usize, payload: P|
            stale != token ==> #[trigger] QueueView::<P>::fresh(token).submit(stale, index, payload)
                == QueueView::<P>::fresh(token),
        forall|k: int|
            0 <= k < replay(QueueView::<P>::fresh(token), ops).1.len() ==> offered(
                ops,
                token,
                (#[trigger] replay(QueueView::<P>::fresh(token), ops).1[k]).0,
                replay(QueueView::<P>::fresh(token), ops).1[k].1,
            ),
{
    lemma_provenance(QueueView::<P>::fresh(token), ops, token);
}

proof fn lemma_prefix_released<P>(queue: QueueView<P>, n: nat)
    requires
        queue.run_is_prefix(n),
    ensures
        replay(queue, Seq::new(n, |i: int| QueueOp::<P>::Release)) == (
            queue.after_run(n),
            queue.run(n),
        ),
    decreases n,
{
    let ops = Seq::new(n, |i: int| QueueOp::<P>::Release);
    if n == 0 {
        assert(queue.after_run(0).pending =~= queue.pending);
        assert(queue.run(0) =~= Seq::empty());
    } else {
        let m = (n - 1) as nat;
        assert(queue.run_is_prefix(m)) by {
            assert forall|i: nat| i < m implies #[trigger] queue.pending.contains_key(
                (queue.watermark + i) as usize,
            ) by {
                assert(i < n);
            }
        }
        lemma_prefix_released(queue, m);
        assert(ops.drop_last() =~= Seq::new(m, |i: int| QueueOp::<P>::Release));
        let before = queue.after_run(m);
        assert(queue.pending.contains_key((queue.watermark + m) as usize));
        assert(before.has_ready());
        assert(before.advance().pending =~= queue.after_run(n).pending);
        assert(queue.run(m).push(before.due()->0) =~= queue.run(n));
    }
}

/// The chunks that are ready leave together and in order: if the queue
/// holds the `n` indices from the watermark on and not the one after them,
/// then `n` releases hand out exactly those chunks and the next one finds
/// nothing.
pub proof fn law_run_is_released<P>(queue: QueueView<P>, n: nat)
    requires
        queue.run_is(n),
    ensures
        replay(queue, Seq::new(n, |i: int| QueueOp::<P>::Release)) == (
            queue.after_run(n),
            queue.run(n),
        ),
        queue.after_run(n).due() is None,
{
    lemma_prefix_released(queue, n);
    if queue.watermark + n < usize::MAX {
        assert(!queue.after_run(n).pending.contains_key(queue.after_run(n).watermark));
    }
}

} // verus!
