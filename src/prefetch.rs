//! The prefetch queue and the decisions of its warming worker.
//!
//! The queue is a FIFO of track identifiers. Requests append to it; one worker removes
//! identifiers one at a time, reads each track's file through once to prime the
//! operating system's cache, and rests a short while between rounds. The worker's
//! decisions are a state machine: it is handed the result of each piece of outside work
//! as an event, and answers with the next piece of work to do.
use vstd::prelude::*;

use crate::auth::{AuthError, Claims};
use crate::error::ApiError;
use crate::text::string_views;

use std::collections::VecDeque;

verus! {

/// The size of the reads with which a track is warmed.
pub const CHUNK_SIZE: usize = 8192;

/// How long the worker rests between rounds, in milliseconds.
pub const POLL_INTERVAL_MS: u64 = 100;

/// The identifiers that successive removals from the head of `q` return, in order.
pub open spec fn drained(q: Seq<Seq<char>>) -> Seq<Seq<char>>
    decreases q.len(),
{
    if q.len() == 0 {
        Seq::empty()
    } else {
        seq![q[0]] + drained(q.drop_first())
    }
}

/// A first-in first-out queue of track identifiers.
pub struct PrefetchQueue {
    items: VecDeque<String>,
}

impl View for PrefetchQueue {
    type V = Seq<Seq<char>>;

    closed spec fn view(&self) -> Seq<Seq<char>> {
        string_views(self.items@)
    }
}

impl PrefetchQueue {
    /// An empty queue.
    pub fn new() -> (q: PrefetchQueue)
        ensures
            q@ == Seq::<Seq<char>>::empty(),
    {
        let q = PrefetchQueue { items: VecDeque::new() };
        assert(q@ =~= Seq::<Seq<char>>::empty());
        q
    }

    /// The number of identifiers waiting.
    pub fn len(&self) -> (r: usize)
        ensures
            r == self@.len(),
    {
        self.items.len()
    }

    /// Appends an identifier at the tail.
    pub fn push_back(&mut self, track_id: String)
        ensures
            final(self)@ == old(self)@.push(track_id@),
    {
        self.items.push_back(track_id);
        assert(self@ =~= old(self)@.push(track_id@));
    }

    /// Removes the identifier at the head, or returns `None` on an empty queue.
    pub fn pop_front(&mut self) -> (r: Option<String>)
        ensures
            match r {
                Some(id) => {
                    &&& old(self)@.len() > 0
                    &&& id@ == old(self)@[0]
                    &&& final(self)@ == old(self)@.drop_first()
                    &&& drained(old(self)@) == seq![id@] + drained(final(self)@)
                },
                None => {
                    &&& old(self)@.len() == 0
                    &&& final(self)@ == old(self)@
                },
            },
    {
        let r = self.items.pop_front();
        proof {
            if r is Some {
                assert(self@ =~= old(self)@.drop_first());
            } else {
                assert(self@ =~= old(self)@);
            }
        }
        r
    }
}

/// The body of a prefetch request.
#[derive(Clone, Debug)]
pub struct PrefetchRequest {
    pub track_ids: Vec<String>,
}

/// Handles a prefetch request: `identity` is the credential verdict, `request` the
/// decoded body (`None`: it was not the expected JSON document). An admitted, well-formed
/// request appends its identifiers to the queue in order; otherwise the queue is left
/// as it was.
pub fn prefetch_tracks(
    identity: &Result<Claims, AuthError>,
    queue: &mut PrefetchQueue,
    request: Option<PrefetchRequest>,
) -> (r: Result<(), ApiError>)
    ensures
        identity is Err ==> r == Err::<(), ApiError>(ApiError::AuthenticationRequired),
        identity is Ok && request is None ==> r == Err::<(), ApiError>(ApiError::MalformedRequest),
        r is Err ==> final(queue)@ == old(queue)@,
        r is Ok <==> identity is Ok && request is Some,
        r is Ok ==> final(queue)@ == old(queue)@ + string_views(request->0.track_ids@),
{
    if identity.is_err() {
        return Err(ApiError::AuthenticationRequired);
    }
    let request = match request {
        Some(request) => request,
        None => {
            return Err(ApiError::MalformedRequest);
        },
    };
    let ghost start = queue@;
    let ids = request.track_ids;
    let mut i: usize = 0;
    assert(string_views(ids@.subrange(0, 0)) =~= Seq::<Seq<char>>::empty());
    while i < ids.len()
        invariant
            0 <= i <= ids@.len(),
            queue@ == start + string_views(ids@.subrange(0, i as int)),
        decreases ids@.len() - i,
    {
        queue.push_back(ids[i].clone());
        i = i + 1;
        assert(queue@ =~= start + string_views(ids@.subrange(0, i as int)));
    }
    assert(ids@.subrange(0, ids@.len() as int) =~= ids@);
    Ok(())
}

/// Where the worker stands in its round.
#[derive(Clone, Debug)]
pub enum WorkerState {
    /// About to take the next identifier from the queue.
    Polling,
    /// Opening the file of the identifier just taken.
    Opening,
    /// Reading through an open file.
    Warming,
    /// Resting before the next round.
    Resting,
}

/// The result of the last piece of outside work.
#[derive(Clone, Debug)]
pub enum WorkerEvent {
    /// The queue was asked for its head.
    Dequeued(Option<String>),
    /// Opening the track's file succeeded (`true`), or the file is missing or could
    /// not be opened.
    Opened(bool),
    /// A read returned this many bytes; zero is the end of the file.
    ChunkRead(usize),
    /// A read failed.
    ReadFailed,
    /// The rest is over.
    Woke,
}

/// The next piece of outside work.
#[derive(Clone, Debug)]
pub enum WorkerAction {
    /// Remove the head of the queue.
    Dequeue,
    /// Open the stored file of this track.
    OpenTrack(String),
    /// Read at most this many bytes from the open file, and discard them.
    ReadChunk(usize),
    /// Close any open file and sleep this many milliseconds.
    Sleep(u64),
}

/// The worker's decisions. Every round ends in a rest, whatever was found; a missing
/// file and a failed read end the warming of a track silently. An event that does not
/// belong to the current state ends the round as well.
pub open spec fn worker_transition(state: WorkerState, event: WorkerEvent) -> (WorkerState, WorkerAction) {
    let rest = (WorkerState::Resting, WorkerAction::Sleep(POLL_INTERVAL_MS));
    match (state, event) {
        (WorkerState::Polling, WorkerEvent::Dequeued(Some(id))) => (
            WorkerState::Opening,
            WorkerAction::OpenTrack(id),
        ),
        (WorkerState::Opening, WorkerEvent::Opened(true)) => (
            WorkerState::Warming,
            WorkerAction::ReadChunk(CHUNK_SIZE),
        ),
        (WorkerState::Warming, WorkerEvent::ChunkRead(n)) => if n > 0 {
            (WorkerState::Warming, WorkerAction::ReadChunk(CHUNK_SIZE))
        } else {
            rest
        },
        (WorkerState::Resting, WorkerEvent::Woke) => (WorkerState::Polling, WorkerAction::Dequeue),
        _ => rest,
    }
}

/// The worker's first action.
pub fn worker_start() -> (r: (WorkerState, WorkerAction))
    ensures
        r == (WorkerState::Polling, WorkerAction::Dequeue),
{
    (WorkerState::Polling, WorkerAction::Dequeue)
}

/// One decision of the worker: from its state and the result of its last action to its
/// next state and action.
pub fn worker_step(state: WorkerState, event: WorkerEvent) -> (r: (WorkerState, WorkerAction))
    ensures
        r == worker_transition(state, event),
{
    match (state, event) {
        (WorkerState::Polling, WorkerEvent::Dequeued(Some(id))) => (
            WorkerState::Opening,
            WorkerAction::OpenTrack(id),
        ),
        (WorkerState::Opening, WorkerEvent::Opened(true)) => (
            WorkerState::Warming,
            WorkerAction::ReadChunk(CHUNK_SIZE),
        ),
        (WorkerState::Warming, WorkerEvent::ChunkRead(n)) => if n > 0 {
            (WorkerState::Warming, WorkerAction::ReadChunk(CHUNK_SIZE))
        } else {
            (WorkerState::Resting, WorkerAction::Sleep(POLL_INTERVAL_MS))
        },
        (WorkerState::Resting, WorkerEvent::Woke) => (WorkerState::Polling, WorkerAction::Dequeue),
        _ => (WorkerState::Resting, WorkerAction::Sleep(POLL_INTERVAL_MS)),
    }
}

proof fn lemma_drained_is_queue(q: Seq<Seq<char>>)
    ensures
        drained(q) == q,
    decreases q.len(),
{
    if q.len() > 0 {
        lemma_drained_is_queue(q.drop_first());
        assert(seq![q[0]] + q.drop_first() =~= q);
    }
}

/// Removing identifiers one at a time from the head of a queue gives back what was
/// enqueued, in the order of enqueuing: after `prefetch_tracks` appends the identifiers
/// `ids` to a queue holding `q`, successive `pop_front` calls return `q` and then `ids`.
pub proof fn lemma_fifo_order(q: Seq<Seq<char>>, ids: Seq<Seq<char>>)
    ensures
        drained(q + ids) == q + ids,
        drained(q + ids).subrange(q.len() as int, (q.len() + ids.len()) as int) == ids,
{
    lemma_drained_is_queue(q + ids);
    assert((q + ids).subrange(q.len() as int, (q.len() + ids.len()) as int) =~= ids);
}

} // verus!
