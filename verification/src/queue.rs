//! The per-window queue of action requests.
//!
//! The windowing layer appends requests as the platform delivers them; the frame
//! takes them out front to back. A queue is shared between the two sides behind a
//! mutex, and everything that is proved here is proved of the queue while one side
//! holds it. The frame never waits for a lock: it takes the lock where it is free
//! and leaves a queue that is busy for the next frame.

use bevy_a11y::accesskit::ActionRequest;
use std::collections::VecDeque;
use std::sync::Arc;
use std::sync::Mutex;
use std::sync::MutexGuard;
use std::sync::TryLockError;
use vstd::prelude::*;

verus! {

/// `accesskit::ActionRequest`, an instruction from assistive technology. The queue
/// carries requests through and never looks inside one.
#[verifier::external_type_specification]
#[verifier::external_body]
pub struct ExActionRequest(ActionRequest);

/// `std::sync::Mutex`. What it guards can change whenever the lock is free, so
/// nothing is stated of what it holds at a later time: only of what it was created
/// with, and of what a held lock gives access to.
#[verifier::external_type_specification]
#[verifier::external_body]
#[verifier::reject_recursive_types(T)]
pub struct ExMutex<T: ?Sized>(Mutex<T>);

/// `std::sync::MutexGuard`, the held lock.
#[verifier::external_type_specification]
#[verifier::external_body]
#[verifier::reject_recursive_types(T)]
pub struct ExMutexGuard<'a, T: ?Sized + 'a>(MutexGuard<'a, T>);

/// What came of trying to lock a queue.
pub(crate) enum QueueLock<'a> {
    /// The lock was free and is now held.
    Held(MutexGuard<'a, WinitActionRequestHandler>),
    /// The lock was free, but an earlier holder panicked while it held it.
    Poisoned,
    /// The lock is held elsewhere right now.
    Busy,
}

/// The requests that the queue behind a mutex held when the mutex was created.
/// This is fixed for the life of the mutex; what the queue holds later is up to
/// those who lock it.
pub uninterp spec fn created_holding(mutex: Mutex<WinitActionRequestHandler>) -> Seq<ActionRequest>;

/// The requests that are pending in the queue behind a held lock. While the guard
/// lives nobody else reaches the queue, so this is a matter of the guard alone.
pub uninterp spec fn guarded_queue(guard: MutexGuard<WinitActionRequestHandler>) -> Seq<ActionRequest>;

/// `Mutex::new`: a mutex, unlocked, that guards `queue` as it is handed in.
#[verifier::external_body]
fn mutex_around(queue: WinitActionRequestHandler) -> (mutex: Mutex<WinitActionRequestHandler>)
    ensures
        created_holding(mutex) == queue@,
{
    Mutex::new(queue)
}

/// `Mutex::try_lock`: takes the lock if it is free, and returns at once if it is
/// not. Nothing is claimed of the result: whether the lock is free or poisoned, and
/// what it guards, depend on the other holders. The guard inside a poisoned result
/// is dropped here, so the lock is held on return only where the result says so.
#[verifier::external_body]
pub(crate) fn try_lock_queue<'a>(mutex: &'a Mutex<WinitActionRequestHandler>) -> (locked: QueueLock<'a>) {
    match mutex.try_lock() {
        Ok(guard) => QueueLock::Held(guard),
        Err(TryLockError::Poisoned(_)) => QueueLock::Poisoned,
        Err(TryLockError::WouldBlock) => QueueLock::Busy,
    }
}

/// `Arc::clone`: one more reference to the same shared queue.
#[verifier::external_body]
pub(crate) fn share_queue(queue: &Arc<Mutex<WinitActionRequestHandler>>) -> (shared: Arc<
    Mutex<WinitActionRequestHandler>,
>)
    ensures
        shared == *queue,
{
    Arc::clone(queue)
}

/// `DerefMut::deref_mut` of a held lock: the queue that the lock guards, for as long
/// as the guard is borrowed. It holds what was pending behind the guard, and what
/// it holds when the borrow ends is what is pending behind the guard from then on.
#[verifier::external_body]
pub(crate) fn locked_queue<'a, 'b>(
    guard: &'a mut MutexGuard<'b, WinitActionRequestHandler>,
) -> (queue: &'a mut WinitActionRequestHandler)
    ensures
        queue@ == guarded_queue(*old(guard)),
        final(queue)@ == guarded_queue(*final(guard)),
{
    &mut **guard
}

/// Forwards action requests from the windowing layer to the frame: a first-in,
/// first-out queue. Its view is the sequence of pending requests, oldest first.
#[derive(Clone)]
pub struct WinitActionRequestHandler(pub VecDeque<ActionRequest>);

impl View for WinitActionRequestHandler {
    type V = Seq<ActionRequest>;

    open spec fn view(&self) -> Seq<ActionRequest> {
        self.0@
    }
}

impl Default for WinitActionRequestHandler {
    fn default() -> (queue: Self)
        ensures
            queue@ == Seq::<ActionRequest>::empty(),
    {
        WinitActionRequestHandler(VecDeque::new())
    }
}

impl WinitActionRequestHandler {
    /// A new, empty queue behind a mutex, ready to be shared between the windowing
    /// layer and the handler registry.
    pub(crate) fn new() -> (shared: Arc<Mutex<Self>>)
        ensures
            created_holding(*shared) == Seq::<ActionRequest>::empty(),
    {
        Arc::new(mutex_around(WinitActionRequestHandler(VecDeque::new())))
    }

    /// The number of pending requests.
    pub fn len(&self) -> (count: usize)
        ensures
            count == self@.len(),
    {
        self.0.len()
    }

    /// Whether no request is pending.
    pub fn is_empty(&self) -> (empty: bool)
        ensures
            empty == (self@.len() == 0),
    {
        self.0.len() == 0
    }

    /// Appends `request` behind every pending request.
    pub fn enqueue(&mut self, request: ActionRequest)
        ensures
            final(self)@ == old(self)@.push(request),
    {
        self.0.push_back(request);
    }

    /// Takes the oldest pending request out, if there is one.
    pub fn dequeue(&mut self) -> (front: Option<ActionRequest>)
        ensures
            old(self)@.len() == 0 ==> front is None && final(self)@ == old(self)@,
            old(self)@.len() > 0 ==> front == Some(old(self)@[0]) && final(self)@ == old(
                self,
            )@.subrange(1, old(self)@.len() as int),
    {
        self.0.pop_front()
    }

    /// Moves every pending request, oldest first, to the end of `sink` and leaves the
    /// queue empty.
    pub fn drain_into(&mut self, sink: &mut Vec<ActionRequest>)
        ensures
            final(self)@ == Seq::<ActionRequest>::empty(),
            final(sink)@ == old(sink)@ + old(self)@,
    {
        let ghost before = sink@;
        let ghost pending = self@;
        while self.0.len() > 0
            invariant
                before + pending == sink@ + self@,
            decreases self@.len(),
        {
            let front = self.dequeue();
            match front {
                Some(request) => {
                    sink.push(request);
                },
                None => {},
            }
        }
        assert(self@ =~= Seq::<ActionRequest>::empty());
        assert(sink@ + self@ =~= sink@);
    }
}

/// One step in the life of a queue: the producer appends a request, or the consumer
/// takes everything that is pending.
pub enum QueueOp {
    Enqueue(ActionRequest),
    Drain,
}

/// The requests still pending after `ops` ran, in order, on a queue that held `queue`.
pub open spec fn pending_after(queue: Seq<ActionRequest>, ops: Seq<QueueOp>) -> Seq<ActionRequest>
    decreases ops.len(),
{
    if ops.len() == 0 {
        queue
    } else {
        match ops.last() {
            QueueOp::Enqueue(request) => pending_after(queue, ops.drop_last()).push(request),
            QueueOp::Drain => Seq::empty(),
        }
    }
}

/// Everything the consumer has taken out over the drains among `ops`, in the order
/// in which it saw it.
pub open spec fn observed_after(queue: Seq<ActionRequest>, ops: Seq<QueueOp>) -> Seq<ActionRequest>
    decreases ops.len(),
{
    if ops.len() == 0 {
        Seq::empty()
    } else {
        match ops.last() {
            QueueOp::Enqueue(_) => observed_after(queue, ops.drop_last()),
            QueueOp::Drain => observed_after(queue, ops.drop_last()) + pending_after(
                queue,
                ops.drop_last(),
            ),
        }
    }
}

/// The requests that the producer appended among `ops`, in the order of the appends.
pub open spec fn enqueued_by(ops: Seq<QueueOp>) -> Seq<ActionRequest>
    decreases ops.len(),
{
    if ops.len() == 0 {
        Seq::empty()
    } else {
        match ops.last() {
            QueueOp::Enqueue(request) => enqueued_by(ops.drop_last()).push(request),
            QueueOp::Drain => enqueued_by(ops.drop_last()),
        }
    }
}

/// First in, first out, across drains: however appends and drains interleave, what
/// the consumer has seen followed by what is still pending is what the queue held at
/// first followed by every appended request, in the order of the appends. Nothing is
/// lost, doubled or reordered.
pub proof fn fifo_across_drains(queue: Seq<ActionRequest>, ops: Seq<QueueOp>)
    ensures
        observed_after(queue, ops) + pending_after(queue, ops) == queue + enqueued_by(ops),
        observed_after(queue, ops).is_prefix_of(queue + enqueued_by(ops)),
    decreases ops.len(),
{
    if ops.len() == 0 {
        assert(observed_after(queue, ops) + pending_after(queue, ops) =~= queue + enqueued_by(ops));
    } else {
        let earlier = ops.drop_last();
        fifo_across_drains(queue, earlier);
        let seen = observed_after(queue, earlier);
        let pending = pending_after(queue, earlier);
        match ops.last() {
            QueueOp::Enqueue(request) => {
                assert(seen + pending.push(request) =~= (seen + pending).push(request));
                assert((queue + enqueued_by(earlier)).push(request) =~= queue + enqueued_by(
                    earlier,
                ).push(request));
            },
            QueueOp::Drain => {
                assert((seen + pending) + Seq::<ActionRequest>::empty() =~= seen + pending);
            },
        }
    }
    let whole = queue + enqueued_by(ops);
    let seen = observed_after(queue, ops);
    assert(whole =~= seen + pending_after(queue, ops));
    assert(seen.is_prefix_of(whole)) by {
        assert(whole.subrange(0, seen.len() as int) =~= seen);
    }
}

} // verus!
