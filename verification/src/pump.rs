//! The action-request pump: once per frame, what is pending in the queues of the
//! registered windows moves into the frame's stream of accessibility actions.
//!
//! The pump takes the lock of a queue only where it is free. A queue whose lock is
//! held elsewhere, or poisoned, is skipped and its window is reported; what is
//! pending in a busy queue comes out with the next frame, in the same order.

use crate::queue::guarded_queue;
use crate::queue::locked_queue;
use crate::queue::try_lock_queue;
use crate::queue::QueueLock;
use crate::queue::WinitActionRequestHandler;
use crate::registry::lists_exactly;
use crate::registry::WinitActionRequestHandlers;
use crate::window::distinct_windows;
use crate::window::entity_bits;
use crate::window::names_one_more;
use crate::window::names_window;
use bevy_a11y::accesskit::ActionRequest;
use bevy_ecs::entity::Entity;
use std::sync::MutexGuard;
use vstd::prelude::*;

verus! {

/// An action request on its way into the event stream, with the window whose queue
/// it came from.
#[derive(Debug, PartialEq)]
pub struct WindowActionRequest {
    pub window: Entity,
    pub request: ActionRequest,
}

/// `requests`, in order, each as an event of `window`.
pub open spec fn events_of(window: Entity, requests: Seq<ActionRequest>) -> Seq<WindowActionRequest> {
    Seq::new(requests.len(), |i: int| WindowActionRequest { window, request: requests[i] })
}

/// Whether every event of `actions` from index `from` on comes from a window in
/// `windows`.
pub open spec fn emitted_by(actions: Seq<WindowActionRequest>, from: int, windows: Set<u64>) -> bool {
    forall|k: int| from <= k < actions.len() ==> windows.contains(#[trigger] entity_bits(actions[k].window))
}

/// Whether the events of `actions` from index `from` on stand window by window:
/// between two events of one window there is no event of another.
pub open spec fn grouped_by_window(actions: Seq<WindowActionRequest>, from: int) -> bool {
    forall|i: int, j: int, k: int|
        from <= i <= j <= k < actions.len() && #[trigger] entity_bits(actions[i].window)
            == #[trigger] entity_bits(actions[k].window) ==> #[trigger] entity_bits(actions[j].window)
            == entity_bits(actions[i].window)
}

/// Why the queue of a window was not drained.
#[derive(Clone, Copy, Debug, PartialEq, Eq, Structural)]
pub enum Skipped {
    /// A holder of the lock panicked while it held it.
    Poisoned,
    /// The lock was held elsewhere when the frame came by.
    Busy,
}

/// A window whose queue was not drained, and why.
#[derive(Debug, PartialEq)]
pub struct SkippedWindow {
    pub window: Entity,
    pub reason: Skipped,
}

/// What a drain found at one window: the requests that were pending behind its
/// lock when the lock was taken, or why the lock was not taken.
pub enum Found {
    Pending(Seq<ActionRequest>),
    Skipped(Skipped),
}

/// What came of one window in a drain.
pub struct Visit {
    pub window: Entity,
    pub found: Found,
}

/// The windows of `visits`, in the order of the visits.
pub open spec fn visited(visits: Seq<Visit>) -> Seq<Entity> {
    Seq::new(visits.len(), |i: int| visits[i].window)
}

/// The windows of `skipped`, in order.
pub open spec fn skipped_windows(skipped: Seq<SkippedWindow>) -> Seq<Entity> {
    Seq::new(skipped.len(), |i: int| skipped[i].window)
}

/// The events that `visits` put into the stream: visit by visit, what was pending
/// behind each lock that was taken, in the order of its queue.
pub open spec fn emitted_over(visits: Seq<Visit>) -> Seq<WindowActionRequest>
    decreases visits.len(),
{
    if visits.len() == 0 {
        Seq::empty()
    } else {
        match visits.last().found {
            Found::Pending(pending) => emitted_over(visits.drop_last()) + events_of(
                visits.last().window,
                pending,
            ),
            Found::Skipped(_) => emitted_over(visits.drop_last()),
        }
    }
}

/// The windows of `visits` whose lock was not taken, each with the reason, in the
/// order of the visits.
pub open spec fn skipped_over(visits: Seq<Visit>) -> Seq<SkippedWindow>
    decreases visits.len(),
{
    if visits.len() == 0 {
        Seq::empty()
    } else {
        match visits.last().found {
            Found::Pending(_) => skipped_over(visits.drop_last()),
            Found::Skipped(reason) => skipped_over(visits.drop_last()).push(
                SkippedWindow { window: visits.last().window, reason },
            ),
        }
    }
}

/// Whether `visits` is one drain of the registered `windows` that turned `before`
/// into `after` and reported `skipped`: every registered window is visited once
/// and no other, the stream grows by what the visits put into it, and the windows
/// reported are those whose lock was not taken.
pub open spec fn drained_by(
    visits: Seq<Visit>,
    windows: Set<u64>,
    before: Seq<WindowActionRequest>,
    after: Seq<WindowActionRequest>,
    skipped: Seq<SkippedWindow>,
) -> bool {
    &&& lists_exactly(visited(visits), windows)
    &&& after == before + emitted_over(visits)
    &&& skipped == skipped_over(visits)
}

/// Moves every request that is pending in `queue`, oldest first, to the end of
/// `actions` as an event of `window`, and leaves the queue empty.
pub fn emit_pending(window: Entity, queue: &mut WinitActionRequestHandler, actions: &mut Vec<WindowActionRequest>)
    ensures
        final(queue)@ == Seq::<ActionRequest>::empty(),
        final(actions)@ == old(actions)@ + events_of(window, old(queue)@),
{
    let ghost before = actions@;
    let ghost pending = queue@;
    assert(actions@ + events_of(window, queue@) =~= before + events_of(window, pending));
    loop
        invariant
            actions@ + events_of(window, queue@) == before + events_of(window, pending),
        ensures
            queue@ == Seq::<ActionRequest>::empty(),
            actions@ == before + events_of(window, pending),
        decreases queue@.len(),
    {
        let ghost waiting = queue@;
        let ghost emitted = actions@;
        match queue.dequeue() {
            Some(request) => {
                actions.push(WindowActionRequest { window, request });
                assert(actions@ + events_of(window, queue@) =~= emitted + events_of(window, waiting));
            },
            None => {
                assert(queue@ =~= Seq::<ActionRequest>::empty());
                assert(actions@ + events_of(window, queue@) =~= actions@);
                break ;
            },
        }
    }
}

/// Drains the queue behind a held lock: every request that is pending behind
/// `guard` moves, oldest first, to the end of `actions` as an event of `window`, and
/// nothing is pending behind the guard afterwards.
pub fn emit_guarded(
    window: Entity,
    guard: &mut MutexGuard<WinitActionRequestHandler>,
    actions: &mut Vec<WindowActionRequest>,
)
    ensures
        final(actions)@ == old(actions)@ + events_of(window, guarded_queue(*old(guard))),
        guarded_queue(*final(guard)) == Seq::<ActionRequest>::empty(),
{
    let queue = locked_queue(guard);
    emit_pending(window, queue, actions);
}

/// Drain-requests: visits every registered window once, takes the lock of its queue
/// if the lock is free, moves what is pending there into `actions` in the order of
/// the queue, and leaves that queue empty.
///
/// A queue whose lock is poisoned or held elsewhere is left alone: its window is
/// reported in the result with the reason, nothing of it is emitted, and the other
/// windows are still drained. The frame never waits for a lock, so it returns even
/// if the caller itself holds one. What a queue holds when it is locked, and whether
/// its lock can be taken, is up to its producer: the drain is stated over the visits
/// that it made, whatever they found.
pub fn poll_receivers(handlers: &WinitActionRequestHandlers, actions: &mut Vec<WindowActionRequest>) -> (skipped:
    Vec<SkippedWindow>)
    ensures
        exists|visits: Seq<Visit>|
            #[trigger] drained_by(visits, handlers@.dom(), old(actions)@, final(actions)@, skipped@),
        old(actions)@.is_prefix_of(final(actions)@),
        emitted_by(final(actions)@, old(actions)@.len() as int, handlers@.dom()),
        grouped_by_window(final(actions)@, old(actions)@.len() as int),
        distinct_windows(skipped_windows(skipped@)),
        forall|j: int| 0 <= j < skipped.len() ==> handlers@.dom().contains(#[trigger] entity_bits(skipped[j].window)),
        forall|k: int|
            old(actions)@.len() <= k < final(actions)@.len() ==> !names_window(
                skipped_windows(skipped@),
                #[trigger] entity_bits(final(actions)@[k].window),
            ),
{
    let windows = handlers.windows();
    let mut skipped: Vec<SkippedWindow> = Vec::new();
    let ghost before = actions@;
    let ghost from = actions@.len() as int;
    let ghost mut visits: Seq<Visit> = Seq::empty();
    let mut i: usize = 0;
    proof {
        assert(visited(visits) =~= windows@.take(0));
        assert(actions@ =~= before + emitted_over(visits));
    }
    while i < windows.len()
        invariant
            i <= windows.len(),
            from == before.len(),
            visited(visits) == windows@.take(i as int),
            actions@ == before + emitted_over(visits),
            skipped@ == skipped_over(visits),
            lists_exactly(windows@, handlers@.dom()),
            before.is_prefix_of(actions@),
            grouped_by_window(actions@, from),
            forall|k: int|
                from <= k < actions.len() ==> names_window(
                    windows@.take(i as int),
                    #[trigger] entity_bits(actions[k].window),
                ),
            forall|j: int|
                0 <= j < skipped.len() ==> names_window(
                    windows@.take(i as int),
                    #[trigger] entity_bits(skipped[j].window),
                ),
            distinct_windows(skipped_windows(skipped@)),
            forall|k: int|
                from <= k < actions.len() ==> !names_window(
                    skipped_windows(skipped@),
                    #[trigger] entity_bits(actions[k].window),
                ),
        decreases windows.len() - i,
    {
        let window = windows[i];
        let ghost emitted = actions@;
        let ghost reported = skipped@;
        let ghost earlier = visits;
        proof {
            names_one_more(windows@, i as int);
            assert(!names_window(windows@.take(i as int), entity_bits(window))) by {
                if names_window(windows@.take(i as int), entity_bits(window)) {
                    let j = choose|j: int|
                        0 <= j < windows@.take(i as int).len() && entity_bits(windows@.take(i as int)[j])
                            == entity_bits(window);
                    assert(entity_bits(windows@[j]) != entity_bits(windows@[i as int]));
                }
            }
        }
        match handlers.get(window) {
            Some(shared) => {
                match try_lock_queue(shared) {
                    QueueLock::Held(mut guard) => {
                        let ghost pending = guarded_queue(guard);
                        emit_guarded(window, &mut guard, actions);
                        proof {
                            visits = earlier.push(Visit { window, found: Found::Pending(pending) });
                            assert(visits.drop_last() =~= earlier);
                            assert(actions@ =~= before + emitted_over(visits));
                            assert(before.is_prefix_of(actions@)) by {
                                assert(actions@.subrange(0, before.len() as int) =~= emitted.subrange(
                                    0,
                                    before.len() as int,
                                ));
                            }
                            assert forall|k: int| emitted.len() <= k < actions.len() implies actions[k].window
                                == window by {
                                assert(actions[k] == events_of(window, pending)[k - emitted.len()]);
                            }
                            assert forall|k: int| 0 <= k < emitted.len() implies actions[k] == emitted[k] by {}
                        }
                    },
                    QueueLock::Poisoned => {
                        skipped.push(SkippedWindow { window, reason: Skipped::Poisoned });
                        proof {
                            visits = earlier.push(Visit { window, found: Found::Skipped(Skipped::Poisoned) });
                            assert(visits.drop_last() =~= earlier);
                            one_more_skipped(reported, skipped@);
                            assert(!names_window(skipped_windows(reported), entity_bits(window))) by {
                                if names_window(skipped_windows(reported), entity_bits(window)) {
                                    let j = choose|j: int|
                                        0 <= j < reported.len() && entity_bits(skipped_windows(reported)[j])
                                            == entity_bits(window);
                                    assert(names_window(windows@.take(i as int), entity_bits(reported[j].window)));
                                }
                            }
                        }
                    },
                    QueueLock::Busy => {
                        skipped.push(SkippedWindow { window, reason: Skipped::Busy });
                        proof {
                            visits = earlier.push(Visit { window, found: Found::Skipped(Skipped::Busy) });
                            assert(visits.drop_last() =~= earlier);
                            one_more_skipped(reported, skipped@);
                            assert(!names_window(skipped_windows(reported), entity_bits(window))) by {
                                if names_window(skipped_windows(reported), entity_bits(window)) {
                                    let j = choose|j: int|
                                        0 <= j < reported.len() && entity_bits(skipped_windows(reported)[j])
                                            == entity_bits(window);
                                    assert(names_window(windows@.take(i as int), entity_bits(reported[j].window)));
                                }
                            }
                        }
                    },
                }
                proof {
                    assert(visited(visits) =~= windows@.take(i + 1)) by {
                        assert(visited(earlier).len() == earlier.len());
                        assert(windows@.take(i as int).len() == i);
                        assert forall|k: int| 0 <= k < i implies visited(visits)[k] == windows@[k] by {
                            assert(visits[k] == earlier[k]);
                            assert(visited(earlier)[k] == earlier[k].window);
                            assert(windows@.take(i as int)[k] == windows@[k]);
                        }
                        assert(visited(visits)[i as int] == window);
                    }
                }
            },
            None => {
                assert(names_window(windows@, entity_bits(windows@[i as int])));
            },
        }
        i += 1;
    }
    proof {
        assert(windows@.take(windows.len() as int) =~= windows@);
        assert(drained_by(visits, handlers@.dom(), before, actions@, skipped@));
    }
    skipped
}

/// A report that is one entry longer names the windows that it named before and
/// the window of the new entry.
proof fn one_more_skipped(reported: Seq<SkippedWindow>, skipped: Seq<SkippedWindow>)
    requires
        skipped.len() == reported.len() + 1,
        forall|j: int| 0 <= j < reported.len() ==> skipped[j] == reported[j],
    ensures
        forall|window: u64|
            names_window(skipped_windows(skipped), window) <==> (names_window(skipped_windows(reported), window)
                || window == entity_bits(skipped.last().window)),
        distinct_windows(skipped_windows(reported)) && !names_window(
            skipped_windows(reported),
            entity_bits(skipped.last().window),
        ) ==> distinct_windows(skipped_windows(skipped)),
{
    let longer = skipped_windows(skipped);
    let shorter = skipped_windows(reported);
    if distinct_windows(shorter) && !names_window(shorter, entity_bits(skipped.last().window)) {
        assert forall|i: int, j: int| 0 <= i < j < longer.len() implies entity_bits(longer[i]) != entity_bits(
            longer[j],
        ) by {
            if j < reported.len() {
                assert(entity_bits(shorter[i]) != entity_bits(shorter[j]));
            } else if entity_bits(longer[i]) == entity_bits(longer[j]) {
                assert(entity_bits(shorter[i]) == entity_bits(skipped.last().window));
            }
        }
    }
    assert forall|window: u64| names_window(longer, window) <==> (names_window(shorter, window) || window
        == entity_bits(skipped.last().window)) by {
        if names_window(longer, window) {
            let j = choose|j: int| 0 <= j < longer.len() && entity_bits(longer[j]) == window;
            if j < reported.len() {
                assert(entity_bits(shorter[j]) == window);
            }
        }
        if names_window(shorter, window) {
            let j = choose|j: int| 0 <= j < shorter.len() && entity_bits(shorter[j]) == window;
            assert(entity_bits(longer[j]) == window);
        }
        if window == entity_bits(skipped.last().window) {
            assert(entity_bits(longer[skipped.len() - 1]) == window);
        }
    }
}

} // verus!
