//! Window lifecycle: a window enters both registries when it is prepared and
//! leaves both when it closes.

use crate::queue::created_holding;
use crate::queue::share_queue;
use crate::queue::WinitActionRequestHandler;
use crate::registry::AccessKitAdapters;
use crate::registry::WinitActionRequestHandlers;
use crate::window::entity_bits;
use crate::window::names_one_more;
use crate::window::names_window;
use crate::window::windows_named;
use bevy_a11y::accesskit::ActionRequest;
use bevy_ecs::entity::Entity;
use std::sync::Arc;
use std::sync::Mutex;
use vstd::prelude::*;

verus! {

/// The windows that stay registered once every window named in `closed` has left.
pub open spec fn windows_after_close(windows: Set<u64>, closed: Seq<Entity>) -> Set<u64> {
    windows.difference(windows_named(closed))
}

/// The queues that stay registered once every window named in `closed` has left:
/// each window that stays keeps its queue.
pub open spec fn queues_after_close(
    queues: Map<u64, Arc<Mutex<WinitActionRequestHandler>>>,
    closed: Seq<Entity>,
) -> Map<u64, Arc<Mutex<WinitActionRequestHandler>>> {
    queues.remove_keys(windows_named(closed))
}

/// Prepares accessibility for a window.
///
/// The caller builds the window's adapter and hands in how that went. With an
/// adapter, the window gets a new queue, created empty, and is registered in both
/// registries; a window that was registered before starts over with the new adapter
/// and queue, and every other window keeps its own. The queue comes back for the
/// caller to install as the producer side in the windowing layer. Without an
/// adapter, the caller's error comes back and neither registry is touched.
pub fn prepare_accessibility_for_window<E>(
    entity: Entity,
    adapter: Result<(), E>,
    adapters: &mut AccessKitAdapters,
    handlers: &mut WinitActionRequestHandlers,
) -> (prepared: Result<Arc<Mutex<WinitActionRequestHandler>>, E>)
    ensures
        adapter is Ok ==> prepared is Ok,
        adapter is Ok ==> final(adapters)@ == old(adapters)@.insert(entity_bits(entity)),
        prepared matches Ok(producer) ==> final(handlers)@ == old(handlers)@.insert(entity_bits(entity), producer),
        prepared matches Ok(producer) ==> created_holding(*producer) == Seq::<ActionRequest>::empty(),
        adapter is Err ==> prepared is Err && prepared->Err_0 == adapter->Err_0,
        adapter is Err ==> *final(adapters) == *old(adapters) && *final(handlers) == *old(handlers),
        old(adapters)@ == old(handlers)@.dom() ==> final(adapters)@ == final(handlers)@.dom(),
{
    match adapter {
        Ok(adapter) => {
            let action_request_handler = WinitActionRequestHandler::new();
            let producer = share_queue(&action_request_handler);
            adapters.insert(entity, adapter);
            handlers.insert(entity, action_request_handler);
            Ok(producer)
        },
        Err(error) => Err(error),
    }
}

/// Close-cleanup: takes every window named in `closed` out of both registries. A
/// window that is not registered, or that `closed` names twice, is no error.
pub fn window_closed(
    adapters: &mut AccessKitAdapters,
    handlers: &mut WinitActionRequestHandlers,
    closed: &Vec<Entity>,
)
    ensures
        final(adapters)@ == windows_after_close(old(adapters)@, closed@),
        final(handlers)@ == queues_after_close(old(handlers)@, closed@),
        final(handlers)@.dom() == windows_after_close(old(handlers)@.dom(), closed@),
        old(adapters)@ == old(handlers)@.dom() ==> final(adapters)@ == final(handlers)@.dom(),
{
    let mut i: usize = 0;
    proof {
        assert(windows_after_close(adapters@, closed@.take(0)) =~= adapters@);
        assert(queues_after_close(handlers@, closed@.take(0)) =~= handlers@);
    }
    while i < closed.len()
        invariant
            i <= closed.len(),
            adapters@ == windows_after_close(old(adapters)@, closed@.take(i as int)),
            handlers@ == queues_after_close(old(handlers)@, closed@.take(i as int)),
        decreases closed.len() - i,
    {
        let window = closed[i];
        adapters.remove(window);
        handlers.remove(window);
        proof {
            names_one_more(closed@, i as int);
            assert(adapters@ =~= windows_after_close(old(adapters)@, closed@.take(i + 1)));
            assert(handlers@ =~= queues_after_close(old(handlers)@, closed@.take(i + 1)));
        }
        i += 1;
    }
    proof {
        assert(closed@.take(closed.len() as int) =~= closed@);
        assert(queues_after_close(old(handlers)@, closed@).dom() =~= windows_after_close(
            old(handlers)@.dom(),
            closed@,
        ));
    }
}

/// Idempotent close: a close signal for windows of which none is registered changes
/// nothing, and so does a close signal that is repeated.
pub proof fn close_is_idempotent(
    windows: Set<u64>,
    queues: Map<u64, Arc<Mutex<WinitActionRequestHandler>>>,
    closed: Seq<Entity>,
)
    ensures
        (forall|window: u64| names_window(closed, window) ==> !windows.contains(window))
            ==> windows_after_close(windows, closed) == windows,
        (forall|window: u64| names_window(closed, window) ==> !queues.dom().contains(window))
            ==> queues_after_close(queues, closed) == queues,
        windows_after_close(windows_after_close(windows, closed), closed) == windows_after_close(
            windows,
            closed,
        ),
        queues_after_close(queues_after_close(queues, closed), closed) == queues_after_close(queues, closed),
{
    if forall|window: u64| names_window(closed, window) ==> !windows.contains(window) {
        assert(windows_after_close(windows, closed) =~= windows);
    }
    if forall|window: u64| names_window(closed, window) ==> !queues.dom().contains(window) {
        assert(queues_after_close(queues, closed) =~= queues);
    }
    assert(windows_after_close(windows_after_close(windows, closed), closed) =~= windows_after_close(
        windows,
        closed,
    ));
    assert(queues_after_close(queues_after_close(queues, closed), closed) =~= queues_after_close(
        queues,
        closed,
    ));
}

/// Closing a batch of windows is closing its windows one after another: a batch
/// that is split in two leaves the same windows registered as the whole batch.
pub proof fn close_in_order(
    windows: Set<u64>,
    queues: Map<u64, Arc<Mutex<WinitActionRequestHandler>>>,
    first: Seq<Entity>,
    later: Seq<Entity>,
)
    ensures
        windows_after_close(windows, first + later) == windows_after_close(
            windows_after_close(windows, first),
            later,
        ),
        queues_after_close(queues, first + later) == queues_after_close(queues_after_close(queues, first), later),
        queues_after_close(queues, first).dom() == windows_after_close(queues.dom(), first),
{
    let whole = first + later;
    assert forall|window: u64| names_window(whole, window) <==> (names_window(first, window) || names_window(
        later,
        window,
    )) by {
        if names_window(whole, window) {
            let k = choose|k: int| 0 <= k < whole.len() && entity_bits(whole[k]) == window;
            if k < first.len() {
                assert(entity_bits(first[k]) == window);
            } else {
                assert(entity_bits(later[k - first.len()]) == window);
            }
        }
        if names_window(first, window) {
            let k = choose|k: int| 0 <= k < first.len() && entity_bits(first[k]) == window;
            assert(entity_bits(whole[k]) == window);
        }
        if names_window(later, window) {
            let k = choose|k: int| 0 <= k < later.len() && entity_bits(later[k]) == window;
            assert(entity_bits(whole[first.len() + k]) == window);
        }
    }
    assert(windows_after_close(windows, whole) =~= windows_after_close(
        windows_after_close(windows, first),
        later,
    ));
    assert(queues_after_close(queues, whole) =~= queues_after_close(queues_after_close(queues, first), later));
    assert(queues_after_close(queues, first).dom() =~= windows_after_close(queues.dom(), first));
}

/// One change to the registries: a window is prepared (with an adapter), or a
/// window closes.
pub enum RegistryOp {
    Prepare(Entity),
    Close(Entity),
}

/// The windows of the adapter registry and of the handler registry, side by side.
pub struct Registered {
    pub adapters: Set<u64>,
    pub handlers: Set<u64>,
}

/// What is registered after `op`: preparing a window registers it on both sides,
/// closing it takes it out on both sides.
pub open spec fn registered_after(before: Registered, op: RegistryOp) -> Registered {
    match op {
        RegistryOp::Prepare(window) => Registered {
            adapters: before.adapters.insert(entity_bits(window)),
            handlers: before.handlers.insert(entity_bits(window)),
        },
        RegistryOp::Close(window) => Registered {
            adapters: windows_after_close(before.adapters, seq![window]),
            handlers: windows_after_close(before.handlers, seq![window]),
        },
    }
}

/// What is registered after `ops`, applied in order.
pub open spec fn registered_after_all(before: Registered, ops: Seq<RegistryOp>) -> Registered
    decreases ops.len(),
{
    if ops.len() == 0 {
        before
    } else {
        registered_after(registered_after_all(before, ops.drop_last()), ops.last())
    }
}

/// Registry parity: if both registries hold the same windows, they still do after
/// each of any sequence of prepares and closes.
pub proof fn registry_parity(before: Registered, ops: Seq<RegistryOp>)
    requires
        before.adapters == before.handlers,
    ensures
        forall|k: int|
            0 <= k <= ops.len() ==> (#[trigger] registered_after_all(before, ops.take(k))).adapters
                == registered_after_all(before, ops.take(k)).handlers,
    decreases ops.len(),
{
    assert forall|k: int| 0 <= k <= ops.len() implies (#[trigger] registered_after_all(
        before,
        ops.take(k),
    )).adapters == registered_after_all(before, ops.take(k)).handlers by {
        parity_after_all(before, ops.take(k));
    }
}

/// Registry parity at the end of a sequence of prepares and closes.
pub proof fn parity_after_all(before: Registered, ops: Seq<RegistryOp>)
    requires
        before.adapters == before.handlers,
    ensures
        registered_after_all(before, ops).adapters == registered_after_all(before, ops).handlers,
    decreases ops.len(),
{
    if ops.len() > 0 {
        parity_after_all(before, ops.drop_last());
    }
}

} // verus!
