//! The two registries: window to adapter, and window to shared request queue.
//!
//! Both are entity hash maps. A window is registered in both at once when it is
//! prepared and leaves both at once when it closes, so the two always hold the same
//! windows.

use crate::queue::WinitActionRequestHandler;
use crate::window::distinct_list_counts_windows;
use crate::window::distinct_windows;
use crate::window::entity_bits;
use crate::window::names_window;
use crate::window::windows_named;
use bevy_ecs::entity::Entity;
use bevy_ecs::entity::EntityHashMap;
use std::sync::Arc;
use std::sync::Mutex;
use vstd::prelude::*;

verus! {

/// Maps window entities to their accessibility adapters. An adapter is the unit
/// value: the registry records which windows have one. The map is `bevy_ecs`'s
/// `EntityHashMap`, which the verifier cannot look into: the view is the set of
/// registered windows, by their bits.
#[verifier::external_body]
pub struct AccessKitAdapters(EntityHashMap<()>);

/// Maps window entities to their shared request queues. The map is `bevy_ecs`'s
/// `EntityHashMap`, which the verifier cannot look into: the view maps the bits of
/// each registered window to its queue.
#[verifier::external_body]
pub struct WinitActionRequestHandlers(EntityHashMap<Arc<Mutex<WinitActionRequestHandler>>>);

/// The windows that are keys of the adapter map.
pub uninterp spec fn adapter_windows(adapters: AccessKitAdapters) -> Set<u64>;

/// The entries of the handler map: each key, by its bits, with the queue stored
/// under it.
pub uninterp spec fn handler_queues(handlers: WinitActionRequestHandlers) -> Map<
    u64,
    Arc<Mutex<WinitActionRequestHandler>>,
>;

/// The entries of a handler registry without windows.
pub open spec fn no_queues() -> Map<u64, Arc<Mutex<WinitActionRequestHandler>>> {
    Map::empty()
}

/// Whether `list` names every window in `windows` once and no other window.
pub open spec fn lists_exactly(list: Seq<Entity>, windows: Set<u64>) -> bool {
    &&& distinct_windows(list)
    &&& forall|window: u64| windows.contains(window) <==> names_window(list, window)
}

/// What a map lookup finds for `window`.
pub open spec fn queue_of(queues: Map<u64, Arc<Mutex<WinitActionRequestHandler>>>, window: u64) -> Option<
    Arc<Mutex<WinitActionRequestHandler>>,
> {
    if queues.dom().contains(window) {
        Some(queues[window])
    } else {
        None
    }
}

impl View for AccessKitAdapters {
    type V = Set<u64>;

    open spec fn view(&self) -> Set<u64> {
        adapter_windows(*self)
    }
}

impl View for WinitActionRequestHandlers {
    type V = Map<u64, Arc<Mutex<WinitActionRequestHandler>>>;

    open spec fn view(&self) -> Map<u64, Arc<Mutex<WinitActionRequestHandler>>> {
        handler_queues(*self)
    }
}

/// `EntityHashMap::default`: a map without keys.
#[verifier::external_body]
fn adapters_empty() -> (adapters: AccessKitAdapters)
    ensures
        adapter_windows(adapters) == Set::<u64>::empty(),
{
    AccessKitAdapters(EntityHashMap::default())
}

/// `HashMap::insert`: afterwards `window` is a key, and the keys are otherwise as
/// before. Returns the adapter that `window` had, if it was a key already.
#[verifier::external_body]
fn adapters_insert(adapters: &mut AccessKitAdapters, window: Entity, adapter: ()) -> (previous: Option<()>)
    ensures
        adapter_windows(*final(adapters)) == adapter_windows(*old(adapters)).insert(entity_bits(window)),
        previous is Some <==> adapter_windows(*old(adapters)).contains(entity_bits(window)),
{
    adapters.0.insert(window, adapter)
}

/// `HashMap::remove`: afterwards `window` is no key, and the keys are otherwise as
/// before. Returns the adapter that `window` had, if it was a key.
#[verifier::external_body]
fn adapters_remove(adapters: &mut AccessKitAdapters, window: Entity) -> (removed: Option<()>)
    ensures
        adapter_windows(*final(adapters)) == adapter_windows(*old(adapters)).remove(entity_bits(window)),
        removed is Some <==> adapter_windows(*old(adapters)).contains(entity_bits(window)),
{
    adapters.0.remove(&window)
}

/// `HashMap::contains_key`: whether `window` is a key.
#[verifier::external_body]
fn adapters_contains(adapters: &AccessKitAdapters, window: Entity) -> (found: bool)
    ensures
        found == adapter_windows(*adapters).contains(entity_bits(window)),
{
    adapters.0.contains_key(&window)
}

/// `HashMap::keys`: every key once, in the order in which the map walks its table.
#[verifier::external_body]
fn adapters_keys(adapters: &AccessKitAdapters) -> (keys: Vec<Entity>)
    ensures
        lists_exactly(keys@, adapter_windows(*adapters)),
{
    adapters.0.keys().copied().collect()
}

/// `EntityHashMap::default`: a map without entries.
#[verifier::external_body]
fn handlers_empty() -> (handlers: WinitActionRequestHandlers)
    ensures
        handler_queues(handlers) == no_queues(),
{
    WinitActionRequestHandlers(EntityHashMap::default())
}

/// `HashMap::insert`: afterwards `queue` is stored under `window`, and the other
/// entries are as before. Returns the queue that was stored under `window`, if
/// there was one.
#[verifier::external_body]
fn handlers_insert(
    handlers: &mut WinitActionRequestHandlers,
    window: Entity,
    queue: Arc<Mutex<WinitActionRequestHandler>>,
) -> (previous: Option<Arc<Mutex<WinitActionRequestHandler>>>)
    ensures
        handler_queues(*final(handlers)) == handler_queues(*old(handlers)).insert(entity_bits(window), queue),
        previous == queue_of(handler_queues(*old(handlers)), entity_bits(window)),
{
    handlers.0.insert(window, queue)
}

/// `HashMap::remove`: afterwards nothing is stored under `window`, and the other
/// entries are as before. Returns the queue that was stored under `window`, if
/// there was one.
#[verifier::external_body]
fn handlers_remove(handlers: &mut WinitActionRequestHandlers, window: Entity) -> (removed: Option<
    Arc<Mutex<WinitActionRequestHandler>>,
>)
    ensures
        handler_queues(*final(handlers)) == handler_queues(*old(handlers)).remove(entity_bits(window)),
        removed == queue_of(handler_queues(*old(handlers)), entity_bits(window)),
{
    handlers.0.remove(&window)
}

/// `HashMap::get`: the queue that is stored under `window`, if there is one.
#[verifier::external_body]
fn handlers_get<'a>(handlers: &'a WinitActionRequestHandlers, window: Entity) -> (queue: Option<
    &'a Arc<Mutex<WinitActionRequestHandler>>,
>)
    ensures
        queue is Some <==> handler_queues(*handlers).dom().contains(entity_bits(window)),
        queue matches Some(found) ==> *found == handler_queues(*handlers)[entity_bits(window)],
{
    handlers.0.get(&window)
}

/// `HashMap::keys`: every key once, in the order in which the map walks its table.
#[verifier::external_body]
fn handlers_keys(handlers: &WinitActionRequestHandlers) -> (keys: Vec<Entity>)
    ensures
        lists_exactly(keys@, handler_queues(*handlers).dom()),
{
    handlers.0.keys().copied().collect()
}

impl AccessKitAdapters {
    /// A registry without windows.
    pub fn new() -> (adapters: Self)
        ensures
            adapters@ == Set::<u64>::empty(),
    {
        adapters_empty()
    }

    /// Registers `adapter` for `window`, in place of the adapter that `window` had.
    /// Returns that earlier adapter, if there was one.
    pub fn insert(&mut self, window: Entity, adapter: ()) -> (previous: Option<()>)
        ensures
            final(self)@ == old(self)@.insert(entity_bits(window)),
            previous is Some <==> old(self)@.contains(entity_bits(window)),
    {
        adapters_insert(self, window, adapter)
    }

    /// Takes `window` out of the registry and returns its adapter. A window that is
    /// not registered is no error: the registry stays as it is.
    pub fn remove(&mut self, window: Entity) -> (removed: Option<()>)
        ensures
            final(self)@ == old(self)@.remove(entity_bits(window)),
            removed is Some <==> old(self)@.contains(entity_bits(window)),
            !old(self)@.contains(entity_bits(window)) ==> final(self)@ == old(self)@,
    {
        let removed = adapters_remove(self, window);
        assert(!old(self)@.contains(entity_bits(window)) ==> old(self)@.remove(entity_bits(window))
            =~= old(self)@);
        removed
    }

    /// Whether `window` has an adapter.
    pub fn contains_key(&self, window: Entity) -> (found: bool)
        ensures
            found == self@.contains(entity_bits(window)),
    {
        adapters_contains(self, window)
    }

    /// The adapter of `window`, if it has one.
    pub fn get(&self, window: Entity) -> (adapter: Option<()>)
        ensures
            adapter is Some <==> self@.contains(entity_bits(window)),
    {
        if adapters_contains(self, window) {
            Some(())
        } else {
            None
        }
    }

    /// The registered windows, each once, in the order in which the map walks them.
    pub fn windows(&self) -> (list: Vec<Entity>)
        ensures
            lists_exactly(list@, self@),
    {
        adapters_keys(self)
    }

    /// The number of registered windows.
    pub fn len(&self) -> (count: usize)
        ensures
            self@.finite(),
            count == self@.len(),
    {
        let list = adapters_keys(self);
        proof {
            distinct_list_counts_windows(list@);
            assert(self@ =~= windows_named(list@));
        }
        list.len()
    }

    /// Whether no window is registered.
    pub fn is_empty(&self) -> (empty: bool)
        ensures
            empty == (self@ == Set::<u64>::empty()),
    {
        let list = adapters_keys(self);
        proof {
            if list.len() == 0 {
                assert(self@ =~= Set::<u64>::empty());
            } else {
                assert(self@.contains(entity_bits(list@[0])));
            }
        }
        list.len() == 0
    }
}

impl Default for AccessKitAdapters {
    fn default() -> (adapters: Self)
        ensures
            adapters@ == Set::<u64>::empty(),
    {
        adapters_empty()
    }
}

impl WinitActionRequestHandlers {
    /// A registry without windows.
    pub fn new() -> (handlers: Self)
        ensures
            handlers@ == no_queues(),
    {
        handlers_empty()
    }

    /// Registers `queue` for `window`, in place of the queue that `window` had.
    /// Returns that earlier queue, if there was one.
    pub fn insert(&mut self, window: Entity, queue: Arc<Mutex<WinitActionRequestHandler>>) -> (previous:
        Option<Arc<Mutex<WinitActionRequestHandler>>>)
        ensures
            final(self)@ == old(self)@.insert(entity_bits(window), queue),
            previous == queue_of(old(self)@, entity_bits(window)),
    {
        handlers_insert(self, window, queue)
    }

    /// Takes `window` out of the registry and returns the registry's reference to
    /// its queue. A window that is not registered is no error: the registry stays
    /// as it is.
    pub fn remove(&mut self, window: Entity) -> (removed: Option<Arc<Mutex<WinitActionRequestHandler>>>)
        ensures
            final(self)@ == old(self)@.remove(entity_bits(window)),
            removed == queue_of(old(self)@, entity_bits(window)),
            !old(self)@.dom().contains(entity_bits(window)) ==> final(self)@ == old(self)@,
    {
        let removed = handlers_remove(self, window);
        assert(!old(self)@.dom().contains(entity_bits(window)) ==> old(self)@.remove(entity_bits(window))
            =~= old(self)@);
        removed
    }

    /// The shared queue of `window`, if it is registered.
    pub fn get(&self, window: Entity) -> (queue: Option<&Arc<Mutex<WinitActionRequestHandler>>>)
        ensures
            queue is Some <==> self@.dom().contains(entity_bits(window)),
            queue matches Some(found) ==> *found == self@[entity_bits(window)],
    {
        handlers_get(self, window)
    }

    /// Whether `window` has a queue.
    pub fn contains_key(&self, window: Entity) -> (found: bool)
        ensures
            found == self@.dom().contains(entity_bits(window)),
    {
        handlers_get(self, window).is_some()
    }

    /// The registered windows, each once, in the order in which the map walks them.
    pub fn windows(&self) -> (list: Vec<Entity>)
        ensures
            lists_exactly(list@, self@.dom()),
    {
        handlers_keys(self)
    }

    /// The number of registered windows.
    pub fn len(&self) -> (count: usize)
        ensures
            self@.dom().finite(),
            count == self@.dom().len(),
    {
        let list = handlers_keys(self);
        proof {
            distinct_list_counts_windows(list@);
            assert(self@.dom() =~= windows_named(list@));
        }
        list.len()
    }

    /// Whether no window is registered.
    pub fn is_empty(&self) -> (empty: bool)
        ensures
            empty == (self@ == no_queues()),
    {
        let list = handlers_keys(self);
        proof {
            if list.len() == 0 {
                assert(self@ =~= no_queues());
            } else {
                assert(self@.dom().contains(entity_bits(list@[0])));
            }
        }
        list.len() == 0
    }
}

impl Default for WinitActionRequestHandlers {
    fn default() -> (handlers: Self)
        ensures
            handlers@ == no_queues(),
    {
        handlers_empty()
    }
}

} // verus!
