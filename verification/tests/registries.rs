use bevy_a11y::accesskit::Action;
use bevy_a11y::accesskit::ActionRequest;
use bevy_a11y::accesskit::NodeId;
use bevy_ecs::entity::Entity;
use bevy_winit::poll_receivers;
use bevy_winit::prepare_accessibility_for_window;
use bevy_winit::same_window;
use bevy_winit::window_closed;
use bevy_winit::AccessKitAdapters;
use bevy_winit::Skipped;
use bevy_winit::SkippedWindow;
use bevy_winit::WindowActionRequest;
use bevy_winit::WinitActionRequestHandler;
use bevy_winit::WinitActionRequestHandlers;
use std::sync::Arc;
use std::sync::Mutex;

fn request(target: u64) -> ActionRequest {
    ActionRequest {
        action: Action::Default,
        target: NodeId(target),
        data: None,
    }
}

fn queue_with(targets: &[u64]) -> Arc<Mutex<WinitActionRequestHandler>> {
    let mut queue = WinitActionRequestHandler::default();
    for target in targets {
        queue.enqueue(request(*target));
    }
    Arc::new(Mutex::new(queue))
}

fn sorted(mut windows: Vec<Entity>) -> Vec<Entity> {
    windows.sort();
    windows
}

#[test]
fn adapters_insert_then_remove() {
    let window = Entity::from_raw(1);
    let mut adapters = AccessKitAdapters::new();
    assert!(adapters.is_empty());
    assert_eq!(adapters.get(window), None);
    assert_eq!(adapters.insert(window, ()), None);
    assert_eq!(adapters.insert(window, ()), Some(()));
    assert_eq!(adapters.len(), 1);
    assert!(!adapters.is_empty());
    assert!(adapters.contains_key(window));
    assert!(!adapters.contains_key(Entity::from_raw(2)));
    assert_eq!(adapters.get(window), Some(()));
    assert_eq!(adapters.remove(window), Some(()));
    assert_eq!(adapters.remove(window), None);
    assert!(adapters.is_empty());
    assert_eq!(adapters.len(), 0);
}

#[test]
fn adapters_list_each_window_once() {
    let mut adapters = AccessKitAdapters::default();
    for index in [3u32, 1, 2, 3, 1] {
        adapters.insert(Entity::from_raw(index), ());
    }
    assert_eq!(
        sorted(adapters.windows()),
        vec![Entity::from_raw(1), Entity::from_raw(2), Entity::from_raw(3)]
    );
    assert_eq!(adapters.len(), 3);
}

#[test]
fn same_window_compares_index_and_generation() {
    let young = Entity::from_bits((1u64 << 32) | 5);
    let old = Entity::from_bits((2u64 << 32) | 5);
    assert!(same_window(young, Entity::from_raw(5)));
    assert!(same_window(old, old));
    assert!(!same_window(young, old));
    assert!(!same_window(Entity::from_raw(5), Entity::from_raw(6)));
}

#[test]
fn windows_differ_by_generation() {
    let young = Entity::from_bits((1u64 << 32) | 5);
    let old = Entity::from_bits((2u64 << 32) | 5);
    let mut adapters = AccessKitAdapters::new();
    adapters.insert(young, ());
    assert!(adapters.contains_key(young));
    assert!(!adapters.contains_key(old));
    assert_eq!(adapters.remove(old), None);
    assert_eq!(adapters.len(), 1);
}

#[test]
fn handlers_insert_get_remove() {
    let (w1, w2) = (Entity::from_raw(1), Entity::from_raw(2));
    let (q1, q2, q3) = (queue_with(&[]), queue_with(&[]), queue_with(&[]));
    let mut handlers = WinitActionRequestHandlers::new();
    assert!(handlers.is_empty());
    assert!(handlers.get(w1).is_none());
    assert!(handlers.insert(w1, q1.clone()).is_none());
    assert!(handlers.insert(w2, q2.clone()).is_none());
    assert!(Arc::ptr_eq(handlers.get(w1).unwrap(), &q1));
    assert!(Arc::ptr_eq(handlers.get(w2).unwrap(), &q2));

    let replaced = handlers.insert(w1, q3.clone()).unwrap();
    assert!(Arc::ptr_eq(&replaced, &q1));
    assert!(Arc::ptr_eq(handlers.get(w1).unwrap(), &q3));
    assert!(Arc::ptr_eq(handlers.get(w2).unwrap(), &q2));
    assert_eq!(handlers.len(), 2);
    assert!(handlers.contains_key(w1));

    let removed = handlers.remove(w1).unwrap();
    assert!(Arc::ptr_eq(&removed, &q3));
    assert!(handlers.remove(w1).is_none());
    assert!(!handlers.contains_key(w1));
    assert_eq!(handlers.windows(), vec![w2]);
    assert!(!handlers.is_empty());
    assert!(handlers.remove(w2).is_some());
    assert!(handlers.is_empty());
    assert_eq!(WinitActionRequestHandlers::default().len(), 0);
}

#[test]
fn prepare_registers_in_both_registries() {
    let (w1, w2) = (Entity::from_raw(1), Entity::from_raw(2));
    let mut adapters = AccessKitAdapters::new();
    let mut handlers = WinitActionRequestHandlers::new();
    let q1 = prepare_accessibility_for_window::<String>(w1, Ok(()), &mut adapters, &mut handlers).unwrap();
    assert_eq!(adapters.windows(), vec![w1]);
    assert_eq!(handlers.windows(), vec![w1]);
    assert!(Arc::ptr_eq(handlers.get(w1).unwrap(), &q1));
    assert!(q1.lock().unwrap().is_empty());

    let q2 = prepare_accessibility_for_window::<String>(w2, Ok(()), &mut adapters, &mut handlers).unwrap();
    assert!(!Arc::ptr_eq(&q1, &q2));
    assert_eq!(sorted(adapters.windows()), vec![w1, w2]);
    assert_eq!(sorted(handlers.windows()), vec![w1, w2]);
    assert!(Arc::ptr_eq(handlers.get(w1).unwrap(), &q1));
    assert!(Arc::ptr_eq(handlers.get(w2).unwrap(), &q2));
}

#[test]
fn prepare_without_adapter_touches_nothing() {
    let (w1, w2) = (Entity::from_raw(1), Entity::from_raw(2));
    let mut adapters = AccessKitAdapters::new();
    let mut handlers = WinitActionRequestHandlers::new();
    let q1 = prepare_accessibility_for_window::<String>(w1, Ok(()), &mut adapters, &mut handlers).unwrap();

    let failed = prepare_accessibility_for_window(
        w2,
        Err(String::from("no adapter")),
        &mut adapters,
        &mut handlers,
    );
    assert_eq!(failed.err(), Some(String::from("no adapter")));
    let failed_again = prepare_accessibility_for_window(w1, Err(17u8), &mut adapters, &mut handlers);
    assert_eq!(failed_again.err(), Some(17u8));

    assert_eq!(adapters.windows(), vec![w1]);
    assert_eq!(handlers.windows(), vec![w1]);
    assert!(Arc::ptr_eq(handlers.get(w1).unwrap(), &q1));
}

#[test]
fn prepare_again_starts_over_with_a_new_queue() {
    let w1 = Entity::from_raw(1);
    let mut adapters = AccessKitAdapters::new();
    let mut handlers = WinitActionRequestHandlers::new();
    let first = prepare_accessibility_for_window::<String>(w1, Ok(()), &mut adapters, &mut handlers).unwrap();
    first.lock().unwrap().enqueue(request(1));
    let second = prepare_accessibility_for_window::<String>(w1, Ok(()), &mut adapters, &mut handlers).unwrap();
    second.lock().unwrap().enqueue(request(2));

    assert!(!Arc::ptr_eq(&first, &second));
    assert_eq!(Arc::strong_count(&first), 1);
    assert_eq!(adapters.len(), 1);
    assert_eq!(handlers.len(), 1);
    let mut actions = Vec::new();
    poll_receivers(&handlers, &mut actions);
    assert_eq!(
        actions,
        vec![WindowActionRequest {
            window: w1,
            request: request(2)
        }]
    );
}

#[test]
fn registries_hold_the_same_windows_after_every_step() {
    let mut adapters = AccessKitAdapters::new();
    let mut handlers = WinitActionRequestHandlers::new();
    let steps: [(bool, u32); 9] = [
        (true, 1),
        (true, 2),
        (false, 1),
        (false, 1),
        (true, 3),
        (true, 2),
        (false, 9),
        (false, 3),
        (false, 2),
    ];
    let mut expected: Vec<Entity> = Vec::new();
    for (prepare, index) in steps {
        let window = Entity::from_raw(index);
        if prepare {
            prepare_accessibility_for_window::<String>(window, Ok(()), &mut adapters, &mut handlers).unwrap();
            if !expected.contains(&window) {
                expected.push(window);
            }
        } else {
            window_closed(&mut adapters, &mut handlers, &vec![window]);
            expected.retain(|known| *known != window);
        }
        assert_eq!(sorted(adapters.windows()), sorted(handlers.windows()));
        assert_eq!(sorted(adapters.windows()), sorted(expected.clone()));
    }
    assert!(adapters.is_empty());
    assert!(handlers.is_empty());
}

#[test]
fn window_closed_removes_only_the_closed_windows() {
    let windows: Vec<Entity> = (1..=4u32).map(Entity::from_raw).collect();
    let mut adapters = AccessKitAdapters::new();
    let mut handlers = WinitActionRequestHandlers::new();
    let mut queues = Vec::new();
    for window in &windows {
        queues.push(
            prepare_accessibility_for_window::<String>(*window, Ok(()), &mut adapters, &mut handlers).unwrap(),
        );
    }

    window_closed(
        &mut adapters,
        &mut handlers,
        &vec![windows[1], Entity::from_raw(50), windows[3], windows[1]],
    );

    assert_eq!(sorted(adapters.windows()), vec![windows[0], windows[2]]);
    assert_eq!(sorted(handlers.windows()), vec![windows[0], windows[2]]);
    assert!(Arc::ptr_eq(handlers.get(windows[0]).unwrap(), &queues[0]));
    assert!(Arc::ptr_eq(handlers.get(windows[2]).unwrap(), &queues[2]));
    assert_eq!(Arc::strong_count(&queues[1]), 1);
    assert_eq!(Arc::strong_count(&queues[3]), 1);
}

#[test]
fn window_closed_without_signal_is_a_no_op() {
    let w1 = Entity::from_raw(1);
    let mut adapters = AccessKitAdapters::new();
    let mut handlers = WinitActionRequestHandlers::new();
    prepare_accessibility_for_window::<String>(w1, Ok(()), &mut adapters, &mut handlers).unwrap();
    window_closed(&mut adapters, &mut handlers, &Vec::new());
    assert_eq!(adapters.windows(), vec![w1]);
    assert_eq!(handlers.windows(), vec![w1]);
}

#[test]
fn repeated_close_is_a_no_op() {
    let (w1, w2) = (Entity::from_raw(1), Entity::from_raw(2));
    let mut adapters = AccessKitAdapters::new();
    let mut handlers = WinitActionRequestHandlers::new();
    prepare_accessibility_for_window::<String>(w1, Ok(()), &mut adapters, &mut handlers).unwrap();
    prepare_accessibility_for_window::<String>(w2, Ok(()), &mut adapters, &mut handlers).unwrap();
    window_closed(&mut adapters, &mut handlers, &vec![w1]);
    window_closed(&mut adapters, &mut handlers, &vec![w1]);
    window_closed(&mut adapters, &mut handlers, &vec![w1, w1]);
    assert_eq!(adapters.windows(), vec![w2]);
    assert_eq!(handlers.windows(), vec![w2]);
    let mut empty_adapters = AccessKitAdapters::new();
    let mut empty_handlers = WinitActionRequestHandlers::new();
    window_closed(&mut empty_adapters, &mut empty_handlers, &vec![w1]);
    assert!(empty_adapters.is_empty());
    assert!(empty_handlers.is_empty());
}

#[test]
fn poll_receivers_drains_every_registered_queue() {
    let (w1, w2, w3) = (Entity::from_raw(1), Entity::from_raw(2), Entity::from_raw(3));
    let (q1, q2, q3) = (queue_with(&[1, 2]), queue_with(&[]), queue_with(&[3]));
    let mut handlers = WinitActionRequestHandlers::new();
    handlers.insert(w1, q1.clone());
    handlers.insert(w2, q2.clone());
    handlers.insert(w3, q3.clone());

    let mut actions = Vec::new();
    let skipped = poll_receivers(&handlers, &mut actions);

    assert!(skipped.is_empty());
    assert_eq!(actions.len(), 3);
    let targets_of = |window: Entity| -> Vec<NodeId> {
        actions
            .iter()
            .filter(|event| event.window == window)
            .map(|event| event.request.target)
            .collect()
    };
    assert_eq!(targets_of(w1), vec![NodeId(1), NodeId(2)]);
    assert_eq!(targets_of(w2), Vec::new());
    assert_eq!(targets_of(w3), vec![NodeId(3)]);
    assert!(q1.lock().unwrap().is_empty());
    assert!(q3.lock().unwrap().is_empty());
    assert_eq!(handlers.len(), 3);

    let mut again = Vec::new();
    assert!(poll_receivers(&handlers, &mut again).is_empty());
    assert_eq!(again, Vec::new());
}

#[test]
fn poll_receivers_of_an_empty_registry_emits_nothing() {
    let handlers = WinitActionRequestHandlers::new();
    let mut actions = vec![WindowActionRequest {
        window: Entity::from_raw(1),
        request: request(1),
    }];
    let skipped = poll_receivers(&handlers, &mut actions);
    assert!(skipped.is_empty());
    assert_eq!(actions.len(), 1);
}

#[test]
fn one_queue_under_two_windows_is_drained_once() {
    let (w1, w2) = (Entity::from_raw(1), Entity::from_raw(2));
    let shared = queue_with(&[1, 2]);
    let mut handlers = WinitActionRequestHandlers::new();
    handlers.insert(w1, shared.clone());
    handlers.insert(w2, shared.clone());
    let mut actions = Vec::new();
    poll_receivers(&handlers, &mut actions);
    assert_eq!(actions.len(), 2);
    assert_eq!(actions[0].window, actions[1].window);
    assert_eq!(actions[0].request, request(1));
    assert_eq!(actions[1].request, request(2));
}

#[test]
fn busy_queue_is_skipped_and_drained_by_the_next_poll() {
    let (w1, w2) = (Entity::from_raw(1), Entity::from_raw(2));
    let (q1, q2) = (queue_with(&[1, 2]), queue_with(&[3]));
    let mut handlers = WinitActionRequestHandlers::new();
    handlers.insert(w1, q1.clone());
    handlers.insert(w2, q2.clone());

    let mut actions = Vec::new();
    {
        let mut held = q1.lock().unwrap();
        let skipped = poll_receivers(&handlers, &mut actions);
        assert_eq!(
            skipped,
            vec![SkippedWindow {
                window: w1,
                reason: Skipped::Busy
            }]
        );
        assert_eq!(
            actions,
            vec![WindowActionRequest {
                window: w2,
                request: request(3)
            }]
        );
        assert_eq!(held.len(), 2);
        held.enqueue(request(4));
    }
    assert!(q2.lock().unwrap().is_empty());

    let mut later = Vec::new();
    let skipped = poll_receivers(&handlers, &mut later);
    assert!(skipped.is_empty());
    let targets: Vec<NodeId> = later.iter().map(|event| event.request.target).collect();
    assert_eq!(targets, vec![NodeId(1), NodeId(2), NodeId(4)]);
    assert!(later.iter().all(|event| event.window == w1));
    assert!(q1.lock().unwrap().is_empty());
}
