use bevy_a11y::accesskit::Action;
use bevy_a11y::accesskit::ActionRequest;
use bevy_a11y::accesskit::NodeId;
use bevy_ecs::entity::Entity;
use bevy_winit::emit_guarded;
use bevy_winit::emit_pending;
use bevy_winit::WindowActionRequest;
use bevy_winit::WinitActionRequestHandler;
use std::sync::Mutex;

fn request(target: u64) -> ActionRequest {
    ActionRequest {
        action: Action::Default,
        target: NodeId(target),
        data: None,
    }
}

#[test]
fn default_queue_is_empty() {
    let mut queue = WinitActionRequestHandler::default();
    assert!(queue.is_empty());
    assert_eq!(queue.len(), 0);
    assert_eq!(queue.dequeue(), None);
    let mut sink = Vec::new();
    queue.drain_into(&mut sink);
    assert_eq!(sink, Vec::new());
}

#[test]
fn enqueue_appends_at_the_tail() {
    let mut queue = WinitActionRequestHandler::default();
    queue.enqueue(request(1));
    queue.enqueue(request(2));
    queue.enqueue(request(3));
    assert_eq!(queue.len(), 3);
    assert!(!queue.is_empty());
    let pending: Vec<ActionRequest> = queue.0.iter().cloned().collect();
    assert_eq!(pending, vec![request(1), request(2), request(3)]);
}

#[test]
fn dequeue_takes_the_oldest() {
    let mut queue = WinitActionRequestHandler::default();
    queue.enqueue(request(1));
    queue.enqueue(request(2));
    assert_eq!(queue.dequeue(), Some(request(1)));
    assert_eq!(queue.len(), 1);
    assert_eq!(queue.dequeue(), Some(request(2)));
    assert_eq!(queue.dequeue(), None);
    assert!(queue.is_empty());
}

#[test]
fn drain_moves_everything_front_to_back() {
    let mut queue = WinitActionRequestHandler::default();
    queue.enqueue(request(1));
    queue.enqueue(request(2));
    let mut sink = vec![request(0)];
    queue.drain_into(&mut sink);
    assert_eq!(sink, vec![request(0), request(1), request(2)]);
    assert!(queue.is_empty());
}

#[test]
fn interleaved_enqueues_and_drains_are_first_in_first_out() {
    let mut queue = WinitActionRequestHandler::default();
    let mut observed = Vec::new();
    queue.enqueue(request(1));
    queue.drain_into(&mut observed);
    queue.drain_into(&mut observed);
    queue.enqueue(request(2));
    queue.enqueue(request(3));
    queue.drain_into(&mut observed);
    queue.enqueue(request(4));
    assert_eq!(observed, vec![request(1), request(2), request(3)]);
    queue.drain_into(&mut observed);
    assert_eq!(
        observed,
        vec![request(1), request(2), request(3), request(4)]
    );
}

#[test]
fn emit_pending_tags_each_request_with_its_window() {
    let window = Entity::from_raw(7);
    let other = Entity::from_raw(8);
    let mut queue = WinitActionRequestHandler::default();
    queue.enqueue(request(1));
    queue.enqueue(request(2));
    let mut actions = vec![WindowActionRequest {
        window: other,
        request: request(0),
    }];
    emit_pending(window, &mut queue, &mut actions);
    assert_eq!(
        actions,
        vec![
            WindowActionRequest {
                window: other,
                request: request(0)
            },
            WindowActionRequest {
                window,
                request: request(1)
            },
            WindowActionRequest {
                window,
                request: request(2)
            },
        ]
    );
    assert!(queue.is_empty());
}

#[test]
fn emit_pending_of_an_empty_queue_adds_nothing() {
    let mut queue = WinitActionRequestHandler::default();
    let mut actions = Vec::new();
    emit_pending(Entity::from_raw(1), &mut queue, &mut actions);
    assert_eq!(actions, Vec::new());
}

#[test]
fn emit_guarded_empties_what_is_behind_the_lock() {
    let window = Entity::from_raw(3);
    let mut queue = WinitActionRequestHandler::default();
    queue.enqueue(request(1));
    queue.enqueue(request(2));
    let shared = Mutex::new(queue);
    let mut actions = Vec::new();
    {
        let mut guard = shared.lock().unwrap();
        emit_guarded(window, &mut guard, &mut actions);
        assert!(guard.is_empty());
        emit_guarded(window, &mut guard, &mut actions);
    }
    assert_eq!(
        actions,
        vec![
            WindowActionRequest {
                window,
                request: request(1)
            },
            WindowActionRequest {
                window,
                request: request(2)
            },
        ]
    );
    assert!(shared.lock().unwrap().is_empty());

    shared.lock().unwrap().enqueue(request(3));
    emit_guarded(window, &mut shared.lock().unwrap(), &mut actions);
    assert_eq!(actions.len(), 3);
    assert_eq!(actions[2].request, request(3));
}

#[test]
fn clone_keeps_the_pending_requests() {
    let mut queue = WinitActionRequestHandler::default();
    queue.enqueue(request(1));
    queue.enqueue(request(2));
    let mut copy = queue.clone();
    copy.enqueue(request(3));
    assert_eq!(queue.len(), 2);
    assert_eq!(copy.dequeue(), Some(request(1)));
    assert_eq!(copy.dequeue(), Some(request(2)));
    assert_eq!(copy.dequeue(), Some(request(3)));
    assert_eq!(queue.dequeue(), Some(request(1)));
}
