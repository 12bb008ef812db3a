//! Accessibility bridging between native windows and the engine's event stream.
//!
//! For every native window the crate keeps an accessibility adapter and a shared
//! queue of action requests. Windows are registered and torn down in lockstep in
//! both registries, and once per frame the pending requests are moved out of the
//! queues into the frame's stream of accessibility actions.

pub mod lifecycle;
pub mod pump;
pub mod queue;
pub mod registry;
pub mod schedule;
pub mod window;

pub use lifecycle::prepare_accessibility_for_window;
pub use lifecycle::window_closed;
pub use lifecycle::RegistryOp;
pub use pump::emit_guarded;
pub use pump::emit_pending;
pub use pump::poll_receivers;
pub use pump::Skipped;
pub use pump::SkippedWindow;
pub use pump::WindowActionRequest;
pub use queue::QueueOp;
pub use queue::WinitActionRequestHandler;
pub use registry::AccessKitAdapters;
pub use registry::WinitActionRequestHandlers;
pub use schedule::should_update_accessibility_nodes;
pub use schedule::update_accessibility_nodes;
pub use schedule::AccessKitPlugin;
pub use schedule::AccessibilityNodeEntry;
pub use schedule::AccessibilityScene;
pub use schedule::FrameInput;
pub use schedule::FrameReport;
pub use schedule::FrameSystem;
pub use window::entity_bits;
pub use window::names_window;
pub use window::same_window;
