//! The frame schedule: which systems run in a frame, in what order, and which of
//! them is gated.
//!
//! Close-cleanup runs before the two others, so that a window that closed in a frame
//! is neither drained nor updated in that frame. The node update runs only when
//! accessibility was requested and the engine manages the updates; the two others
//! run in every frame.

use crate::lifecycle::queues_after_close;
use crate::lifecycle::window_closed;
use crate::lifecycle::windows_after_close;
use crate::pump::drained_by;
use crate::pump::emitted_by;
use crate::pump::grouped_by_window;
use crate::pump::poll_receivers;
use crate::pump::skipped_windows;
use crate::pump::SkippedWindow;
use crate::pump::Visit;
use crate::pump::WindowActionRequest;
use crate::registry::AccessKitAdapters;
use crate::registry::WinitActionRequestHandlers;
use crate::window::distinct_windows;
use crate::window::entity_bits;
use crate::window::names_window;
use bevy_ecs::entity::Entity;
use vstd::prelude::*;

verus! {

/// The three systems of a frame.
#[derive(Clone, Copy, Debug, PartialEq, Eq, Structural)]
pub enum FrameSystem {
    /// Close-cleanup: takes closed windows out of the registries.
    WindowClosed,
    /// Drain-requests: moves pending requests into the event stream.
    PollReceivers,
    /// Update-nodes: reconciles the adapters with the entity world.
    UpdateAccessibilityNodes,
}

/// An entity that carries an accessibility node, with its place in the hierarchy.
pub struct AccessibilityNodeEntry {
    pub entity: Entity,
    pub children: Option<Vec<Entity>>,
    pub parent: Option<Entity>,
}

/// What the node update reads of the entity world. It is handed over by shared
/// reference: the update cannot change it.
pub struct AccessibilityScene {
    /// The entity that has keyboard focus, if any.
    pub focus: Option<Entity>,
    /// The primary window, if there is one.
    pub primary_window: Option<Entity>,
    /// The entities that carry an accessibility node.
    pub nodes: Vec<AccessibilityNodeEntry>,
}

/// What a frame consumes: the windows that closed, the two gating flags as they
/// read at the start of the frame, and the entity world.
pub struct FrameInput {
    pub closed: Vec<Entity>,
    pub accessibility_requested: bool,
    pub manage_accessibility_updates: bool,
    pub scene: AccessibilityScene,
}

/// What a frame did: the systems that ran, in the order in which they ran, and the
/// windows whose queue was not drained, each with the reason.
pub struct FrameReport {
    pub systems: Vec<FrameSystem>,
    pub skipped: Vec<SkippedWindow>,
}

/// Implements winit-specific accessibility functionality: the schedule of the three
/// frame systems.
pub struct AccessKitPlugin;

/// The gating predicate: the accessibility tree is updated only when assistive
/// technology has requested accessibility and the engine manages the updates.
pub open spec fn should_update(accessibility_requested: bool, manage_accessibility_updates: bool) -> bool {
    accessibility_requested && manage_accessibility_updates
}

/// Whether the schedule asks that `first` has run before `then` runs: close-cleanup
/// comes before each of the two others, which are not ordered among themselves.
pub open spec fn runs_before(first: FrameSystem, then: FrameSystem) -> bool {
    first == FrameSystem::WindowClosed && then != FrameSystem::WindowClosed
}

/// Whether `system` runs only when the gating predicate holds.
pub open spec fn gated(system: FrameSystem) -> bool {
    system == FrameSystem::UpdateAccessibilityNodes
}

/// The systems of one frame in the order in which they run, given whether the
/// gating predicate holds.
pub open spec fn frame_systems(update_nodes: bool) -> Seq<FrameSystem> {
    if update_nodes {
        seq![FrameSystem::WindowClosed, FrameSystem::PollReceivers, FrameSystem::UpdateAccessibilityNodes]
    } else {
        seq![FrameSystem::WindowClosed, FrameSystem::PollReceivers]
    }
}

/// Evaluates the gating predicate on the two flags.
pub fn should_update_accessibility_nodes(accessibility_requested: bool, manage_accessibility_updates: bool) -> (update:
    bool)
    ensures
        update == should_update(accessibility_requested, manage_accessibility_updates),
{
    accessibility_requested && manage_accessibility_updates
}

/// Update-nodes: reconciles the adapters with the entity world. How the tree of a
/// window is built is not settled yet, so this returns at once: no window is added
/// or removed and the scene is only read.
pub fn update_accessibility_nodes(adapters: &mut AccessKitAdapters, scene: &AccessibilityScene)
    ensures
        *final(adapters) == *old(adapters),
{
}

impl AccessKitPlugin {
    /// The systems that the plugin registers, each once.
    pub fn systems(&self) -> (all: Vec<FrameSystem>)
        ensures
            all@ == frame_systems(true),
    {
        let mut all: Vec<FrameSystem> = Vec::new();
        all.push(FrameSystem::WindowClosed);
        all.push(FrameSystem::PollReceivers);
        all.push(FrameSystem::UpdateAccessibilityNodes);
        assert(all@ =~= frame_systems(true));
        all
    }

    /// Whether the schedule orders `first` before `then`.
    pub fn must_run_before(&self, first: FrameSystem, then: FrameSystem) -> (ordered: bool)
        ensures
            ordered == runs_before(first, then),
    {
        first == FrameSystem::WindowClosed && then != FrameSystem::WindowClosed
    }

    /// Whether `system` runs only in frames in which the gating predicate holds.
    pub fn is_gated(&self, system: FrameSystem) -> (is_gated: bool)
        ensures
            is_gated == gated(system),
    {
        system == FrameSystem::UpdateAccessibilityNodes
    }

    /// Runs one frame: close-cleanup on the windows that closed, then drain-requests
    /// into `actions`, then update-nodes if the gating predicate holds on the flags
    /// of `input`.
    ///
    /// Events that were in `actions` before stay in front. The drain visits the
    /// windows that are still registered after the cleanup, each once, so no event
    /// that the frame adds comes from a window that closed in this frame.
    pub fn run_frame(
        &self,
        input: &FrameInput,
        adapters: &mut AccessKitAdapters,
        handlers: &mut WinitActionRequestHandlers,
        actions: &mut Vec<WindowActionRequest>,
    ) -> (report: FrameReport)
        ensures
            report.systems@ == frame_systems(
                should_update(input.accessibility_requested, input.manage_accessibility_updates),
            ),
            final(adapters)@ == windows_after_close(old(adapters)@, input.closed@),
            final(handlers)@ == queues_after_close(old(handlers)@, input.closed@),
            old(adapters)@ == old(handlers)@.dom() ==> final(adapters)@ == final(handlers)@.dom(),
            exists|visits: Seq<Visit>|
                #[trigger] drained_by(
                    visits,
                    final(handlers)@.dom(),
                    old(actions)@,
                    final(actions)@,
                    report.skipped@,
                ),
            old(actions)@.is_prefix_of(final(actions)@),
            emitted_by(final(actions)@, old(actions)@.len() as int, final(handlers)@.dom()),
            grouped_by_window(final(actions)@, old(actions)@.len() as int),
            forall|k: int|
                old(actions)@.len() <= k < final(actions)@.len() ==> !names_window(
                    input.closed@,
                    #[trigger] entity_bits(final(actions)@[k].window),
                ),
            distinct_windows(skipped_windows(report.skipped@)),
            forall|j: int|
                0 <= j < report.skipped.len() ==> final(handlers)@.dom().contains(
                    #[trigger] entity_bits(report.skipped[j].window),
                ),
            forall|k: int|
                old(actions)@.len() <= k < final(actions)@.len() ==> !names_window(
                    skipped_windows(report.skipped@),
                    #[trigger] entity_bits(final(actions)@[k].window),
                ),
    {
        let mut systems: Vec<FrameSystem> = Vec::new();
        window_closed(adapters, handlers, &input.closed);
        systems.push(FrameSystem::WindowClosed);
        let skipped = poll_receivers(handlers, actions);
        let ghost visits = choose|visits: Seq<Visit>|
            drained_by(visits, handlers@.dom(), old(actions)@, actions@, skipped@);
        systems.push(FrameSystem::PollReceivers);
        if should_update_accessibility_nodes(input.accessibility_requested, input.manage_accessibility_updates) {
            update_accessibility_nodes(adapters, &input.scene);
            systems.push(FrameSystem::UpdateAccessibilityNodes);
        }
        assert(systems@ =~= frame_systems(
            should_update(input.accessibility_requested, input.manage_accessibility_updates),
        ));
        let report = FrameReport { systems, skipped };
        assert(drained_by(visits, handlers@.dom(), old(actions)@, actions@, report.skipped@));
        report
    }
}

/// Gating and order of a frame: whatever the flags, close-cleanup and drain-requests
/// run; update-nodes runs if and only if the gating predicate holds; no system runs
/// twice; and no system runs before one that the schedule orders ahead of it.
pub proof fn frame_follows_schedule(accessibility_requested: bool, manage_accessibility_updates: bool)
    ensures
        ({
            let ran = frame_systems(should_update(accessibility_requested, manage_accessibility_updates));
            &&& ran.contains(FrameSystem::WindowClosed)
            &&& ran.contains(FrameSystem::PollReceivers)
            &&& ran.contains(FrameSystem::UpdateAccessibilityNodes) <==> (accessibility_requested
                && manage_accessibility_updates)
            &&& ran.no_duplicates()
            &&& forall|i: int, j: int| 0 <= i < j < ran.len() ==> !runs_before(ran[j], ran[i])
            &&& forall|i: int| 0 <= i < ran.len() && gated(ran[i]) ==> should_update(
                accessibility_requested,
                manage_accessibility_updates,
            )
        }),
{
    let ran = frame_systems(should_update(accessibility_requested, manage_accessibility_updates));
    assert(ran[0] == FrameSystem::WindowClosed);
    assert(ran[1] == FrameSystem::PollReceivers);
    if should_update(accessibility_requested, manage_accessibility_updates) {
        assert(ran[2] == FrameSystem::UpdateAccessibilityNodes);
    }
}

} // verus!
