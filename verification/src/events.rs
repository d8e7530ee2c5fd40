//! Taking in the window manager's notifications.

use vstd::prelude::*;

use crate::history::after_focus;
use crate::history::FocusHistory;
use crate::window::Window;

verus! {

/// What happened to a window.
#[derive(Clone, Copy, Debug, PartialEq, Eq, Structural)]
pub enum WindowChange {
    /// The window was created.
    New,
    /// The window was closed.
    Close,
    /// The window gained input focus.
    Focus,
    /// The window's title changed.
    Title,
    /// The window entered or left fullscreen mode.
    FullscreenMode,
    /// The window was moved.
    Move,
    /// The window became floating or tiled.
    Floating,
    /// The window's urgency changed.
    Urgent,
    /// A mark was put on or taken off the window.
    Mark,
    /// Any other change.
    Unknown,
}

/// A notification from the window manager.
#[derive(Clone, Copy, Debug, PartialEq, Eq, Structural)]
pub enum Notification {
    /// Window `id` changed in the way `change` says.
    Window { change: WindowChange, id: i64 },
    /// A notification that is not about a window.
    Other,
}

/// The history after `event` arrived at time `now`: a focus change is
/// recorded, every other notification leaves the history as it is.
pub open spec fn after_event(s: Seq<Window>, event: Notification, now: u64) -> Seq<Window> {
    match event {
        Notification::Window { change: WindowChange::Focus, id } => after_focus(s, id, now),
        _ => s,
    }
}

/// Takes in one notification that arrived at time `now`. Only a focus change
/// touches the history; anything else is passed over.
pub fn ingest(history: &mut FocusHistory, event: Notification, now: u64)
    ensures
        final(history)@ == after_event(old(history)@, event, now),
        final(history).wf(),
{
    proof {
        use_type_invariant(&*history);
    }
    match event {
        Notification::Window { change: WindowChange::Focus, id } => {
            history.on_focus(id, now);
        },
        _ => {},
    }
}

} // verus!
