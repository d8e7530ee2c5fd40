//! The record kept for each window in the focus history.

use vstd::prelude::*;

verus! {

/// How long, in nanoseconds, a window must have held focus to stay in the
/// history once another window takes over.
pub const MIN_FOCUS_NANOS: u64 = 2_000_000_000;

/// The largest number of windows the history keeps.
pub const MAX_HISTORY: usize = 100;

/// One entry of the focus history.
///
/// `id` is the window manager's handle for the window; it is only ever
/// compared for equality. `focused_at` is a reading of a monotonic clock, in
/// nanoseconds, taken when the window last became the most recent entry.
/// `just_switched` is set on the front entry while a switch away from it has
/// been requested and the matching focus notification is still outstanding.
#[derive(Clone, Copy, Debug, PartialEq, Eq, Structural)]
pub struct Window {
    pub id: i64,
    pub focused_at: u64,
    pub just_switched: bool,
}

impl Window {
    /// A window that has held focus for less than [`MIN_FOCUS_NANOS`] at time
    /// `now`. A clock reading that lies before `focused_at` counts as no time
    /// having passed.
    pub open spec fn held_briefly(self, now: u64) -> bool {
        now - self.focused_at < MIN_FOCUS_NANOS
    }

    /// The same window with `just_switched` set to `flag`.
    pub open spec fn with_pending(self, flag: bool) -> Window {
        Window { id: self.id, focused_at: self.focused_at, just_switched: flag }
    }

    /// The record for window `id` gaining focus at time `now`.
    pub fn new(id: i64, now: u64) -> (w: Window)
        ensures
            w == (Window { id, focused_at: now, just_switched: false }),
    {
        Window { id, focused_at: now, just_switched: false }
    }

    /// Whether this window has held focus for less than [`MIN_FOCUS_NANOS`]
    /// at time `now`.
    pub fn is_brief(&self, now: u64) -> (brief: bool)
        ensures
            brief == self.held_briefly(now),
    {
        now < self.focused_at || now - self.focused_at < MIN_FOCUS_NANOS
    }

    /// A copy of this window with `just_switched` set to `flag`.
    pub fn pending(&self, flag: bool) -> (w: Window)
        ensures
            w == self.with_pending(flag),
    {
        Window { id: self.id, focused_at: self.focused_at, just_switched: flag }
    }
}

} // verus!
