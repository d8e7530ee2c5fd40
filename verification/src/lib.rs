//! Focus-history tracking for "go back to the previous window" switching.
//!
//! The crate records the order in which windows receive input focus, applies a
//! debounce policy so that windows which were focused only fleetingly do not
//! occupy the history, and decides which window to focus when asked to switch
//! back. It performs no input or output of its own: callers hand in focus
//! notifications, clock readings, request bytes and a way to ask the window
//! manager for focus, and get back the new state and the text to answer with.
//!
//! [`history`] holds the history and its update policy, [`switcher`] the
//! search for a window that can still be focused, [`events`] the intake of
//! window manager notifications, [`server`] the command protocol, [`tree`]
//! the walk to the focused window at start-up, and [`text`] the rendering of
//! numbers.
//!
//! Times are readings of a monotonic clock in nanoseconds. Window ids are the
//! window manager's handles; they are compared and printed, never computed
//! with.

pub mod events;
pub mod history;
pub mod server;
pub mod switcher;
pub mod text;
pub mod tree;
pub mod window;

pub use crate::history::FocusHistory;
pub use crate::window::Window;
pub use crate::window::MAX_HISTORY;
pub use crate::window::MIN_FOCUS_NANOS;
