//! What the overlay shell shares with the rest of the program: the requests it makes, and the
//! integer half of its geometry.

pub mod layout;
pub mod placement;
pub mod shortcuts;

use vstd::prelude::*;

verus! {

/// What the Wayland shell asks the program's loop to do once it has handled an event.
///
/// Everything that needs compositor I/O leaves through here, so the event handlers stay pure
/// enough to reason about and the loop keeps sole ownership of the request socket.
#[derive(Debug, Clone, Copy, PartialEq, Eq, Structural)]
pub enum Request {
    /// The switcher shortcut fired. Opens a session, or advances the highlight when one is
    /// already open.
    SwitcherPressed,
    /// The switcher shortcut was released. Only interesting before the overlay ever gained
    /// keyboard focus — the fast-tap path.
    SwitcherReleased,
    /// The new-workspace shortcut fired. Never opens an overlay.
    NewWorkspace,
    /// A session was committed or cancelled; the loop turns the outcome into dispatches.
    SessionEnded,
}

} // verus!
