//! Hyprland's two sockets: the event stream that keeps the cached view current, and the request
//! socket that queries and dispatches.

pub mod events;
pub mod ipc;
