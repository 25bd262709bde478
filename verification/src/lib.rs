//! Interactive controller for a terminal messaging client.
//!
//! The crate owns the client-side view state of the interface: the dialog
//! list with its unread counters, the per-dialog transcripts, the search,
//! sort, focus and compose state, and the arithmetic that anchors the
//! transcript viewport to the bottom of the screen.  Every state transition
//! is a verified function with a contract that pins the new state down.
//!
//! Terminal rendering and the network backend are collaborators outside of
//! this crate: they exchange plain values with it (key presses arrive as
//! [`input::KeyInput`], backend traffic as [`model::TelegramRequest`] and
//! [`model::TelegramEvent`]).

pub mod control;
pub mod input;
pub mod model;
pub mod state;
pub mod store;
pub mod text;
pub mod viewport;
pub mod visible;
