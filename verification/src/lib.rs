//! The decisions of a macOS window: how it is opened, how its events reach
//! its handler, how it is resized and focused, and how it is torn down.
//!
//! Nothing in this crate talks to AppKit. Every operation that needs the
//! platform is a small machine that hands out one command at a time and is
//! resumed with the platform's answer, so that the order of the native calls
//! and every choice between them is decided, and proved, here.
pub mod ancestor;
pub mod clipboard;
pub mod close;
pub mod close_laws;
pub mod closing_reach_laws;
pub mod closing_sequence_laws;
pub mod counting;
pub mod events;
pub mod finalize;
pub mod focus;
pub mod handle;
pub mod lifetime_laws;
pub mod open;
pub mod open_laws;
pub mod resize;
pub mod script_laws;
pub mod state;
pub mod values;
pub mod window;
