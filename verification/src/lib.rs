//! The decision core of a clipboard manager for Wayland desktops.
//!
//! Everything that talks to a compositor, a widget toolkit, a keyring or a
//! database lives outside this crate. What is decided in between (which text a
//! search matches, how a stored payload is sealed and opened, what a key press
//! does to the history list, which requests a configure event is answered
//! with) is here, as functions from plain values to plain values, each with a
//! contract that is proved.

pub mod active_window;
pub mod capture_layer;
pub mod config;
pub mod crypto;
pub mod fixed;
pub mod history;
pub mod initializer;
pub mod inspect;
pub mod overlay;
pub mod paint;
pub mod payload;
pub mod persistence;
pub mod placement;
pub mod report;
pub mod row;
pub mod session;
pub mod text;
pub mod toggle;
pub mod virtual_keyboard;
pub mod wire;
