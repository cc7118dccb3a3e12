//! A keyboard-shortcut synchroniser for configured panes.
//!
//! The library keeps an ordered table of configured pane titles (slots),
//! resolves each slot against runtime pane snapshots, produces the text
//! block that binds one function key per slot, and decides which pane an
//! inbound trigger message addresses.  All host interaction (events,
//! renames, reruns) stays outside the library: it consumes plain values
//! and hands plain values back.

pub mod binder;
pub mod config;
pub mod dispatch;
pub mod matcher;
pub mod slots;
pub mod text;
