//! Verified core of a small immediate-mode GUI toolkit: focus handling, event
//! consumption, widget interaction state machines, rectangle geometry and the
//! deterministic shuffle used by the layouts.

pub mod layout;
pub mod util;
pub mod widget;
