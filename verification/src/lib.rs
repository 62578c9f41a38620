//! Per-application audio mixer core.
//!
//! The crate lists the render sessions of an output endpoint, attaches a display
//! name and an icon to each, and decides which session a volume or mute change
//! goes to. It works on plain values that an adapter has read from the operating
//! system, so every rule is stated in a contract and proved.

pub mod control;
pub mod icon;
pub mod identity;
pub mod session;
pub mod volume;
