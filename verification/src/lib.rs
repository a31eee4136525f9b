//! Verified core of a small desktop-window utility: enumerate the top-level
//! windows of a host window manager, read their titles (stored by the host in
//! a wide, UTF-16 encoding), find a window by exact title, and resize it
//! without moving it.
//!
//! The window operations are stated and verified against a value-level model
//! of the host desktop ([`desktop::Desktop`]); a live host binding drives the
//! same logic from outside the library.

pub mod cli;
pub mod commands;
pub mod decimal;
pub mod desktop;
pub mod wide;
