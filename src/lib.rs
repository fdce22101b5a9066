//! Key-driven camera zoom control.
//!
//! Two parts: [`keys`] turns raw input events into discrete zoom actions, and
//! [`zoom`] keeps a table of zoom levels and a clamped index into it.

pub mod keys;

pub mod zoom;
