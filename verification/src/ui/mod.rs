//! Presentation logic: what the panels show, computed from plain values.
pub mod graph;
pub mod cores;
pub mod processes;
pub mod color;
pub mod layout;
