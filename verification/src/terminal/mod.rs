//! Terminals.

pub mod attach;
pub mod laws;
pub mod manager;
pub mod switch;
