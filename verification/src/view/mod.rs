//! Views: named groups of terminals.

pub mod laws;
pub mod manager;
