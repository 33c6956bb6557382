//! The verified core of kexsh, a terminal multiplexer with a background server:
//! configuration, the wire protocol, the registries of terminals and views, and the
//! decisions that the server and its clients take.

pub mod clock;
pub mod config;
pub mod credential;
pub mod directory;
pub mod error;
pub mod ident;
pub mod ipc;
pub mod paths;
pub mod registry_laws;
pub mod selection;
pub mod server;
pub mod session_laws;
pub mod terminal;
pub mod text;
pub mod view;
