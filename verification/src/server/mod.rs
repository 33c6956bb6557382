//! The background server.

pub mod connection;
pub mod connection_laws;
pub mod multiplex;
pub mod multiplex_laws;
pub mod pid;

use vstd::prelude::*;
use vstd::string::*;

use crate::error::{ErrorView, KexshError, Result};

verus! {

/// Whether a server may start, given whether one runs already.
pub fn check_may_start(running: bool) -> (checked: Result<()>)
    ensures
        !running ==> checked is Ok,
        running ==> (checked matches Err(error) && error@ == ErrorView::Server(
            "server is already running"@,
        )),
{
    if running {
        Err(KexshError::Server("server is already running".to_owned()))
    } else {
        Ok(())
    }
}

} // verus!
