//! The client's end of a connection that carries requests and their answers.

use vstd::prelude::*;
use vstd::string::*;

use crate::error::{ErrorView, KexshError};

verus! {

/// The error for a connection that failed.
pub fn connect_error(path: &str, reason: &str) -> (error: KexshError)
    ensures
        error@ == ErrorView::Ipc("failed to connect to "@ + path@ + ": "@ + reason@),
{
    KexshError::Ipc("failed to connect to ".to_owned().concat(path).concat(": ").concat(reason))
}

} // verus!
