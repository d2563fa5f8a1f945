//! Response bodies of the request/response surface.
//!
//! The transport itself — routing, headers, serialization — is an external
//! collaborator; the core only fills these values in.

use vstd::prelude::*;

use crate::task::Status;

verus! {

/// The body answering a status request for one task.
#[derive(Debug)]
pub struct StatusReponse {
    /// Status of the given task.
    pub status: Status,
}

impl StatusReponse {
    /// Wraps the status a lookup produced.
    pub fn new(status: Status) -> (r: StatusReponse)
        ensures
            r.status == status,
    {
        StatusReponse { status }
    }
}

} // verus!
