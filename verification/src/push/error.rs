//! What can go wrong in the push pipeline.

use vstd::prelude::*;

verus! {

/// The push pipeline's error taxonomy.
#[derive(Debug)]
pub enum ErrorKind {
    /// An unspecified general error has occurred.
    GeneralError(String),
    /// An unspecified internal processing error has occurred.
    InternalError(String),
    /// A client communication error.
    CommunicationError(String),
    /// An error returned from the registration server.
    CommunicationServerError(String),
    /// The channel is already registered; generate a new channel id.
    AlreadyRegisteredError,
    /// An error with storage.
    StorageError(String),
}

impl ErrorKind {
    /// An internal error around a message.
    pub fn internal(msg: &str) -> (r: ErrorKind)
        ensures
            r matches ErrorKind::InternalError(m) && m@ == msg@,
    {
        ErrorKind::InternalError(String::from_str(msg))
    }
}

} // verus!
