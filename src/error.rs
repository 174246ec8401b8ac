//! The ways an operation on a connection can fail.
use vstd::prelude::*;

use crate::response::{AckError, AckModel};

verus! {

#[derive(Clone, Debug)]
pub enum MpdError {
    /// The transport failed, or could not be opened.
    Io,
    /// No data came within the deadline.
    Timeout,
    /// A reply line broke the grammar; the connection is closed.
    Protocol,
    /// The server answered with an `ACK` line; the connection stays usable.
    Server(AckError),
    /// The operation is not allowed in the connection's current state.
    State,
    /// The first line from the server was not a greeting.
    Handshake,
}

pub enum ErrorModel {
    Io,
    Timeout,
    Protocol,
    Server(AckModel),
    State,
    Handshake,
}

impl View for MpdError {
    type V = ErrorModel;

    open spec fn view(&self) -> ErrorModel {
        match self {
            MpdError::Io => ErrorModel::Io,
            MpdError::Timeout => ErrorModel::Timeout,
            MpdError::Protocol => ErrorModel::Protocol,
            MpdError::Server(a) => ErrorModel::Server(a@),
            MpdError::State => ErrorModel::State,
            MpdError::Handshake => ErrorModel::Handshake,
        }
    }
}

pub type MpdResult<T> = Result<T, MpdError>;

} // verus!
