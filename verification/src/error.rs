//! The closed error taxonomy surfaced to the transport layer.

use vstd::prelude::*;

verus! {

/// Every fallible operation of the coordinator returns one of these; the
/// taxonomy is closed and each variant maps to one HTTP status code.
#[derive(Debug)]
pub enum Error {
    Unauthorized,
    NotFound,
    NotInGame,
    AlreadyInGame,
    MaxPlayerReached,
    NotEnoughPlayers,
    InvalidName,
    VotesNotReady,
    VotesClosed,
    AlreadyStarted,
    IncorrectState,
    Internal { msg: String },
}

impl Error {
    /// Folds a free-form diagnostic message into the internal-failure variant.
    pub fn from(msg: String) -> (e: Error)
        ensures
            e == (Error::Internal { msg }),
    {
        Error::Internal { msg }
    }

    /// The HTTP status code under which the transport reports this error:
    /// not-found is 404, an internal failure is 500, a caller that is not the
    /// subject is 403, and every other violation is a plain bad request.
    pub fn status_code(&self) -> (c: u16)
        ensures
            c == match self {
                Error::NotFound => 404u16,
                Error::Internal { .. } => 500u16,
                Error::Unauthorized => 403u16,
                _ => 400u16,
            },
    {
        match self {
            Error::NotFound => 404,
            Error::Internal { .. } => 500,
            Error::Unauthorized => 403,
            _ => 400,
        }
    }
}

} // verus!
