use vstd::prelude::*;

verus! {

/// The category of a failure, mirroring the distinct failure modes of the
/// installer: duplicate installs, missing targets, bad input, lock contention,
/// transport problems and so on. An HTTP failure carries its status code.
#[derive(Clone, Copy, Debug, PartialEq, Eq, Structural)]
pub enum Cause {
    AlreadyExists,
    HTTPStatus(u16),
    LockError,
    InvalidData,
    InvalidState,
    InvalidVersion,
    IOError,
    NotFound,
    SerializationError,
    UnknownError,
}

/// An error of the installer: a cause plus a human-readable message.
#[derive(Debug)]
pub struct BinmanError {
    pub cause: Cause,
    pub message: String,
}

impl BinmanError {
    /// Builds an error from a cause and a message.
    pub fn new(cause: Cause, msg: &str) -> (r: BinmanError)
        ensures
            r.cause == cause,
            r.message@ == msg@,
    {
        BinmanError { cause, message: msg.to_owned() }
    }

    /// The message, for display at the boundary.
    pub fn message(&self) -> (r: &String)
        ensures
            r@ == self.message@,
    {
        &self.message
    }
}

pub type BinmanResult<T> = Result<T, BinmanError>;

} // verus!
