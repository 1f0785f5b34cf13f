//! The errors that the library reports.

use vstd::prelude::*;

verus! {

#[verifier::external_type_specification]
#[verifier::external_body]
pub struct ExJsonError(serde_json::Error);

#[verifier::external_type_specification]
#[verifier::external_body]
pub struct ExIoError(std::io::Error);

/// Why an operation of the library failed.
#[derive(Debug)]
pub enum PulseError {
    /// The user's home directory could not be determined.
    HomeDirNotFound,
    /// The tool has not been initialised yet.
    ConfigMissing,
    /// A failure described in words.
    Message(String),
    /// A file could not be read.
    Io(std::io::Error),
    /// A text that is not JSON, or a document that could not be written as JSON.
    Json(serde_json::Error),
}

impl PulseError {
    /// The error that carries the words of `msg`.
    pub fn message(msg: &str) -> (error: PulseError)
        ensures
            error matches PulseError::Message(text) && text@ == msg@,
    {
        PulseError::Message(msg.to_owned())
    }

    /// The words of a `Message`.
    pub open spec fn words(self) -> Option<Seq<char>> {
        match self {
            PulseError::Message(text) => Some(text@),
            _ => None,
        }
    }
}

} // verus!
