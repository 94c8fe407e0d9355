//! Errors of the control interface: what a supervisor call can fail
//! with, and the flattened error carried back to the control client.

use vstd::prelude::*;

verus! {

/// Why a call into the supervisor failed: the operation itself failed
/// with a message, the supervisor's queue is gone, or the supervisor
/// dropped the reply channel before answering.
#[derive(Debug)]
pub enum ApiError {
    OpFailed { message: String },
    Dead,
    Crashed,
}

impl ApiError {
    /// The failure described in one line.
    pub fn to_message(&self) -> (r: String)
        ensures
            match self {
                ApiError::OpFailed { message } => r@ == "Bar server operation failed: "@
                    + message@,
                ApiError::Dead => r@ == "Bar server is dead"@,
                ApiError::Crashed => r@ == "Bar server exited before replying"@,
            },
    {
        match self {
            ApiError::OpFailed { message } => {
                let mut r = "Bar server operation failed: ".to_owned();
                r.append(message.as_str());
                r
            },
            ApiError::Dead => "Bar server is dead".to_owned(),
            ApiError::Crashed => "Bar server exited before replying".to_owned(),
        }
    }
}

/// The error a control call answers with: the supervisor failure
/// flattened to its message, so it can cross the wire as plain text.
#[derive(Debug)]
pub struct Error {
    pub text: String,
}

impl Error {
    /// Flattens a supervisor failure into its message.
    pub fn from(e: ApiError) -> (r: Self)
        ensures
            match e {
                ApiError::OpFailed { message } => r.text@ == "Bar server operation failed: "@
                    + message@,
                ApiError::Dead => r.text@ == "Bar server is dead"@,
                ApiError::Crashed => r.text@ == "Bar server exited before replying"@,
            },
    {
        let text = e.to_message();
        Error { text }
    }
}

} // verus!
