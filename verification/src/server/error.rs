//! Errors that a request can end in.

use vstd::prelude::*;

verus! {

/// Why a request failed.
#[derive(Debug, Clone)]
pub enum AppError {
    NotFound(String),
    BadRequest(String),
    InternalError(String),
}

impl AppError {
    /// The HTTP status code that reports the error.
    pub open spec fn status(&self) -> u16 {
        match self {
            AppError::NotFound(_) => 404,
            AppError::BadRequest(_) => 400,
            AppError::InternalError(_) => 500,
        }
    }

    /// The HTTP status code that reports the error.
    pub fn status_code(&self) -> (r: u16)
        ensures
            r == self.status(),
    {
        match self {
            AppError::NotFound(_) => 404,
            AppError::BadRequest(_) => 400,
            AppError::InternalError(_) => 500,
        }
    }

    /// The text that goes with the error.
    pub fn message(&self) -> (r: &String)
        ensures
            match self {
                AppError::NotFound(msg) => r == msg,
                AppError::BadRequest(msg) => r == msg,
                AppError::InternalError(msg) => r == msg,
            },
    {
        match self {
            AppError::NotFound(msg) => msg,
            AppError::BadRequest(msg) => msg,
            AppError::InternalError(msg) => msg,
        }
    }
}

} // verus!
