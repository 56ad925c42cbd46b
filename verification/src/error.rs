//! Error envelope handed to callers of the engine.

use vstd::prelude::*;

verus! {

/// Classes of failure that the engine reports.
#[derive(Debug, Clone, Copy, PartialEq, Eq, Structural)]
pub enum ErrorCode {
    SerializationError,
    DeserializationError,
    StrategyUpdateError,
    InvalidInput,
    NotFound,
    InternalError,
}

impl ErrorCode {
    /// The short identifier of the code, of the form `E001`.
    pub fn label(&self) -> (label: &'static str)
        ensures
            label@ == self.spec_label(),
    {
        match self {
            ErrorCode::SerializationError => "E001",
            ErrorCode::DeserializationError => "E002",
            ErrorCode::StrategyUpdateError => "E003",
            ErrorCode::InvalidInput => "E004",
            ErrorCode::InternalError => "E005",
            ErrorCode::NotFound => "E006",
        }
    }

    /// The identifier of each code.
    pub open spec fn spec_label(&self) -> Seq<char> {
        match self {
            ErrorCode::SerializationError => "E001"@,
            ErrorCode::DeserializationError => "E002"@,
            ErrorCode::StrategyUpdateError => "E003"@,
            ErrorCode::InvalidInput => "E004"@,
            ErrorCode::InternalError => "E005"@,
            ErrorCode::NotFound => "E006"@,
        }
    }
}

/// An error code together with a human-readable message.
#[derive(Debug)]
pub struct AppError {
    pub code: ErrorCode,
    pub message: String,
}

impl AppError {
    /// Pairs a code with a message.
    pub fn new(code: ErrorCode, message: String) -> (err: Self)
        ensures
            err.code == code,
            err.message == message,
    {
        AppError { code, message }
    }
}

} // verus!
