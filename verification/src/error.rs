//! The errors of the command-line client, with their codes.

use vstd::prelude::*;

verus! {

/// What can go wrong in one invocation of the client.
#[derive(Debug, Clone, PartialEq, Eq)]
pub enum CliError {
    /// The HTTP request failed; the field holds what the transport said.
    HttpError(String),
    /// The prompt needs more tokens than the context allows.
    ContextLimitExceeded { required: usize, limit: usize, excess: usize },
    InvalidResponse(String),
    FileNotFound(String),
    InvalidArguments(String),
    AuthenticationFailed(String),
    PdfProcessingFailed(String),
}

impl CliError {
    /// The error code as it stands in the JSON output.
    pub open spec fn code_text(self) -> Seq<char> {
        match self {
            CliError::ContextLimitExceeded { .. } => "CONTEXT_LIMIT_EXCEEDED"@,
            CliError::HttpError(_) => "HTTP_ERROR"@,
            CliError::InvalidResponse(_) => "INVALID_RESPONSE"@,
            CliError::FileNotFound(_) => "FILE_NOT_FOUND"@,
            CliError::InvalidArguments(_) => "INVALID_ARGUMENTS"@,
            CliError::AuthenticationFailed(_) => "AUTH_FAILED"@,
            CliError::PdfProcessingFailed(_) => "PDF_PROCESSING_FAILED"@,
        }
    }

    /// The exit code of the process for this error.
    pub open spec fn exit_status(self) -> int {
        match self {
            CliError::ContextLimitExceeded { .. } => 2,
            CliError::HttpError(_) => 3,
            CliError::InvalidResponse(_) => 4,
            CliError::FileNotFound(_) => 5,
            CliError::InvalidArguments(_) => 6,
            CliError::AuthenticationFailed(_) => 7,
            CliError::PdfProcessingFailed(_) => 8,
        }
    }

    /// Get the error code string for JSON output.
    pub fn code(&self) -> (r: &'static str)
        ensures
            r@ == self.code_text(),
    {
        match self {
            CliError::ContextLimitExceeded { .. } => "CONTEXT_LIMIT_EXCEEDED",
            CliError::HttpError(_) => "HTTP_ERROR",
            CliError::InvalidResponse(_) => "INVALID_RESPONSE",
            CliError::FileNotFound(_) => "FILE_NOT_FOUND",
            CliError::InvalidArguments(_) => "INVALID_ARGUMENTS",
            CliError::AuthenticationFailed(_) => "AUTH_FAILED",
            CliError::PdfProcessingFailed(_) => "PDF_PROCESSING_FAILED",
        }
    }

    /// Get the exit code for this error.
    pub fn exit_code(&self) -> (r: i32)
        ensures
            r == self.exit_status(),
    {
        match self {
            CliError::ContextLimitExceeded { .. } => 2,
            CliError::HttpError(_) => 3,
            CliError::InvalidResponse(_) => 4,
            CliError::FileNotFound(_) => 5,
            CliError::InvalidArguments(_) => 6,
            CliError::AuthenticationFailed(_) => 7,
            CliError::PdfProcessingFailed(_) => 8,
        }
    }
}

} // verus!
