//! Errors of the server, and the status that a response carries for each.

use crate::run_id::{hyphenated, run_id_text};
use crate::tracker::RunStatus;
use vstd::prelude::*;

verus! {

/// The status of a response to a request for what the server lacks.
pub const STATUS_NOT_FOUND: u16 = 404;

/// The status of a response to a request that the state of a run forbids.
pub const STATUS_CONFLICT: u16 = 409;

/// The status of a response to a request on which the server failed.
pub const STATUS_INTERNAL_SERVER_ERROR: u16 = 500;

/// An error of the server.
#[derive(Debug)]
pub enum ServerError {
    ExecutionNotFound(u128),
    WorkflowNotFound(String),
    ExecutionNotCancellable { run_id: u128, status: RunStatus },
    ExecutionStillRunning(u128),
}

/// The name of a run status.
pub open spec fn status_name(status: RunStatus) -> Seq<char> {
    match status {
        RunStatus::Running => "Running"@,
        RunStatus::Completed => "Completed"@,
        RunStatus::Failed => "Failed"@,
        RunStatus::Cancelled => "Cancelled"@,
    }
}

impl ServerError {
    /// The status of the response that reports the error: not found for a
    /// run or flow that the server lacks, conflict for a request that the
    /// state of the run forbids.
    pub open spec fn status_code_spec(&self) -> u16 {
        match self {
            ServerError::ExecutionNotFound(_) | ServerError::WorkflowNotFound(_) => {
                STATUS_NOT_FOUND
            },
            ServerError::ExecutionNotCancellable { .. } | ServerError::ExecutionStillRunning(_) => {
                STATUS_CONFLICT
            },
        }
    }

    /// The status of the response that reports the error.
    pub fn status_code(&self) -> (code: u16)
        ensures
            code == self.status_code_spec(),
    {
        match self {
            ServerError::ExecutionNotFound(_) | ServerError::WorkflowNotFound(_) => {
                STATUS_NOT_FOUND
            },
            ServerError::ExecutionNotCancellable { .. } | ServerError::ExecutionStillRunning(_) => {
                STATUS_CONFLICT
            },
        }
    }

    /// The message of the error.
    pub open spec fn message_spec(&self) -> Seq<char> {
        match self {
            ServerError::ExecutionNotFound(run_id) => "Execution '"@ + hyphenated(*run_id)
                + "' not found"@,
            ServerError::WorkflowNotFound(hash) => "Workflow '"@ + hash@ + "' not found"@,
            ServerError::ExecutionNotCancellable { run_id, status } => "Run '"@ + hyphenated(
                *run_id,
            ) + "' cannot be cancelled (status: "@ + status_name(*status) + ")"@,
            ServerError::ExecutionStillRunning(run_id) => "Execution '"@ + hyphenated(*run_id)
                + "' is still running and cannot be deleted"@,
        }
    }

    /// The message of the error.
    pub fn message(&self) -> (s: String)
        ensures
            s@ == self.message_spec(),
    {
        match self {
            ServerError::ExecutionNotFound(run_id) => {
                let mut s = "Execution '".to_owned();
                s.append(run_id_text(*run_id).as_str());
                s.append("' not found");
                s
            },
            ServerError::WorkflowNotFound(hash) => {
                let mut s = "Workflow '".to_owned();
                s.append(hash.as_str());
                s.append("' not found");
                s
            },
            ServerError::ExecutionNotCancellable { run_id, status } => {
                let mut s = "Run '".to_owned();
                s.append(run_id_text(*run_id).as_str());
                s.append("' cannot be cancelled (status: ");
                s.append(
                    match status {
                        RunStatus::Running => "Running",
                        RunStatus::Completed => "Completed",
                        RunStatus::Failed => "Failed",
                        RunStatus::Cancelled => "Cancelled",
                    },
                );
                s.append(")");
                s
            },
            ServerError::ExecutionStillRunning(run_id) => {
                let mut s = "Execution '".to_owned();
                s.append(run_id_text(*run_id).as_str());
                s.append("' is still running and cannot be deleted");
                s
            },
        }
    }
}

/// What the server answers when a request fails.
#[derive(Debug)]
pub struct ErrorResponse {
    pub code: u16,
    pub message: String,
}

/// The status of the response to a request that failed with a report: the
/// status that the report carries, else that of the server error that it
/// carries, else an internal server error.
pub open spec fn report_status(status: Option<u16>, error: Option<ServerError>) -> u16 {
    match status {
        Some(code) => code,
        None => match error {
            Some(e) => e.status_code_spec(),
            None => STATUS_INTERNAL_SERVER_ERROR,
        },
    }
}

impl ErrorResponse {
    /// The response that reports `error`.
    pub fn from_server_error(error: ServerError) -> (r: ErrorResponse)
        ensures
            r.code == error.status_code_spec(),
            r.message@ == error.message_spec(),
    {
        ErrorResponse { code: error.status_code(), message: error.message() }
    }

    /// The response to a request that failed with a report, of which
    /// `status` and `error` are what it carries and `message` is its text.
    pub fn from_report(status: Option<u16>, error: Option<ServerError>, message: String) -> (r:
        ErrorResponse)
        ensures
            r.code == report_status(status, error),
            r.message == message,
    {
        let code = match status {
            Some(code) => code,
            None => match &error {
                Some(e) => e.status_code(),
                None => STATUS_INTERNAL_SERVER_ERROR,
            },
        };
        ErrorResponse { code, message }
    }
}

} // verus!
