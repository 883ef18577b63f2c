//! What can go wrong at the command line.

use vstd::prelude::*;

verus! {

/// An error of the command-line program. Paths are kept as text.
#[derive(Debug, PartialEq, Eq)]
pub enum MainError {
    MissingFile(String),
    InvalidFile(String),
    UnrecognizedFileExtension(String),
    CreateOutput(String),
    WriteOutput(String),
    MissingCommand(String),
    RegisterPlugin,
    FlowExecution,
    InitializePlugins,
    MultipleStepflowConfigs(String),
    StepflowConfigNotFound,
    PluginCommunication,
    SerializationError,
    TracingInit,
    ReplInit,
    ReplCommand(String),
    Configuration,
    ServerError,
    ValidationError(String),
    InvalidArgument(String),
    Path,
}

impl MainError {
    /// The message of the error.
    pub open spec fn message_spec(self) -> Seq<char> {
        match self {
            MainError::MissingFile(path) => "Missing file: "@ + path@,
            MainError::InvalidFile(path) => "Invalid file: "@ + path@,
            MainError::UnrecognizedFileExtension(path) => "Unrecognized file extension: "@ + path@,
            MainError::CreateOutput(path) => "Failed to create output file: "@ + path@,
            MainError::WriteOutput(path) => "Failed to write output file: "@ + path@,
            MainError::MissingCommand(command) => "Unable to locate command: "@ + command@,
            MainError::RegisterPlugin => "Failed to register plugin"@,
            MainError::FlowExecution => "Failed to execute flow"@,
            MainError::InitializePlugins => "Failed to initialize plugins"@,
            MainError::MultipleStepflowConfigs(path) => {
                "Multiple stepflow config files found in directory: "@ + path@
            },
            MainError::StepflowConfigNotFound => "Stepflow config not found"@,
            MainError::PluginCommunication => "Plugin communication failed"@,
            MainError::SerializationError => "Serialization failed"@,
            MainError::TracingInit => "Failed to initialize tracing"@,
            MainError::ReplInit => "Failed to initialize REPL"@,
            MainError::ReplCommand(what) => "REPL command error: "@ + what@,
            MainError::Configuration => "Configuration error"@,
            MainError::ServerError => "Server error"@,
            MainError::ValidationError(what) => "Validation error: "@ + what@,
            MainError::InvalidArgument(what) => "Invalid argument: "@ + what@,
            MainError::Path => "Internal error with paths"@,
        }
    }

    /// The message of the error.
    pub fn message(&self) -> (s: String)
        ensures
            s@ == self.message_spec(),
    {
        match self {
            MainError::MissingFile(path) => join("Missing file: ", path),
            MainError::InvalidFile(path) => join("Invalid file: ", path),
            MainError::UnrecognizedFileExtension(path) => join(
                "Unrecognized file extension: ",
                path,
            ),
            MainError::CreateOutput(path) => join("Failed to create output file: ", path),
            MainError::WriteOutput(path) => join("Failed to write output file: ", path),
            MainError::MissingCommand(command) => join("Unable to locate command: ", command),
            MainError::RegisterPlugin => "Failed to register plugin".to_owned(),
            MainError::FlowExecution => "Failed to execute flow".to_owned(),
            MainError::InitializePlugins => "Failed to initialize plugins".to_owned(),
            MainError::MultipleStepflowConfigs(path) => join(
                "Multiple stepflow config files found in directory: ",
                path,
            ),
            MainError::StepflowConfigNotFound => "Stepflow config not found".to_owned(),
            MainError::PluginCommunication => "Plugin communication failed".to_owned(),
            MainError::SerializationError => "Serialization failed".to_owned(),
            MainError::TracingInit => "Failed to initialize tracing".to_owned(),
            MainError::ReplInit => "Failed to initialize REPL".to_owned(),
            MainError::ReplCommand(what) => join("REPL command error: ", what),
            MainError::Configuration => "Configuration error".to_owned(),
            MainError::ServerError => "Server error".to_owned(),
            MainError::ValidationError(what) => join("Validation error: ", what),
            MainError::InvalidArgument(what) => join("Invalid argument: ", what),
            MainError::Path => "Internal error with paths".to_owned(),
        }
    }
}

/// `head`, followed by `tail`.
fn join(head: &str, tail: &String) -> (s: String)
    ensures
        s@ == head@ + tail@,
{
    let mut s = head.to_owned();
    s.append(tail.as_str());
    s
}

} // verus!
