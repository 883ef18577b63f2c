//! What can go wrong while a flow is analysed or run.

use crate::expr::{BaseRef, BaseRefModel};
use crate::flow_result::{FlowError, FlowErrorModel, FLOW_ERROR_UNDEFINED_FIELD};
use crate::run_id::{hyphenated, run_id_text};
use crate::value::{Field, Json, Value};
use vstd::prelude::*;

verus! {

/// The code of a failure that is not the flow's own: a fault of the engine,
/// of a runtime or of the state store.
pub const FLOW_ERROR_INTERNAL: i64 = 500;

/// An error of the execution engine.
#[derive(Debug)]
pub enum ExecutionError {
    UndefinedValue(BaseRef),
    UndefinedField { field: String, value: Value },
    PluginError,
    PluginInitialization,
    FlowNotCompiled,
    RecvInput,
    RecordResult(String),
    Internal(String),
    StepPanic,
    StepFailed { step: String },
    BlobNotFound { blob_id: String },
    UnregisteredProtocol(String),
    RouterError,
    Deadlock,
    MalformedReference { message: String },
    StepNotFound { step: String },
    StepNotRunnable { step: String },
    StateError,
    AnalysisError,
    ExecutionNotFound(u128),
    WorkflowNotFound(String),
    ValueResolverFailure,
}

/// The mathematical content of an [`ExecutionError`].
pub ghost enum ExecutionErrorModel {
    UndefinedValue(BaseRefModel),
    UndefinedField { field: Seq<char>, value: Json },
    PluginError,
    PluginInitialization,
    FlowNotCompiled,
    RecvInput,
    RecordResult(Seq<char>),
    Internal(Seq<char>),
    StepPanic,
    StepFailed { step: Seq<char> },
    BlobNotFound { blob_id: Seq<char> },
    UnregisteredProtocol(Seq<char>),
    RouterError,
    Deadlock,
    MalformedReference { message: Seq<char> },
    StepNotFound { step: Seq<char> },
    StepNotRunnable { step: Seq<char> },
    StateError,
    AnalysisError,
    ExecutionNotFound(u128),
    WorkflowNotFound(Seq<char>),
    ValueResolverFailure,
}

impl View for ExecutionError {
    type V = ExecutionErrorModel;

    open spec fn view(&self) -> ExecutionErrorModel {
        match self {
            ExecutionError::UndefinedValue(from) => ExecutionErrorModel::UndefinedValue(from@),
            ExecutionError::UndefinedField { field, value } => ExecutionErrorModel::UndefinedField {
                field: field@,
                value: value@,
            },
            ExecutionError::PluginError => ExecutionErrorModel::PluginError,
            ExecutionError::PluginInitialization => ExecutionErrorModel::PluginInitialization,
            ExecutionError::FlowNotCompiled => ExecutionErrorModel::FlowNotCompiled,
            ExecutionError::RecvInput => ExecutionErrorModel::RecvInput,
            ExecutionError::RecordResult(step) => ExecutionErrorModel::RecordResult(step@),
            ExecutionError::Internal(message) => ExecutionErrorModel::Internal(message@),
            ExecutionError::StepPanic => ExecutionErrorModel::StepPanic,
            ExecutionError::StepFailed { step } => ExecutionErrorModel::StepFailed { step: step@ },
            ExecutionError::BlobNotFound { blob_id } => ExecutionErrorModel::BlobNotFound {
                blob_id: blob_id@,
            },
            ExecutionError::UnregisteredProtocol(protocol) => {
                ExecutionErrorModel::UnregisteredProtocol(protocol@)
            },
            ExecutionError::RouterError => ExecutionErrorModel::RouterError,
            ExecutionError::Deadlock => ExecutionErrorModel::Deadlock,
            ExecutionError::MalformedReference { message } => {
                ExecutionErrorModel::MalformedReference { message: message@ }
            },
            ExecutionError::StepNotFound { step } => ExecutionErrorModel::StepNotFound {
                step: step@,
            },
            ExecutionError::StepNotRunnable { step } => ExecutionErrorModel::StepNotRunnable {
                step: step@,
            },
            ExecutionError::StateError => ExecutionErrorModel::StateError,
            ExecutionError::AnalysisError => ExecutionErrorModel::AnalysisError,
            ExecutionError::ExecutionNotFound(run_id) => ExecutionErrorModel::ExecutionNotFound(
                *run_id,
            ),
            ExecutionError::WorkflowNotFound(hash) => ExecutionErrorModel::WorkflowNotFound(hash@),
            ExecutionError::ValueResolverFailure => ExecutionErrorModel::ValueResolverFailure,
        }
    }
}

impl BaseRefModel {
    /// What a message calls this source.
    pub open spec fn describe(self) -> Seq<char> {
        match self {
            BaseRefModel::WorkflowInput => "workflow input"@,
            BaseRefModel::Step(step) => "step "@ + step,
        }
    }
}

impl ExecutionErrorModel {
    /// The message of the error.
    pub open spec fn message(self) -> Seq<char> {
        match self {
            ExecutionErrorModel::UndefinedValue(from) => "undefined value of "@ + from.describe(),
            ExecutionErrorModel::UndefinedField { field, value } => "undefined field "@ + field,
            ExecutionErrorModel::PluginError => "error executing plugin"@,
            ExecutionErrorModel::PluginInitialization => "error initializing plugin"@,
            ExecutionErrorModel::FlowNotCompiled => "flow not compiled"@,
            ExecutionErrorModel::RecvInput => "error receiving input"@,
            ExecutionErrorModel::RecordResult(step) => "error recording result for step '"@ + step
                + "'"@,
            ExecutionErrorModel::Internal(message) => "internal error: "@ + message,
            ExecutionErrorModel::StepPanic => "step panic"@,
            ExecutionErrorModel::StepFailed { step } => "step "@ + step + " failed"@,
            ExecutionErrorModel::BlobNotFound { blob_id } => "blob not found: "@ + blob_id,
            ExecutionErrorModel::UnregisteredProtocol(protocol) => {
                "no plugin registered for protocol: "@ + protocol
            },
            ExecutionErrorModel::RouterError => "error routing component"@,
            ExecutionErrorModel::Deadlock => {
                "workflow deadlock: no runnable steps and output cannot be resolved"@
            },
            ExecutionErrorModel::MalformedReference { message } => "malformed reference: "@
                + message,
            ExecutionErrorModel::StepNotFound { step } => "step not found: "@ + step,
            ExecutionErrorModel::StepNotRunnable { step } => "step not runnable: "@ + step,
            ExecutionErrorModel::StateError => "error accessing state store"@,
            ExecutionErrorModel::AnalysisError => "error analyzing workflow"@,
            ExecutionErrorModel::ExecutionNotFound(run_id) => "execution '"@ + hyphenated(run_id)
                + "' not found"@,
            ExecutionErrorModel::WorkflowNotFound(hash) => "workflow '"@ + hash + "' not found"@,
            ExecutionErrorModel::ValueResolverFailure => "failed to resolve value"@,
        }
    }

    /// The error as the outcome of a step or run carries it. A missing
    /// member or element keeps its own code, and brings the name asked for
    /// and the value that was searched; every other error is a failure of
    /// the execution.
    pub open spec fn flow_error(self) -> FlowErrorModel {
        match self {
            ExecutionErrorModel::UndefinedField { field, value } => FlowErrorModel {
                code: FLOW_ERROR_UNDEFINED_FIELD as int,
                message: self.message(),
                data: Some(
                    Json::Object(seq![("field"@, Json::Str(field)), ("value"@, value)]),
                ),
            },
            _ => FlowErrorModel {
                code: FLOW_ERROR_INTERNAL as int,
                message: "Flow execution failed: "@ + self.message(),
                data: None,
            },
        }
    }
}

/// `text` as an owned string, followed by `tail`.
fn join(text: &str, tail: &str) -> (s: String)
    ensures
        s@ == text@ + tail@,
{
    let mut s = text.to_owned();
    s.append(tail);
    s
}

impl ExecutionError {
    /// An internal error with the given message.
    pub fn internal(message: &str) -> (e: ExecutionError)
        ensures
            e@ == ExecutionErrorModel::Internal(message@),
    {
        ExecutionError::Internal(message.to_owned())
    }

    /// The message of the error.
    pub fn message(&self) -> (s: String)
        ensures
            s@ == self@.message(),
    {
        match self {
            ExecutionError::UndefinedValue(from) => match from {
                BaseRef::Workflow(_) => join("undefined value of ", "workflow input"),
                BaseRef::Step { step } => {
                    let mut s = join("undefined value of ", "step ");
                    s.append(step.as_str());
                    assert(s@ =~= self@.message());
                    s
                },
            },
            ExecutionError::UndefinedField { field, .. } => join(
                "undefined field ",
                field.as_str(),
            ),
            ExecutionError::PluginError => "error executing plugin".to_owned(),
            ExecutionError::PluginInitialization => "error initializing plugin".to_owned(),
            ExecutionError::FlowNotCompiled => "flow not compiled".to_owned(),
            ExecutionError::RecvInput => "error receiving input".to_owned(),
            ExecutionError::RecordResult(step) => {
                let mut s = join("error recording result for step '", step.as_str());
                s.append("'");
                s
            },
            ExecutionError::Internal(message) => join("internal error: ", message.as_str()),
            ExecutionError::StepPanic => "step panic".to_owned(),
            ExecutionError::StepFailed { step } => {
                let mut s = join("step ", step.as_str());
                s.append(" failed");
                s
            },
            ExecutionError::BlobNotFound { blob_id } => join("blob not found: ", blob_id.as_str()),
            ExecutionError::UnregisteredProtocol(protocol) => join(
                "no plugin registered for protocol: ",
                protocol.as_str(),
            ),
            ExecutionError::RouterError => "error routing component".to_owned(),
            ExecutionError::Deadlock => {
                "workflow deadlock: no runnable steps and output cannot be resolved".to_owned()
            },
            ExecutionError::MalformedReference { message } => join(
                "malformed reference: ",
                message.as_str(),
            ),
            ExecutionError::StepNotFound { step } => join("step not found: ", step.as_str()),
            ExecutionError::StepNotRunnable { step } => join("step not runnable: ", step.as_str()),
            ExecutionError::StateError => "error accessing state store".to_owned(),
            ExecutionError::AnalysisError => "error analyzing workflow".to_owned(),
            ExecutionError::ExecutionNotFound(run_id) => {
                let text = run_id_text(*run_id);
                let mut s = join("execution '", text.as_str());
                s.append("' not found");
                s
            },
            ExecutionError::WorkflowNotFound(hash) => {
                let mut s = join("workflow '", hash.as_str());
                s.append("' not found");
                s
            },
            ExecutionError::ValueResolverFailure => "failed to resolve value".to_owned(),
        }
    }

    /// The error as the outcome of a step or run carries it.
    pub fn to_flow_error(&self) -> (e: FlowError)
        ensures
            e@ == self@.flow_error(),
    {
        match self {
            ExecutionError::UndefinedField { field, value } => {
                let mut members: Vec<Field> = Vec::new();
                members.push(Field::new("field".to_owned(), Value::string(field.as_str())));
                members.push(Field::new("value".to_owned(), value.clone()));
                let data = Value::object(members);
                assert(data@ == Json::Object(
                    seq![("field"@, Json::Str(field@)), ("value"@, value@)],
                )) by {
                    assert(crate::value::object_model(members@) =~= seq![
                        ("field"@, Json::Str(field@)),
                        ("value"@, value@),
                    ]);
                }
                FlowError {
                    code: FLOW_ERROR_UNDEFINED_FIELD,
                    message: self.message(),
                    data: Some(data),
                }
            },
            _ => {
                let text = self.message();
                FlowError {
                    code: FLOW_ERROR_INTERNAL,
                    message: join("Flow execution failed: ", text.as_str()),
                    data: None,
                }
            },
        }
    }
}

impl Clone for ExecutionError {
    fn clone(&self) -> (r: ExecutionError)
        ensures
            r@ == self@,
    {
        match self {
            ExecutionError::UndefinedValue(from) => ExecutionError::UndefinedValue(from.clone()),
            ExecutionError::UndefinedField { field, value } => ExecutionError::UndefinedField {
                field: field.clone(),
                value: value.clone(),
            },
            ExecutionError::PluginError => ExecutionError::PluginError,
            ExecutionError::PluginInitialization => ExecutionError::PluginInitialization,
            ExecutionError::FlowNotCompiled => ExecutionError::FlowNotCompiled,
            ExecutionError::RecvInput => ExecutionError::RecvInput,
            ExecutionError::RecordResult(step) => ExecutionError::RecordResult(step.clone()),
            ExecutionError::Internal(message) => ExecutionError::Internal(message.clone()),
            ExecutionError::StepPanic => ExecutionError::StepPanic,
            ExecutionError::StepFailed { step } => ExecutionError::StepFailed {
                step: step.clone(),
            },
            ExecutionError::BlobNotFound { blob_id } => ExecutionError::BlobNotFound {
                blob_id: blob_id.clone(),
            },
            ExecutionError::UnregisteredProtocol(protocol) => ExecutionError::UnregisteredProtocol(
                protocol.clone(),
            ),
            ExecutionError::RouterError => ExecutionError::RouterError,
            ExecutionError::Deadlock => ExecutionError::Deadlock,
            ExecutionError::MalformedReference { message } => ExecutionError::MalformedReference {
                message: message.clone(),
            },
            ExecutionError::StepNotFound { step } => ExecutionError::StepNotFound {
                step: step.clone(),
            },
            ExecutionError::StepNotRunnable { step } => ExecutionError::StepNotRunnable {
                step: step.clone(),
            },
            ExecutionError::StateError => ExecutionError::StateError,
            ExecutionError::AnalysisError => ExecutionError::AnalysisError,
            ExecutionError::ExecutionNotFound(run_id) => ExecutionError::ExecutionNotFound(*run_id),
            ExecutionError::WorkflowNotFound(hash) => ExecutionError::WorkflowNotFound(
                hash.clone(),
            ),
            ExecutionError::ValueResolverFailure => ExecutionError::ValueResolverFailure,
        }
    }
}

impl PartialEq for ExecutionError {
    fn eq(&self, other: &Self) -> (r: bool) {
        match (self, other) {
            (ExecutionError::UndefinedValue(a), ExecutionError::UndefinedValue(b)) => *a == *b,
            (
                ExecutionError::UndefinedField { field: f1, value: v1 },
                ExecutionError::UndefinedField { field: f2, value: v2 },
            ) => *f1 == *f2 && *v1 == *v2,
            (ExecutionError::PluginError, ExecutionError::PluginError) => true,
            (ExecutionError::PluginInitialization, ExecutionError::PluginInitialization) => true,
            (ExecutionError::FlowNotCompiled, ExecutionError::FlowNotCompiled) => true,
            (ExecutionError::RecvInput, ExecutionError::RecvInput) => true,
            (ExecutionError::RecordResult(a), ExecutionError::RecordResult(b)) => *a == *b,
            (ExecutionError::Internal(a), ExecutionError::Internal(b)) => *a == *b,
            (ExecutionError::StepPanic, ExecutionError::StepPanic) => true,
            (ExecutionError::StepFailed { step: a }, ExecutionError::StepFailed { step: b }) => {
                *a == *b
            },
            (
                ExecutionError::BlobNotFound { blob_id: a },
                ExecutionError::BlobNotFound { blob_id: b },
            ) => *a == *b,
            (
                ExecutionError::UnregisteredProtocol(a),
                ExecutionError::UnregisteredProtocol(b),
            ) => *a == *b,
            (ExecutionError::RouterError, ExecutionError::RouterError) => true,
            (ExecutionError::Deadlock, ExecutionError::Deadlock) => true,
            (
                ExecutionError::MalformedReference { message: a },
                ExecutionError::MalformedReference { message: b },
            ) => *a == *b,
            (ExecutionError::StepNotFound { step: a }, ExecutionError::StepNotFound { step: b }) => {
                *a == *b
            },
            (
                ExecutionError::StepNotRunnable { step: a },
                ExecutionError::StepNotRunnable { step: b },
            ) => *a == *b,
            (ExecutionError::StateError, ExecutionError::StateError) => true,
            (ExecutionError::AnalysisError, ExecutionError::AnalysisError) => true,
            (ExecutionError::ExecutionNotFound(a), ExecutionError::ExecutionNotFound(b)) => {
                *a == *b
            },
            (ExecutionError::WorkflowNotFound(a), ExecutionError::WorkflowNotFound(b)) => *a == *b,
            (ExecutionError::ValueResolverFailure, ExecutionError::ValueResolverFailure) => true,
            _ => false,
        }
    }
}

impl vstd::std_specs::cmp::PartialEqSpecImpl for ExecutionError {
    open spec fn obeys_eq_spec() -> bool {
        true
    }

    open spec fn eq_spec(&self, other: &Self) -> bool {
        self@ == other@
    }
}

} // verus!
