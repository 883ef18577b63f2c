use stepflow::component::Component;
use stepflow::error::ExecutionError;
use stepflow::expr::BaseRef;
use stepflow::flow_result::{FlowError, FlowResult, FLOW_ERROR_UNDEFINED_FIELD};
use stepflow::main_error::MainError;
use stepflow::registry::{get_component, list_components, PluginError, Registry};
use stepflow::server_error::{ErrorResponse, ServerError};
use stepflow::tracker::RunStatus;
use stepflow::value::{Field, Value};

#[test]
fn flow_errors_are_built_up() {
    let e = FlowError::new(3, "bad");
    assert_eq!(e.code, 3);
    assert_eq!(e.message, "bad");
    assert_eq!(e.data, None);
    let e = e.with_data(Value::Int(1));
    assert_eq!(e.code, 3);
    assert_eq!(e.message, "bad");
    assert_eq!(e.data, Some(Value::Int(1)));
    assert_eq!(e.clone(), e);
    assert_ne!(e, FlowError::new(3, "bad"));
}

#[test]
fn flow_results_say_what_they_are() {
    let ok = FlowResult::from(Value::Int(1));
    assert_eq!(ok.success(), Some(Value::Int(1)));
    assert!(!ok.skipped());
    assert_eq!(ok.failed(), None);
    assert_eq!(FlowResult::Skipped.success(), None);
    assert!(FlowResult::Skipped.skipped());
    let failed = FlowResult::Failed {
        error: FlowError::new(1, "x"),
    };
    assert_eq!(failed.failed(), Some(&FlowError::new(1, "x")));
    assert_eq!(failed.success(), None);
    assert!(!failed.skipped());
}

#[test]
fn execution_errors_have_messages() {
    assert_eq!(
        ExecutionError::UndefinedValue(BaseRef::step_output("a")).message(),
        "undefined value of step a"
    );
    assert_eq!(
        ExecutionError::UndefinedValue(BaseRef::workflow_input()).message(),
        "undefined value of workflow input"
    );
    assert_eq!(
        ExecutionError::RecordResult("s".to_string()).message(),
        "error recording result for step 's'"
    );
    assert_eq!(
        ExecutionError::internal("oops").message(),
        "internal error: oops"
    );
    assert_eq!(ExecutionError::internal("oops"), ExecutionError::Internal("oops".to_string()));
    assert_eq!(
        ExecutionError::StepFailed {
            step: "s".to_string()
        }
        .message(),
        "step s failed"
    );
    assert_eq!(
        ExecutionError::WorkflowNotFound("h".to_string()).message(),
        "workflow 'h' not found"
    );
    assert_eq!(
        ExecutionError::MalformedReference {
            message: "m".to_string()
        }
        .message(),
        "malformed reference: m"
    );
    assert_eq!(ExecutionError::StateError.message(), "error accessing state store");
}

#[test]
fn an_undefined_field_keeps_its_code_and_brings_its_data() {
    let e = ExecutionError::UndefinedField {
        field: "f".to_string(),
        value: Value::Int(3),
    };
    let flow_error = e.to_flow_error();
    assert_eq!(flow_error.code, FLOW_ERROR_UNDEFINED_FIELD);
    assert_eq!(flow_error.message, "undefined field f");
    assert_eq!(
        flow_error.data,
        Some(Value::object(vec![
            Field::new("field".to_string(), Value::string("f")),
            Field::new("value".to_string(), Value::Int(3)),
        ]))
    );
    let other = ExecutionError::PluginError.to_flow_error();
    assert_eq!(other, FlowError::new(500, "Flow execution failed: error executing plugin"));
}

#[test]
fn addresses_are_taken_apart() {
    let c = Component::parse("builtins://eval").unwrap();
    assert_eq!(c.protocol(), "builtins");
    assert_eq!(c.host(), Some("eval"));
    assert_eq!(c.path(), "");
    assert_eq!(c.url(), "builtins://eval");
    let c = Component::parse("mcp://server/tool/name").unwrap();
    assert_eq!(c.protocol(), "mcp");
    assert_eq!(c.host(), Some("server"));
    assert_eq!(c.path(), "tool/name");
    assert_eq!(c.url(), "mcp://server/tool/name");
    let c = Component::parse("p:///x").unwrap();
    assert_eq!(c.host(), None);
    assert_eq!(c.path(), "x");
    assert_eq!(Component::parse("no separator"), None);
    assert_eq!(Component::parse("://host"), None);
    assert_eq!(
        Component::parse("a://b/c"),
        Some(Component::new("a", "b", "c"))
    );
}

#[test]
fn builtin_components_are_listed_by_address() {
    let mut registry: Registry<u32> = Registry::new();
    assert!(list_components(&registry).is_empty());
    registry.register("openai", "", 1);
    registry.register("eval", "", 2);
    registry.register("files", "load", 3);
    let urls: Vec<String> = list_components(&registry).iter().map(|c| c.url()).collect();
    assert_eq!(
        urls,
        vec![
            "builtins://openai".to_string(),
            "builtins://eval".to_string(),
            "builtins://files/load".to_string()
        ]
    );
}

#[test]
fn builtin_components_are_found_by_host_and_path() {
    let mut registry: Registry<u32> = Registry::new();
    registry.register("eval", "", 2);
    registry.register("files", "load", 3);
    registry.register("eval", "", 4);
    assert_eq!(list_components(&registry).len(), 2);
    let eval = Component::parse("builtins://eval").unwrap();
    assert!(matches!(get_component(&registry, &eval), Ok(&4)));
    let load = Component::parse("builtins://files/load").unwrap();
    assert!(matches!(get_component(&registry, &load), Ok(&3)));
    let other = Component::parse("builtins://files/save").unwrap();
    match get_component(&registry, &other) {
        Err(PluginError::UnknownComponent(c)) => assert_eq!(c, other),
        Ok(_) => panic!("found"),
    }
    let no_host = Component::new("builtins", "", "load");
    assert!(get_component(&registry, &no_host).is_err());
}

#[test]
fn server_errors_have_a_status() {
    assert_eq!(ServerError::ExecutionNotFound(1).status_code(), 404);
    assert_eq!(ServerError::WorkflowNotFound("h".to_string()).status_code(), 404);
    let not_cancellable = ServerError::ExecutionNotCancellable {
        run_id: 0x2a,
        status: RunStatus::Completed,
    };
    assert_eq!(not_cancellable.status_code(), 409);
    assert_eq!(
        not_cancellable.message(),
        "Run '00000000-0000-0000-0000-00000000002a' cannot be cancelled (status: Completed)"
    );
    assert_eq!(ServerError::ExecutionStillRunning(1).status_code(), 409);
    let response = ErrorResponse::from_server_error(ServerError::WorkflowNotFound("h".to_string()));
    assert_eq!(response.code, 404);
    assert_eq!(response.message, "Workflow 'h' not found");
}

#[test]
fn a_report_answers_with_the_status_it_carries() {
    let text = || "it failed".to_string();
    assert_eq!(ErrorResponse::from_report(Some(418), None, text()).code, 418);
    assert_eq!(
        ErrorResponse::from_report(Some(418), Some(ServerError::ExecutionNotFound(1)), text()).code,
        418
    );
    assert_eq!(
        ErrorResponse::from_report(None, Some(ServerError::ExecutionStillRunning(1)), text()).code,
        409
    );
    let response = ErrorResponse::from_report(None, None, text());
    assert_eq!(response.code, 500);
    assert_eq!(response.message, "it failed");
}

#[test]
fn main_errors_have_messages() {
    assert_eq!(
        MainError::MissingFile("a/b.yaml".to_string()).message(),
        "Missing file: a/b.yaml"
    );
    assert_eq!(
        MainError::ReplCommand("what".to_string()).message(),
        "REPL command error: what"
    );
    assert_eq!(MainError::FlowExecution.message(), "Failed to execute flow");
    assert_eq!(MainError::Path.message(), "Internal error with paths");
}
