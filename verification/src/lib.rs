//! A workflow execution engine: values, references between steps, dependency
//! analysis and the bookkeeping of a run.

pub mod analysis;
pub mod codec;
pub mod component;
pub mod dispatcher;
pub mod error;
pub mod executor;
pub mod expr;
pub mod flow;
pub mod flow_result;
pub mod graph;
pub mod listing;
pub mod main_error;
pub mod mcp;
pub mod progress;
pub mod registry;
pub mod resolve;
pub mod run_id;
pub mod server_error;
pub mod template;
pub mod tracker;
pub mod value;
