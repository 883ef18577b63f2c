//! Tools of a tool server as components.

use crate::component::{
    find_separator, lemma_find_separator, separator_position, Component, ComponentModel,
};
use crate::expr::option_text;
use crate::value::{Field, Json, Value};
use vstd::prelude::*;

verus! {

/// A tool as a tool server describes it.
#[derive(Debug)]
pub struct Tool {
    pub name: String,
    pub description: Option<String>,
    /// The schema of the tool's input, as a value.
    pub input_schema: Value,
}

/// A schema: an object, or `true` or `false`.
#[derive(Debug)]
pub struct SchemaRef {
    schema: Value,
}

impl View for SchemaRef {
    type V = Json;

    closed spec fn view(&self) -> Json {
        self.schema@
    }
}

/// Whether `v` can stand as a schema.
pub open spec fn is_schema(v: Json) -> bool {
    v is Object || v is Bool
}

impl SchemaRef {
    /// The schema that `v` is, if it is one.
    pub fn from_value(v: Value) -> (r: Option<SchemaRef>)
        ensures
            match r {
                Some(s) => is_schema(v@) && s@ == v@,
                None => !is_schema(v@),
            },
    {
        match v {
            Value::Object(_) => Some(SchemaRef { schema: v }),
            Value::Bool(_) => Some(SchemaRef { schema: v }),
            _ => None,
        }
    }

    /// The schema as a value.
    pub fn as_value(&self) -> (v: &Value)
        ensures
            v@ == self@,
            is_schema(v@),
    {
        proof {
            use_type_invariant(self);
        }
        &self.schema
    }

    #[verifier::type_invariant]
    spec fn valid(&self) -> bool {
        is_schema(self.schema@)
    }
}

/// What is known of a component: its address, and what it takes and
/// gives.
#[derive(Debug)]
pub struct ComponentInfo {
    pub component: Component,
    pub description: Option<String>,
    pub input_schema: Option<SchemaRef>,
    pub output_schema: Option<SchemaRef>,
}

/// Why a tool cannot be offered as a component.
#[derive(Debug, PartialEq, Eq)]
pub enum McpError {
    /// The tool's input schema is no schema.
    SchemaConversion,
}

/// The description of a tool that has none of its own.
pub open spec fn default_description() -> Seq<char> {
    "MCP tool"@
}

/// The schema of what a tool gives: any object.
pub open spec fn any_object() -> Json {
    Json::Object(seq![("type"@, Json::Str("object"@))])
}

/// The address under which the tool called `name` is offered.
pub open spec fn tool_component(name: Seq<char>) -> ComponentModel {
    ComponentModel { protocol: "mcp"@, host: "server"@, path: name }
}

/// The address of a tool is `mcp://server/` and the tool's name.
pub proof fn lemma_tool_address(name: Seq<char>)
    requires
        name.len() > 0,
    ensures
        tool_component(name).url() == "mcp://server/"@ + name,
{
    reveal_strlit("mcp");
    reveal_strlit("server");
    reveal_strlit("mcp://server/");
    assert(tool_component(name).url() =~= "mcp://server/"@ + name);
}

/// Describes a tool as a component.
///
/// The component is `mcp://server/` and the tool's name, the description
/// is the tool's or a default one, the input schema is the tool's, and the
/// output schema admits any object. A tool whose input schema is no schema
/// is refused.
pub fn mcp_tool_to_component_info(tool: &Tool) -> (r: Result<ComponentInfo, McpError>)
    ensures
        match r {
            Ok(info) => {
                &&& is_schema(tool.input_schema@)
                &&& info.component@ == tool_component(tool.name@)
                &&& option_text(info.description) == Some(
                    match tool.description {
                        Some(d) => d@,
                        None => default_description(),
                    },
                )
                &&& info.input_schema.is_some()
                &&& info.input_schema->0@ == tool.input_schema@
                &&& info.output_schema.is_some()
                &&& info.output_schema->0@ == any_object()
            },
            Err(e) => !is_schema(tool.input_schema@),
        },
{
    let description = match &tool.description {
        Some(d) => d.clone(),
        None => "MCP tool".to_owned(),
    };
    let input_schema = match SchemaRef::from_value(tool.input_schema.clone()) {
        Some(s) => s,
        None => {
            return Err(McpError::SchemaConversion);
        },
    };
    let mut members: Vec<Field> = Vec::new();
    members.push(Field::new("type".to_owned(), Value::string("object")));
    let object = Value::object(members);
    assert(object@ == any_object()) by {
        assert(crate::value::object_model(members@) =~= seq![("type"@, Json::Str("object"@))]);
    }
    let output_schema = match SchemaRef::from_value(object) {
        Some(s) => s,
        None => {
            return Err(McpError::SchemaConversion);
        },
    };
    let component = Component::new("mcp", "server", tool.name.as_str());
    Ok(
        ComponentInfo {
            component,
            description: Some(description),
            input_schema: Some(input_schema),
            output_schema: Some(output_schema),
        },
    )
}

/// The tool that the address `url` names: what follows its first `://`.
pub open spec fn tool_name(url: Seq<char>) -> Option<Seq<char>> {
    match find_separator(url, 0) {
        Some(i) => Some(url.subrange(i + 3, url.len() as int)),
        None => None,
    }
}

/// The name of the tool behind a component address of the form
/// `plugin_name://tool_name`; nothing for an address without `://`.
pub fn component_url_to_tool_name(component_url: &str) -> (r: Option<String>)
    ensures
        option_text(r) == tool_name(component_url@),
{
    match separator_position(component_url) {
        Some(start) => {
            proof {
                lemma_find_separator(component_url@, 0);
            }
            let n = component_url.unicode_len();
            Some(component_url.substring_char(start + 3, n).to_owned())
        },
        None => None,
    }
}

} // verus!
