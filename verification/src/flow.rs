//! Flows: steps bound to components, and the template of the flow's
//! output.

use crate::component::{parse_component, Component, ComponentModel};
use crate::error::{ExecutionError, ExecutionErrorModel};
use crate::template::{parse_template_spec, TemplateModel, ValueTemplate};
use crate::value::{array_model, lemma_array_view, Json, Value};
use vstd::prelude::*;

verus! {

/// One unit of work in a flow.
#[derive(Debug)]
pub struct Step {
    /// The name by which other steps and the output refer to this step.
    pub id: String,
    /// The component that does the work.
    pub component: Component,
    /// What the component is given.
    pub input: ValueTemplate,
}

/// An immutable workflow definition.
#[derive(Debug)]
pub struct Flow {
    pub steps: Vec<Step>,
    pub output: ValueTemplate,
}

/// The mathematical content of a [`Step`].
pub ghost struct StepModel {
    pub id: Seq<char>,
    pub component: ComponentModel,
    pub input: TemplateModel,
}

/// The mathematical content of a [`Flow`].
pub ghost struct FlowModel {
    pub steps: Seq<StepModel>,
    pub output: TemplateModel,
}

/// The contents of a list of steps, step by step.
pub open spec fn steps_model(steps: Seq<Step>) -> Seq<StepModel> {
    Seq::new(steps.len(), |i: int| steps[i]@)
}

impl View for Step {
    type V = StepModel;

    open spec fn view(&self) -> StepModel {
        StepModel { id: self.id@, component: self.component@, input: self.input@ }
    }
}

impl View for Flow {
    type V = FlowModel;

    open spec fn view(&self) -> FlowModel {
        FlowModel { steps: steps_model(self.steps@), output: self.output@ }
    }
}

impl Clone for Step {
    fn clone(&self) -> (r: Step)
        ensures
            r@ == self@,
    {
        Step { id: self.id.clone(), component: self.component.clone(), input: self.input.clone() }
    }
}

impl PartialEq for Step {
    fn eq(&self, other: &Self) -> (r: bool) {
        self.id == other.id && self.component == other.component && self.input == other.input
    }
}

impl vstd::std_specs::cmp::PartialEqSpecImpl for Step {
    open spec fn obeys_eq_spec() -> bool {
        true
    }

    open spec fn eq_spec(&self, other: &Self) -> bool {
        self@ == other@
    }
}

impl Clone for Flow {
    fn clone(&self) -> (r: Flow)
        ensures
            r@ == self@,
    {
        let mut steps: Vec<Step> = Vec::new();
        let mut i: usize = 0;
        while i < self.steps.len()
            invariant
                i <= self.steps.len(),
                steps.len() == i,
                forall|k: int| 0 <= k < i ==> steps[k]@ == self.steps[k]@,
            decreases self.steps.len() - i,
        {
            steps.push(self.steps[i].clone());
            i += 1;
        }
        assert(steps_model(steps@) =~= steps_model(self.steps@));
        Flow { steps, output: self.output.clone() }
    }
}

impl PartialEq for Flow {
    fn eq(&self, other: &Self) -> (r: bool) {
        if self.steps.len() != other.steps.len() {
            assert(steps_model(self.steps@).len() != steps_model(other.steps@).len());
            return false;
        }
        let mut i: usize = 0;
        while i < self.steps.len()
            invariant
                i <= self.steps.len(),
                self.steps.len() == other.steps.len(),
                forall|k: int| 0 <= k < i ==> self.steps[k]@ == other.steps[k]@,
            decreases self.steps.len() - i,
        {
            if self.steps[i] != other.steps[i] {
                assert(steps_model(self.steps@)[i as int] != steps_model(other.steps@)[i as int]);
                return false;
            }
            i += 1;
        }
        assert(steps_model(self.steps@) =~= steps_model(other.steps@));
        self.output == other.output
    }
}

impl vstd::std_specs::cmp::PartialEqSpecImpl for Flow {
    open spec fn obeys_eq_spec() -> bool {
        true
    }

    open spec fn eq_spec(&self, other: &Self) -> bool {
        self@ == other@
    }
}

impl FlowModel {
    /// The ids of the steps, in their order.
    pub open spec fn ids(self) -> Seq<Seq<char>> {
        Seq::new(self.steps.len(), |i: int| self.steps[i].id)
    }
}

impl Step {
    /// A step called `id` that hands `input` to `component`.
    pub fn new(id: &str, component: Component, input: ValueTemplate) -> (s: Step)
        ensures
            s@ == (StepModel { id: id@, component: component@, input: input@ }),
    {
        Step { id: id.to_owned(), component, input }
    }
}

impl Flow {
    /// The flow of `steps` whose result is `output`.
    pub fn new(steps: Vec<Step>, output: ValueTemplate) -> (f: Flow)
        ensures
            f.steps == steps,
            f.output == output,
    {
        Flow { steps, output }
    }
}

/// The step that the value `v` writes: an object whose member `id` is the
/// step's id and whose member `component` is the address of its component;
/// the member `input`, if there is one, writes the template of its input,
/// which is null otherwise.
pub open spec fn parse_step_spec(v: Json) -> Result<StepModel, ExecutionErrorModel> {
    match (v.member("id"@), v.member("component"@)) {
        (Some(Json::Str(id)), Some(Json::Str(address))) => match parse_component(address) {
            Some(component) => match v.member("input"@) {
                Some(input) => match parse_template_spec(input) {
                    Ok(template) => Ok(StepModel { id, component, input: template }),
                    Err(e) => Err(e),
                },
                None => Ok(
                    StepModel { id, component, input: TemplateModel::Literal(Json::Null) },
                ),
            },
            None => Err(ExecutionErrorModel::FlowNotCompiled),
        },
        _ => Err(ExecutionErrorModel::FlowNotCompiled),
    }
}

/// The steps that the first `n` of `items` write, or the first error among
/// them.
pub open spec fn parse_steps_spec(items: Seq<Json>, n: nat) -> Result<
    Seq<StepModel>,
    ExecutionErrorModel,
>
    decreases n,
{
    if n == 0 || n > items.len() {
        Ok(Seq::empty())
    } else {
        match parse_steps_spec(items, (n - 1) as nat) {
            Err(e) => Err(e),
            Ok(steps) => match parse_step_spec(items[n - 1]) {
                Ok(step) => Ok(steps.push(step)),
                Err(e) => Err(e),
            },
        }
    }
}

/// The flow that the value `v` writes: an object whose member `steps` is
/// the list of its steps and whose member `output` writes the template of
/// its output.
pub open spec fn parse_flow_spec(v: Json) -> Result<FlowModel, ExecutionErrorModel> {
    match (v.member("steps"@), v.member("output"@)) {
        (Some(Json::Array(items)), Some(output)) => match parse_steps_spec(items, items.len()) {
            Ok(steps) => match parse_template_spec(output) {
                Ok(template) => Ok(FlowModel { steps, output: template }),
                Err(e) => Err(e),
            },
            Err(e) => Err(e),
        },
        _ => Err(ExecutionErrorModel::FlowNotCompiled),
    }
}

/// Once a step cannot be read, the error stays the same however far one reads.
proof fn lemma_parse_steps_error_stays(items: Seq<Json>, n: nat, m: nat)
    requires
        n <= m <= items.len(),
        parse_steps_spec(items, n) is Err,
    ensures
        parse_steps_spec(items, m) == parse_steps_spec(items, n),
    decreases m,
{
    if n < m {
        lemma_parse_steps_error_stays(items, n, (m - 1) as nat);
    }
}

impl Step {
    /// Reads the step that the value `v` writes.
    pub fn parse(v: &Value) -> (r: Result<Step, ExecutionError>)
        ensures
            match r {
                Ok(step) => parse_step_spec(v@) == Ok::<StepModel, ExecutionErrorModel>(step@),
                Err(e) => parse_step_spec(v@) == Err::<StepModel, ExecutionErrorModel>(e@),
            },
    {
        let id = match v.member("id") {
            Some(Value::Str(id)) => id,
            _ => {
                return Err(ExecutionError::FlowNotCompiled);
            },
        };
        let address = match v.member("component") {
            Some(Value::Str(address)) => address,
            _ => {
                return Err(ExecutionError::FlowNotCompiled);
            },
        };
        let component = match Component::parse(address.as_str()) {
            Some(component) => component,
            None => {
                return Err(ExecutionError::FlowNotCompiled);
            },
        };
        let input = match v.member("input") {
            Some(input) => match ValueTemplate::parse(input) {
                Ok(template) => template,
                Err(e) => {
                    return Err(e);
                },
            },
            None => ValueTemplate::Literal(Value::Null),
        };
        Ok(Step { id: id.clone(), component, input })
    }
}

impl Flow {
    /// Reads the flow that the value `v` writes.
    pub fn parse(v: &Value) -> (r: Result<Flow, ExecutionError>)
        ensures
            match r {
                Ok(flow) => parse_flow_spec(v@) == Ok::<FlowModel, ExecutionErrorModel>(flow@),
                Err(e) => parse_flow_spec(v@) == Err::<FlowModel, ExecutionErrorModel>(e@),
            },
    {
        let items = match v.member("steps") {
            Some(Value::Array(items)) => {
                proof {
                    lemma_array_view(*items);
                }
                items
            },
            _ => {
                return Err(ExecutionError::FlowNotCompiled);
            },
        };
        let output = match v.member("output") {
            Some(output) => output,
            None => {
                return Err(ExecutionError::FlowNotCompiled);
            },
        };
        let ghost models = array_model(items@);
        let mut steps: Vec<Step> = Vec::new();
        let mut i: usize = 0;
        assert(steps_model(steps@) =~= Seq::<StepModel>::empty());
        while i < items.len()
            invariant
                i <= items.len(),
                models == array_model(items@),
                v@.member("steps"@) == Some(Json::Array(models)),
                v@.member("output"@) == Some(output@),
                parse_steps_spec(models, i as nat) == Ok::<Seq<StepModel>, ExecutionErrorModel>(
                    steps_model(steps@),
                ),
            decreases items.len() - i,
        {
            let ghost before = steps_model(steps@);
            proof {
                assert(models[i as int] == items[i as int]@);
            }
            match Step::parse(&items[i]) {
                Ok(step) => {
                    steps.push(step);
                    assert(steps_model(steps@) =~= before.push(step@));
                },
                Err(e) => {
                    proof {
                        lemma_parse_steps_error_stays(models, (i + 1) as nat, items.len() as nat);
                    }
                    return Err(e);
                },
            }
            i += 1;
        }
        match ValueTemplate::parse(output) {
            Ok(template) => Ok(Flow { steps, output: template }),
            Err(e) => Err(e),
        }
    }
}

} // verus!
