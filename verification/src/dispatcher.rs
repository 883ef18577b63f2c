//! What to do next in a run: which steps to hand out, with what input, and
//! when the run is over.

use crate::analysis::find_id;
use crate::error::ExecutionErrorModel;
use crate::executor::{settle, settle_spec, StepFlowExecutor};
use crate::flow::{Flow, Step};
use crate::flow_result::{FlowResult, Outcome};
use crate::resolve::StepOutcomes;
use crate::template::{resolve_template, resolve_template_spec, TemplateModel};
use crate::tracker::{RunStatus, RunTracker};
use crate::value::{Json, Value};
use vstd::prelude::*;

verus! {

/// What becomes of a step that can be handed out.
#[derive(Debug)]
pub enum StepPlan {
    /// The step ends here with this outcome; no runtime is contacted.
    Record(FlowResult),
    /// The step's component is to be executed on this input.
    Execute { input: Value },
}

/// The mathematical content of a [`StepPlan`].
pub ghost enum PlanModel {
    Record(Outcome),
    Execute(Json),
}

impl View for StepPlan {
    type V = PlanModel;

    open spec fn view(&self) -> PlanModel {
        match self {
            StepPlan::Record(r) => PlanModel::Record(r@),
            StepPlan::Execute { input } => PlanModel::Execute(input@),
        }
    }
}

/// What becomes of a step whose input is the template `input_template`: it
/// is executed on the value of its input, skipped where the input is
/// skipped, and failed where the input fails or is in error.
pub open spec fn plan_spec(
    input_template: TemplateModel,
    input: Json,
    outcomes: Map<Seq<char>, Outcome>,
) -> PlanModel {
    match resolve_template_spec(input_template, input, outcomes) {
        Ok(Outcome::Success(v)) => PlanModel::Execute(v),
        Ok(other) => PlanModel::Record(other),
        Err(e) => PlanModel::Record(Outcome::Failed(e.flow_error())),
    }
}

/// Decides what becomes of `step`, given the workflow input and the
/// outcomes recorded so far.
pub fn plan_step(step: &Step, input: &Value, outcomes: &StepOutcomes) -> (plan: StepPlan)
    ensures
        plan@ == plan_spec(step@.input, input@, outcomes@),
{
    match resolve_template(&step.input, input, outcomes) {
        Ok(FlowResult::Success { result }) => StepPlan::Execute { input: result },
        Ok(other) => StepPlan::Record(other),
        Err(e) => StepPlan::Record(FlowResult::Failed { error: e.to_flow_error() }),
    }
}

/// A step on its way to a runtime.
pub enum Dispatch<'a, P> {
    /// The step ends here with this outcome; no runtime is contacted.
    Record(FlowResult),
    /// `plugin` is to execute the step's component on `input`.
    Execute { plugin: &'a P, input: Value },
}

/// Decides what becomes of `step` and finds the runtime that is to execute
/// it. A step whose protocol has no runtime fails.
pub fn dispatch_step<'a, P>(
    executor: &'a StepFlowExecutor<P>,
    step: &Step,
    input: &Value,
    outcomes: &StepOutcomes,
) -> (d: Dispatch<'a, P>)
    requires
        executor.wf(),
    ensures
        match d {
            Dispatch::Record(r) => match plan_spec(step@.input, input@, outcomes@) {
                PlanModel::Record(o) => r@ == o,
                PlanModel::Execute(_) => find_id(
                    executor.protocols(),
                    step@.component.protocol,
                    0,
                ).is_none() && r@ == Outcome::Failed(
                    ExecutionErrorModel::UnregisteredProtocol(
                        step@.component.protocol,
                    ).flow_error(),
                ),
            },
            Dispatch::Execute { plugin, input: resolved } => {
                &&& plan_spec(step@.input, input@, outcomes@) == PlanModel::Execute(resolved@)
                &&& match find_id(executor.protocols(), step@.component.protocol, 0) {
                    Some(i) => *plugin == executor.handles()[i],
                    None => false,
                }
            },
        },
{
    match plan_step(step, input, outcomes) {
        StepPlan::Record(r) => Dispatch::Record(r),
        StepPlan::Execute { input: resolved } => match executor.get_plugin(&step.component) {
            Ok(plugin) => Dispatch::Execute { plugin, input: resolved },
            Err(e) => Dispatch::Record(FlowResult::Failed { error: e.to_flow_error() }),
        },
    }
}

/// The result of a flow whose output can be had: the value of its output
/// template, where an error is a failure.
pub open spec fn output_spec(
    output: TemplateModel,
    input: Json,
    outcomes: Map<Seq<char>, Outcome>,
) -> Outcome {
    settle_spec(resolve_template_spec(output, input, outcomes))
}

/// Evaluates the output of `flow`.
pub fn resolve_output(flow: &Flow, input: &Value, outcomes: &StepOutcomes) -> (r: FlowResult)
    ensures
        r@ == output_spec(flow@.output, input@, outcomes@),
{
    settle(resolve_template(&flow.output, input, outcomes))
}

/// What the owner of a run does next.
#[derive(Debug)]
pub enum NextAction {
    /// The run is over.
    Done,
    /// The output can be had: evaluate it and end the run.
    ResolveOutput,
    /// Hand out the steps at these positions.
    Dispatch(Vec<usize>),
    /// Wait for a step that is with its component.
    Wait,
    /// Nothing is under way and nothing can be started: the run is stuck.
    Deadlock,
}

/// Derives the waiting steps' statuses anew and says what the owner of the
/// run does next.
pub fn next_action(tracker: &mut RunTracker) -> (action: NextAction)
    requires
        old(tracker)@.wf(),
    ensures
        final(tracker)@.wf(),
        final(tracker)@ == old(tracker)@.rederived(),
        match action {
            NextAction::Done => old(tracker)@.status != RunStatus::Running,
            NextAction::ResolveOutput => {
                &&& old(tracker)@.status == RunStatus::Running
                &&& old(tracker)@.output_resolvable()
            },
            NextAction::Dispatch(steps) => {
                &&& old(tracker)@.status == RunStatus::Running
                &&& !old(tracker)@.output_resolvable()
                &&& steps.len() > 0
                &&& forall|k: int|
                    0 <= k < steps.len() ==> old(tracker)@.runnable(#[trigger] steps[k] as int)
                &&& forall|i: int|
                    old(tracker)@.runnable(i) ==> exists|k: int|
                        0 <= k < steps.len() && steps[k] == i
                &&& forall|a: int, b: int| 0 <= a < b < steps.len() ==> steps[a] < steps[b]
            },
            NextAction::Wait => {
                &&& old(tracker)@.status == RunStatus::Running
                &&& !old(tracker)@.output_resolvable()
                &&& !old(tracker)@.any_runnable()
                &&& old(tracker)@.any_running()
            },
            NextAction::Deadlock => old(tracker)@.deadlocked(),
        },
{
    let over = tracker.is_terminal();
    let resolvable = tracker.output_resolvable();
    let running = tracker.any_running();
    let steps = tracker.compute_runnable();
    if over {
        NextAction::Done
    } else if resolvable {
        NextAction::ResolveOutput
    } else if steps.len() > 0 {
        NextAction::Dispatch(steps)
    } else if running {
        NextAction::Wait
    } else {
        NextAction::Deadlock
    }
}

} // verus!
