//! Why a run comes to an end: a run whose steps can be ordered is never
//! stuck, every step that ends brings it closer to its output, and a step
//! that can be handed out finds the outcome of every step that it reads
//! from.

use crate::analysis::{
    all_known, find_id, flow_graph, lemma_find_id, output_reads, position_of, positions_of,
    well_named, well_referenced,
};
use crate::error::ExecutionErrorModel;
use crate::expr::{BaseRefModel, ExprModel};
use crate::flow::FlowModel;
use crate::flow_result::Outcome;
use crate::graph::acyclic;
use crate::template::{
    items_refs, members_refs, resolve_items_spec, resolve_members_spec, resolve_template_spec,
    template_refs, TemplateMember, TemplateModel, Walk,
};
use crate::tracker::{
    conflict_message, lemma_acyclic_run_is_never_deadlocked, lemma_nothing_pending_is_resolvable,
    lemma_pending_falls, record_error, record_spec, start_spec, status_of, RunModel, RunStatus,
    StepStatus,
};
use crate::value::Json;
use vstd::prelude::*;

verus! {

/// A step that ends leaves a state whose parts fit together, with one step
/// fewer to end, and is not with its component any more.
pub proof fn lemma_step_end_makes_progress(m: RunModel, i: int, outcome: Outcome)
    requires
        m.wf(),
        m.may_end(i),
    ensures
        m.with_outcome(i, outcome).wf(),
        m.with_outcome(i, outcome).pending() + 1 == m.pending(),
        m.with_outcome(i, outcome).statuses[i].terminal(),
        !m.any_running() ==> !m.with_outcome(i, outcome).any_running(),
{
    let next = m.with_outcome(i, outcome);
    assert forall|j: int| 0 <= j < m.graph.len() implies next.recorded(j) by {
        assert(m.recorded(j));
        if j != i {
            assert(m.ids[j] != m.ids[i]);
        }
    }
    lemma_pending_falls(m.statuses, i, status_of(outcome));
    if !m.any_running() {
        assert forall|j: int| 0 <= j < next.statuses.len() implies next.statuses[j]
            != StepStatus::Running by {
            if j != i {
                assert(m.statuses[j] != StepStatus::Running);
            }
        }
    }
}

/// The state after at most `fuel` steps were handed out one after another,
/// each ending with the outcome that `results` gives for it, until no step
/// can be handed out.
pub open spec fn run_steps(m: RunModel, results: spec_fn(int) -> Outcome, fuel: nat) -> RunModel
    decreases fuel,
{
    if fuel == 0 || !m.any_runnable() {
        m
    } else {
        let i = choose|i: int| m.runnable(i);
        run_steps(m.with_outcome(i, results(i)), results, (fuel - 1) as nat)
    }
}

/// A run whose steps can be ordered reaches its output, whatever the
/// outcomes of its steps are: handing out one step after another, for as
/// many steps as have not ended, leaves a state in which every step that
/// the output reads from has ended.
pub proof fn lemma_acyclic_run_reaches_output(
    m: RunModel,
    results: spec_fn(int) -> Outcome,
    fuel: nat,
)
    requires
        m.wf(),
        acyclic(m.graph),
        m.status == RunStatus::Running,
        !m.any_running(),
        fuel >= m.pending(),
    ensures
        run_steps(m, results, fuel).wf(),
        run_steps(m, results, fuel).output_resolvable(),
        !run_steps(m, results, fuel).deadlocked(),
    decreases fuel,
{
    if fuel == 0 {
        lemma_nothing_pending_is_resolvable(m);
    } else if !m.any_runnable() {
        lemma_acyclic_run_is_never_deadlocked(m);
    } else {
        let i = choose|i: int| m.runnable(i);
        lemma_step_end_makes_progress(m, i, results(i));
        lemma_acyclic_run_reaches_output(m.with_outcome(i, results(i)), results, (fuel - 1) as nat);
    }
}

/// Every step that `refs` name has an outcome on record.
pub open spec fn all_recorded(refs: Seq<Seq<char>>, outcomes: Map<Seq<char>, Outcome>) -> bool {
    forall|k: int| 0 <= k < refs.len() ==> outcomes.contains_key(#[trigger] refs[k])
}

/// The evaluation did not come upon a step without an outcome.
pub open spec fn found_all(r: Result<Outcome, ExecutionErrorModel>) -> bool {
    !(r matches Err(ExecutionErrorModel::UndefinedValue(_)))
}

/// A walk over children whose every reference is to a step with an outcome
/// on record does not stop at a step that has none.
proof fn lemma_items_find_outcomes(
    items: Seq<TemplateModel>,
    n: nat,
    input: Json,
    outcomes: Map<Seq<char>, Outcome>,
)
    requires
        n <= items.len(),
        all_recorded(items_refs(items, n), outcomes),
    ensures
        resolve_items_spec(items, n, input, outcomes) matches Walk::Stopped(r) ==> found_all(r),
    decreases items, n,
{
    if n > 0 {
        let before = items_refs(items, (n - 1) as nat);
        let last = template_refs(items[n - 1]);
        assert forall|k: int| 0 <= k < before.len() implies outcomes.contains_key(
            #[trigger] before[k],
        ) by {
            assert(items_refs(items, n)[k] == before[k]);
        }
        assert forall|k: int| 0 <= k < last.len() implies outcomes.contains_key(
            #[trigger] last[k],
        ) by {
            assert(items_refs(items, n)[before.len() + k] == last[k]);
        }
        lemma_items_find_outcomes(items, (n - 1) as nat, input, outcomes);
        lemma_template_finds_outcomes(items[n - 1], input, outcomes);
    }
}

/// A walk over members whose every reference is to a step with an outcome
/// on record does not stop at a step that has none.
proof fn lemma_members_find_outcomes(
    members: Seq<TemplateMember>,
    n: nat,
    input: Json,
    outcomes: Map<Seq<char>, Outcome>,
)
    requires
        n <= members.len(),
        all_recorded(members_refs(members, n), outcomes),
    ensures
        resolve_members_spec(members, n, input, outcomes) matches Walk::Stopped(r) ==> found_all(
            r,
        ),
    decreases members, n,
{
    if n > 0 {
        let before = members_refs(members, (n - 1) as nat);
        let last = template_refs(members[n - 1].template);
        assert forall|k: int| 0 <= k < before.len() implies outcomes.contains_key(
            #[trigger] before[k],
        ) by {
            assert(members_refs(members, n)[k] == before[k]);
        }
        assert forall|k: int| 0 <= k < last.len() implies outcomes.contains_key(
            #[trigger] last[k],
        ) by {
            assert(members_refs(members, n)[before.len() + k] == last[k]);
        }
        lemma_members_find_outcomes(members, (n - 1) as nat, input, outcomes);
        lemma_template_finds_outcomes(members[n - 1].template, input, outcomes);
    }
}

/// A template whose every reference is to a step with an outcome on record
/// evaluates without coming upon a step that has none.
pub proof fn lemma_template_finds_outcomes(
    t: TemplateModel,
    input: Json,
    outcomes: Map<Seq<char>, Outcome>,
)
    requires
        all_recorded(template_refs(t), outcomes),
    ensures
        found_all(resolve_template_spec(t, input, outcomes)),
    decreases t, 0nat,
{
    match t {
        TemplateModel::Literal(_) => {},
        TemplateModel::Expr(e) => {
            match e {
                ExprModel::Ref { from: BaseRefModel::Step(step), .. } => {
                    assert(template_refs(t)[0] == step);
                },
                _ => {},
            }
        },
        TemplateModel::Array(items) => {
            lemma_items_find_outcomes(items, items.len(), input, outcomes);
        },
        TemplateModel::Object(members) => {
            lemma_members_find_outcomes(members, members.len(), input, outcomes);
        },
    }
}

/// The state `m` is one of a run of `flow`.
pub open spec fn runs(m: RunModel, flow: FlowModel) -> bool {
    &&& m.wf()
    &&& well_named(flow)
    &&& well_referenced(flow)
    &&& m.ids == flow.ids()
    &&& m.graph == flow_graph(flow)
    &&& m.output_reads == output_reads(flow)
}

/// The steps at `reads` are what `refs` name, and all of them have ended
/// with an outcome: then every one of `refs` has an outcome on record.
proof fn lemma_ended_reads_are_recorded(m: RunModel, refs: Seq<Seq<char>>, reads: Seq<int>)
    requires
        m.wf(),
        m.status == RunStatus::Running,
        all_known(m.ids, refs),
        reads == positions_of(m.ids, refs),
        forall|k: int| 0 <= k < reads.len() ==> m.statuses[#[trigger] reads[k]].terminal(),
    ensures
        all_recorded(refs, m.outcomes),
{
    assert forall|k: int| 0 <= k < refs.len() implies m.outcomes.contains_key(
        #[trigger] refs[k],
    ) by {
        lemma_find_id(m.ids, refs[k], 0);
        assert(m.ids.contains(refs[k]));
        let at = position_of(m.ids, refs[k]);
        assert(reads[k] == at);
        assert(0 <= at < m.ids.len() && m.ids[at] == refs[k]);
        assert(m.statuses[reads[k]].terminal());
        assert(m.statuses[at] != StepStatus::Cancelled);
        assert(m.recorded(at));
    }
}

/// A step that can be handed out finds the outcome of every step that its
/// input reads from: evaluating the input never comes upon a step without
/// an outcome.
pub proof fn lemma_runnable_step_finds_outcomes(m: RunModel, flow: FlowModel, i: int, input: Json)
    requires
        runs(m, flow),
        m.runnable(i),
    ensures
        found_all(resolve_template_spec(flow.steps[i].input, input, m.outcomes)),
{
    let refs = template_refs(flow.steps[i].input);
    assert(all_known(flow.ids(), refs));
    assert forall|k: int| 0 <= k < m.graph[i].len() implies m.statuses[#[trigger] m.graph[i][k]].terminal() by {}
    lemma_ended_reads_are_recorded(m, refs, m.graph[i]);
    lemma_template_finds_outcomes(flow.steps[i].input, input, m.outcomes);
}

/// Once the output can be had, evaluating it never comes upon a step
/// without an outcome.
pub proof fn lemma_resolvable_output_finds_outcomes(m: RunModel, flow: FlowModel, input: Json)
    requires
        runs(m, flow),
        m.status == RunStatus::Running,
        m.output_resolvable(),
    ensures
        found_all(resolve_template_spec(flow.output, input, m.outcomes)),
{
    let refs = template_refs(flow.output);
    lemma_ended_reads_are_recorded(m, refs, m.output_reads);
    lemma_template_finds_outcomes(flow.output, input, m.outcomes);
}

/// `next` is what one operation on a run makes of `m`: deriving the
/// statuses anew, handing out a step, offering an outcome for a step,
/// cancelling, or ending the run.
pub open spec fn is_transition(m: RunModel, next: RunModel) -> bool {
    ||| next == m.rederived()
    ||| next == m.cancelled()
    ||| exists|step: Seq<char>| next == start_spec(m, step)
    ||| exists|step: Seq<char>, outcome: Outcome| next == record_spec(m, step, outcome)
    ||| exists|result: Outcome| next == m.finished(result)
}

/// A step is handed out at most once: a step that was handed out, or has
/// ended, can never be handed out again, whatever is done with the run.
pub proof fn lemma_step_is_handed_out_at_most_once(m: RunModel, next: RunModel, i: int)
    requires
        m.wf(),
        is_transition(m, next),
        0 <= i < m.graph.len(),
        !m.statuses[i].waiting(),
    ensures
        !next.statuses[i].waiting(),
        !next.runnable(i),
{
    if exists|step: Seq<char>| next == start_spec(m, step) {
        let step = choose|step: Seq<char>| next == start_spec(m, step);
        lemma_find_id(m.ids, step, 0);
    }
    if exists|step: Seq<char>, outcome: Outcome| next == record_spec(m, step, outcome) {
        let (step, outcome) = choose|step: Seq<char>, outcome: Outcome|
            next == record_spec(m, step, outcome);
        lemma_find_id(m.ids, step, 0);
    }
}

/// The outcome of a step is final: once a step has ended with an outcome,
/// nothing that is done with the run changes the outcome or the status of
/// the step.
pub proof fn lemma_outcome_is_final(m: RunModel, next: RunModel, i: int)
    requires
        m.wf(),
        is_transition(m, next),
        0 <= i < m.graph.len(),
        m.outcomes.contains_key(m.ids[i]),
    ensures
        next.outcomes.contains_key(m.ids[i]),
        next.outcomes[m.ids[i]] == m.outcomes[m.ids[i]],
        next.statuses[i] == m.statuses[i],
{
    assert(m.recorded(i));
    if exists|step: Seq<char>| next == start_spec(m, step) {
        let step = choose|step: Seq<char>| next == start_spec(m, step);
        lemma_find_id(m.ids, step, 0);
    }
    if exists|step: Seq<char>, outcome: Outcome| next == record_spec(m, step, outcome) {
        let (step, outcome) = choose|step: Seq<char>, outcome: Outcome|
            next == record_spec(m, step, outcome);
        lemma_find_id(m.ids, step, 0);
        match find_id(m.ids, step, 0) {
            Some(j) => {
                if j != i {
                    assert(m.ids[j] != m.ids[i]);
                }
            },
            None => {},
        }
    }
}

/// Recording again the outcome that a step has ended with is accepted and
/// changes nothing; recording another outcome is refused and changes
/// nothing.
pub proof fn lemma_recording_is_idempotent(m: RunModel, i: int, outcome: Outcome, other: Outcome)
    requires
        m.wf(),
        m.may_end(i),
        other != outcome,
    ensures
        ({
            let ended = record_spec(m, m.ids[i], outcome);
            &&& record_error(m, m.ids[i], outcome).is_none()
            &&& ended == m.with_outcome(i, outcome)
            &&& record_error(ended, m.ids[i], outcome).is_none()
            &&& record_spec(ended, m.ids[i], outcome) == ended
            &&& record_error(ended, m.ids[i], other) == Some(
                ExecutionErrorModel::Internal(conflict_message()),
            )
            &&& record_spec(ended, m.ids[i], other) == ended
        }),
{
    lemma_find_id(m.ids, m.ids[i], 0);
    let at = find_id(m.ids, m.ids[i], 0)->0;
    if at != i {
        assert(m.ids[at] != m.ids[i]);
    }
}

/// The order in which two steps end does not matter: either way the run
/// comes to the same state.
pub proof fn lemma_ending_order_does_not_matter(
    m: RunModel,
    i: int,
    j: int,
    first: Outcome,
    second: Outcome,
)
    requires
        m.wf(),
        0 <= i < m.graph.len(),
        0 <= j < m.graph.len(),
        i != j,
    ensures
        m.with_outcome(i, first).with_outcome(j, second) == m.with_outcome(j, second).with_outcome(
            i,
            first,
        ),
{
    let one = m.with_outcome(i, first).with_outcome(j, second);
    let other = m.with_outcome(j, second).with_outcome(i, first);
    assert(m.ids[i] != m.ids[j]);
    assert(one.statuses =~= other.statuses);
    assert(one.outcomes =~= other.outcomes);
}

} // verus!
