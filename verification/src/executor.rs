//! The executor: the runtimes that serve each protocol, and the results of
//! the flows that were submitted to it.

use crate::analysis::{
    analyze, find_id, find_step, flow_graph, lemma_find_id, output_reads, well_named,
    well_referenced,
};
use crate::component::Component;
use crate::error::{ExecutionError, ExecutionErrorModel};
use crate::flow::{Flow, FlowModel};
use crate::flow_result::{FlowError, FlowErrorModel, FlowResult, Outcome};
use crate::graph::acyclic;
use crate::run_id::{fresh_run_id, hyphenated, run_id_text, RANDOM_ID_MARK, VERSION_AND_VARIANT_BITS};
use crate::template::texts;
use crate::tracker::{
    count_corrections, records_model, restored, RunModel, RunStatus, RunTracker, StepRecord,
};
use crate::value::Value;
use std::collections::HashMap;
use vstd::prelude::*;

verus! {

broadcast use vstd::std_specs::hash::group_hash_axioms;

/// The code of the failure that asking for an unknown run gives.
pub const FLOW_ERROR_NOT_FOUND: i64 = 404;

/// The code of the failure that a run gives whose execution ended without
/// saying how.
pub const FLOW_ERROR_CANCELLED: i64 = 410;

/// What is known of the result of a submitted flow.
#[derive(Debug)]
pub enum Slot {
    /// The flow is being executed.
    Waiting,
    /// The flow ended with this result.
    Ready(FlowResult),
    /// The execution ended without a result.
    Abandoned,
}

/// The mathematical content of a [`Slot`].
pub ghost enum SlotModel {
    Waiting,
    Ready(Outcome),
    Abandoned,
}

impl View for Slot {
    type V = SlotModel;

    open spec fn view(&self) -> SlotModel {
        match self {
            Slot::Waiting => SlotModel::Waiting,
            Slot::Ready(r) => SlotModel::Ready(r@),
            Slot::Abandoned => SlotModel::Abandoned,
        }
    }
}

/// What asking for the result of a run gives.
#[derive(Debug)]
pub enum FlowPoll {
    /// The result of the run.
    Ready(FlowResult),
    /// The run is being executed: the caller waits and asks again.
    Pending,
}

/// The result of an execution as a flow result: an execution that ended in
/// an error is a failed flow.
pub open spec fn settle_spec(r: Result<Outcome, ExecutionErrorModel>) -> Outcome {
    match r {
        Ok(outcome) => outcome,
        Err(e) => Outcome::Failed(e.flow_error()),
    }
}

/// The result of an execution as a flow result.
pub fn settle(result: Result<FlowResult, ExecutionError>) -> (r: FlowResult)
    ensures
        r@ == settle_spec(crate::resolve::resolution(result)),
{
    match result {
        Ok(r) => r,
        Err(e) => FlowResult::Failed { error: e.to_flow_error() },
    }
}

/// The failure that asking for the unknown run `run_id` gives.
pub open spec fn not_found(run_id: u128) -> FlowErrorModel {
    FlowErrorModel {
        code: FLOW_ERROR_NOT_FOUND as int,
        message: "No run found for ID: "@ + hyphenated(run_id),
        data: None,
    }
}

/// The failure of a run whose execution ended without a result.
pub open spec fn abandoned() -> FlowErrorModel {
    FlowErrorModel {
        code: FLOW_ERROR_CANCELLED as int,
        message: "Nested flow execution was cancelled"@,
        data: None,
    }
}

/// What asking for the result of `run_id` gives; `None` while the run is
/// being executed.
pub open spec fn flow_result_spec(pending: Map<u128, SlotModel>, run_id: u128) -> Option<Outcome> {
    if !pending.contains_key(run_id) {
        Some(Outcome::Failed(not_found(run_id)))
    } else {
        match pending[run_id] {
            SlotModel::Waiting => None,
            SlotModel::Ready(outcome) => Some(outcome),
            SlotModel::Abandoned => Some(Outcome::Failed(abandoned())),
        }
    }
}

/// The pending runs after the execution of `run_id` ended with `outcome`:
/// the first end of a waiting run is kept.
pub open spec fn completed(pending: Map<u128, SlotModel>, run_id: u128, outcome: Outcome) -> Map<
    u128,
    SlotModel,
> {
    if pending.contains_key(run_id) && pending[run_id] is Waiting {
        pending.insert(run_id, SlotModel::Ready(outcome))
    } else {
        pending
    }
}

/// The pending runs after the execution of `run_id` ended without a
/// result.
pub open spec fn dropped(pending: Map<u128, SlotModel>, run_id: u128) -> Map<u128, SlotModel> {
    if pending.contains_key(run_id) && pending[run_id] is Waiting {
        pending.insert(run_id, SlotModel::Abandoned)
    } else {
        pending
    }
}

/// The content of what asking for a result returned.
pub open spec fn poll_model(p: FlowPoll) -> Option<Outcome> {
    match p {
        FlowPoll::Ready(r) => Some(r@),
        FlowPoll::Pending => None,
    }
}

/// The runtimes after `plugin` was registered for `protocol`: it takes the
/// place of the runtime that served the protocol, or is added.
pub open spec fn registered<P>(
    protocols: Seq<Seq<char>>,
    handles: Seq<P>,
    protocol: Seq<char>,
    plugin: P,
) -> (Seq<Seq<char>>, Seq<P>) {
    match find_id(protocols, protocol, 0) {
        Some(i) => (protocols, handles.update(i, plugin)),
        None => (protocols.push(protocol), handles.push(plugin)),
    }
}

/// What the state store kept of a run.
#[derive(Debug)]
pub struct PersistedRun {
    /// The hash of the flow that was run.
    pub flow_hash: String,
    /// The input that the run was started with.
    pub input: Value,
    /// The status of the run.
    pub status: RunStatus,
    /// What was kept of each step, in the order of the flow's steps.
    pub steps: Vec<StepRecord>,
}

/// A run taken up again for inspection, step by step.
#[derive(Debug)]
pub struct DebugSession {
    /// The state of the run, rebuilt from what was kept of it.
    pub tracker: RunTracker,
    /// The flow that is run.
    pub flow: Flow,
    /// The input of the run.
    pub input: Value,
    /// How many steps had a status on record that had to be corrected.
    pub corrections: usize,
}

/// Whether a flow can be run: its steps have different ids, all reads are
/// from its own steps, and the steps can be ordered.
pub open spec fn can_run(flow: FlowModel) -> bool {
    well_named(flow) && well_referenced(flow) && acyclic(flow_graph(flow))
}

/// The state of a debug session for `run` over `flow`.
pub open spec fn session_state(run: PersistedRun, flow: FlowModel) -> RunModel {
    restored(
        flow.ids(),
        flow_graph(flow),
        output_reads(flow),
        records_model(run.steps@),
        run.status,
    )
}

/// Takes up a run for inspection from what the state store kept of it: the
/// run, if the store has it, and the flow that the run names, if the store
/// has that.
pub fn open_session(run_id: u128, run: Option<PersistedRun>, flow: Option<Flow>) -> (r: Result<
    DebugSession,
    ExecutionError,
>)
    ensures
        match r {
            Ok(session) => {
                &&& run.is_some()
                &&& flow == Some(session.flow)
                &&& can_run(session.flow@)
                &&& session.input == run->0.input
                &&& session.tracker@.wf()
                &&& session.tracker@ == session_state(run->0, session.flow@)
                &&& session.corrections == count_corrections(
                    flow_graph(session.flow@),
                    records_model(run->0.steps@),
                    run->0.status,
                    session.flow@.steps.len(),
                )
            },
            Err(e) => e@ == (match run {
                None => ExecutionErrorModel::ExecutionNotFound(run_id),
                Some(kept) => match flow {
                    None => ExecutionErrorModel::WorkflowNotFound(kept.flow_hash@),
                    Some(f) => ExecutionErrorModel::AnalysisError,
                },
            }) && (run.is_some() && flow.is_some() ==> !can_run(flow->0@)),
        },
{
    let kept = match run {
        Some(kept) => kept,
        None => {
            return Err(ExecutionError::ExecutionNotFound(run_id));
        },
    };
    let flow = match flow {
        Some(flow) => flow,
        None => {
            return Err(ExecutionError::WorkflowNotFound(kept.flow_hash));
        },
    };
    let analysis = match analyze(&flow) {
        Ok(analysis) => analysis,
        Err(_) => {
            return Err(ExecutionError::AnalysisError);
        },
    };
    let (tracker, corrections) = RunTracker::restore(analysis, &kept.steps, kept.status);
    Ok(DebugSession { tracker, flow, input: kept.input, corrections })
}

/// Main executor of workflows: the registry of runtimes by protocol, and
/// the rendezvous of submitted flows with those who wait for their results.
pub struct StepFlowExecutor<P> {
    protocols: Vec<String>,
    handles: Vec<P>,
    pending: HashMap<u128, Slot>,
    debug_sessions: HashMap<u128, DebugSession>,
}

impl<P> StepFlowExecutor<P> {
    /// The protocols that have a runtime, in the order of registration.
    pub closed spec fn protocols(&self) -> Seq<Seq<char>> {
        texts(self.protocols@)
    }

    /// The runtime of each protocol.
    pub closed spec fn handles(&self) -> Seq<P> {
        self.handles@
    }

    /// What is known of each submitted flow.
    pub closed spec fn pending(&self) -> Map<u128, SlotModel> {
        self.pending@.map_values(|s: Slot| s@)
    }

    /// The debug sessions that are open, by run id.
    pub closed spec fn sessions(&self) -> Map<u128, DebugSession> {
        self.debug_sessions@
    }

    /// Each protocol has one runtime.
    pub open spec fn wf(&self) -> bool {
        &&& self.protocols().len() == self.handles().len()
        &&& self.protocols().no_duplicates()
    }

    /// An executor without runtimes and without submitted flows.
    pub fn new() -> (e: Self)
        ensures
            e.wf(),
            e.protocols() == Seq::<Seq<char>>::empty(),
            e.handles() == Seq::<P>::empty(),
            e.pending() == Map::<u128, SlotModel>::empty(),
            e.sessions() == Map::<u128, DebugSession>::empty(),
    {
        let e = StepFlowExecutor {
            protocols: Vec::new(),
            handles: Vec::new(),
            pending: HashMap::new(),
            debug_sessions: HashMap::new(),
        };
        assert(e.protocols() =~= Seq::<Seq<char>>::empty());
        assert(e.pending() =~= Map::<u128, SlotModel>::empty());
        e
    }

    /// The runtime that serves the protocol of `component`.
    pub fn get_plugin(&self, component: &Component) -> (r: Result<&P, ExecutionError>)
        requires
            self.wf(),
        ensures
            match r {
                Ok(plugin) => match find_id(self.protocols(), component@.protocol, 0) {
                    Some(i) => *plugin == self.handles()[i],
                    None => false,
                },
                Err(e) => find_id(self.protocols(), component@.protocol, 0).is_none() && e@
                    == ExecutionErrorModel::UnregisteredProtocol(component@.protocol),
            },
    {
        let protocol = component.protocol().to_owned();
        proof {
            lemma_find_id(self.protocols(), component@.protocol, 0);
        }
        match find_step(&self.protocols, &protocol) {
            Some(i) => Ok(&self.handles[i]),
            None => Err(ExecutionError::UnregisteredProtocol(protocol)),
        }
    }

    /// All registered runtimes and their protocols.
    pub fn list_plugins(&self) -> (r: Vec<(String, &P)>)
        requires
            self.wf(),
        ensures
            r.len() == self.protocols().len(),
            forall|i: int|
                0 <= i < r.len() ==> (#[trigger] r[i]).0@ == self.protocols()[i] && *r[i].1
                    == self.handles()[i],
    {
        let mut out: Vec<(String, &P)> = Vec::new();
        let mut i: usize = 0;
        while i < self.protocols.len()
            invariant
                i <= self.protocols.len(),
                self.wf(),
                out.len() == i,
                forall|k: int|
                    0 <= k < i ==> (#[trigger] out[k]).0@ == self.protocols()[k] && *out[k].1
                        == self.handles()[k],
            decreases self.protocols.len() - i,
        {
            out.push((self.protocols[i].clone(), &self.handles[i]));
            i += 1;
        }
        out
    }

    /// Registers `plugin` as the runtime of `protocol`.
    pub fn register_plugin(&mut self, protocol: String, plugin: P)
        requires
            old(self).wf(),
        ensures
            final(self).wf(),
            (final(self).protocols(), final(self).handles()) == registered(
                old(self).protocols(),
                old(self).handles(),
                protocol@,
                plugin,
            ),
            final(self).pending() == old(self).pending(),
            final(self).sessions() == old(self).sessions(),
    {
        proof {
            lemma_find_id(self.protocols(), protocol@, 0);
        }
        match find_step(&self.protocols, &protocol) {
            Some(i) => {
                self.handles.set(i, plugin);
            },
            None => {
                let ghost before = self.protocols();
                self.protocols.push(protocol);
                self.handles.push(plugin);
                proof {
                    assert(self.protocols() =~= before.push(protocol@));
                    assert forall|a: int, b: int|
                        0 <= a < self.protocols().len() && 0 <= b < self.protocols().len() && a
                            != b implies self.protocols()[a] != self.protocols()[b] by {
                        if a < before.len() && b < before.len() {
                            assert(before[a] != before[b]);
                        }
                    }
                }
            },
        }
    }

    /// Notes that the flow `run_id` is being executed, so that those who ask
    /// for its result wait for it.
    pub fn register_pending(&mut self, run_id: u128)
        ensures
            final(self).pending() == old(self).pending().insert(run_id, SlotModel::Waiting),
            final(self).protocols() == old(self).protocols(),
            final(self).handles() == old(self).handles(),
            final(self).sessions() == old(self).sessions(),
    {
        self.pending.insert(run_id, Slot::Waiting);
        assert(self.pending() =~= old(self).pending().insert(run_id, SlotModel::Waiting));
    }

    /// Takes in a flow for execution: picks a new run id and notes the run
    /// as being executed. The caller starts the execution and reports its
    /// end with `complete_flow`.
    pub fn submit_flow(&mut self) -> (run_id: u128)
        ensures
            run_id & VERSION_AND_VARIANT_BITS == RANDOM_ID_MARK,
            final(self).pending() == old(self).pending().insert(run_id, SlotModel::Waiting),
            final(self).protocols() == old(self).protocols(),
            final(self).handles() == old(self).handles(),
            final(self).sessions() == old(self).sessions(),
    {
        let run_id = fresh_run_id();
        self.register_pending(run_id);
        run_id
    }

    /// Reports how the execution of `run_id` ended. Only the first report
    /// for a run that is being executed counts.
    pub fn complete_flow(&mut self, run_id: u128, result: Result<FlowResult, ExecutionError>)
        ensures
            final(self).pending() == completed(
                old(self).pending(),
                run_id,
                settle_spec(crate::resolve::resolution(result)),
            ),
            final(self).protocols() == old(self).protocols(),
            final(self).handles() == old(self).handles(),
            final(self).sessions() == old(self).sessions(),
    {
        let waiting = match self.pending.get(&run_id) {
            Some(Slot::Waiting) => true,
            _ => false,
        };
        if waiting {
            let r = settle(result);
            self.pending.insert(run_id, Slot::Ready(r));
            assert(self.pending() =~= old(self).pending().insert(run_id, SlotModel::Ready(r@)));
        }
    }

    /// Reports that the execution of `run_id` ended without a result.
    pub fn abandon_flow(&mut self, run_id: u128)
        ensures
            final(self).pending() == dropped(old(self).pending(), run_id),
            final(self).protocols() == old(self).protocols(),
            final(self).handles() == old(self).handles(),
            final(self).sessions() == old(self).sessions(),
    {
        let waiting = match self.pending.get(&run_id) {
            Some(Slot::Waiting) => true,
            _ => false,
        };
        if waiting {
            self.pending.insert(run_id, Slot::Abandoned);
            assert(self.pending() =~= old(self).pending().insert(run_id, SlotModel::Abandoned));
        }
    }

    /// The debug session that is open for `run_id`, if there is one.
    pub fn cached_session(&self, run_id: u128) -> (r: Option<&DebugSession>)
        ensures
            match r {
                Some(session) => self.sessions().contains_key(run_id) && *session
                    == self.sessions()[run_id],
                None => !self.sessions().contains_key(run_id),
            },
    {
        self.debug_sessions.get(&run_id)
    }

    /// Opens a debug session for `run_id`, unless one is open, from what
    /// the state store kept of the run and of its flow, and returns how many
    /// statuses had to be corrected. A session that is open already is
    /// left as it is, and nothing is corrected.
    pub fn debug_session(
        &mut self,
        run_id: u128,
        run: Option<PersistedRun>,
        flow: Option<Flow>,
    ) -> (r: Result<usize, ExecutionError>)
        ensures
            final(self).protocols() == old(self).protocols(),
            final(self).handles() == old(self).handles(),
            final(self).pending() == old(self).pending(),
            old(self).sessions().contains_key(run_id) ==> r == Ok::<usize, ExecutionError>(0)
                && final(self).sessions() == old(self).sessions(),
            !old(self).sessions().contains_key(run_id) ==> match r {
                Ok(corrections) => {
                    &&& run.is_some()
                    &&& flow.is_some()
                    &&& can_run(flow->0@)
                    &&& final(self).sessions().dom() == old(self).sessions().dom().insert(run_id)
                    &&& forall|other: u128|
                        other != run_id && old(self).sessions().contains_key(other)
                            ==> final(self).sessions()[other] == old(self).sessions()[other]
                    &&& final(self).sessions()[run_id].flow == flow->0
                    &&& final(self).sessions()[run_id].input == run->0.input
                    &&& final(self).sessions()[run_id].corrections == corrections
                    &&& final(self).sessions()[run_id].tracker@.wf()
                    &&& final(self).sessions()[run_id].tracker@ == session_state(run->0, flow->0@)
                    &&& corrections == count_corrections(
                        flow_graph(flow->0@),
                        records_model(run->0.steps@),
                        run->0.status,
                        flow->0@.steps.len(),
                    )
                },
                Err(e) => final(self).sessions() == old(self).sessions() && e@ == (match run {
                    None => ExecutionErrorModel::ExecutionNotFound(run_id),
                    Some(kept) => match flow {
                        None => ExecutionErrorModel::WorkflowNotFound(kept.flow_hash@),
                        Some(f) => ExecutionErrorModel::AnalysisError,
                    },
                }) && (run.is_some() && flow.is_some() ==> !can_run(flow->0@)),
            },
    {
        if self.debug_sessions.contains_key(&run_id) {
            return Ok(0);
        }
        match open_session(run_id, run, flow) {
            Ok(session) => {
                let corrections = session.corrections;
                self.debug_sessions.insert(run_id, session);
                Ok(corrections)
            },
            Err(e) => Err(e),
        }
    }

    /// The result of the flow `run_id`, or that the caller has to wait for
    /// it. A run that is not known fails at once.
    pub fn flow_result(&self, run_id: u128) -> (r: FlowPoll)
        ensures
            poll_model(r) == flow_result_spec(self.pending(), run_id),
    {
        match self.pending.get(&run_id) {
            None => {
                let text = run_id_text(run_id);
                let mut message = "No run found for ID: ".to_owned();
                message.append(text.as_str());
                FlowPoll::Ready(
                    FlowResult::Failed {
                        error: FlowError { code: FLOW_ERROR_NOT_FOUND, message, data: None },
                    },
                )
            },
            Some(Slot::Waiting) => FlowPoll::Pending,
            Some(Slot::Ready(result)) => FlowPoll::Ready(result.clone()),
            Some(Slot::Abandoned) => FlowPoll::Ready(
                FlowResult::Failed {
                    error: FlowError::new(
                        FLOW_ERROR_CANCELLED,
                        "Nested flow execution was cancelled",
                    ),
                },
            ),
        }
    }
}

/// A flow that was just submitted is waited for, and when its execution has
/// ended, asking for its result gives what the execution ended with.
pub proof fn lemma_submitted_flow_is_awaited(
    pending: Map<u128, SlotModel>,
    run_id: u128,
    result: Result<Outcome, ExecutionErrorModel>,
)
    ensures
        flow_result_spec(pending.insert(run_id, SlotModel::Waiting), run_id).is_none(),
        flow_result_spec(
            completed(pending.insert(run_id, SlotModel::Waiting), run_id, settle_spec(result)),
            run_id,
        ) == Some(settle_spec(result)),
{
}

/// Asking for the result of a run that was never submitted fails at once
/// with the code for an unknown run.
pub proof fn lemma_unknown_run_is_not_found(pending: Map<u128, SlotModel>, run_id: u128)
    requires
        !pending.contains_key(run_id),
    ensures
        flow_result_spec(pending, run_id) == Some(Outcome::Failed(not_found(run_id))),
        not_found(run_id).code == 404,
{
}

/// Everyone who waits for a run sees the same result: once the execution
/// has ended with a result, later reports of its end change nothing.
pub proof fn lemma_waiters_see_one_result(
    pending: Map<u128, SlotModel>,
    run_id: u128,
    first: Outcome,
    later: Outcome,
)
    requires
        pending.contains_key(run_id),
        pending[run_id] is Waiting,
    ensures
        flow_result_spec(completed(pending, run_id, first), run_id) == Some(first),
        completed(completed(pending, run_id, first), run_id, later) == completed(
            pending,
            run_id,
            first,
        ),
        dropped(completed(pending, run_id, first), run_id) == completed(pending, run_id, first),
{
}

} // verus!
