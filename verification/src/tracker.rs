//! The state of one run: the status and outcome of each step, and the
//! status of the run as a whole.

use crate::analysis::{find_id, lemma_find_id, FlowAnalysis};
use crate::error::{ExecutionError, ExecutionErrorModel};
use crate::flow_result::{FlowResult, Outcome};
use crate::graph::{acyclic, in_range, is_ranking, positions_model, Graph};
use crate::resolve::StepOutcomes;
use vstd::prelude::*;

verus! {

/// Where a step stands within a run.
#[derive(Debug, Clone, Copy, PartialEq, Eq, Structural)]
pub enum StepStatus {
    /// Some step that this one reads from has not ended.
    Blocked,
    /// Every step that this one reads from has ended.
    Runnable,
    /// Handed to its component.
    Running,
    Completed,
    Skipped,
    Failed,
    /// The run was cancelled before the step was handed out.
    Cancelled,
}

/// Where a run stands.
#[derive(Debug, Clone, Copy, PartialEq, Eq, Structural)]
pub enum RunStatus {
    Running,
    Completed,
    Failed,
    Cancelled,
}

impl StepStatus {
    /// The step has ended, one way or another.
    pub open spec fn terminal(self) -> bool {
        self is Completed || self is Skipped || self is Failed || self is Cancelled
    }

    /// The step has not been handed out and has not ended.
    pub open spec fn waiting(self) -> bool {
        self is Blocked || self is Runnable
    }

    /// Whether the step has ended.
    pub fn is_terminal(self) -> (r: bool)
        ensures
            r == self.terminal(),
    {
        match self {
            StepStatus::Completed | StepStatus::Skipped | StepStatus::Failed | StepStatus::Cancelled => true,
            _ => false,
        }
    }

    /// Whether the step has neither been handed out nor ended.
    pub fn is_waiting(self) -> (r: bool)
        ensures
            r == self.waiting(),
    {
        match self {
            StepStatus::Blocked | StepStatus::Runnable => true,
            _ => false,
        }
    }
}

/// The status of a step that ended with `outcome`.
pub open spec fn status_of(outcome: Outcome) -> StepStatus {
    match outcome {
        Outcome::Success(_) => StepStatus::Completed,
        Outcome::Skipped => StepStatus::Skipped,
        Outcome::Failed(_) => StepStatus::Failed,
    }
}

/// The mathematical content of a [`RunTracker`].
pub ghost struct RunModel {
    /// The ids of the steps.
    pub ids: Seq<Seq<char>>,
    /// Which steps each step reads from.
    pub graph: Graph,
    /// Which steps the output reads from.
    pub output_reads: Seq<int>,
    /// The status of each step.
    pub statuses: Seq<StepStatus>,
    /// The outcomes of the steps that have one, by id.
    pub outcomes: Map<Seq<char>, Outcome>,
    /// The status of the run.
    pub status: RunStatus,
}

impl RunModel {
    /// The status of step `i` agrees with what is recorded of it: a step is
    /// completed, skipped or failed exactly when it has that outcome.
    pub open spec fn recorded(self, i: int) -> bool {
        if self.outcomes.contains_key(self.ids[i]) {
            self.statuses[i] == status_of(self.outcomes[self.ids[i]])
        } else {
            !(self.statuses[i] is Completed || self.statuses[i] is Skipped
                || self.statuses[i] is Failed)
        }
    }

    /// The parts of the state fit together.
    pub open spec fn wf(self) -> bool {
        &&& self.ids.len() == self.graph.len()
        &&& self.statuses.len() == self.graph.len()
        &&& self.ids.no_duplicates()
        &&& in_range(self.graph)
        &&& forall|k: int|
            0 <= k < self.output_reads.len() ==> 0 <= #[trigger] self.output_reads[k]
                < self.graph.len()
        &&& forall|i: int| 0 <= i < self.graph.len() ==> self.recorded(i)
        &&& (self.status != RunStatus::Cancelled ==> forall|i: int|
            0 <= i < self.graph.len() ==> self.statuses[i] != StepStatus::Cancelled)
    }

    /// Every step that step `i` reads from has ended.
    pub open spec fn deps_terminal(self, i: int) -> bool {
        forall|k: int|
            0 <= k < self.graph[i].len() ==> self.statuses[#[trigger] self.graph[i][k]].terminal()
    }

    /// Step `i` can be handed out now.
    pub open spec fn runnable(self, i: int) -> bool {
        &&& 0 <= i < self.graph.len()
        &&& self.status == RunStatus::Running
        &&& self.statuses[i].waiting()
        &&& self.deps_terminal(i)
    }

    /// Every step that the output reads from has ended.
    pub open spec fn output_resolvable(self) -> bool {
        forall|k: int|
            0 <= k < self.output_reads.len() ==> self.statuses[#[trigger] self.output_reads[k]].terminal()
    }

    /// Some step is with its component.
    pub open spec fn any_running(self) -> bool {
        exists|i: int| 0 <= i < self.statuses.len() && self.statuses[i] == StepStatus::Running
    }

    /// Some step can be handed out now.
    pub open spec fn any_runnable(self) -> bool {
        exists|i: int| self.runnable(i)
    }

    /// The run is not over, its output cannot be had yet, and nothing is
    /// under way or can be started.
    pub open spec fn deadlocked(self) -> bool {
        &&& self.status == RunStatus::Running
        &&& !self.output_resolvable()
        &&& !self.any_running()
        &&& !self.any_runnable()
    }

    /// How many steps have not ended.
    pub open spec fn pending(self) -> nat {
        count_pending(self.statuses)
    }

    /// The state after the status of each waiting step is derived anew from
    /// the steps that it reads from, while the run is going.
    pub open spec fn rederived(self) -> RunModel {
        if self.status == RunStatus::Running {
            RunModel {
                statuses: Seq::new(
                    self.statuses.len(),
                    |i: int|
                        if self.statuses[i].waiting() {
                            if self.deps_terminal(i) {
                                StepStatus::Runnable
                            } else {
                                StepStatus::Blocked
                            }
                        } else {
                            self.statuses[i]
                        },
                ),
                ..self
            }
        } else {
            self
        }
    }

    /// The state after step `i` ended with `outcome`.
    pub open spec fn with_outcome(self, i: int, outcome: Outcome) -> RunModel {
        RunModel {
            statuses: self.statuses.update(i, status_of(outcome)),
            outcomes: self.outcomes.insert(self.ids[i], outcome),
            ..self
        }
    }

    /// The state after step `i` was handed to its component.
    pub open spec fn started(self, i: int) -> RunModel {
        RunModel { statuses: self.statuses.update(i, StepStatus::Running), ..self }
    }

    /// Step `i` may take an outcome: it is with its component, or it could
    /// be handed out now.
    pub open spec fn may_end(self, i: int) -> bool {
        &&& 0 <= i < self.graph.len()
        &&& (self.statuses[i] == StepStatus::Running || (self.statuses[i].waiting()
            && self.deps_terminal(i)))
    }

    /// The state after the run was cancelled: steps that wait are cancelled
    /// with it, steps that are with their component go on.
    pub open spec fn cancelled(self) -> RunModel {
        if self.status == RunStatus::Running {
            RunModel {
                statuses: Seq::new(
                    self.statuses.len(),
                    |i: int|
                        if self.statuses[i].waiting() {
                            StepStatus::Cancelled
                        } else {
                            self.statuses[i]
                        },
                ),
                status: RunStatus::Cancelled,
                ..self
            }
        } else {
            self
        }
    }

    /// The state after the run ended with `result`.
    pub open spec fn finished(self, result: Outcome) -> RunModel {
        if self.status == RunStatus::Running {
            RunModel {
                status: if result is Failed {
                    RunStatus::Failed
                } else {
                    RunStatus::Completed
                },
                ..self
            }
        } else {
            self
        }
    }
}

/// How many of `statuses` are not terminal.
pub open spec fn count_pending(statuses: Seq<StepStatus>) -> nat
    decreases statuses.len(),
{
    if statuses.len() == 0 {
        0
    } else {
        count_pending(statuses.drop_last()) + if statuses.last().terminal() {
            0nat
        } else {
            1nat
        }
    }
}

/// Ending one step that had not ended leaves one step fewer to end.
pub proof fn lemma_pending_falls(statuses: Seq<StepStatus>, at: int, status: StepStatus)
    requires
        0 <= at < statuses.len(),
        !statuses[at].terminal(),
        status.terminal(),
    ensures
        count_pending(statuses.update(at, status)) + 1 == count_pending(statuses),
    decreases statuses.len(),
{
    let updated = statuses.update(at, status);
    if at == statuses.len() - 1 {
        assert(updated.drop_last() =~= statuses.drop_last());
    } else {
        assert(updated.drop_last() =~= statuses.drop_last().update(at, status));
        lemma_pending_falls(statuses.drop_last(), at, status);
    }
}

/// Where nothing is left to end, nothing has a status that is not terminal.
pub proof fn lemma_pending_zero(statuses: Seq<StepStatus>)
    requires
        count_pending(statuses) == 0,
    ensures
        forall|i: int| 0 <= i < statuses.len() ==> statuses[i].terminal(),
    decreases statuses.len(),
{
    if statuses.len() > 0 {
        lemma_pending_zero(statuses.drop_last());
        assert forall|i: int| 0 <= i < statuses.len() implies statuses[i].terminal() by {
            if i < statuses.len() - 1 {
                assert(statuses.drop_last()[i] == statuses[i]);
            }
        }
    }
}

/// From a waiting step one comes, along the reads, to a step that can be
/// handed out.
proof fn lemma_waiting_leads_to_runnable(m: RunModel, rank: Seq<nat>, i: int)
    requires
        m.wf(),
        is_ranking(m.graph, rank),
        m.status == RunStatus::Running,
        !m.any_running(),
        0 <= i < m.graph.len(),
        !m.statuses[i].terminal(),
    ensures
        m.any_runnable(),
    decreases rank[i],
{
    assert(m.statuses[i] != StepStatus::Running);
    if m.deps_terminal(i) {
        assert(m.runnable(i));
    } else {
        let k = choose|k: int|
            0 <= k < m.graph[i].len() && !m.statuses[#[trigger] m.graph[i][k]].terminal();
        lemma_waiting_leads_to_runnable(m, rank, m.graph[i][k]);
    }
}

/// A run whose steps can be ordered is never stuck: while its output
/// cannot be had and no step is with its component, some step can be handed
/// out.
pub proof fn lemma_acyclic_run_is_never_deadlocked(m: RunModel)
    requires
        m.wf(),
        acyclic(m.graph),
    ensures
        !m.deadlocked(),
{
    if m.status == RunStatus::Running && !m.output_resolvable() && !m.any_running() {
        let rank = choose|rank: Seq<nat>| is_ranking(m.graph, rank);
        let k = choose|k: int|
            0 <= k < m.output_reads.len() && !m.statuses[#[trigger] m.output_reads[k]].terminal();
        lemma_waiting_leads_to_runnable(m, rank, m.output_reads[k]);
    }
}

/// Once no step is left to end, the output can be had.
pub proof fn lemma_nothing_pending_is_resolvable(m: RunModel)
    requires
        m.wf(),
        m.pending() == 0,
    ensures
        m.output_resolvable(),
{
    lemma_pending_zero(m.statuses);
}

/// The state of one run.
#[derive(Debug)]
pub struct RunTracker {
    analysis: FlowAnalysis,
    statuses: Vec<StepStatus>,
    outcomes: StepOutcomes,
    status: RunStatus,
}

impl View for RunTracker {
    type V = RunModel;

    closed spec fn view(&self) -> RunModel {
        RunModel {
            ids: self.analysis.ids(),
            graph: self.analysis.graph(),
            output_reads: self.analysis.output_reads(),
            statuses: self.statuses@,
            outcomes: self.outcomes@,
            status: self.status,
        }
    }
}

/// What is said when a step that has ended is given another outcome.
pub open spec fn conflict_message() -> Seq<char> {
    "conflicting outcome for a step that has ended"@
}

/// What recording `outcome` for the step called `step` comes to: the error
/// that refuses it, or nothing.
pub open spec fn record_error(m: RunModel, step: Seq<char>, outcome: Outcome) -> Option<
    ExecutionErrorModel,
> {
    match find_id(m.ids, step, 0) {
        None => Some(ExecutionErrorModel::StepNotFound { step }),
        Some(i) => if m.statuses[i].terminal() {
            if m.outcomes.contains_key(step) && m.outcomes[step] == outcome {
                None
            } else {
                Some(ExecutionErrorModel::Internal(conflict_message()))
            }
        } else if m.may_end(i) {
            None
        } else {
            Some(ExecutionErrorModel::StepNotRunnable { step })
        },
    }
}

/// The state after `outcome` was offered for the step called `step`: the
/// step takes it unless it is refused or the step has ended already.
pub open spec fn record_spec(m: RunModel, step: Seq<char>, outcome: Outcome) -> RunModel {
    match find_id(m.ids, step, 0) {
        Some(i) => if !m.statuses[i].terminal() && m.may_end(i) {
            m.with_outcome(i, outcome)
        } else {
            m
        },
        None => m,
    }
}

/// What handing out the step called `step` comes to.
pub open spec fn start_error(m: RunModel, step: Seq<char>) -> Option<ExecutionErrorModel> {
    match find_id(m.ids, step, 0) {
        None => Some(ExecutionErrorModel::StepNotFound { step }),
        Some(i) => if m.runnable(i) {
            None
        } else {
            Some(ExecutionErrorModel::StepNotRunnable { step })
        },
    }
}

/// The state after the step called `step` was to be handed out.
pub open spec fn start_spec(m: RunModel, step: Seq<char>) -> RunModel {
    match find_id(m.ids, step, 0) {
        Some(i) => if m.runnable(i) {
            m.started(i)
        } else {
            m
        },
        None => m,
    }
}

/// The content of the result of an operation that returns nothing or fails.
pub open spec fn error_of(r: Result<(), ExecutionError>) -> Option<ExecutionErrorModel> {
    match r {
        Ok(_) => None,
        Err(e) => Some(e@),
    }
}

impl RunTracker {
    /// The state of a run that has not begun: no step has been handed out.
    pub fn new(analysis: FlowAnalysis) -> (t: RunTracker)
        requires
            analysis.wf(),
        ensures
            t@.wf(),
            t@ == (RunModel {
                ids: analysis.ids(),
                graph: analysis.graph(),
                output_reads: analysis.output_reads(),
                statuses: Seq::new(analysis.graph().len(), |i: int| StepStatus::Blocked),
                outcomes: Map::empty(),
                status: RunStatus::Running,
            }),
    {
        let n = analysis.step_count();
        let mut statuses: Vec<StepStatus> = Vec::new();
        let mut i: usize = 0;
        while i < n
            invariant
                i <= n,
                statuses.len() == i,
                forall|k: int| 0 <= k < i ==> statuses[k] == StepStatus::Blocked,
            decreases n - i,
        {
            statuses.push(StepStatus::Blocked);
            i += 1;
        }
        let t = RunTracker {
            analysis,
            statuses,
            outcomes: StepOutcomes::new(),
            status: RunStatus::Running,
        };
        assert(t@.statuses =~= Seq::new(analysis.graph().len(), |i: int| StepStatus::Blocked));
        t
    }

    /// The status of the run.
    pub fn status(&self) -> (r: RunStatus)
        ensures
            r == self@.status,
    {
        self.status
    }

    /// Whether the run is over.
    pub fn is_terminal(&self) -> (r: bool)
        ensures
            r == (self@.status != RunStatus::Running),
    {
        match self.status {
            RunStatus::Running => false,
            _ => true,
        }
    }

    /// The analysis that the run goes by.
    pub fn analysis(&self) -> (a: &FlowAnalysis)
        ensures
            a.ids() == self@.ids,
            a.graph() == self@.graph,
            a.output_reads() == self@.output_reads,
    {
        &self.analysis
    }

    /// The outcomes recorded so far.
    pub fn outcomes(&self) -> (o: &StepOutcomes)
        ensures
            o@ == self@.outcomes,
    {
        &self.outcomes
    }

    /// The status of the step at position `step`.
    pub fn step_status(&self, step: usize) -> (r: Option<StepStatus>)
        ensures
            r == if step < self@.statuses.len() {
                Some(self@.statuses[step as int])
            } else {
                None
            },
    {
        if step < self.statuses.len() {
            Some(self.statuses[step])
        } else {
            None
        }
    }

    /// Whether every step that the step at `step` reads from has ended.
    fn deps_ended(&self, step: usize) -> (r: bool)
        requires
            self@.wf(),
            step < self@.graph.len(),
        ensures
            r == self@.deps_terminal(step as int),
    {
        let deps = self.analysis.reads_at(step);
        let ghost reads = self@.graph[step as int];
        let mut k: usize = 0;
        while k < deps.len()
            invariant
                k <= deps.len(),
                self@.wf(),
                step < self@.graph.len(),
                reads == self@.graph[step as int],
                positions_model(deps@) == reads,
                forall|j: int| 0 <= j < k ==> self@.statuses[#[trigger] reads[j]].terminal(),
            decreases deps.len() - k,
        {
            assert(reads[k as int] == deps[k as int]);
            if !self.statuses[deps[k]].is_terminal() {
                return false;
            }
            k += 1;
        }
        true
    }

    /// Whether every step that the output reads from has ended.
    pub fn output_resolvable(&self) -> (r: bool)
        requires
            self@.wf(),
        ensures
            r == self@.output_resolvable(),
    {
        let deps = self.analysis.output_deps();
        let ghost reads = self@.output_reads;
        let mut k: usize = 0;
        while k < deps.len()
            invariant
                k <= deps.len(),
                self@.wf(),
                reads == self@.output_reads,
                positions_model(deps@) == reads,
                forall|j: int| 0 <= j < k ==> self@.statuses[#[trigger] reads[j]].terminal(),
            decreases deps.len() - k,
        {
            assert(reads[k as int] == deps[k as int]);
            if !self.statuses[deps[k]].is_terminal() {
                return false;
            }
            k += 1;
        }
        true
    }

    /// Derives anew which of the waiting steps can be handed out, and
    /// returns their positions in rising order. Nothing can be handed out
    /// once the run is over.
    pub fn compute_runnable(&mut self) -> (r: Vec<usize>)
        requires
            old(self)@.wf(),
        ensures
            final(self)@.wf(),
            final(self)@ == old(self)@.rederived(),
            forall|k: int| 0 <= k < r.len() ==> old(self)@.runnable(#[trigger] r[k] as int),
            forall|i: int| old(self)@.runnable(i) ==> exists|k: int| 0 <= k < r.len() && r[k] == i,
            forall|a: int, b: int| 0 <= a < b < r.len() ==> r[a] < r[b],
    {
        let mut out: Vec<usize> = Vec::new();
        if !matches!(self.status, RunStatus::Running) {
            return out;
        }
        let n = self.statuses.len();
        let ghost before = self@;
        let mut i: usize = 0;
        while i < n
            invariant
                i <= n,
                n == before.statuses.len(),
                before.wf(),
                before.status == RunStatus::Running,
                self@.ids == before.ids,
                self@.graph == before.graph,
                self@.output_reads == before.output_reads,
                self@.outcomes == before.outcomes,
                self@.status == before.status,
                self@.statuses.len() == n,
                forall|j: int| 0 <= j < i ==> self@.statuses[j] == before.rederived().statuses[j],
                forall|j: int| i <= j < n ==> self@.statuses[j] == before.statuses[j],
                forall|j: int|
                    0 <= j < n ==> if before.statuses[j].waiting() {
                        self@.statuses[j].waiting()
                    } else {
                        self@.statuses[j] == before.statuses[j]
                    },
                forall|k: int| 0 <= k < out.len() ==> before.runnable(#[trigger] out[k] as int) && out[k] < i,
                forall|j: int|
                    0 <= j < i && before.runnable(j) ==> exists|k: int|
                        0 <= k < out.len() && out[k] == j,
                forall|a: int, b: int| 0 <= a < b < out.len() ==> out[a] < out[b],
            decreases n - i,
        {
            proof {
                assert(self@.wf()) by {
                    assert forall|j: int| 0 <= j < n implies self@.recorded(j) by {
                        assert(before.recorded(j));
                    }
                    assert forall|j: int| 0 <= j < n implies self@.statuses[j]
                        != StepStatus::Cancelled by {
                        assert(before.statuses[j] != StepStatus::Cancelled);
                    }
                }
                assert(self@.deps_terminal(i as int) == before.deps_terminal(i as int)) by {
                    assert forall|j: int| 0 <= j < n implies self@.statuses[j].terminal()
                        == before.statuses[j].terminal() by {}
                }
            }
            if self.statuses[i].is_waiting() {
                if self.deps_ended(i) {
                    let ghost shown = out@;
                    self.statuses.set(i, StepStatus::Runnable);
                    out.push(i);
                    proof {
                        assert forall|j: int| 0 <= j < i + 1 && before.runnable(j) implies exists|
                            k: int,
                        | 0 <= k < out.len() && out[k] == j by {
                            if j < i {
                                let k = choose|k: int| 0 <= k < shown.len() && shown[k] == j;
                                assert(out[k] == j);
                            } else {
                                assert(out[out.len() - 1] == j);
                            }
                        }
                    }
                } else {
                    self.statuses.set(i, StepStatus::Blocked);
                }
            }
            i += 1;
        }
        proof {
            assert(self@.statuses =~= before.rederived().statuses);
            assert(self@.wf()) by {
                assert forall|j: int| 0 <= j < n implies self@.recorded(j) by {
                    assert(before.recorded(j));
                }
                assert forall|j: int| 0 <= j < n implies self@.statuses[j]
                    != StepStatus::Cancelled by {
                    assert(before.statuses[j] != StepStatus::Cancelled);
                }
            }
        }
        out
    }

    /// Marks the step called `step` as handed to its component. A step is
    /// handed out at most once: only a step that can be handed out now is
    /// accepted.
    pub fn start(&mut self, step: &str) -> (r: Result<(), ExecutionError>)
        requires
            old(self)@.wf(),
        ensures
            final(self)@.wf(),
            error_of(r) == start_error(old(self)@, step@),
            final(self)@ == start_spec(old(self)@, step@),
    {
        proof {
            lemma_find_id(self@.ids, step@, 0);
        }
        match self.analysis.step_position(step) {
            None => Err(ExecutionError::StepNotFound { step: step.to_owned() }),
            Some(i) => {
                let ok = matches!(self.status, RunStatus::Running) && self.statuses[i].is_waiting()
                    && self.deps_ended(i);
                if ok {
                    let ghost before = self@;
                    self.statuses.set(i, StepStatus::Running);
                    proof {
                        assert(self@.statuses =~= before.statuses.update(
                            i as int,
                            StepStatus::Running,
                        ));
                        assert forall|j: int| 0 <= j < before.graph.len() implies self@.recorded(
                            j,
                        ) by {
                            assert(before.recorded(j));
                        }
                    }
                    Ok(())
                } else {
                    Err(ExecutionError::StepNotRunnable { step: step.to_owned() })
                }
            },
        }
    }

    /// Records `outcome` as how the step called `step` ended.
    ///
    /// An outcome is final: recording the same outcome again changes
    /// nothing, and another outcome for a step that has ended is refused.
    /// A step takes an outcome while it is with its component, or, without
    /// having been handed out, when it could be.
    pub fn record_outcome(&mut self, step: &str, outcome: FlowResult) -> (r: Result<
        (),
        ExecutionError,
    >)
        requires
            old(self)@.wf(),
        ensures
            final(self)@.wf(),
            error_of(r) == record_error(old(self)@, step@, outcome@),
            final(self)@ == record_spec(old(self)@, step@, outcome@),
    {
        proof {
            lemma_find_id(self@.ids, step@, 0);
        }
        match self.analysis.step_position(step) {
            None => Err(ExecutionError::StepNotFound { step: step.to_owned() }),
            Some(i) => {
                assert(self@.recorded(i as int));
                if self.statuses[i].is_terminal() {
                    let same = match self.outcomes.get(step) {
                        Some(known) => *known == outcome,
                        None => false,
                    };
                    if same {
                        Ok(())
                    } else {
                        Err(
                            ExecutionError::Internal(
                                "conflicting outcome for a step that has ended".to_owned(),
                            ),
                        )
                    }
                } else {
                    let may = matches!(self.statuses[i], StepStatus::Running) || self.deps_ended(i);
                    if !may {
                        return Err(ExecutionError::StepNotRunnable { step: step.to_owned() });
                    }
                    let ghost before = self@;
                    let status = match outcome {
                        FlowResult::Success { .. } => StepStatus::Completed,
                        FlowResult::Skipped => StepStatus::Skipped,
                        FlowResult::Failed { .. } => StepStatus::Failed,
                    };
                    self.statuses.set(i, status);
                    self.outcomes.record(step, outcome);
                    proof {
                        assert(self@.statuses =~= before.statuses.update(i as int, status));
                        assert forall|j: int| 0 <= j < before.graph.len() implies self@.recorded(
                            j,
                        ) by {
                            assert(before.recorded(j));
                            if j != i {
                                assert(before.ids[j] != before.ids[i as int]);
                            }
                        }
                    }
                    Ok(())
                }
            },
        }
    }

    /// Cancels the run: no step is handed out any more. Steps that are with
    /// their component go on, and their outcomes are still recorded.
    pub fn cancel(&mut self)
        requires
            old(self)@.wf(),
        ensures
            final(self)@.wf(),
            final(self)@ == old(self)@.cancelled(),
    {
        if !matches!(self.status, RunStatus::Running) {
            return ;
        }
        let n = self.statuses.len();
        let ghost before = self@;
        let mut i: usize = 0;
        while i < n
            invariant
                i <= n,
                n == before.statuses.len(),
                before.wf(),
                before.status == RunStatus::Running,
                self@.ids == before.ids,
                self@.graph == before.graph,
                self@.output_reads == before.output_reads,
                self@.outcomes == before.outcomes,
                self@.status == before.status,
                self@.statuses.len() == n,
                forall|j: int| 0 <= j < i ==> self@.statuses[j] == before.cancelled().statuses[j],
                forall|j: int| i <= j < n ==> self@.statuses[j] == before.statuses[j],
            decreases n - i,
        {
            if self.statuses[i].is_waiting() {
                self.statuses.set(i, StepStatus::Cancelled);
            }
            i += 1;
        }
        self.status = RunStatus::Cancelled;
        proof {
            assert(self@.statuses =~= before.cancelled().statuses);
            assert forall|j: int| 0 <= j < n implies self@.recorded(j) by {
                assert(before.recorded(j));
            }
        }
    }

    /// Ends the run with `result`, unless it is over already: a run that
    /// was cancelled stays cancelled.
    pub fn finish(&mut self, result: &FlowResult)
        requires
            old(self)@.wf(),
        ensures
            final(self)@.wf(),
            final(self)@ == old(self)@.finished(result@),
    {
        if matches!(self.status, RunStatus::Running) {
            let ghost before = self@;
            self.status = match result {
                FlowResult::Failed { .. } => RunStatus::Failed,
                _ => RunStatus::Completed,
            };
            proof {
                assert forall|j: int| 0 <= j < before.graph.len() implies self@.recorded(j) by {
                    assert(before.recorded(j));
                }
            }
        }
    }

    /// Whether some step is with its component.
    pub fn any_running(&self) -> (r: bool)
        requires
            self@.wf(),
        ensures
            r == self@.any_running(),
    {
        let mut i: usize = 0;
        while i < self.statuses.len()
            invariant
                i <= self.statuses.len(),
                forall|j: int| 0 <= j < i ==> self@.statuses[j] != StepStatus::Running,
            decreases self.statuses.len() - i,
        {
            if matches!(self.statuses[i], StepStatus::Running) {
                return true;
            }
            i += 1;
        }
        false
    }

    /// Whether some step can be handed out now.
    pub fn any_runnable(&self) -> (r: bool)
        requires
            self@.wf(),
        ensures
            r == self@.any_runnable(),
    {
        if !matches!(self.status, RunStatus::Running) {
            return false;
        }
        let mut i: usize = 0;
        while i < self.statuses.len()
            invariant
                i <= self.statuses.len(),
                self@.wf(),
                self@.status == RunStatus::Running,
                forall|j: int| 0 <= j < i ==> !self@.runnable(j),
            decreases self.statuses.len() - i,
        {
            if self.statuses[i].is_waiting() && self.deps_ended(i) {
                assert(self@.runnable(i as int));
                return true;
            }
            i += 1;
        }
        false
    }

    /// Whether the run is stuck: not over, its output out of reach, and
    /// nothing under way or ready to start.
    pub fn is_deadlocked(&self) -> (r: bool)
        requires
            self@.wf(),
        ensures
            r == self@.deadlocked(),
    {
        matches!(self.status, RunStatus::Running) && !self.output_resolvable()
            && !self.any_running() && !self.any_runnable()
    }
}

/// What was kept of one step of a run.
#[derive(Debug)]
pub struct StepRecord {
    /// The status that was written last.
    pub status: StepStatus,
    /// The outcome, if the step ended and the outcome was written.
    pub result: Option<FlowResult>,
}

/// The mathematical content of a [`StepRecord`].
pub ghost struct RecordModel {
    pub status: StepStatus,
    pub result: Option<Outcome>,
}

impl View for StepRecord {
    type V = RecordModel;

    open spec fn view(&self) -> RecordModel {
        RecordModel {
            status: self.status,
            result: match self.result {
                Some(r) => Some(r@),
                None => None,
            },
        }
    }
}

/// The contents of a list of records, record by record.
pub open spec fn records_model(records: Seq<StepRecord>) -> Seq<RecordModel> {
    Seq::new(records.len(), |i: int| records[i]@)
}

/// What was kept of the step at position `i`: a step without a record was
/// never looked at.
pub open spec fn record_at(records: Seq<RecordModel>, i: int) -> RecordModel {
    if 0 <= i < records.len() {
        records[i]
    } else {
        RecordModel { status: StepStatus::Blocked, result: None }
    }
}

/// Every step that step `i` reads from has an outcome on record.
pub open spec fn reads_on_record(graph: Graph, records: Seq<RecordModel>, i: int) -> bool {
    forall|k: int|
        0 <= k < graph[i].len() ==> record_at(records, #[trigger] graph[i][k]).result.is_some()
}

/// The status that the records determine for step `i`.
///
/// A step with an outcome on record ended with it. A step without one has
/// no task behind it any more, whatever status was written last: in a
/// cancelled run it is cancelled, else it waits, and can be handed out if
/// every step that it reads from has an outcome.
pub open spec fn restored_status(
    graph: Graph,
    records: Seq<RecordModel>,
    status: RunStatus,
    i: int,
) -> StepStatus {
    match record_at(records, i).result {
        Some(outcome) => status_of(outcome),
        None => if status == RunStatus::Cancelled {
            StepStatus::Cancelled
        } else if reads_on_record(graph, records, i) {
            StepStatus::Runnable
        } else {
            StepStatus::Blocked
        },
    }
}

/// The outcomes on record for the first `n` steps, by id.
pub open spec fn restored_outcomes(ids: Seq<Seq<char>>, records: Seq<RecordModel>, n: nat) -> Map<
    Seq<char>,
    Outcome,
>
    decreases n,
{
    if n == 0 {
        Map::empty()
    } else {
        let rest = restored_outcomes(ids, records, (n - 1) as nat);
        match record_at(records, n - 1).result {
            Some(outcome) => rest.insert(ids[n - 1], outcome),
            None => rest,
        }
    }
}

/// Among the first `n` steps, how many have a status on record that is not
/// the one that the records determine.
pub open spec fn count_corrections(
    graph: Graph,
    records: Seq<RecordModel>,
    status: RunStatus,
    n: nat,
) -> nat
    decreases n,
{
    if n == 0 {
        0
    } else {
        count_corrections(graph, records, status, (n - 1) as nat) + if restored_status(
            graph,
            records,
            status,
            n - 1,
        ) != record_at(records, n - 1).status {
            1nat
        } else {
            0nat
        }
    }
}

/// The state that the records of a run determine.
pub open spec fn restored(
    ids: Seq<Seq<char>>,
    graph: Graph,
    output_reads: Seq<int>,
    records: Seq<RecordModel>,
    status: RunStatus,
) -> RunModel {
    RunModel {
        ids,
        graph,
        output_reads,
        statuses: Seq::new(graph.len(), |i: int| restored_status(graph, records, status, i)),
        outcomes: restored_outcomes(ids, records, graph.len()),
        status,
    }
}

/// The restored outcomes hold, for each of the first `n` steps, the outcome
/// on record for it, and nothing for the other steps.
proof fn lemma_restored_outcomes(ids: Seq<Seq<char>>, records: Seq<RecordModel>, n: nat)
    requires
        n <= ids.len(),
        ids.no_duplicates(),
    ensures
        forall|i: int|
            0 <= i < n ==> (#[trigger] restored_outcomes(ids, records, n).contains_key(ids[i])
                <==> record_at(records, i).result.is_some()),
        forall|i: int|
            0 <= i < n && record_at(records, i).result.is_some() ==> #[trigger] restored_outcomes(
                ids,
                records,
                n,
            )[ids[i]] == record_at(records, i).result->0,
        forall|i: int|
            n <= i < ids.len() ==> !#[trigger] restored_outcomes(ids, records, n).contains_key(
                ids[i],
            ),
    decreases n,
{
    if n > 0 {
        lemma_restored_outcomes(ids, records, (n - 1) as nat);
        let rest = restored_outcomes(ids, records, (n - 1) as nat);
        assert forall|i: int| 0 <= i < n implies (#[trigger] restored_outcomes(
            ids,
            records,
            n,
        ).contains_key(ids[i]) <==> record_at(records, i).result.is_some()) by {
            if i < n - 1 {
                assert(rest.contains_key(ids[i]) <==> record_at(records, i).result.is_some());
                assert(ids[i] != ids[n - 1]);
            } else {
                assert(!rest.contains_key(ids[n - 1]));
            }
        }
        assert forall|i: int|
            0 <= i < n && record_at(records, i).result.is_some() implies #[trigger] restored_outcomes(
            ids,
            records,
            n,
        )[ids[i]] == record_at(records, i).result->0 by {
            if i < n - 1 {
                assert(rest.contains_key(ids[i]));
                assert(rest[ids[i]] == record_at(records, i).result->0);
                assert(ids[i] != ids[n - 1]);
            }
        }
        assert forall|i: int| n <= i < ids.len() implies !#[trigger] restored_outcomes(
            ids,
            records,
            n,
        ).contains_key(ids[i]) by {
            assert(!rest.contains_key(ids[i]));
            assert(ids[i] != ids[n - 1]);
        }
    }
}

/// The state that records determine is one whose parts fit together.
pub proof fn lemma_restored_is_wf(
    ids: Seq<Seq<char>>,
    graph: Graph,
    output_reads: Seq<int>,
    records: Seq<RecordModel>,
    status: RunStatus,
)
    requires
        ids.len() == graph.len(),
        ids.no_duplicates(),
        in_range(graph),
        forall|k: int|
            0 <= k < output_reads.len() ==> 0 <= #[trigger] output_reads[k] < graph.len(),
    ensures
        restored(ids, graph, output_reads, records, status).wf(),
{
    let m = restored(ids, graph, output_reads, records, status);
    lemma_restored_outcomes(ids, records, graph.len());
    assert forall|i: int| 0 <= i < graph.len() implies m.recorded(i) by {
        assert(m.outcomes.contains_key(ids[i]) <==> record_at(records, i).result.is_some());
        if record_at(records, i).result.is_some() {
            assert(m.outcomes[ids[i]] == record_at(records, i).result->0);
        }
    }
}

impl RunTracker {
    /// Rebuilds the state of a run from what was kept of it, and counts
    /// the steps whose kept status had to be corrected.
    pub fn restore(analysis: FlowAnalysis, records: &Vec<StepRecord>, status: RunStatus) -> (r: (
        RunTracker,
        usize,
    ))
        requires
            analysis.wf(),
        ensures
            r.0@.wf(),
            r.0@ == restored(
                analysis.ids(),
                analysis.graph(),
                analysis.output_reads(),
                records_model(records@),
                status,
            ),
            r.1 == count_corrections(
                analysis.graph(),
                records_model(records@),
                status,
                analysis.graph().len(),
            ),
    {
        let n = analysis.step_count();
        let ghost ids = analysis.ids();
        let ghost graph = analysis.graph();
        let ghost kept = records_model(records@);
        let cancelled = matches!(status, RunStatus::Cancelled);
        let mut statuses: Vec<StepStatus> = Vec::new();
        let mut outcomes = StepOutcomes::new();
        let mut corrections: usize = 0;
        let mut i: usize = 0;
        while i < n
            invariant
                i <= n,
                n == graph.len(),
                analysis.wf(),
                ids == analysis.ids(),
                graph == analysis.graph(),
                kept == records_model(records@),
                cancelled == (status == RunStatus::Cancelled),
                statuses.len() == i,
                forall|j: int|
                    0 <= j < i ==> statuses[j] == restored_status(graph, kept, status, j),
                outcomes@ == restored_outcomes(ids, kept, i as nat),
                corrections == count_corrections(graph, kept, status, i as nat),
                corrections <= i,
            decreases n - i,
        {
            let ghost rec = record_at(kept, i as int);
            let mut derived = StepStatus::Blocked;
            let mut written = StepStatus::Blocked;
            let mut result: Option<FlowResult> = None;
            if i < records.len() {
                assert(kept[i as int] == records[i as int]@);
                written = records[i].status;
                result = match &records[i].result {
                    Some(r) => Some(r.clone()),
                    None => None,
                };
            }
            match result {
                Some(r) => {
                    derived = match r {
                        FlowResult::Success { .. } => StepStatus::Completed,
                        FlowResult::Skipped => StepStatus::Skipped,
                        FlowResult::Failed { .. } => StepStatus::Failed,
                    };
                    outcomes.record(analysis.id_at(i), r);
                },
                None => {
                    if cancelled {
                        derived = StepStatus::Cancelled;
                    } else if reads_kept(&analysis, records, i) {
                        derived = StepStatus::Runnable;
                    }
                },
            }
            assert(derived == restored_status(graph, kept, status, i as int));
            assert(written == rec.status);
            if derived != written {
                corrections += 1;
            }
            statuses.push(derived);
            i += 1;
        }
        let t = RunTracker { analysis, statuses, outcomes, status };
        proof {
            assert(t@.statuses =~= restored(
                ids,
                graph,
                analysis.output_reads(),
                kept,
                status,
            ).statuses);
            lemma_restored_is_wf(ids, graph, analysis.output_reads(), kept, status);
        }
        (t, corrections)
    }
}

/// Whether every step that the step at `step` reads from has an outcome on
/// record.
fn reads_kept(analysis: &FlowAnalysis, records: &Vec<StepRecord>, step: usize) -> (r: bool)
    requires
        analysis.wf(),
        step < analysis.graph().len(),
    ensures
        r == reads_on_record(analysis.graph(), records_model(records@), step as int),
{
    let deps = analysis.reads_at(step);
    let ghost reads = analysis.graph()[step as int];
    let ghost kept = records_model(records@);
    let mut k: usize = 0;
    while k < deps.len()
        invariant
            k <= deps.len(),
            kept == records_model(records@),
            reads == analysis.graph()[step as int],
            positions_model(deps@) == reads,
            forall|j: int| 0 <= j < k ==> record_at(kept, #[trigger] reads[j]).result.is_some(),
        decreases deps.len() - k,
    {
        assert(reads[k as int] == deps[k as int]);
        let d = deps[k];
        let on_record = d < records.len() && records[d].result.is_some();
        proof {
            if d < records.len() {
                assert(kept[d as int] == records[d as int]@);
            }
        }
        if !on_record {
            assert(record_at(kept, reads[k as int]).result.is_none());
            return false;
        }
        k += 1;
    }
    true
}

} // verus!
