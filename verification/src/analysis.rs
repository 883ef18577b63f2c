//! What each step and the output of a flow read from, established when the
//! flow is loaded.

use crate::flow::{Flow, FlowModel};
use crate::graph::{
    acyclic, find_order, graph_model, has_cycle, in_range, is_ranking, positions_model,
    ranks_model, Graph,
};
use crate::template::{collect_refs, template_refs, texts, ValueTemplate};
use vstd::prelude::*;

verus! {

/// The first position at or after `from` where `name` stands in `ids`.
pub open spec fn find_id(ids: Seq<Seq<char>>, name: Seq<char>, from: int) -> Option<int>
    decreases ids.len() - from,
{
    if from < 0 || from >= ids.len() {
        None
    } else if ids[from] == name {
        Some(from)
    } else {
        find_id(ids, name, from + 1)
    }
}

/// What `find_id` returns is the first position of the name, and `None`
/// means that the name does not occur.
pub proof fn lemma_find_id(ids: Seq<Seq<char>>, name: Seq<char>, from: int)
    requires
        0 <= from,
    ensures
        match find_id(ids, name, from) {
            Some(i) => from <= i < ids.len() && ids[i] == name && forall|j: int|
                from <= j < i ==> ids[j] != name,
            None => forall|j: int| from <= j < ids.len() ==> ids[j] != name,
        },
    decreases ids.len() - from,
{
    if from < ids.len() && ids[from] != name {
        lemma_find_id(ids, name, from + 1);
    }
}

/// The position of the step called `name`, or -1 where there is none.
pub open spec fn position_of(ids: Seq<Seq<char>>, name: Seq<char>) -> int {
    match find_id(ids, name, 0) {
        Some(i) => i,
        None => -1,
    }
}

/// Every one of `refs` is the id of a step.
pub open spec fn all_known(ids: Seq<Seq<char>>, refs: Seq<Seq<char>>) -> bool {
    forall|k: int| 0 <= k < refs.len() ==> ids.contains(#[trigger] refs[k])
}

/// The positions of the steps that `refs` name.
pub open spec fn positions_of(ids: Seq<Seq<char>>, refs: Seq<Seq<char>>) -> Seq<int> {
    Seq::new(refs.len(), |k: int| position_of(ids, refs[k]))
}

/// No two steps of the flow have the same id.
pub open spec fn well_named(flow: FlowModel) -> bool {
    flow.ids().no_duplicates()
}

/// Every step that an input or the output reads from is a step of the
/// flow.
pub open spec fn well_referenced(flow: FlowModel) -> bool {
    &&& forall|i: int|
        0 <= i < flow.steps.len() ==> all_known(
            flow.ids(),
            template_refs(#[trigger] flow.steps[i].input),
        )
    &&& all_known(flow.ids(), template_refs(flow.output))
}

/// An input or the output of the flow reads from the step called `step`.
pub open spec fn is_read(flow: FlowModel, step: Seq<char>) -> bool {
    ||| exists|i: int|
        0 <= i < flow.steps.len() && template_refs(#[trigger] flow.steps[i].input).contains(step)
    ||| template_refs(flow.output).contains(step)
}

/// Which steps each step of the flow reads from: one entry for each
/// reference in the step's input, in the order of the references.
pub open spec fn flow_graph(flow: FlowModel) -> Graph {
    Seq::new(
        flow.steps.len(),
        |i: int| positions_of(flow.ids(), template_refs(flow.steps[i].input)),
    )
}

/// Which steps the output of the flow reads from.
pub open spec fn output_reads(flow: FlowModel) -> Seq<int> {
    positions_of(flow.ids(), template_refs(flow.output))
}

/// Why a flow cannot be run.
#[derive(Debug, PartialEq, Eq)]
pub enum AnalysisError {
    /// Two steps have this id.
    DuplicateStep { step: String },
    /// An input or the output reads from this step, which the flow lacks.
    UnknownStep { step: String },
    /// Some step reads from itself, directly or through other steps.
    Cycle,
}

/// What a loaded flow's steps and output read from.
#[derive(Debug)]
pub struct FlowAnalysis {
    ids: Vec<String>,
    step_deps: Vec<Vec<usize>>,
    output_deps: Vec<usize>,
}

impl FlowAnalysis {
    /// The ids of the steps.
    pub closed spec fn ids(&self) -> Seq<Seq<char>> {
        texts(self.ids@)
    }

    /// Which steps each step reads from.
    pub closed spec fn graph(&self) -> Graph {
        graph_model(self.step_deps@)
    }

    /// Which steps the output reads from.
    pub closed spec fn output_reads(&self) -> Seq<int> {
        positions_model(self.output_deps@)
    }

    /// The analysis is that of some list of steps: the steps have different
    /// ids, and all reads are from steps of the list.
    pub open spec fn wf(&self) -> bool {
        &&& self.ids().len() == self.graph().len()
        &&& self.ids().no_duplicates()
        &&& in_range(self.graph())
        &&& forall|k: int|
            0 <= k < self.output_reads().len() ==> 0 <= #[trigger] self.output_reads()[k]
                < self.graph().len()
    }

    /// Puts an analysis together from its parts, as they were kept or
    /// handed over: the ids of the steps, what each step reads from, and
    /// what the output reads from. Parts that do not fit together are
    /// refused. Whether the steps can be ordered is not looked at.
    pub fn from_parts(ids: Vec<String>, step_deps: Vec<Vec<usize>>, output_deps: Vec<usize>) -> (r:
        Option<FlowAnalysis>)
        ensures
            match r {
                Some(a) => {
                    &&& a.wf()
                    &&& a.ids() == texts(ids@)
                    &&& a.graph() == graph_model(step_deps@)
                    &&& a.output_reads() == positions_model(output_deps@)
                },
                None => {
                    ||| ids.len() != step_deps.len()
                    ||| !texts(ids@).no_duplicates()
                    ||| !in_range(graph_model(step_deps@))
                    ||| exists|k: int| 0 <= k < output_deps.len() && output_deps[k] >= ids.len()
                },
            },
    {
        let n = ids.len();
        if step_deps.len() != n {
            return None;
        }
        match first_duplicate(&ids) {
            Some(j) => {
                proof {
                    let i = choose|i: int| 0 <= i < j && ids[i]@ == ids[j as int]@;
                    assert(texts(ids@)[i] == texts(ids@)[j as int]);
                }
                return None;
            },
            None => {},
        }
        let ghost graph = graph_model(step_deps@);
        let mut i: usize = 0;
        while i < n
            invariant
                i <= n,
                n == step_deps.len(),
                graph == graph_model(step_deps@),
                forall|a: int, k: int|
                    0 <= a < i && 0 <= k < step_deps[a].len() ==> #[trigger] step_deps[a][k] < n,
            decreases n - i,
        {
            if !below(&step_deps[i], n) {
                proof {
                    let k = choose|k: int|
                        0 <= k < step_deps[i as int].len() && step_deps[i as int][k] >= n;
                    assert(graph[i as int][k] == step_deps[i as int][k]);
                }
                return None;
            }
            i += 1;
        }
        if !below(&output_deps, n) {
            return None;
        }
        assert(in_range(graph)) by {
            assert forall|a: int, k: int|
                0 <= a < graph.len() && 0 <= k < graph[a].len() implies 0 <= #[trigger] graph[a][k]
                < graph.len() by {
                assert(step_deps[a][k] < n);
            }
        }
        let a = FlowAnalysis { ids, step_deps, output_deps };
        assert(a.wf()) by {
            assert forall|k: int| 0 <= k < a.output_reads().len() implies 0
                <= #[trigger] a.output_reads()[k] < a.graph().len() by {
                assert(output_deps[k] < n);
            }
        }
        Some(a)
    }

    /// Looks for an order of the steps in which each comes after all the
    /// steps that it reads from, and returns each step's place in it. There
    /// is none where some step reads from itself, directly or through other
    /// steps.
    pub fn order(&self) -> (r: Option<Vec<usize>>)
        requires
            self.wf(),
        ensures
            match r {
                Some(rank) => is_ranking(self.graph(), ranks_model(rank@)),
                None => !acyclic(self.graph()) && has_cycle(self.graph()),
            },
    {
        find_order(&self.step_deps)
    }

    /// How many steps the flow has.
    pub fn step_count(&self) -> (n: usize)
        ensures
            n == self.graph().len(),
    {
        self.step_deps.len()
    }

    /// The id of the step at position `step`, if there is such a step.
    pub fn step_id(&self, step: usize) -> (r: Option<&str>)
        ensures
            match r {
                Some(id) => step < self.ids().len() && id@ == self.ids()[step as int],
                None => step >= self.ids().len(),
            },
    {
        if step < self.ids.len() {
            Some(self.ids[step].as_str())
        } else {
            None
        }
    }

    /// The id of the step at position `step`.
    pub(crate) fn id_at(&self, step: usize) -> (id: &str)
        requires
            step < self.ids().len(),
        ensures
            id@ == self.ids()[step as int],
    {
        self.ids[step].as_str()
    }

    /// The position of the step called `id`.
    pub fn step_position(&self, id: &str) -> (r: Option<usize>)
        ensures
            match r {
                Some(i) => find_id(self.ids(), id@, 0) == Some(i as int),
                None => find_id(self.ids(), id@, 0).is_none(),
            },
    {
        let key = id.to_owned();
        find_step(&self.ids, &key)
    }

    /// The steps that the step at position `step` reads from, if there is
    /// such a step.
    pub fn reads(&self, step: usize) -> (r: Option<&Vec<usize>>)
        ensures
            match r {
                Some(deps) => step < self.graph().len() && positions_model(deps@)
                    == self.graph()[step as int],
                None => step >= self.graph().len(),
            },
    {
        if step < self.step_deps.len() {
            Some(&self.step_deps[step])
        } else {
            None
        }
    }

    /// The steps that the step at position `step` reads from.
    pub(crate) fn reads_at(&self, step: usize) -> (r: &Vec<usize>)
        requires
            step < self.graph().len(),
        ensures
            positions_model(r@) == self.graph()[step as int],
    {
        &self.step_deps[step]
    }

    /// The steps that the output reads from.
    pub fn output_deps(&self) -> (r: &Vec<usize>)
        ensures
            positions_model(r@) == self.output_reads(),
    {
        &self.output_deps
    }
}

/// Whether every one of `deps` is below `limit`.
fn below(deps: &Vec<usize>, limit: usize) -> (r: bool)
    ensures
        r == forall|k: int| 0 <= k < deps.len() ==> deps[k] < limit,
{
    let mut k: usize = 0;
    while k < deps.len()
        invariant
            k <= deps.len(),
            forall|j: int| 0 <= j < k ==> deps[j] < limit,
        decreases deps.len() - k,
    {
        if deps[k] >= limit {
            return false;
        }
        k += 1;
    }
    true
}

/// The position of `name` among `ids`.
pub(crate) fn find_step(ids: &Vec<String>, name: &String) -> (r: Option<usize>)
    ensures
        match r {
            Some(i) => find_id(texts(ids@), name@, 0) == Some(i as int),
            None => find_id(texts(ids@), name@, 0).is_none(),
        },
{
    let mut i: usize = 0;
    while i < ids.len()
        invariant
            i <= ids.len(),
            find_id(texts(ids@), name@, 0) == find_id(texts(ids@), name@, i as int),
        decreases ids.len() - i,
    {
        if ids[i] == *name {
            return Some(i);
        }
        i += 1;
    }
    None
}

/// The positions of the steps that `refs` name; the first of `refs` that
/// names no step is the error.
fn locate(ids: &Vec<String>, refs: &Vec<String>) -> (r: Result<Vec<usize>, String>)
    ensures
        match r {
            Ok(found) => all_known(texts(ids@), texts(refs@)) && positions_model(found@)
                == positions_of(texts(ids@), texts(refs@)) && forall|k: int|
                0 <= k < found.len() ==> found[k] < ids.len(),
            Err(name) => !texts(ids@).contains(name@) && texts(refs@).contains(name@),
        },
{
    let ghost names = texts(ids@);
    let mut found: Vec<usize> = Vec::new();
    let mut k: usize = 0;
    while k < refs.len()
        invariant
            k <= refs.len(),
            names == texts(ids@),
            found.len() == k,
            forall|j: int| 0 <= j < k ==> names.contains(#[trigger] texts(refs@)[j]),
            forall|j: int|
                0 <= j < k ==> found[j] as int == position_of(names, texts(refs@)[j]) && found[j]
                    < ids.len(),
        decreases refs.len() - k,
    {
        proof {
            lemma_find_id(names, refs[k as int]@, 0);
        }
        match find_step(ids, &refs[k]) {
            Some(i) => {
                assert(names[i as int] == texts(refs@)[k as int]);
                found.push(i);
            },
            None => {
                let name = refs[k].clone();
                assert(texts(refs@)[k as int] == name@);
                return Err(name);
            },
        }
        k += 1;
    }
    assert(positions_model(found@) =~= positions_of(names, texts(refs@)));
    Ok(found)
}

/// The steps that `t` reads from, as positions among `ids`.
fn template_deps(ids: &Vec<String>, t: &ValueTemplate) -> (r: Result<Vec<usize>, String>)
    ensures
        match r {
            Ok(found) => all_known(texts(ids@), template_refs(t@)) && positions_model(found@)
                == positions_of(texts(ids@), template_refs(t@)) && forall|k: int|
                0 <= k < found.len() ==> found[k] < ids.len(),
            Err(name) => !texts(ids@).contains(name@) && template_refs(t@).contains(name@),
        },
{
    let mut refs: Vec<String> = Vec::new();
    assert(texts(refs@) =~= Seq::<Seq<char>>::empty());
    collect_refs(t, &mut refs);
    assert(texts(refs@) =~= template_refs(t@));
    locate(ids, &refs)
}

/// The first id that stands at two positions of `ids`.
fn first_duplicate(ids: &Vec<String>) -> (r: Option<usize>)
    ensures
        match r {
            Some(j) => j < ids.len() && exists|i: int| 0 <= i < j && ids[i]@ == ids[j as int]@,
            None => texts(ids@).no_duplicates(),
        },
{
    let mut j: usize = 0;
    while j < ids.len()
        invariant
            j <= ids.len(),
            forall|a: int, b: int| 0 <= a < b < j ==> ids[a]@ != ids[b]@,
        decreases ids.len() - j,
    {
        let mut i: usize = 0;
        while i < j
            invariant
                i <= j < ids.len(),
                forall|a: int| 0 <= a < i ==> ids[a]@ != ids[j as int]@,
            decreases j - i,
        {
            if ids[i] == ids[j] {
                return Some(j);
            }
            i += 1;
        }
        j += 1;
    }
    assert forall|a: int, b: int|
        0 <= a < texts(ids@).len() && 0 <= b < texts(ids@).len() && a != b implies texts(ids@)[a]
        != texts(ids@)[b] by {
        if a < b {
            assert(ids[a]@ != ids[b]@);
        } else {
            assert(ids[b]@ != ids[a]@);
        }
    }
    None
}

/// Establishes what each step and the output of `flow` read from, and
/// that the flow can be run.
pub fn analyze(flow: &Flow) -> (r: Result<FlowAnalysis, AnalysisError>)
    ensures
        match r {
            Ok(a) => {
                &&& a.wf()
                &&& acyclic(a.graph())
                &&& a.ids() == flow@.ids()
                &&& a.graph() == flow_graph(flow@)
                &&& a.output_reads() == output_reads(flow@)
                &&& well_named(flow@)
                &&& well_referenced(flow@)
            },
            Err(AnalysisError::DuplicateStep { step }) => {
                &&& !well_named(flow@)
                &&& exists|i: int, j: int|
                    0 <= i < j < flow@.ids().len() && flow@.ids()[i] == step@ && flow@.ids()[j]
                        == step@
            },
            Err(AnalysisError::UnknownStep { step }) => {
                &&& well_named(flow@)
                &&& !well_referenced(flow@)
                &&& !flow@.ids().contains(step@)
                &&& is_read(flow@, step@)
            },
            Err(AnalysisError::Cycle) => {
                &&& well_named(flow@)
                &&& well_referenced(flow@)
                &&& !acyclic(flow_graph(flow@))
                &&& has_cycle(flow_graph(flow@))
            },
        },
{
    let n = flow.steps.len();
    let mut ids: Vec<String> = Vec::new();
    let mut i: usize = 0;
    while i < n
        invariant
            i <= n,
            n == flow.steps.len(),
            ids.len() == i,
            forall|k: int| 0 <= k < i ==> ids[k]@ == flow.steps[k].id@,
        decreases n - i,
    {
        ids.push(flow.steps[i].id.clone());
        i += 1;
    }
    assert(texts(ids@) =~= flow@.ids());
    match first_duplicate(&ids) {
        Some(j) => {
            proof {
                let i = choose|i: int| 0 <= i < j && ids[i]@ == ids[j as int]@;
                assert(flow@.ids()[i] == flow@.ids()[j as int]);
            }
            return Err(AnalysisError::DuplicateStep { step: ids[j].clone() });
        },
        None => {},
    }
    let mut step_deps: Vec<Vec<usize>> = Vec::new();
    let mut i: usize = 0;
    while i < n
        invariant
            i <= n,
            n == flow.steps.len(),
            ids.len() == n,
            texts(ids@) == flow@.ids(),
            well_named(flow@),
            step_deps.len() == i,
            forall|k: int|
                0 <= k < i ==> all_known(
                    flow@.ids(),
                    template_refs(#[trigger] flow@.steps[k].input),
                ),
            forall|k: int|
                0 <= k < i ==> positions_model(#[trigger] step_deps[k]@) == positions_of(
                    flow@.ids(),
                    template_refs(flow@.steps[k].input),
                ),
            forall|k: int, d: int|
                0 <= k < i && 0 <= d < step_deps[k].len() ==> #[trigger] step_deps[k][d] < n,
        decreases n - i,
    {
        assert(flow@.steps[i as int].input == flow.steps[i as int].input@);
        match template_deps(&ids, &flow.steps[i].input) {
            Ok(found) => {
                step_deps.push(found);
            },
            Err(step) => {
                proof {
                    let refs = template_refs(flow@.steps[i as int].input);
                    let k = choose|k: int| 0 <= k < refs.len() && refs[k] == step@;
                    assert(!flow@.ids().contains(refs[k]));
                    assert(!all_known(flow@.ids(), refs));
                    assert(template_refs(flow@.steps[i as int].input).contains(step@));
                }
                return Err(AnalysisError::UnknownStep { step });
            },
        }
        i += 1;
    }
    let output_deps = match template_deps(&ids, &flow.output) {
        Ok(found) => found,
        Err(step) => {
            proof {
                let refs = template_refs(flow@.output);
                let k = choose|k: int| 0 <= k < refs.len() && refs[k] == step@;
                assert(!flow@.ids().contains(refs[k]));
                assert(!all_known(flow@.ids(), refs));
            }
            return Err(AnalysisError::UnknownStep { step });
        },
    };
    assert(graph_model(step_deps@) =~= flow_graph(flow@)) by {
        assert forall|k: int| 0 <= k < n implies graph_model(step_deps@)[k] == flow_graph(
            flow@,
        )[k] by {
            assert(positions_model(step_deps[k]@) == positions_of(
                flow@.ids(),
                template_refs(flow@.steps[k].input),
            ));
        }
    }
    assert(in_range(graph_model(step_deps@))) by {
        assert forall|a: int, k: int|
            0 <= a < graph_model(step_deps@).len() && 0 <= k < graph_model(
                step_deps@,
            )[a].len() implies 0 <= #[trigger] graph_model(step_deps@)[a][k] < graph_model(
            step_deps@,
        ).len() by {
            assert(step_deps[a][k] < n);
        }
    }
    match find_order(&step_deps) {
        Some(rank) => {
            let a = FlowAnalysis { ids, step_deps, output_deps };
            assert(a.wf()) by {
                assert forall|k: int| 0 <= k < a.output_reads().len() implies 0
                    <= #[trigger] a.output_reads()[k] < a.graph().len() by {
                    assert(output_deps[k] < n);
                }
            }
            Ok(a)
        },
        None => Err(AnalysisError::Cycle),
    }
}

} // verus!
