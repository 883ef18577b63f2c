//! Evaluation of a single expression against the workflow input and the
//! outcomes of the steps that have ended.

use crate::error::{ExecutionError, ExecutionErrorModel};
use crate::expr::{
    option_text, BaseRef, BaseRefModel, Expr, ExprModel, SkipAction, SkipModel,
};
use crate::flow_result::{FlowErrorModel, FlowResult, Outcome};
use crate::value::{Json, Value};
use vstd::prelude::*;

verus! {

/// The recorded outcome of one step.
#[derive(Debug)]
pub struct StepOutcome {
    pub step: String,
    pub result: FlowResult,
}

/// The outcomes of the steps of a run that have ended, by step id.
#[derive(Debug)]
pub struct StepOutcomes {
    entries: Vec<StepOutcome>,
}

/// The map that a list of recordings amounts to: a later recording of a
/// step replaces an earlier one.
pub open spec fn outcomes_map(entries: Seq<StepOutcome>) -> Map<Seq<char>, Outcome>
    decreases entries.len(),
{
    if entries.len() == 0 {
        Map::empty()
    } else {
        outcomes_map(entries.drop_last()).insert(entries.last().step@, entries.last().result@)
    }
}

/// One more recording is one more entry of the map.
proof fn lemma_outcomes_map_push(entries: Seq<StepOutcome>, e: StepOutcome)
    ensures
        outcomes_map(entries.push(e)) == outcomes_map(entries).insert(e.step@, e.result@),
{
    assert(entries.push(e).drop_last() =~= entries);
}

/// A step that no recording from `from` on names is found among the
/// recordings before `from`, or not at all.
proof fn lemma_outcomes_map_skip(entries: Seq<StepOutcome>, from: int, id: Seq<char>)
    requires
        0 <= from <= entries.len(),
        forall|k: int| from <= k < entries.len() ==> entries[k].step@ != id,
    ensures
        outcomes_map(entries).contains_key(id) == outcomes_map(entries.take(from)).contains_key(
            id,
        ),
        outcomes_map(entries).contains_key(id) ==> outcomes_map(entries)[id] == outcomes_map(
            entries.take(from),
        )[id],
    decreases entries.len() - from,
{
    if from == entries.len() {
        assert(entries.take(from) =~= entries);
    } else {
        let shorter = entries.drop_last();
        assert(shorter.take(from) =~= entries.take(from));
        lemma_outcomes_map_skip(shorter, from, id);
    }
}

impl View for StepOutcomes {
    type V = Map<Seq<char>, Outcome>;

    closed spec fn view(&self) -> Map<Seq<char>, Outcome> {
        outcomes_map(self.entries@)
    }
}

impl StepOutcomes {
    /// No outcome yet.
    pub fn new() -> (r: StepOutcomes)
        ensures
            r@ == Map::<Seq<char>, Outcome>::empty(),
    {
        StepOutcomes { entries: Vec::new() }
    }

    /// Records `result` as the outcome of `step`.
    pub fn record(&mut self, step: &str, result: FlowResult)
        ensures
            final(self)@ == old(self)@.insert(step@, result@),
    {
        let entry = StepOutcome { step: step.to_owned(), result };
        proof {
            lemma_outcomes_map_push(self.entries@, entry);
        }
        self.entries.push(entry);
    }

    /// The outcome of `step`, if one is recorded.
    pub fn get(&self, step: &str) -> (r: Option<&FlowResult>)
        ensures
            match r {
                Some(result) => self@.contains_key(step@) && self@[step@] == result@,
                None => !self@.contains_key(step@),
            },
    {
        let key = step.to_owned();
        let mut i: usize = self.entries.len();
        while i > 0
            invariant
                i <= self.entries.len(),
                key@ == step@,
                forall|k: int| i <= k < self.entries.len() ==> self.entries[k].step@ != step@,
            decreases i,
        {
            i -= 1;
            if self.entries[i].step == key {
                proof {
                    lemma_outcomes_map_skip(self.entries@, i + 1, step@);
                    assert(self.entries@.take(i + 1).drop_last() =~= self.entries@.take(i as int));
                }
                return Some(&self.entries[i].result);
            }
        }
        proof {
            lemma_outcomes_map_skip(self.entries@, 0, step@);
        }
        None
    }
}

/// The content of what an evaluation returns.
pub open spec fn resolution(r: Result<FlowResult, ExecutionError>) -> Result<
    Outcome,
    ExecutionErrorModel,
> {
    match r {
        Ok(result) => Ok(result@),
        Err(e) => Err(e@),
    }
}

/// The part of `base` that `path` names: all of it where there is no path
/// or an empty one, else one step into it.
pub open spec fn follow(base: Json, path: Option<Seq<char>>) -> Option<Json> {
    match path {
        None => Some(base),
        Some(p) => if p.len() == 0 {
            Some(base)
        } else {
            base.lookup(p)
        },
    }
}

/// What a reference yields when the step that it reads from was skipped:
/// a skip of its own, or the default that it names, or null where it names
/// the default action without a value.
pub open spec fn on_skipped(on_skip: SkipModel) -> Outcome {
    match on_skip {
        SkipModel::Skip => Outcome::Skipped,
        SkipModel::UseDefault(None) => Outcome::Success(Json::Null),
        SkipModel::UseDefault(Some(d)) => Outcome::Success(d),
    }
}

/// What a reference yields when `value` lacks the member or element
/// `field`: a skip, or the default that the reference names, or, where it
/// names no default to put in, an error that carries the field and the
/// value.
pub open spec fn on_missing(on_skip: SkipModel, field: Seq<char>, value: Json) -> Result<
    Outcome,
    ExecutionErrorModel,
> {
    match on_skip {
        SkipModel::Skip => Ok(Outcome::Skipped),
        SkipModel::UseDefault(Some(d)) => Ok(Outcome::Success(d)),
        SkipModel::UseDefault(None) => Err(ExecutionErrorModel::UndefinedField { field, value }),
    }
}

/// What a reference takes from the value `base` that it reads.
pub open spec fn take_part(base: Json, path: Option<Seq<char>>, on_skip: SkipModel) -> Result<
    Outcome,
    ExecutionErrorModel,
> {
    match follow(base, path) {
        Some(part) => Ok(Outcome::Success(part)),
        None => on_missing(on_skip, path->0, base),
    }
}

/// The value of an expression.
///
/// A literal is its own value. A reference reads the workflow input or the
/// outcome of a step, which has to be on record. A failed step fails the
/// reference with the step's error, whatever `on_skip` is; a skipped step
/// is answered by `on_skip`; and from the input or the value of a step the
/// reference takes what its path names.
///
/// A reference to the workflow input may name any `on_skip`. The input is
/// never skipped, so there `on_skip` only answers for what the input lacks.
pub open spec fn resolve_spec(
    expr: ExprModel,
    input: Json,
    outcomes: Map<Seq<char>, Outcome>,
) -> Result<Outcome, ExecutionErrorModel> {
    match expr {
        ExprModel::Literal(v) => Ok(Outcome::Success(v)),
        ExprModel::Ref { from, path, on_skip } => match from {
            BaseRefModel::WorkflowInput => take_part(input, path, on_skip),
            BaseRefModel::Step(step) => if !outcomes.contains_key(step) {
                Err(ExecutionErrorModel::UndefinedValue(from))
            } else {
                match outcomes[step] {
                    Outcome::Failed(error) => Ok(Outcome::Failed(error)),
                    Outcome::Skipped => Ok(on_skipped(on_skip)),
                    Outcome::Success(v) => take_part(v, path, on_skip),
                }
            },
        },
    }
}

/// What `on_skip` puts in place of a skipped step.
fn answer_skip(on_skip: &SkipAction) -> (r: FlowResult)
    ensures
        r@ == on_skipped(on_skip@),
{
    match on_skip {
        SkipAction::Skip => FlowResult::Skipped,
        SkipAction::UseDefault { default_value } => match default_value {
            Some(d) => FlowResult::Success { result: d.clone() },
            None => FlowResult::Success { result: Value::Null },
        },
    }
}

/// Takes from `base` what `path` names.
fn part_of(base: &Value, path: &Option<String>, on_skip: &SkipAction) -> (r: Result<
    FlowResult,
    ExecutionError,
>)
    ensures
        resolution(r) == take_part(base@, option_text(*path), on_skip@),
{
    let field = match path {
        Some(p) => p,
        None => {
            return Ok(FlowResult::Success { result: base.clone() });
        },
    };
    if field.as_str().unicode_len() == 0 {
        return Ok(FlowResult::Success { result: base.clone() });
    }
    match base.lookup(field.as_str()) {
        Some(part) => Ok(FlowResult::Success { result: part.clone() }),
        None => match on_skip {
            SkipAction::Skip => Ok(FlowResult::Skipped),
            SkipAction::UseDefault { default_value } => match default_value {
                Some(d) => Ok(FlowResult::Success { result: d.clone() }),
                None => Err(
                    ExecutionError::UndefinedField { field: field.clone(), value: base.clone() },
                ),
            },
        },
    }
}

/// Evaluates `expr` against the workflow input and the outcomes recorded so
/// far.
pub fn resolve(expr: &Expr, input: &Value, step_outcomes: &StepOutcomes) -> (r: Result<
    FlowResult,
    ExecutionError,
>)
    ensures
        resolution(r) == resolve_spec(expr@, input@, step_outcomes@),
{
    match expr {
        Expr::Literal(v) => Ok(FlowResult::Success { result: v.clone() }),
        Expr::Ref { from, path, on_skip } => match from {
            BaseRef::Workflow(_) => part_of(input, path, on_skip),
            BaseRef::Step { step } => match step_outcomes.get(step.as_str()) {
                None => Err(ExecutionError::UndefinedValue(from.clone())),
                Some(outcome) => match outcome {
                    FlowResult::Failed { error } => Ok(FlowResult::Failed { error: error.clone() }),
                    FlowResult::Skipped => Ok(answer_skip(on_skip)),
                    FlowResult::Success { result } => part_of(result, path, on_skip),
                },
            },
        },
    }
}

/// A literal evaluates to itself, whatever the input and the outcomes.
pub proof fn lemma_literal_is_its_value(v: Json, input: Json, outcomes: Map<Seq<char>, Outcome>)
    ensures
        resolve_spec(ExprModel::Literal(v), input, outcomes) == Ok::<
            Outcome,
            ExecutionErrorModel,
        >(Outcome::Success(v)),
{
}

/// A reference to a skipped step that names a default evaluates to the
/// default, whatever its path.
pub proof fn lemma_skipped_step_yields_default(
    step: Seq<char>,
    path: Option<Seq<char>>,
    d: Json,
    input: Json,
    outcomes: Map<Seq<char>, Outcome>,
)
    requires
        outcomes.contains_key(step),
        outcomes[step] is Skipped,
    ensures
        resolve_spec(
            ExprModel::Ref {
                from: BaseRefModel::Step(step),
                path,
                on_skip: SkipModel::UseDefault(Some(d)),
            },
            input,
            outcomes,
        ) == Ok::<Outcome, ExecutionErrorModel>(Outcome::Success(d)),
{
}

/// A reference to a skipped step that names no default action evaluates to
/// a skip.
pub proof fn lemma_skipped_step_skips_reader(
    step: Seq<char>,
    path: Option<Seq<char>>,
    input: Json,
    outcomes: Map<Seq<char>, Outcome>,
)
    requires
        outcomes.contains_key(step),
        outcomes[step] is Skipped,
    ensures
        resolve_spec(
            ExprModel::Ref { from: BaseRefModel::Step(step), path, on_skip: SkipModel::Skip },
            input,
            outcomes,
        ) == Ok::<Outcome, ExecutionErrorModel>(Outcome::Skipped),
{
}

/// A reference to a failed step evaluates to that step's failure with the
/// error unchanged, whatever `on_skip` and the path are.
pub proof fn lemma_failed_step_always_fails(
    step: Seq<char>,
    path: Option<Seq<char>>,
    on_skip: SkipModel,
    error: FlowErrorModel,
    input: Json,
    outcomes: Map<Seq<char>, Outcome>,
)
    requires
        outcomes.contains_key(step),
        outcomes[step] == Outcome::Failed(error),
    ensures
        resolve_spec(
            ExprModel::Ref { from: BaseRefModel::Step(step), path, on_skip },
            input,
            outcomes,
        ) == Ok::<Outcome, ExecutionErrorModel>(Outcome::Failed(error)),
{
}

/// The value that a reference reads: the workflow input, or the value of
/// the step that it names, where that step succeeded.
pub open spec fn base_value(from: BaseRefModel, input: Json, outcomes: Map<Seq<char>, Outcome>) -> Option<
    Json,
> {
    match from {
        BaseRefModel::WorkflowInput => Some(input),
        BaseRefModel::Step(step) => if outcomes.contains_key(step) {
            match outcomes[step] {
                Outcome::Success(v) => Some(v),
                _ => None,
            }
        } else {
            None
        },
    }
}

/// A reference whose path names something that the value read lacks, and
/// which has neither a skip nor a default to answer with, is an error that
/// carries the path and the value that was searched.
pub proof fn lemma_missing_field_is_undefined(
    from: BaseRefModel,
    path: Seq<char>,
    base: Json,
    input: Json,
    outcomes: Map<Seq<char>, Outcome>,
)
    requires
        base_value(from, input, outcomes) == Some(base),
        path.len() > 0,
        base.lookup(path).is_none(),
    ensures
        resolve_spec(
            ExprModel::Ref { from, path: Some(path), on_skip: SkipModel::UseDefault(None) },
            input,
            outcomes,
        ) == Err::<Outcome, ExecutionErrorModel>(
            ExecutionErrorModel::UndefinedField { field: path, value: base },
        ),
{
}

/// A reference never evaluates to an error about a missing member or
/// element unless something is missing and the reference has nothing to
/// answer with.
pub proof fn lemma_undefined_field_only_without_answer(
    from: BaseRefModel,
    path: Option<Seq<char>>,
    on_skip: SkipModel,
    input: Json,
    outcomes: Map<Seq<char>, Outcome>,
)
    requires
        resolve_spec(ExprModel::Ref { from, path, on_skip }, input, outcomes) matches Err(
            ExecutionErrorModel::UndefinedField { .. },
        ),
    ensures
        on_skip == SkipModel::UseDefault(None),
        path.is_some(),
        base_value(from, input, outcomes).is_some(),
        base_value(from, input, outcomes)->0.lookup(path->0).is_none(),
{
}

} // verus!
