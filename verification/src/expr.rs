//! References from one part of a flow to another, and literal values.

use crate::value::{clone_option, option_json, same_option, Json, Value};
use vstd::prelude::*;

verus! {

/// A property of the workflow itself that a reference can read.
#[derive(Debug, Clone, Copy, PartialEq, Eq, Hash, Structural)]
pub enum WorkflowRef {
    Input,
}

/// Where a reference reads from.
#[derive(Debug)]
pub enum BaseRef {
    /// Reference properties of the workflow.
    Workflow(WorkflowRef),
    /// Reference the output of a step.
    Step { step: String },
}

/// The mathematical content of a [`BaseRef`].
pub ghost enum BaseRefModel {
    WorkflowInput,
    Step(Seq<char>),
}

impl View for BaseRef {
    type V = BaseRefModel;

    open spec fn view(&self) -> BaseRefModel {
        match self {
            BaseRef::Workflow(_) => BaseRefModel::WorkflowInput,
            BaseRef::Step { step } => BaseRefModel::Step(step@),
        }
    }
}

impl BaseRef {
    /// The input that the workflow was started with.
    pub fn workflow_input() -> (r: BaseRef)
        ensures
            r@ == BaseRefModel::WorkflowInput,
    {
        BaseRef::Workflow(WorkflowRef::Input)
    }

    /// The output of the step called `step`.
    pub fn step_output(step: &str) -> (r: BaseRef)
        ensures
            r@ == BaseRefModel::Step(step@),
    {
        BaseRef::Step { step: step.to_owned() }
    }
}

impl Clone for BaseRef {
    fn clone(&self) -> (r: BaseRef)
        ensures
            r@ == self@,
    {
        match self {
            BaseRef::Workflow(w) => BaseRef::Workflow(*w),
            BaseRef::Step { step } => BaseRef::Step { step: step.clone() },
        }
    }
}

impl PartialEq for BaseRef {
    fn eq(&self, other: &Self) -> (r: bool) {
        match (self, other) {
            (BaseRef::Workflow(_), BaseRef::Workflow(_)) => true,
            (BaseRef::Step { step: a }, BaseRef::Step { step: b }) => *a == *b,
            _ => false,
        }
    }
}

impl vstd::std_specs::cmp::PartialEqSpecImpl for BaseRef {
    open spec fn obeys_eq_spec() -> bool {
        true
    }

    open spec fn eq_spec(&self, other: &Self) -> bool {
        self@ == other@
    }
}

/// What a reference does when the step it reads from was skipped.
#[derive(Debug)]
pub enum SkipAction {
    /// The reader is skipped as well.
    Skip,
    /// The reader goes on with a default value, or with null if none is given.
    UseDefault { default_value: Option<Value> },
}

/// The mathematical content of a [`SkipAction`].
pub ghost enum SkipModel {
    Skip,
    UseDefault(Option<Json>),
}

impl View for SkipAction {
    type V = SkipModel;

    open spec fn view(&self) -> SkipModel {
        match self {
            SkipAction::Skip => SkipModel::Skip,
            SkipAction::UseDefault { default_value } => SkipModel::UseDefault(
                option_json(*default_value),
            ),
        }
    }
}

impl Default for SkipAction {
    fn default() -> (r: SkipAction)
        ensures
            r@ == SkipModel::Skip,
    {
        SkipAction::Skip
    }
}

impl SkipAction {
    /// Whether this is the action of a reference that names none.
    pub fn is_default(&self) -> (r: bool)
        ensures
            r == (self@ is Skip),
    {
        match self {
            SkipAction::Skip => true,
            _ => false,
        }
    }

    /// Whether the step read from may be skipped without skipping the reader.
    pub fn is_optional(&self) -> (r: bool)
        ensures
            r == (self@ is UseDefault),
    {
        match self {
            SkipAction::UseDefault { .. } => true,
            _ => false,
        }
    }
}

impl Clone for SkipAction {
    fn clone(&self) -> (r: SkipAction)
        ensures
            r@ == self@,
    {
        match self {
            SkipAction::Skip => SkipAction::Skip,
            SkipAction::UseDefault { default_value } => SkipAction::UseDefault {
                default_value: clone_option(default_value),
            },
        }
    }
}

impl PartialEq for SkipAction {
    fn eq(&self, other: &Self) -> (r: bool) {
        match (self, other) {
            (SkipAction::Skip, SkipAction::Skip) => true,
            (
                SkipAction::UseDefault { default_value: a },
                SkipAction::UseDefault { default_value: b },
            ) => same_option(a, b),
            _ => false,
        }
    }
}

impl vstd::std_specs::cmp::PartialEqSpecImpl for SkipAction {
    open spec fn obeys_eq_spec() -> bool {
        true
    }

    open spec fn eq_spec(&self, other: &Self) -> bool {
        self@ == other@
    }
}

/// An expression that can be either a literal value or a reference.
#[derive(Debug)]
pub enum Expr {
    Ref {
        /// The source of the reference.
        from: BaseRef,
        /// The member or element of the referenced value to take.
        ///
        /// May be omitted to use the entire value.
        path: Option<String>,
        on_skip: SkipAction,
    },
    Literal(Value),
}

/// The mathematical content of an [`Expr`].
pub ghost enum ExprModel {
    Ref { from: BaseRefModel, path: Option<Seq<char>>, on_skip: SkipModel },
    Literal(Json),
}

/// The characters of an optional string.
pub open spec fn option_text(s: Option<String>) -> Option<Seq<char>> {
    match s {
        Some(s) => Some(s@),
        None => None,
    }
}

impl View for Expr {
    type V = ExprModel;

    open spec fn view(&self) -> ExprModel {
        match self {
            Expr::Ref { from, path, on_skip } => ExprModel::Ref {
                from: from@,
                path: option_text(*path),
                on_skip: on_skip@,
            },
            Expr::Literal(v) => ExprModel::Literal(v@),
        }
    }
}

/// A path as a reference keeps it: nothing where the path is empty.
pub open spec fn kept_path(path: Seq<char>) -> Option<Seq<char>> {
    if path.len() == 0 {
        None
    } else {
        Some(path)
    }
}

impl Expr {
    /// The expression that stands for `literal` itself.
    pub fn literal(literal: Value) -> (e: Expr)
        ensures
            e@ == ExprModel::Literal(literal@),
    {
        Expr::Literal(literal)
    }

    /// A reference to `from`; an empty `path` takes the whole value.
    pub fn new_ref(from: BaseRef, path: String, on_skip: SkipAction) -> (e: Expr)
        ensures
            e@ == (ExprModel::Ref { from: from@, path: kept_path(path@), on_skip: on_skip@ }),
    {
        let path = if path.as_str().unicode_len() == 0 {
            None
        } else {
            Some(path)
        };
        Expr::Ref { from, path, on_skip }
    }

    /// A reference to the output of the step called `step`.
    pub fn step_path(step: &str, path: &str, on_skip: SkipAction) -> (e: Expr)
        ensures
            e@ == (ExprModel::Ref {
                from: BaseRefModel::Step(step@),
                path: kept_path(path@),
                on_skip: on_skip@,
            }),
    {
        Expr::new_ref(BaseRef::step_output(step), path.to_owned(), on_skip)
    }

    /// A reference to the input of the workflow.
    pub fn input_path(path: &str, on_skip: SkipAction) -> (e: Expr)
        ensures
            e@ == (ExprModel::Ref {
                from: BaseRefModel::WorkflowInput,
                path: kept_path(path@),
                on_skip: on_skip@,
            }),
    {
        Expr::new_ref(BaseRef::workflow_input(), path.to_owned(), on_skip)
    }

    /// Where a reference reads from; nothing for a literal.
    pub fn base_ref(&self) -> (r: Option<&BaseRef>)
        ensures
            match r {
                Some(b) => self@ is Ref && self@->from == b@,
                None => self@ is Literal,
            },
    {
        match self {
            Expr::Literal(_) => None,
            Expr::Ref { from, .. } => Some(from),
        }
    }

    /// The path of a reference that has one.
    pub fn path(&self) -> (r: Option<&str>)
        ensures
            match r {
                Some(p) => self@ is Ref && self@->path == Some(p@),
                None => self@ is Literal || self@->path.is_none(),
            },
    {
        match self {
            Expr::Literal(_) => None,
            Expr::Ref { path, .. } => match path {
                Some(p) => Some(p.as_str()),
                None => None,
            },
        }
    }

    /// What a reference does when its step was skipped; nothing for a literal.
    pub fn on_skip(&self) -> (r: Option<&SkipAction>)
        ensures
            match r {
                Some(a) => self@ is Ref && self@->on_skip == a@,
                None => self@ is Literal,
            },
    {
        match self {
            Expr::Literal(_) => None,
            Expr::Ref { on_skip, .. } => Some(on_skip),
        }
    }
}

impl Clone for Expr {
    fn clone(&self) -> (r: Expr)
        ensures
            r@ == self@,
    {
        match self {
            Expr::Ref { from, path, on_skip } => Expr::Ref {
                from: from.clone(),
                path: match path {
                    Some(p) => Some(p.clone()),
                    None => None,
                },
                on_skip: on_skip.clone(),
            },
            Expr::Literal(v) => Expr::Literal(v.clone()),
        }
    }
}

impl PartialEq for Expr {
    fn eq(&self, other: &Self) -> (r: bool) {
        match (self, other) {
            (
                Expr::Ref { from: f1, path: p1, on_skip: s1 },
                Expr::Ref { from: f2, path: p2, on_skip: s2 },
            ) => {
                let same_path = match (p1, p2) {
                    (Some(a), Some(b)) => *a == *b,
                    (None, None) => true,
                    _ => false,
                };
                *f1 == *f2 && same_path && *s1 == *s2
            },
            (Expr::Literal(a), Expr::Literal(b)) => *a == *b,
            _ => false,
        }
    }
}

impl vstd::std_specs::cmp::PartialEqSpecImpl for Expr {
    open spec fn obeys_eq_spec() -> bool {
        true
    }

    open spec fn eq_spec(&self, other: &Self) -> bool {
        self@ == other@
    }
}

} // verus!
