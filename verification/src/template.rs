//! Templates: trees of literal values and expressions that evaluate to a
//! value once the steps they read from have ended.

use crate::codec::decode_ref;
use crate::error::{ExecutionError, ExecutionErrorModel};
use crate::expr::{BaseRef, BaseRefModel, Expr, ExprModel};
use crate::flow_result::{FlowResult, Outcome};
use crate::resolve::{resolution, resolve, resolve_spec, StepOutcomes};
use crate::value::{
    array_model, first_member, lemma_array_view, lemma_object_view, object_model, Field, Json,
    Value,
};
use vstd::prelude::*;

verus! {

/// One named member of an object template.
#[derive(Debug)]
pub struct TemplateField {
    pub name: String,
    pub template: ValueTemplate,
}

/// A tree whose leaves are literal values or expressions.
#[derive(Debug)]
pub enum ValueTemplate {
    Literal(Value),
    Expr(Expr),
    Array(Vec<ValueTemplate>),
    Object(Vec<TemplateField>),
}

/// The mathematical content of a [`TemplateField`].
pub ghost struct TemplateMember {
    pub name: Seq<char>,
    pub template: TemplateModel,
}

/// The mathematical content of a [`ValueTemplate`].
pub ghost enum TemplateModel {
    Literal(Json),
    Expr(ExprModel),
    Array(Seq<TemplateModel>),
    Object(Seq<TemplateMember>),
}

/// The content of `t`.
pub open spec fn template_of(t: ValueTemplate) -> TemplateModel
    decreases t, 0nat,
{
    match t {
        ValueTemplate::Literal(v) => TemplateModel::Literal(v@),
        ValueTemplate::Expr(e) => TemplateModel::Expr(e@),
        ValueTemplate::Array(items) => TemplateModel::Array(
            templates_of(items, items.len() as nat),
        ),
        ValueTemplate::Object(fields) => TemplateModel::Object(
            template_members_of(fields, fields.len() as nat),
        ),
    }
}

/// The contents of the first `n` of `items`.
pub open spec fn templates_of(items: Vec<ValueTemplate>, n: nat) -> Seq<TemplateModel>
    decreases items, n,
{
    if n == 0 || n > items.len() {
        Seq::empty()
    } else {
        templates_of(items, (n - 1) as nat).push(template_of(items[n - 1]))
    }
}

/// The names and contents of the first `n` of `fields`.
pub open spec fn template_members_of(fields: Vec<TemplateField>, n: nat) -> Seq<TemplateMember>
    decreases fields, n,
{
    if n == 0 || n > fields.len() {
        Seq::empty()
    } else {
        template_members_of(fields, (n - 1) as nat).push(
            TemplateMember {
                name: fields[n - 1].name@,
                template: template_of(fields[n - 1].template),
            },
        )
    }
}

impl View for ValueTemplate {
    type V = TemplateModel;

    open spec fn view(&self) -> TemplateModel {
        template_of(*self)
    }
}

/// The contents of a list of templates, element by element.
pub open spec fn templates_model(items: Seq<ValueTemplate>) -> Seq<TemplateModel> {
    Seq::new(items.len(), |i: int| items[i]@)
}

/// The contents of a list of template members, member by member.
pub open spec fn members_model(fields: Seq<TemplateField>) -> Seq<TemplateMember> {
    Seq::new(
        fields.len(),
        |i: int| TemplateMember { name: fields[i].name@, template: fields[i].template@ },
    )
}

/// The contents of the first `n` templates, written with `Seq::new`.
proof fn lemma_templates_of(items: Vec<ValueTemplate>, n: nat)
    requires
        n <= items.len(),
    ensures
        templates_of(items, n) == templates_model(items@.take(n as int)),
    decreases n,
{
    if n > 0 {
        lemma_templates_of(items, (n - 1) as nat);
    }
    assert(templates_of(items, n) =~= templates_model(items@.take(n as int)));
}

/// The contents of the first `n` members, written with `Seq::new`.
proof fn lemma_template_members_of(fields: Vec<TemplateField>, n: nat)
    requires
        n <= fields.len(),
    ensures
        template_members_of(fields, n) == members_model(fields@.take(n as int)),
    decreases n,
{
    if n > 0 {
        lemma_template_members_of(fields, (n - 1) as nat);
    }
    assert(template_members_of(fields, n) =~= members_model(fields@.take(n as int)));
}

/// An array template's view is the list of its elements' views.
pub proof fn lemma_array_template_view(items: Vec<ValueTemplate>)
    ensures
        ValueTemplate::Array(items)@ == TemplateModel::Array(templates_model(items@)),
{
    lemma_templates_of(items, items.len() as nat);
    assert(items@.take(items.len() as int) =~= items@);
}

/// An object template's view is the list of its members' names and views.
pub proof fn lemma_object_template_view(fields: Vec<TemplateField>)
    ensures
        ValueTemplate::Object(fields)@ == TemplateModel::Object(members_model(fields@)),
{
    lemma_template_members_of(fields, fields.len() as nat);
    assert(fields@.take(fields.len() as int) =~= fields@);
}

/// Copies a list of templates.
fn clone_templates(items: &Vec<ValueTemplate>) -> (out: Vec<ValueTemplate>)
    ensures
        templates_model(out@) == templates_model(items@),
    decreases items,
{
    let mut out: Vec<ValueTemplate> = Vec::new();
    let mut i: usize = 0;
    while i < items.len()
        invariant
            i <= items.len(),
            out.len() == i,
            forall|k: int| 0 <= k < i ==> out[k]@ == items[k]@,
        decreases items.len() - i,
    {
        let item = clone_template(&items[i]);
        out.push(item);
        i += 1;
    }
    assert(templates_model(out@) =~= templates_model(items@));
    out
}

/// Copies a list of template members.
fn clone_template_fields(fields: &Vec<TemplateField>) -> (out: Vec<TemplateField>)
    ensures
        members_model(out@) == members_model(fields@),
    decreases fields,
{
    let mut out: Vec<TemplateField> = Vec::new();
    let mut i: usize = 0;
    while i < fields.len()
        invariant
            i <= fields.len(),
            out.len() == i,
            forall|k: int|
                0 <= k < i ==> out[k].name@ == fields[k].name@ && out[k].template@
                    == fields[k].template@,
        decreases fields.len() - i,
    {
        let template = clone_template(&fields[i].template);
        out.push(TemplateField { name: fields[i].name.clone(), template });
        i += 1;
    }
    assert(members_model(out@) =~= members_model(fields@));
    out
}

/// Copies a template with all that it holds.
fn clone_template(t: &ValueTemplate) -> (r: ValueTemplate)
    ensures
        r@ == t@,
    decreases t,
{
    match t {
        ValueTemplate::Literal(v) => ValueTemplate::Literal(v.clone()),
        ValueTemplate::Expr(e) => ValueTemplate::Expr(e.clone()),
        ValueTemplate::Array(items) => {
            let out = clone_templates(items);
            proof {
                lemma_array_template_view(*items);
                lemma_array_template_view(out);
            }
            ValueTemplate::Array(out)
        },
        ValueTemplate::Object(fields) => {
            let out = clone_template_fields(fields);
            proof {
                lemma_object_template_view(*fields);
                lemma_object_template_view(out);
            }
            ValueTemplate::Object(out)
        },
    }
}

impl Clone for ValueTemplate {
    fn clone(&self) -> (r: ValueTemplate)
        ensures
            r@ == self@,
    {
        clone_template(self)
    }
}

impl Clone for TemplateField {
    fn clone(&self) -> (r: TemplateField)
        ensures
            r.name@ == self.name@,
            r.template@ == self.template@,
    {
        TemplateField { name: self.name.clone(), template: clone_template(&self.template) }
    }
}

/// Whether two lists of templates have the same contents.
fn same_templates(a: &Vec<ValueTemplate>, b: &Vec<ValueTemplate>) -> (r: bool)
    ensures
        r == (templates_model(a@) == templates_model(b@)),
    decreases a,
{
    if a.len() != b.len() {
        assert(templates_model(a@).len() != templates_model(b@).len());
        return false;
    }
    let mut i: usize = 0;
    while i < a.len()
        invariant
            i <= a.len(),
            a.len() == b.len(),
            forall|k: int| 0 <= k < i ==> a[k]@ == b[k]@,
        decreases a.len() - i,
    {
        if !same_template(&a[i], &b[i]) {
            assert(templates_model(a@)[i as int] != templates_model(b@)[i as int]);
            return false;
        }
        i += 1;
    }
    assert(templates_model(a@) =~= templates_model(b@));
    true
}

/// Whether two lists of template members have the same names and contents.
fn same_template_fields(a: &Vec<TemplateField>, b: &Vec<TemplateField>) -> (r: bool)
    ensures
        r == (members_model(a@) == members_model(b@)),
    decreases a,
{
    if a.len() != b.len() {
        assert(members_model(a@).len() != members_model(b@).len());
        return false;
    }
    let mut i: usize = 0;
    while i < a.len()
        invariant
            i <= a.len(),
            a.len() == b.len(),
            forall|k: int|
                0 <= k < i ==> a[k].name@ == b[k].name@ && a[k].template@ == b[k].template@,
        decreases a.len() - i,
    {
        if a[i].name != b[i].name || !same_template(&a[i].template, &b[i].template) {
            assert(members_model(a@)[i as int] != members_model(b@)[i as int]);
            return false;
        }
        i += 1;
    }
    assert(members_model(a@) =~= members_model(b@));
    true
}

/// Whether two templates have the same content.
fn same_template(a: &ValueTemplate, b: &ValueTemplate) -> (r: bool)
    ensures
        r == (a@ == b@),
    decreases a,
{
    match (a, b) {
        (ValueTemplate::Literal(x), ValueTemplate::Literal(y)) => *x == *y,
        (ValueTemplate::Expr(x), ValueTemplate::Expr(y)) => *x == *y,
        (ValueTemplate::Array(x), ValueTemplate::Array(y)) => {
            proof {
                lemma_array_template_view(*x);
                lemma_array_template_view(*y);
            }
            same_templates(x, y)
        },
        (ValueTemplate::Object(x), ValueTemplate::Object(y)) => {
            proof {
                lemma_object_template_view(*x);
                lemma_object_template_view(*y);
            }
            same_template_fields(x, y)
        },
        _ => false,
    }
}

impl PartialEq for ValueTemplate {
    fn eq(&self, other: &Self) -> (r: bool) {
        same_template(self, other)
    }
}

impl vstd::std_specs::cmp::PartialEqSpecImpl for ValueTemplate {
    open spec fn obeys_eq_spec() -> bool {
        true
    }

    open spec fn eq_spec(&self, other: &Self) -> bool {
        self@ == other@
    }
}

impl PartialEq for TemplateField {
    fn eq(&self, other: &Self) -> (r: bool) {
        self.name == other.name && same_template(&self.template, &other.template)
    }
}

impl vstd::std_specs::cmp::PartialEqSpecImpl for TemplateField {
    open spec fn obeys_eq_spec() -> bool {
        true
    }

    open spec fn eq_spec(&self, other: &Self) -> bool {
        self.name@ == other.name@ && self.template@ == other.template@
    }
}

/// How far a walk over the children of a template got: to the values of all
/// of them, or to the first child that did not evaluate to a value.
pub ghost enum Walk<T> {
    Values(Seq<T>),
    Stopped(Result<Outcome, ExecutionErrorModel>),
}

/// The value of a template.
///
/// A literal is its own value and an expression evaluates as expressions
/// do. The children of an array or object are evaluated in their order; the
/// first one that is skipped, fails or is in error decides for the whole
/// template, and the children after it are not looked at.
pub open spec fn resolve_template_spec(
    t: TemplateModel,
    input: Json,
    outcomes: Map<Seq<char>, Outcome>,
) -> Result<Outcome, ExecutionErrorModel>
    decreases t, 0nat,
{
    match t {
        TemplateModel::Literal(v) => Ok(Outcome::Success(v)),
        TemplateModel::Expr(e) => resolve_spec(e, input, outcomes),
        TemplateModel::Array(items) => match resolve_items_spec(
            items,
            items.len(),
            input,
            outcomes,
        ) {
            Walk::Values(values) => Ok(Outcome::Success(Json::Array(values))),
            Walk::Stopped(r) => r,
        },
        TemplateModel::Object(members) => match resolve_members_spec(
            members,
            members.len(),
            input,
            outcomes,
        ) {
            Walk::Values(values) => Ok(Outcome::Success(Json::Object(values))),
            Walk::Stopped(r) => r,
        },
    }
}

/// The walk over the first `n` of `items`.
pub open spec fn resolve_items_spec(
    items: Seq<TemplateModel>,
    n: nat,
    input: Json,
    outcomes: Map<Seq<char>, Outcome>,
) -> Walk<Json>
    decreases items, n,
{
    if n == 0 || n > items.len() {
        Walk::Values(Seq::empty())
    } else {
        match resolve_items_spec(items, (n - 1) as nat, input, outcomes) {
            Walk::Stopped(r) => Walk::Stopped(r),
            Walk::Values(values) => match resolve_template_spec(items[n - 1], input, outcomes) {
                Ok(Outcome::Success(v)) => Walk::Values(values.push(v)),
                other => Walk::Stopped(other),
            },
        }
    }
}

/// The walk over the first `n` of `members`.
pub open spec fn resolve_members_spec(
    members: Seq<TemplateMember>,
    n: nat,
    input: Json,
    outcomes: Map<Seq<char>, Outcome>,
) -> Walk<(Seq<char>, Json)>
    decreases members, n,
{
    if n == 0 || n > members.len() {
        Walk::Values(Seq::empty())
    } else {
        match resolve_members_spec(members, (n - 1) as nat, input, outcomes) {
            Walk::Stopped(r) => Walk::Stopped(r),
            Walk::Values(values) => match resolve_template_spec(
                members[n - 1].template,
                input,
                outcomes,
            ) {
                Ok(Outcome::Success(v)) => Walk::Values(values.push((members[n - 1].name, v))),
                other => Walk::Stopped(other),
            },
        }
    }
}

/// A walk that has stopped stays where it stopped.
pub proof fn lemma_items_stay_stopped(
    items: Seq<TemplateModel>,
    n: nat,
    m: nat,
    input: Json,
    outcomes: Map<Seq<char>, Outcome>,
)
    requires
        n <= m <= items.len(),
        resolve_items_spec(items, n, input, outcomes) is Stopped,
    ensures
        resolve_items_spec(items, m, input, outcomes) == resolve_items_spec(
            items,
            n,
            input,
            outcomes,
        ),
    decreases m,
{
    if n < m {
        lemma_items_stay_stopped(items, n, (m - 1) as nat, input, outcomes);
    }
}

/// A walk that has stopped stays where it stopped.
pub proof fn lemma_members_stay_stopped(
    members: Seq<TemplateMember>,
    n: nat,
    m: nat,
    input: Json,
    outcomes: Map<Seq<char>, Outcome>,
)
    requires
        n <= m <= members.len(),
        resolve_members_spec(members, n, input, outcomes) is Stopped,
    ensures
        resolve_members_spec(members, m, input, outcomes) == resolve_members_spec(
            members,
            n,
            input,
            outcomes,
        ),
    decreases m,
{
    if n < m {
        lemma_members_stay_stopped(members, n, (m - 1) as nat, input, outcomes);
    }
}

/// What a walk in running code came to.
enum Walked<T> {
    Values(Vec<T>),
    Stopped(FlowResult),
}

/// Evaluates the elements of an array template in their order.
fn resolve_items(items: &Vec<ValueTemplate>, input: &Value, outcomes: &StepOutcomes) -> (r: Result<
    Walked<Value>,
    ExecutionError,
>)
    ensures
        resolve_items_spec(templates_model(items@), items.len() as nat, input@, outcomes@) == (
        match r {
            Ok(Walked::Values(values)) => Walk::<Json>::Values(array_model(values@)),
            Ok(Walked::Stopped(result)) => Walk::<Json>::Stopped(Ok(result@)),
            Err(e) => Walk::<Json>::Stopped(Err(e@)),
        }),
    decreases items,
{
    let ghost models = templates_model(items@);
    let mut out: Vec<Value> = Vec::new();
    let mut i: usize = 0;
    assert(array_model(out@) =~= Seq::<Json>::empty());
    while i < items.len()
        invariant
            i <= items.len(),
            models == templates_model(items@),
            resolve_items_spec(models, i as nat, input@, outcomes@) == Walk::<Json>::Values(
                array_model(out@),
            ),
        decreases items.len() - i,
    {
        let ghost before = array_model(out@);
        let r = resolve_template(&items[i], input, outcomes);
        proof {
            assert(models[i as int] == items[i as int]@);
        }
        match r {
            Err(e) => {
                proof {
                    lemma_items_stay_stopped(
                        models,
                        (i + 1) as nat,
                        items.len() as nat,
                        input@,
                        outcomes@,
                    );
                }
                return Err(e);
            },
            Ok(FlowResult::Success { result }) => {
                out.push(result);
                assert(array_model(out@) =~= before.push(result@));
            },
            Ok(other) => {
                proof {
                    lemma_items_stay_stopped(
                        models,
                        (i + 1) as nat,
                        items.len() as nat,
                        input@,
                        outcomes@,
                    );
                }
                return Ok(Walked::Stopped(other));
            },
        }
        i += 1;
    }
    Ok(Walked::Values(out))
}

/// Evaluates the members of an object template in their order.
fn resolve_members(fields: &Vec<TemplateField>, input: &Value, outcomes: &StepOutcomes) -> (r:
    Result<Walked<Field>, ExecutionError>)
    ensures
        resolve_members_spec(members_model(fields@), fields.len() as nat, input@, outcomes@) == (
        match r {
            Ok(Walked::Values(values)) => Walk::<(Seq<char>, Json)>::Values(
                object_model(values@),
            ),
            Ok(Walked::Stopped(result)) => Walk::<(Seq<char>, Json)>::Stopped(Ok(result@)),
            Err(e) => Walk::<(Seq<char>, Json)>::Stopped(Err(e@)),
        }),
    decreases fields,
{
    let ghost models = members_model(fields@);
    let mut out: Vec<Field> = Vec::new();
    let mut i: usize = 0;
    assert(object_model(out@) =~= Seq::<(Seq<char>, Json)>::empty());
    while i < fields.len()
        invariant
            i <= fields.len(),
            models == members_model(fields@),
            resolve_members_spec(models, i as nat, input@, outcomes@) == Walk::<
                (Seq<char>, Json),
            >::Values(object_model(out@)),
        decreases fields.len() - i,
    {
        let ghost before = object_model(out@);
        let r = resolve_template(&fields[i].template, input, outcomes);
        proof {
            assert(models[i as int].template == fields[i as int].template@);
            assert(models[i as int].name == fields[i as int].name@);
        }
        match r {
            Err(e) => {
                proof {
                    lemma_members_stay_stopped(
                        models,
                        (i + 1) as nat,
                        fields.len() as nat,
                        input@,
                        outcomes@,
                    );
                }
                return Err(e);
            },
            Ok(FlowResult::Success { result }) => {
                out.push(Field { name: fields[i].name.clone(), value: result });
                assert(object_model(out@) =~= before.push((fields[i as int].name@, result@)));
            },
            Ok(other) => {
                proof {
                    lemma_members_stay_stopped(
                        models,
                        (i + 1) as nat,
                        fields.len() as nat,
                        input@,
                        outcomes@,
                    );
                }
                return Ok(Walked::Stopped(other));
            },
        }
        i += 1;
    }
    Ok(Walked::Values(out))
}

/// Evaluates a template against the workflow input and the outcomes
/// recorded so far.
pub fn resolve_template(t: &ValueTemplate, input: &Value, outcomes: &StepOutcomes) -> (r: Result<
    FlowResult,
    ExecutionError,
>)
    ensures
        resolution(r) == resolve_template_spec(t@, input@, outcomes@),
    decreases t,
{
    match t {
        ValueTemplate::Literal(v) => Ok(FlowResult::Success { result: v.clone() }),
        ValueTemplate::Expr(e) => resolve(e, input, outcomes),
        ValueTemplate::Array(items) => {
            proof {
                lemma_array_template_view(*items);
            }
            match resolve_items(items, input, outcomes) {
                Ok(Walked::Values(values)) => Ok(
                    FlowResult::Success { result: Value::array(values) },
                ),
                Ok(Walked::Stopped(result)) => Ok(result),
                Err(e) => Err(e),
            }
        },
        ValueTemplate::Object(fields) => {
            proof {
                lemma_object_template_view(*fields);
            }
            match resolve_members(fields, input, outcomes) {
                Ok(Walked::Values(values)) => Ok(
                    FlowResult::Success { result: Value::object(values) },
                ),
                Ok(Walked::Stopped(result)) => Ok(result),
                Err(e) => Err(e),
            }
        },
    }
}

/// A child that is skipped skips the array around it, where the children
/// before it evaluate to values.
pub proof fn lemma_skipped_item_skips_array(
    items: Seq<TemplateModel>,
    at: int,
    input: Json,
    outcomes: Map<Seq<char>, Outcome>,
)
    requires
        0 <= at < items.len(),
        resolve_template_spec(items[at], input, outcomes) == Ok::<Outcome, ExecutionErrorModel>(
            Outcome::Skipped,
        ),
        forall|k: int|
            0 <= k < at ==> #[trigger] resolve_template_spec(items[k], input, outcomes) matches Ok(
                Outcome::Success(_),
            ),
    ensures
        resolve_template_spec(TemplateModel::Array(items), input, outcomes) == Ok::<
            Outcome,
            ExecutionErrorModel,
        >(Outcome::Skipped),
{
    lemma_items_all_values(items, at as nat, input, outcomes);
    lemma_items_stay_stopped(items, (at + 1) as nat, items.len(), input, outcomes);
}

/// A member that is skipped skips the object around it, where the members
/// before it evaluate to values.
pub proof fn lemma_skipped_member_skips_object(
    members: Seq<TemplateMember>,
    at: int,
    input: Json,
    outcomes: Map<Seq<char>, Outcome>,
)
    requires
        0 <= at < members.len(),
        resolve_template_spec(members[at].template, input, outcomes) == Ok::<
            Outcome,
            ExecutionErrorModel,
        >(Outcome::Skipped),
        forall|k: int|
            0 <= k < at ==> #[trigger] resolve_template_spec(
                members[k].template,
                input,
                outcomes,
            ) matches Ok(Outcome::Success(_)),
    ensures
        resolve_template_spec(TemplateModel::Object(members), input, outcomes) == Ok::<
            Outcome,
            ExecutionErrorModel,
        >(Outcome::Skipped),
{
    lemma_members_all_values(members, at as nat, input, outcomes);
    lemma_members_stay_stopped(members, (at + 1) as nat, members.len(), input, outcomes);
}

/// A walk over children that all evaluate to values does not stop.
pub proof fn lemma_items_all_values(
    items: Seq<TemplateModel>,
    n: nat,
    input: Json,
    outcomes: Map<Seq<char>, Outcome>,
)
    requires
        n <= items.len(),
        forall|k: int|
            0 <= k < n ==> #[trigger] resolve_template_spec(items[k], input, outcomes) matches Ok(
                Outcome::Success(_),
            ),
    ensures
        resolve_items_spec(items, n, input, outcomes) is Values,
    decreases n,
{
    if n > 0 {
        lemma_items_all_values(items, (n - 1) as nat, input, outcomes);
        assert(resolve_template_spec(items[n - 1], input, outcomes) matches Ok(
            Outcome::Success(_),
        ));
    }
}

/// A walk over members that all evaluate to values does not stop.
pub proof fn lemma_members_all_values(
    members: Seq<TemplateMember>,
    n: nat,
    input: Json,
    outcomes: Map<Seq<char>, Outcome>,
)
    requires
        n <= members.len(),
        forall|k: int|
            0 <= k < n ==> #[trigger] resolve_template_spec(
                members[k].template,
                input,
                outcomes,
            ) matches Ok(Outcome::Success(_)),
    ensures
        resolve_members_spec(members, n, input, outcomes) is Values,
    decreases n,
{
    if n > 0 {
        lemma_members_all_values(members, (n - 1) as nat, input, outcomes);
        assert(resolve_template_spec(members[n - 1].template, input, outcomes) matches Ok(
            Outcome::Success(_),
        ));
    }
}

/// The step that an expression reads from, if it reads from one.
pub open spec fn expr_refs(e: ExprModel) -> Seq<Seq<char>> {
    match e {
        ExprModel::Ref { from: BaseRefModel::Step(step), .. } => seq![step],
        _ => Seq::empty(),
    }
}

/// The steps that a template reads from, in the order of its leaves and
/// once for each reference.
pub open spec fn template_refs(t: TemplateModel) -> Seq<Seq<char>>
    decreases t, 0nat,
{
    match t {
        TemplateModel::Literal(_) => Seq::empty(),
        TemplateModel::Expr(e) => expr_refs(e),
        TemplateModel::Array(items) => items_refs(items, items.len()),
        TemplateModel::Object(members) => members_refs(members, members.len()),
    }
}

/// The steps that the first `n` of `items` read from.
pub open spec fn items_refs(items: Seq<TemplateModel>, n: nat) -> Seq<Seq<char>>
    decreases items, n,
{
    if n == 0 || n > items.len() {
        Seq::empty()
    } else {
        items_refs(items, (n - 1) as nat) + template_refs(items[n - 1])
    }
}

/// The steps that the first `n` of `members` read from.
pub open spec fn members_refs(members: Seq<TemplateMember>, n: nat) -> Seq<Seq<char>>
    decreases members, n,
{
    if n == 0 || n > members.len() {
        Seq::empty()
    } else {
        members_refs(members, (n - 1) as nat) + template_refs(members[n - 1].template)
    }
}

/// The characters of each of a list of strings.
pub open spec fn texts(names: Seq<String>) -> Seq<Seq<char>> {
    Seq::new(names.len(), |i: int| names[i]@)
}

/// Appends to `out` the ids of the steps that `items` read from.
fn collect_items_refs(items: &Vec<ValueTemplate>, out: &mut Vec<String>)
    ensures
        texts(final(out)@) == texts(old(out)@) + items_refs(
            templates_model(items@),
            items.len() as nat,
        ),
    decreases items,
{
    let ghost models = templates_model(items@);
    let ghost start = texts(out@);
    let mut i: usize = 0;
    assert(texts(out@) =~= start + items_refs(models, 0));
    while i < items.len()
        invariant
            i <= items.len(),
            models == templates_model(items@),
            texts(out@) == start + items_refs(models, i as nat),
        decreases items.len() - i,
    {
        collect_refs(&items[i], out);
        proof {
            assert(models[i as int] == items[i as int]@);
            assert(texts(out@) =~= start + items_refs(models, (i + 1) as nat));
        }
        i += 1;
    }
}

/// Appends to `out` the ids of the steps that `fields` read from.
fn collect_members_refs(fields: &Vec<TemplateField>, out: &mut Vec<String>)
    ensures
        texts(final(out)@) == texts(old(out)@) + members_refs(
            members_model(fields@),
            fields.len() as nat,
        ),
    decreases fields,
{
    let ghost models = members_model(fields@);
    let ghost start = texts(out@);
    let mut i: usize = 0;
    assert(texts(out@) =~= start + members_refs(models, 0));
    while i < fields.len()
        invariant
            i <= fields.len(),
            models == members_model(fields@),
            texts(out@) == start + members_refs(models, i as nat),
        decreases fields.len() - i,
    {
        collect_refs(&fields[i].template, out);
        proof {
            assert(models[i as int].template == fields[i as int].template@);
            assert(texts(out@) =~= start + members_refs(models, (i + 1) as nat));
        }
        i += 1;
    }
}

/// Appends to `out` the ids of the steps that `t` reads from.
pub fn collect_refs(t: &ValueTemplate, out: &mut Vec<String>)
    ensures
        texts(final(out)@) == texts(old(out)@) + template_refs(t@),
    decreases t,
{
    match t {
        ValueTemplate::Literal(_) => {
            assert(texts(out@) =~= texts(old(out)@) + template_refs(t@));
        },
        ValueTemplate::Expr(e) => {
            match e {
                Expr::Ref { from: BaseRef::Step { step }, .. } => {
                    out.push(step.clone());
                },
                _ => {},
            }
            assert(texts(out@) =~= texts(old(out)@) + template_refs(t@));
        },
        ValueTemplate::Array(items) => {
            proof {
                lemma_array_template_view(*items);
            }
            collect_items_refs(items, out);
        },
        ValueTemplate::Object(fields) => {
            proof {
                lemma_object_template_view(*fields);
            }
            collect_members_refs(fields, out);
        },
    }
}

/// What is said of a reference that cannot be read.
pub open spec fn malformed_message() -> Seq<char> {
    "a reference needs a source, and text as its path if it has one"@
}

/// The template that the value `v` writes.
///
/// An object with a member `$from` is a reference, and an error if it
/// cannot be read as one. An object with a member `$literal` is that
/// member's value, taken as it is. Any other object or array is a template
/// of its members or elements, and any other value is a literal.
pub open spec fn parse_template_spec(v: Json) -> Result<TemplateModel, ExecutionErrorModel>
    decreases v, 0nat,
{
    match v {
        Json::Object(members) => if first_member(members, "$from"@).is_some() {
            match decode_ref(v) {
                Some(reference) => Ok(TemplateModel::Expr(reference)),
                None => Err(
                    ExecutionErrorModel::MalformedReference { message: malformed_message() },
                ),
            }
        } else {
            match first_member(members, "$literal"@) {
                Some(literal) => Ok(TemplateModel::Literal(literal)),
                None => match parse_members_spec(members, members.len()) {
                    Ok(parsed) => Ok(TemplateModel::Object(parsed)),
                    Err(e) => Err(e),
                },
            }
        },
        Json::Array(items) => match parse_items_spec(items, items.len()) {
            Ok(parsed) => Ok(TemplateModel::Array(parsed)),
            Err(e) => Err(e),
        },
        _ => Ok(TemplateModel::Literal(v)),
    }
}

/// The templates that the first `n` of `items` write, or the first error
/// among them.
pub open spec fn parse_items_spec(items: Seq<Json>, n: nat) -> Result<
    Seq<TemplateModel>,
    ExecutionErrorModel,
>
    decreases items, n,
{
    if n == 0 || n > items.len() {
        Ok(Seq::empty())
    } else {
        match parse_items_spec(items, (n - 1) as nat) {
            Err(e) => Err(e),
            Ok(parsed) => match parse_template_spec(items[n - 1]) {
                Ok(t) => Ok(parsed.push(t)),
                Err(e) => Err(e),
            },
        }
    }
}

/// The template members that the first `n` of `members` write, or the
/// first error among them.
pub open spec fn parse_members_spec(members: Seq<(Seq<char>, Json)>, n: nat) -> Result<
    Seq<TemplateMember>,
    ExecutionErrorModel,
>
    decreases members, n,
{
    if n == 0 || n > members.len() {
        Ok(Seq::empty())
    } else {
        match parse_members_spec(members, (n - 1) as nat) {
            Err(e) => Err(e),
            Ok(parsed) => match parse_template_spec(members[n - 1].1) {
                Ok(t) => Ok(parsed.push(TemplateMember { name: members[n - 1].0, template: t })),
                Err(e) => Err(e),
            },
        }
    }
}

/// Once an element cannot be read, the error stays the same however far one
/// reads.
proof fn lemma_parse_items_error_stays(items: Seq<Json>, n: nat, m: nat)
    requires
        n <= m <= items.len(),
        parse_items_spec(items, n) is Err,
    ensures
        parse_items_spec(items, m) == parse_items_spec(items, n),
    decreases m,
{
    if n < m {
        lemma_parse_items_error_stays(items, n, (m - 1) as nat);
    }
}

/// Once a member cannot be read, the error stays the same however far one
/// reads.
proof fn lemma_parse_members_error_stays(members: Seq<(Seq<char>, Json)>, n: nat, m: nat)
    requires
        n <= m <= members.len(),
        parse_members_spec(members, n) is Err,
    ensures
        parse_members_spec(members, m) == parse_members_spec(members, n),
    decreases m,
{
    if n < m {
        lemma_parse_members_error_stays(members, n, (m - 1) as nat);
    }
}

/// The content of what reading a template returned.
pub open spec fn parsed(r: Result<ValueTemplate, ExecutionError>) -> Result<
    TemplateModel,
    ExecutionErrorModel,
> {
    match r {
        Ok(t) => Ok(t@),
        Err(e) => Err(e@),
    }
}

/// Reads the templates that the elements of an array write.
fn parse_items(items: &Vec<Value>) -> (r: Result<Vec<ValueTemplate>, ExecutionError>)
    ensures
        parse_items_spec(array_model(items@), items.len() as nat) == (match r {
            Ok(out) => Ok::<Seq<TemplateModel>, ExecutionErrorModel>(templates_model(out@)),
            Err(e) => Err::<Seq<TemplateModel>, ExecutionErrorModel>(e@),
        }),
    decreases items,
{
    let ghost models = array_model(items@);
    let mut out: Vec<ValueTemplate> = Vec::new();
    let mut i: usize = 0;
    assert(templates_model(out@) =~= Seq::<TemplateModel>::empty());
    while i < items.len()
        invariant
            i <= items.len(),
            models == array_model(items@),
            parse_items_spec(models, i as nat) == Ok::<Seq<TemplateModel>, ExecutionErrorModel>(
                templates_model(out@),
            ),
        decreases items.len() - i,
    {
        let ghost before = templates_model(out@);
        proof {
            assert(models[i as int] == items[i as int]@);
        }
        match ValueTemplate::parse(&items[i]) {
            Ok(t) => {
                out.push(t);
                assert(templates_model(out@) =~= before.push(t@));
            },
            Err(e) => {
                proof {
                    lemma_parse_items_error_stays(models, (i + 1) as nat, items.len() as nat);
                }
                return Err(e);
            },
        }
        i += 1;
    }
    Ok(out)
}

/// Reads the templates that the members of an object write.
fn parse_members(fields: &Vec<Field>) -> (r: Result<Vec<TemplateField>, ExecutionError>)
    ensures
        parse_members_spec(object_model(fields@), fields.len() as nat) == (match r {
            Ok(out) => Ok::<Seq<TemplateMember>, ExecutionErrorModel>(members_model(out@)),
            Err(e) => Err::<Seq<TemplateMember>, ExecutionErrorModel>(e@),
        }),
    decreases fields,
{
    let ghost models = object_model(fields@);
    let mut out: Vec<TemplateField> = Vec::new();
    let mut i: usize = 0;
    assert(members_model(out@) =~= Seq::<TemplateMember>::empty());
    while i < fields.len()
        invariant
            i <= fields.len(),
            models == object_model(fields@),
            parse_members_spec(models, i as nat) == Ok::<Seq<TemplateMember>, ExecutionErrorModel>(
                members_model(out@),
            ),
        decreases fields.len() - i,
    {
        let ghost before = members_model(out@);
        proof {
            assert(models[i as int] == (fields[i as int].name@, fields[i as int].value@));
        }
        match ValueTemplate::parse(&fields[i].value) {
            Ok(t) => {
                out.push(TemplateField { name: fields[i].name.clone(), template: t });
                assert(members_model(out@) =~= before.push(
                    TemplateMember { name: fields[i as int].name@, template: t@ },
                ));
            },
            Err(e) => {
                proof {
                    lemma_parse_members_error_stays(models, (i + 1) as nat, fields.len() as nat);
                }
                return Err(e);
            },
        }
        i += 1;
    }
    Ok(out)
}

impl ValueTemplate {
    /// Reads the template that the value `v` writes.
    pub fn parse(v: &Value) -> (r: Result<ValueTemplate, ExecutionError>)
        ensures
            parsed(r) == parse_template_spec(v@),
        decreases v,
    {
        match v {
            Value::Object(fields) => {
                proof {
                    lemma_object_view(*fields);
                }
                if v.member("$from").is_some() {
                    match Expr::ref_from_value(v) {
                        Some(reference) => Ok(ValueTemplate::Expr(reference)),
                        None => Err(
                            ExecutionError::MalformedReference {
                                message:
                                    "a reference needs a source, and text as its path if it has one".to_owned(),
                            },
                        ),
                    }
                } else {
                    match v.member("$literal") {
                        Some(literal) => Ok(ValueTemplate::Literal(literal.clone())),
                        None => match parse_members(fields) {
                            Ok(out) => {
                                proof {
                                    lemma_object_template_view(out);
                                }
                                Ok(ValueTemplate::Object(out))
                            },
                            Err(e) => Err(e),
                        },
                    }
                }
            },
            Value::Array(items) => {
                proof {
                    lemma_array_view(*items);
                }
                match parse_items(items) {
                    Ok(out) => {
                        proof {
                            lemma_array_template_view(out);
                        }
                        Ok(ValueTemplate::Array(out))
                    },
                    Err(e) => Err(e),
                }
            },
            _ => Ok(ValueTemplate::Literal(v.clone())),
        }
    }
}

} // verus!
