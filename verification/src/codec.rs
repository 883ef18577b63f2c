//! Expressions as values: how an expression is written down, and how a
//! value is read back as an expression.

use crate::expr::{BaseRef, BaseRefModel, Expr, ExprModel, SkipAction, SkipModel};
use crate::flow_result::{FlowError, FlowErrorModel, FlowResult, Outcome};
use crate::value::{
    lemma_first_member_at, lemma_first_member_none, object_model, Field, Json, Value,
};
use vstd::prelude::*;

verus! {

/// The written form of a source: `{workflow: input}` for the workflow
/// input, `{step: <id>}` for a step.
pub open spec fn encode_base(from: BaseRefModel) -> Json {
    match from {
        BaseRefModel::WorkflowInput => Json::Object(seq![("workflow"@, Json::Str("input"@))]),
        BaseRefModel::Step(step) => Json::Object(seq![("step"@, Json::Str(step))]),
    }
}

/// The written form of a skip action: `{action: skip}`, or
/// `{action: useDefault}` with the member `defaultValue` where a default is
/// given.
pub open spec fn encode_skip(action: SkipModel) -> Json {
    match action {
        SkipModel::Skip => Json::Object(seq![("action"@, Json::Str("skip"@))]),
        SkipModel::UseDefault(None) => Json::Object(seq![("action"@, Json::Str("useDefault"@))]),
        SkipModel::UseDefault(Some(d)) => Json::Object(
            seq![("action"@, Json::Str("useDefault"@)), ("defaultValue"@, d)],
        ),
    }
}

/// The member `path` of a written reference, where the reference has a
/// path.
pub open spec fn encode_path(path: Option<Seq<char>>) -> Seq<(Seq<char>, Json)> {
    match path {
        Some(p) => seq![("path"@, Json::Str(p))],
        None => Seq::empty(),
    }
}

/// The member `onSkip` of a written reference; the action `Skip` is the
/// default and is left out.
pub open spec fn encode_on_skip(action: SkipModel) -> Seq<(Seq<char>, Json)> {
    if action is Skip {
        Seq::empty()
    } else {
        seq![("onSkip"@, encode_skip(action))]
    }
}

/// The written form of an expression: a literal is written as itself, a
/// reference as an object with the members `$from`, `path` and `onSkip`.
pub open spec fn encode_expr(e: ExprModel) -> Json {
    match e {
        ExprModel::Literal(v) => v,
        ExprModel::Ref { from, path, on_skip } => Json::Object(
            seq![("$from"@, encode_base(from))] + encode_path(path) + encode_on_skip(on_skip),
        ),
    }
}

/// The source that `v` writes, if it writes one.
pub open spec fn decode_base(v: Json) -> Option<BaseRefModel> {
    match v.member("workflow"@) {
        Some(Json::Str(what)) => if what == "input"@ {
            Some(BaseRefModel::WorkflowInput)
        } else {
            None
        },
        Some(_) => None,
        None => match v.member("step"@) {
            Some(Json::Str(step)) => Some(BaseRefModel::Step(step)),
            _ => None,
        },
    }
}

/// The default that the member `defaultValue` gives: none where the member
/// is missing or null.
pub open spec fn decode_default(v: Option<Json>) -> Option<Json> {
    match v {
        Some(Json::Null) => None,
        other => other,
    }
}

/// The skip action that `v` writes, if it writes one.
pub open spec fn decode_skip(v: Json) -> Option<SkipModel> {
    match v.member("action"@) {
        Some(Json::Str(name)) => if name == "skip"@ {
            Some(SkipModel::Skip)
        } else if name == "useDefault"@ {
            Some(SkipModel::UseDefault(decode_default(v.member("defaultValue"@))))
        } else {
            None
        },
        _ => None,
    }
}

/// The path that the member `path` gives: none where the member is missing
/// or null. The outer `None` is a member that is no text.
pub open spec fn decode_path(v: Option<Json>) -> Option<Option<Seq<char>>> {
    match v {
        None => Some(None),
        Some(Json::Null) => Some(None),
        Some(Json::Str(p)) => Some(Some(p)),
        Some(_) => None,
    }
}

/// The skip action that the member `onSkip` gives: `Skip` where the member
/// is missing.
pub open spec fn decode_on_skip(v: Option<Json>) -> Option<SkipModel> {
    match v {
        None => Some(SkipModel::Skip),
        Some(action) => decode_skip(action),
    }
}

/// The reference that `v` writes, if it writes one: an object whose member
/// `$from` writes a source, whose member `path`, if it has one, is text,
/// and whose member `onSkip`, if it has one, writes a skip action.
pub open spec fn decode_ref(v: Json) -> Option<ExprModel> {
    match v.member("$from"@) {
        None => None,
        Some(source) => match (
            decode_base(source),
            decode_path(v.member("path"@)),
            decode_on_skip(v.member("onSkip"@)),
        ) {
            (Some(from), Some(path), Some(on_skip)) => Some(
                ExprModel::Ref { from, path, on_skip },
            ),
            _ => None,
        },
    }
}

/// The expression that `v` writes: the reference that it writes, or else
/// the literal `v`.
pub open spec fn decode_expr(v: Json) -> ExprModel {
    match decode_ref(v) {
        Some(reference) => reference,
        None => ExprModel::Literal(v),
    }
}

/// The names of the members differ.
proof fn lemma_names_differ()
    ensures
        "$from"@ != "path"@,
        "$from"@ != "onSkip"@,
        "path"@ != "onSkip"@,
        "workflow"@ != "step"@,
        "action"@ != "defaultValue"@,
        "skip"@ != "useDefault"@,
{
    reveal_strlit("$from");
    reveal_strlit("path");
    reveal_strlit("onSkip");
    reveal_strlit("workflow");
    reveal_strlit("step");
    reveal_strlit("action");
    reveal_strlit("defaultValue");
    reveal_strlit("skip");
    reveal_strlit("useDefault");
    assert("$from"@.len() == 5);
    assert("path"@.len() == 4);
    assert("onSkip"@.len() == 6);
    assert("workflow"@.len() == 8);
    assert("step"@.len() == 4);
    assert("action"@.len() == 6);
    assert("defaultValue"@.len() == 12);
    assert("skip"@.len() == 4);
    assert("useDefault"@.len() == 10);
}

/// A written source reads back as the source.
pub proof fn lemma_base_round_trip(from: BaseRefModel)
    ensures
        decode_base(encode_base(from)) == Some(from),
{
    lemma_names_differ();
    match from {
        BaseRefModel::WorkflowInput => {
            let members = seq![("workflow"@, Json::Str("input"@))];
            lemma_first_member_at(members, "workflow"@, 0);
        },
        BaseRefModel::Step(step) => {
            let members = seq![("step"@, Json::Str(step))];
            lemma_first_member_none(members, "workflow"@);
            lemma_first_member_at(members, "step"@, 0);
        },
    }
}

/// A written skip action reads back as the action, unless its default is
/// null, which reads back as no default.
pub proof fn lemma_skip_round_trip(action: SkipModel)
    requires
        action != SkipModel::UseDefault(Some(Json::Null)),
    ensures
        decode_skip(encode_skip(action)) == Some(action),
{
    lemma_names_differ();
    match action {
        SkipModel::Skip => {
            let members = seq![("action"@, Json::Str("skip"@))];
            lemma_first_member_at(members, "action"@, 0);
        },
        SkipModel::UseDefault(None) => {
            let members = seq![("action"@, Json::Str("useDefault"@))];
            lemma_first_member_at(members, "action"@, 0);
            lemma_first_member_none(members, "defaultValue"@);
        },
        SkipModel::UseDefault(Some(d)) => {
            let members = seq![("action"@, Json::Str("useDefault"@)), ("defaultValue"@, d)];
            lemma_first_member_at(members, "action"@, 0);
            lemma_first_member_at(members, "defaultValue"@, 1);
        },
    }
}

/// The members of a written reference are found again under their names.
proof fn lemma_reference_members(from: BaseRefModel, path: Option<Seq<char>>, on_skip: SkipModel)
    ensures
        ({
            let v = encode_expr(ExprModel::Ref { from, path, on_skip });
            &&& v.member("$from"@) == Some(encode_base(from))
            &&& v.member("path"@) == (match path {
                Some(p) => Some(Json::Str(p)),
                None => None,
            })
            &&& v.member("onSkip"@) == (if on_skip is Skip {
                None
            } else {
                Some(encode_skip(on_skip))
            })
        }),
{
    lemma_names_differ();
    let members = seq![("$from"@, encode_base(from))] + encode_path(path) + encode_on_skip(
        on_skip,
    );
    lemma_first_member_at(members, "$from"@, 0);
    match path {
        Some(p) => {
            lemma_first_member_at(members, "path"@, 1);
            if on_skip is Skip {
                lemma_first_member_none(members, "onSkip"@);
            } else {
                lemma_first_member_at(members, "onSkip"@, 2);
            }
        },
        None => {
            lemma_first_member_none(members, "path"@);
            if on_skip is Skip {
                lemma_first_member_none(members, "onSkip"@);
            } else {
                lemma_first_member_at(members, "onSkip"@, 1);
            }
        },
    }
}

/// Writing an expression and reading it back gives the expression again.
///
/// Two kinds of expression are left out, because their written form is
/// also that of another expression: a literal that reads as a reference,
/// and a reference whose default value is null.
pub proof fn lemma_expr_round_trip(e: ExprModel)
    requires
        e matches ExprModel::Literal(v) ==> decode_ref(v).is_none(),
        e matches ExprModel::Ref { on_skip, .. } ==> on_skip != SkipModel::UseDefault(
            Some(Json::Null),
        ),
    ensures
        decode_expr(encode_expr(e)) == e,
{
    match e {
        ExprModel::Literal(v) => {},
        ExprModel::Ref { from, path, on_skip } => {
            lemma_reference_members(from, path, on_skip);
            lemma_base_round_trip(from);
            if !(on_skip is Skip) {
                lemma_skip_round_trip(on_skip);
            }
        },
    }
}

/// A reference that skips with its step is written without the member
/// `onSkip`, and a written reference without that member reads back as one
/// that skips with its step.
pub proof fn lemma_default_on_skip_is_omitted(from: BaseRefModel, path: Option<Seq<char>>)
    ensures
        encode_expr(ExprModel::Ref { from, path, on_skip: SkipModel::Skip }).member("onSkip"@)
            .is_none(),
        decode_expr(encode_expr(ExprModel::Ref { from, path, on_skip: SkipModel::Skip }))
            == (ExprModel::Ref { from, path, on_skip: SkipModel::Skip }),
{
    lemma_reference_members(from, path, SkipModel::Skip);
    lemma_expr_round_trip(ExprModel::Ref { from, path, on_skip: SkipModel::Skip });
}

/// An object with one member.
fn single(name: &str, value: Value) -> (v: Value)
    ensures
        v@ == Json::Object(seq![(name@, value@)]),
{
    let mut members: Vec<Field> = Vec::new();
    members.push(Field::new(name.to_owned(), value));
    assert(object_model(members@) =~= seq![(name@, value@)]);
    Value::object(members)
}

impl BaseRef {
    /// The written form of the source.
    pub fn to_value(&self) -> (v: Value)
        ensures
            v@ == encode_base(self@),
    {
        match self {
            BaseRef::Workflow(_) => single("workflow", Value::string("input")),
            BaseRef::Step { step } => single("step", Value::string(step.as_str())),
        }
    }

    /// The source that `v` writes, if it writes one.
    pub fn from_value(v: &Value) -> (r: Option<BaseRef>)
        ensures
            match r {
                Some(from) => decode_base(v@) == Some(from@),
                None => decode_base(v@).is_none(),
            },
    {
        match v.member("workflow") {
            Some(Value::Str(what)) => {
                let input = "input".to_owned();
                if *what == input {
                    Some(BaseRef::workflow_input())
                } else {
                    None
                }
            },
            Some(_) => None,
            None => match v.member("step") {
                Some(Value::Str(step)) => Some(BaseRef::step_output(step.as_str())),
                _ => None,
            },
        }
    }
}

impl SkipAction {
    /// The written form of the action.
    pub fn to_value(&self) -> (v: Value)
        ensures
            v@ == encode_skip(self@),
    {
        match self {
            SkipAction::Skip => single("action", Value::string("skip")),
            SkipAction::UseDefault { default_value } => match default_value {
                None => single("action", Value::string("useDefault")),
                Some(d) => {
                    let mut members: Vec<Field> = Vec::new();
                    members.push(Field::new("action".to_owned(), Value::string("useDefault")));
                    members.push(Field::new("defaultValue".to_owned(), d.clone()));
                    assert(object_model(members@) =~= seq![
                        ("action"@, Json::Str("useDefault"@)),
                        ("defaultValue"@, d@),
                    ]);
                    Value::object(members)
                },
            },
        }
    }

    /// The action that `v` writes, if it writes one.
    pub fn from_value(v: &Value) -> (r: Option<SkipAction>)
        ensures
            match r {
                Some(action) => decode_skip(v@) == Some(action@),
                None => decode_skip(v@).is_none(),
            },
    {
        match v.member("action") {
            Some(Value::Str(name)) => {
                let skip = "skip".to_owned();
                let use_default = "useDefault".to_owned();
                if *name == skip {
                    Some(SkipAction::Skip)
                } else if *name == use_default {
                    let default_value = match v.member("defaultValue") {
                        None => None,
                        Some(Value::Null) => None,
                        Some(d) => Some(d.clone()),
                    };
                    Some(SkipAction::UseDefault { default_value })
                } else {
                    None
                }
            },
            _ => None,
        }
    }
}

impl Expr {
    /// The written form of the expression.
    pub fn to_value(&self) -> (v: Value)
        ensures
            v@ == encode_expr(self@),
    {
        match self {
            Expr::Literal(v) => v.clone(),
            Expr::Ref { from, path, on_skip } => {
                let mut members: Vec<Field> = Vec::new();
                members.push(Field::new("$from".to_owned(), from.to_value()));
                match path {
                    Some(p) => {
                        members.push(Field::new("path".to_owned(), Value::string(p.as_str())));
                    },
                    None => {},
                }
                if !on_skip.is_default() {
                    members.push(Field::new("onSkip".to_owned(), on_skip.to_value()));
                }
                assert(object_model(members@) =~= seq![("$from"@, encode_base(from@))]
                    + encode_path(crate::expr::option_text(*path)) + encode_on_skip(on_skip@));
                Value::object(members)
            },
        }
    }

    /// The reference that `v` writes, if it writes one.
    pub fn ref_from_value(v: &Value) -> (r: Option<Expr>)
        ensures
            match r {
                Some(e) => decode_ref(v@) == Some(e@),
                None => decode_ref(v@).is_none(),
            },
    {
        let source = match v.member("$from") {
            Some(source) => source,
            None => {
                return None;
            },
        };
        let from = match BaseRef::from_value(source) {
            Some(from) => from,
            None => {
                return None;
            },
        };
        let path = match v.member("path") {
            None => None,
            Some(Value::Null) => None,
            Some(Value::Str(p)) => Some(p.clone()),
            Some(_) => {
                return None;
            },
        };
        let on_skip = match v.member("onSkip") {
            None => SkipAction::Skip,
            Some(action) => match SkipAction::from_value(action) {
                Some(action) => action,
                None => {
                    return None;
                },
            },
        };
        Some(Expr::Ref { from, path, on_skip })
    }

    /// The expression that `v` writes.
    pub fn from_value(v: &Value) -> (e: Expr)
        ensures
            e@ == decode_expr(v@),
    {
        match Expr::ref_from_value(v) {
            Some(e) => e,
            None => Expr::Literal(v.clone()),
        }
    }
}

/// The member `data` of a written error, where the error has data.
pub open spec fn encode_data(data: Option<Json>) -> Seq<(Seq<char>, Json)> {
    match data {
        Some(d) => seq![("data"@, d)],
        None => Seq::empty(),
    }
}

/// The written form of an error: an object with the members `code` and
/// `message`, and `data` where the error has data.
pub open spec fn encode_error(e: FlowErrorModel) -> Json {
    Json::Object(
        seq![("code"@, Json::Int(e.code)), ("message"@, Json::Str(e.message))] + encode_data(
            e.data,
        ),
    )
}

/// The written form of a result: an object whose member `outcome` is
/// `success`, `skipped` or `failed`, with the value as `result` or the
/// error as `error`.
pub open spec fn encode_result(r: Outcome) -> Json {
    match r {
        Outcome::Success(v) => Json::Object(
            seq![("outcome"@, Json::Str("success"@)), ("result"@, v)],
        ),
        Outcome::Skipped => Json::Object(seq![("outcome"@, Json::Str("skipped"@))]),
        Outcome::Failed(e) => Json::Object(
            seq![("outcome"@, Json::Str("failed"@)), ("error"@, encode_error(e))],
        ),
    }
}

/// The error that `v` writes, if it writes one: its code is a number that
/// fits in 64 bits, its message is text, and its data, if it has any, is
/// not null.
pub open spec fn decode_error(v: Json) -> Option<FlowErrorModel> {
    match (v.member("code"@), v.member("message"@)) {
        (Some(Json::Int(code)), Some(Json::Str(message))) => if i64::MIN <= code <= i64::MAX {
            Some(FlowErrorModel { code, message, data: decode_default(v.member("data"@)) })
        } else {
            None
        },
        _ => None,
    }
}

/// The result that `v` writes, if it writes one.
pub open spec fn decode_result(v: Json) -> Option<Outcome> {
    match v.member("outcome"@) {
        Some(Json::Str(kind)) => if kind == "success"@ {
            match v.member("result"@) {
                Some(value) => Some(Outcome::Success(value)),
                None => None,
            }
        } else if kind == "skipped"@ {
            Some(Outcome::Skipped)
        } else if kind == "failed"@ {
            match v.member("error"@) {
                Some(error) => match decode_error(error) {
                    Some(e) => Some(Outcome::Failed(e)),
                    None => None,
                },
                None => None,
            }
        } else {
            None
        },
        _ => None,
    }
}

/// The names of the members and of the outcomes differ.
proof fn lemma_result_names_differ()
    ensures
        "code"@ != "message"@,
        "code"@ != "data"@,
        "message"@ != "data"@,
        "outcome"@ != "result"@,
        "outcome"@ != "error"@,
        "success"@ != "skipped"@,
        "success"@ != "failed"@,
        "skipped"@ != "failed"@,
{
    reveal_strlit("code");
    reveal_strlit("message");
    reveal_strlit("data");
    reveal_strlit("outcome");
    reveal_strlit("result");
    reveal_strlit("error");
    reveal_strlit("success");
    reveal_strlit("skipped");
    reveal_strlit("failed");
    assert("code"@.len() == 4);
    assert("message"@.len() == 7);
    assert("data"@.len() == 4);
    assert("code"@[0] == 'c');
    assert("data"@[0] == 'd');
    assert("outcome"@.len() == 7);
    assert("result"@.len() == 6);
    assert("error"@.len() == 5);
    assert("success"@.len() == 7);
    assert("failed"@.len() == 6);
    assert("success"@[1] == 'u');
    assert("skipped"@[1] == 'k');
}

/// A written error reads back as the error, unless its data is null, which
/// reads back as no data.
pub proof fn lemma_error_round_trip(e: FlowErrorModel)
    requires
        i64::MIN <= e.code <= i64::MAX,
        e.data != Some(Json::Null),
    ensures
        decode_error(encode_error(e)) == Some(e),
{
    lemma_result_names_differ();
    let members = seq![("code"@, Json::Int(e.code)), ("message"@, Json::Str(e.message))]
        + encode_data(e.data);
    lemma_first_member_at(members, "code"@, 0);
    lemma_first_member_at(members, "message"@, 1);
    match e.data {
        Some(d) => {
            lemma_first_member_at(members, "data"@, 2);
        },
        None => {
            lemma_first_member_none(members, "data"@);
        },
    }
}

/// A written result reads back as the result, unless it is a failure whose
/// data is null.
pub proof fn lemma_result_round_trip(r: Outcome)
    requires
        r matches Outcome::Failed(e) ==> i64::MIN <= e.code <= i64::MAX && e.data != Some(
            Json::Null,
        ),
    ensures
        decode_result(encode_result(r)) == Some(r),
{
    lemma_result_names_differ();
    match r {
        Outcome::Success(v) => {
            let members = seq![("outcome"@, Json::Str("success"@)), ("result"@, v)];
            lemma_first_member_at(members, "outcome"@, 0);
            lemma_first_member_at(members, "result"@, 1);
        },
        Outcome::Skipped => {
            let members = seq![("outcome"@, Json::Str("skipped"@))];
            lemma_first_member_at(members, "outcome"@, 0);
        },
        Outcome::Failed(e) => {
            let members = seq![("outcome"@, Json::Str("failed"@)), ("error"@, encode_error(e))];
            lemma_first_member_at(members, "outcome"@, 0);
            lemma_first_member_at(members, "error"@, 1);
            lemma_error_round_trip(e);
        },
    }
}

impl FlowError {
    /// The written form of the error.
    pub fn to_value(&self) -> (v: Value)
        ensures
            v@ == encode_error(self@),
    {
        let mut members: Vec<Field> = Vec::new();
        members.push(Field::new("code".to_owned(), Value::Int(self.code as i128)));
        members.push(Field::new("message".to_owned(), Value::string(self.message.as_str())));
        match &self.data {
            Some(d) => {
                members.push(Field::new("data".to_owned(), d.clone()));
            },
            None => {},
        }
        assert(object_model(members@) =~= seq![
            ("code"@, Json::Int(self@.code)),
            ("message"@, Json::Str(self@.message)),
        ] + encode_data(self@.data));
        Value::object(members)
    }

    /// The error that `v` writes, if it writes one.
    pub fn from_value(v: &Value) -> (r: Option<FlowError>)
        ensures
            match r {
                Some(e) => decode_error(v@) == Some(e@),
                None => decode_error(v@).is_none(),
            },
    {
        let code = match v.member("code") {
            Some(Value::Int(n)) => {
                if *n < -0x8000_0000_0000_0000 || *n > 0x7fff_ffff_ffff_ffff {
                    return None;
                }
                *n as i64
            },
            _ => {
                return None;
            },
        };
        let message = match v.member("message") {
            Some(Value::Str(m)) => m.clone(),
            _ => {
                return None;
            },
        };
        let data = match v.member("data") {
            None => None,
            Some(Value::Null) => None,
            Some(d) => Some(d.clone()),
        };
        Some(FlowError { code, message, data })
    }
}

impl FlowResult {
    /// The written form of the result.
    pub fn to_value(&self) -> (v: Value)
        ensures
            v@ == encode_result(self@),
    {
        match self {
            FlowResult::Success { result } => {
                let mut members: Vec<Field> = Vec::new();
                members.push(Field::new("outcome".to_owned(), Value::string("success")));
                members.push(Field::new("result".to_owned(), result.clone()));
                assert(object_model(members@) =~= seq![
                    ("outcome"@, Json::Str("success"@)),
                    ("result"@, result@),
                ]);
                Value::object(members)
            },
            FlowResult::Skipped => single("outcome", Value::string("skipped")),
            FlowResult::Failed { error } => {
                let mut members: Vec<Field> = Vec::new();
                members.push(Field::new("outcome".to_owned(), Value::string("failed")));
                members.push(Field::new("error".to_owned(), error.to_value()));
                assert(object_model(members@) =~= seq![
                    ("outcome"@, Json::Str("failed"@)),
                    ("error"@, encode_error(error@)),
                ]);
                Value::object(members)
            },
        }
    }

    /// The result that `v` writes, if it writes one.
    pub fn from_value(v: &Value) -> (r: Option<FlowResult>)
        ensures
            match r {
                Some(result) => decode_result(v@) == Some(result@),
                None => decode_result(v@).is_none(),
            },
    {
        match v.member("outcome") {
            Some(Value::Str(kind)) => {
                let success = "success".to_owned();
                let skipped = "skipped".to_owned();
                let failed = "failed".to_owned();
                if *kind == success {
                    match v.member("result") {
                        Some(value) => Some(FlowResult::Success { result: value.clone() }),
                        None => None,
                    }
                } else if *kind == skipped {
                    Some(FlowResult::Skipped)
                } else if *kind == failed {
                    match v.member("error") {
                        Some(error) => match FlowError::from_value(error) {
                            Some(e) => Some(FlowResult::Failed { error: e }),
                            None => None,
                        },
                        None => None,
                    }
                } else {
                    None
                }
            },
            _ => None,
        }
    }
}

} // verus!
