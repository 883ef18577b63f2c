//! The outcome of a step or of a whole flow.

use crate::value::{clone_option, option_json, same_option, Json, Value};
use vstd::prelude::*;

verus! {

/// The code of the error that a missing member or element raises.
pub const FLOW_ERROR_UNDEFINED_FIELD: i64 = 1;

/// An error reported from within a flow or step.
#[derive(Debug)]
pub struct FlowError {
    pub code: i64,
    pub message: String,
    pub data: Option<Value>,
}

/// The mathematical content of a [`FlowError`].
pub ghost struct FlowErrorModel {
    pub code: int,
    pub message: Seq<char>,
    pub data: Option<Json>,
}

impl View for FlowError {
    type V = FlowErrorModel;

    open spec fn view(&self) -> FlowErrorModel {
        FlowErrorModel {
            code: self.code as int,
            message: self.message@,
            data: option_json(self.data),
        }
    }
}

impl FlowError {
    /// An error with a code and a message, and no data.
    pub fn new(code: i64, message: &str) -> (e: FlowError)
        ensures
            e@ == (FlowErrorModel { code: code as int, message: message@, data: None }),
    {
        FlowError { code, message: message.to_owned(), data: None }
    }

    /// The same error, carrying `data`.
    pub fn with_data(self, data: Value) -> (e: FlowError)
        ensures
            e@ == (FlowErrorModel {
                code: self@.code,
                message: self@.message,
                data: Some(data@),
            }),
    {
        FlowError { code: self.code, message: self.message, data: Some(data) }
    }
}

/// The text of one decimal digit.
pub open spec fn digit_text(d: nat) -> Seq<char> {
    if d == 0 {
        "0"@
    } else if d == 1 {
        "1"@
    } else if d == 2 {
        "2"@
    } else if d == 3 {
        "3"@
    } else if d == 4 {
        "4"@
    } else if d == 5 {
        "5"@
    } else if d == 6 {
        "6"@
    } else if d == 7 {
        "7"@
    } else if d == 8 {
        "8"@
    } else {
        "9"@
    }
}

/// The decimal text of a number, without leading zeros.
pub open spec fn decimal_text(n: nat) -> Seq<char>
    decreases n,
{
    if n < 10 {
        digit_text(n)
    } else {
        decimal_text(n / 10) + digit_text(n % 10)
    }
}

/// The decimal text of a number with its sign.
pub open spec fn signed_text(n: int) -> Seq<char> {
    if n < 0 {
        "-"@ + decimal_text((-n) as nat)
    } else {
        decimal_text(n as nat)
    }
}

impl FlowErrorModel {
    /// The error in one line: `error(<code>): <message>`.
    pub open spec fn describe(self) -> Seq<char> {
        "error("@ + signed_text(self.code) + "): "@ + self.message
    }
}

/// Appends the decimal text of `n` to `out`.
fn push_decimal(n: u64, out: &mut String)
    ensures
        final(out)@ == old(out)@ + decimal_text(n as nat),
    decreases n,
{
    if n >= 10 {
        push_decimal(n / 10, out);
    }
    let d = n % 10;
    let digit = if d == 0 {
        "0"
    } else if d == 1 {
        "1"
    } else if d == 2 {
        "2"
    } else if d == 3 {
        "3"
    } else if d == 4 {
        "4"
    } else if d == 5 {
        "5"
    } else if d == 6 {
        "6"
    } else if d == 7 {
        "7"
    } else if d == 8 {
        "8"
    } else {
        "9"
    };
    out.append(digit);
    assert(out@ =~= old(out)@ + decimal_text(n as nat));
}

impl FlowError {
    /// The error in one line, as it is shown to people.
    pub fn describe(&self) -> (s: String)
        ensures
            s@ == self@.describe(),
    {
        let mut out = "error(".to_owned();
        if self.code < 0 {
            out.append("-");
            let magnitude: u64 = if self.code == i64::MIN {
                0x8000_0000_0000_0000
            } else {
                (-self.code) as u64
            };
            push_decimal(magnitude, &mut out);
        } else {
            push_decimal(self.code as u64, &mut out);
        }
        out.append("): ");
        out.append(self.message.as_str());
        assert(out@ =~= self@.describe());
        out
    }
}

impl Clone for FlowError {
    fn clone(&self) -> (r: FlowError)
        ensures
            r@ == self@,
    {
        FlowError {
            code: self.code,
            message: self.message.clone(),
            data: clone_option(&self.data),
        }
    }
}

impl PartialEq for FlowError {
    fn eq(&self, other: &Self) -> (r: bool) {
        self.code == other.code && self.message == other.message && same_option(
            &self.data,
            &other.data,
        )
    }
}

impl vstd::std_specs::cmp::PartialEqSpecImpl for FlowError {
    open spec fn obeys_eq_spec() -> bool {
        true
    }

    open spec fn eq_spec(&self, other: &Self) -> bool {
        self@ == other@
    }
}

/// The results of a step execution.
#[derive(Debug)]
pub enum FlowResult {
    /// The step execution was successful.
    Success { result: Value },
    /// The step was skipped.
    Skipped,
    /// The step failed with the given error.
    Failed { error: FlowError },
}

/// The mathematical content of a [`FlowResult`].
pub ghost enum Outcome {
    Success(Json),
    Skipped,
    Failed(FlowErrorModel),
}

impl View for FlowResult {
    type V = Outcome;

    open spec fn view(&self) -> Outcome {
        match self {
            FlowResult::Success { result } => Outcome::Success(result@),
            FlowResult::Skipped => Outcome::Skipped,
            FlowResult::Failed { error } => Outcome::Failed(error@),
        }
    }
}

impl FlowResult {
    /// The value of a successful result.
    pub fn success(&self) -> (r: Option<Value>)
        ensures
            option_json(r) == (match self@ {
                Outcome::Success(v) => Some(v),
                _ => None,
            }),
    {
        match self {
            FlowResult::Success { result } => Some(result.clone()),
            _ => None,
        }
    }

    /// Whether the step was skipped.
    pub fn skipped(&self) -> (r: bool)
        ensures
            r == (self@ is Skipped),
    {
        match self {
            FlowResult::Skipped => true,
            _ => false,
        }
    }

    /// The error of a failed result.
    pub fn failed(&self) -> (r: Option<&FlowError>)
        ensures
            match r {
                Some(e) => self@ == Outcome::Failed(e@),
                None => !(self@ is Failed),
            },
    {
        match self {
            FlowResult::Failed { error } => Some(error),
            _ => None,
        }
    }
}

impl Clone for FlowResult {
    fn clone(&self) -> (r: FlowResult)
        ensures
            r@ == self@,
    {
        match self {
            FlowResult::Success { result } => FlowResult::Success { result: result.clone() },
            FlowResult::Skipped => FlowResult::Skipped,
            FlowResult::Failed { error } => FlowResult::Failed { error: error.clone() },
        }
    }
}

impl PartialEq for FlowResult {
    fn eq(&self, other: &Self) -> (r: bool) {
        match (self, other) {
            (FlowResult::Success { result: a }, FlowResult::Success { result: b }) => *a == *b,
            (FlowResult::Skipped, FlowResult::Skipped) => true,
            (FlowResult::Failed { error: a }, FlowResult::Failed { error: b }) => *a == *b,
            _ => false,
        }
    }
}

impl vstd::std_specs::cmp::PartialEqSpecImpl for FlowResult {
    open spec fn obeys_eq_spec() -> bool {
        true
    }

    open spec fn eq_spec(&self, other: &Self) -> bool {
        self@ == other@
    }
}

impl From<Value> for FlowResult {
    fn from(value: Value) -> (r: FlowResult) {
        FlowResult::Success { result: value }
    }
}

impl vstd::std_specs::convert::FromSpecImpl<Value> for FlowResult {
    open spec fn obeys_from_spec() -> bool {
        true
    }

    open spec fn from_spec(value: Value) -> FlowResult {
        FlowResult::Success { result: value }
    }
}

} // verus!
