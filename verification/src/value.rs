//! JSON-like values that flow between the steps of a workflow.
//!
//! [`Value`] is the executable tree; [`Json`] is its mathematical content.
//! Every contract in this crate that speaks of a value speaks of its view.

use vstd::prelude::*;

verus! {

/// The mathematical content of a [`Value`].
pub ghost enum Json {
    Null,
    Bool(bool),
    Int(int),
    Real(u64),
    Str(Seq<char>),
    Array(Seq<Json>),
    Object(Seq<(Seq<char>, Json)>),
}

/// One named member of an object value.
#[derive(Debug)]
pub struct Field {
    pub name: String,
    pub value: Value,
}

/// A JSON-like value.
#[derive(Debug)]
pub enum Value {
    Null,
    Bool(bool),
    /// An integral number.
    Int(i128),
    /// A non-integral number, kept as the bit pattern of its 64-bit encoding.
    Real(u64),
    Str(String),
    Array(Vec<Value>),
    /// Members in the order in which they were written.
    Object(Vec<Field>),
}

/// The content of `v`.
pub open spec fn json_of(v: Value) -> Json
    decreases v, 0nat,
{
    match v {
        Value::Null => Json::Null,
        Value::Bool(b) => Json::Bool(b),
        Value::Int(n) => Json::Int(n as int),
        Value::Real(bits) => Json::Real(bits),
        Value::Str(s) => Json::Str(s@),
        Value::Array(items) => Json::Array(jsons_of(items, items.len() as nat)),
        Value::Object(fields) => Json::Object(members_of(fields, fields.len() as nat)),
    }
}

/// The contents of the first `n` of `items`.
pub open spec fn jsons_of(items: Vec<Value>, n: nat) -> Seq<Json>
    decreases items, n,
{
    if n == 0 || n > items.len() {
        Seq::empty()
    } else {
        jsons_of(items, (n - 1) as nat).push(json_of(items[n - 1]))
    }
}

/// The names and contents of the first `n` of `fields`.
pub open spec fn members_of(fields: Vec<Field>, n: nat) -> Seq<(Seq<char>, Json)>
    decreases fields, n,
{
    if n == 0 || n > fields.len() {
        Seq::empty()
    } else {
        members_of(fields, (n - 1) as nat).push((fields[n - 1].name@, json_of(fields[n - 1].value)))
    }
}

impl View for Value {
    type V = Json;

    open spec fn view(&self) -> Json {
        json_of(*self)
    }
}

/// The contents of a list of values, element by element.
pub open spec fn array_model(items: Seq<Value>) -> Seq<Json> {
    Seq::new(items.len(), |i: int| items[i]@)
}

/// The contents of a list of members, member by member.
pub open spec fn object_model(fields: Seq<Field>) -> Seq<(Seq<char>, Json)> {
    Seq::new(fields.len(), |i: int| (fields[i].name@, fields[i].value@))
}

/// The contents of the first `n` values, written with `Seq::new`.
proof fn lemma_jsons_of(items: Vec<Value>, n: nat)
    requires
        n <= items.len(),
    ensures
        jsons_of(items, n) == array_model(items@.take(n as int)),
    decreases n,
{
    if n > 0 {
        lemma_jsons_of(items, (n - 1) as nat);
    }
    assert(jsons_of(items, n) =~= array_model(items@.take(n as int)));
}

/// The contents of the first `n` members, written with `Seq::new`.
proof fn lemma_members_of(fields: Vec<Field>, n: nat)
    requires
        n <= fields.len(),
    ensures
        members_of(fields, n) == object_model(fields@.take(n as int)),
    decreases n,
{
    if n > 0 {
        lemma_members_of(fields, (n - 1) as nat);
    }
    assert(members_of(fields, n) =~= object_model(fields@.take(n as int)));
}

/// An array's view is the list of its elements' views.
pub proof fn lemma_array_view(items: Vec<Value>)
    ensures
        Value::Array(items)@ == Json::Array(array_model(items@)),
{
    lemma_jsons_of(items, items.len() as nat);
    assert(items@.take(items.len() as int) =~= items@);
}

/// An object's view is the list of its members' names and views.
pub proof fn lemma_object_view(fields: Vec<Field>)
    ensures
        Value::Object(fields)@ == Json::Object(object_model(fields@)),
{
    lemma_members_of(fields, fields.len() as nat);
    assert(fields@.take(fields.len() as int) =~= fields@);
}

impl Json {
    /// The first member called `name`, if this is an object that has one.
    pub open spec fn member(self, name: Seq<char>) -> Option<Json> {
        match self {
            Json::Object(members) => first_member(members, name),
            _ => None,
        }
    }

    /// The element at position `index`, if this is an array that long.
    pub open spec fn element(self, index: int) -> Option<Json> {
        match self {
            Json::Array(items) => if 0 <= index < items.len() {
                Some(items[index])
            } else {
                None
            },
            _ => None,
        }
    }
}

/// The value of the first of `members` that is called `name`.
pub open spec fn first_member(members: Seq<(Seq<char>, Json)>, name: Seq<char>) -> Option<Json>
    decreases members.len(),
{
    if members.len() == 0 {
        None
    } else if members[0].0 == name {
        Some(members[0].1)
    } else {
        first_member(members.drop_first(), name)
    }
}

/// `first_member` finds the member at `at` when no earlier one has the name.
pub proof fn lemma_first_member_at(members: Seq<(Seq<char>, Json)>, name: Seq<char>, at: int)
    requires
        0 <= at < members.len(),
        members[at].0 == name,
        forall|k: int| 0 <= k < at ==> members[k].0 != name,
    ensures
        first_member(members, name) == Some(members[at].1),
    decreases at,
{
    if at > 0 {
        let rest = members.drop_first();
        assert forall|k: int| 0 <= k < at - 1 implies rest[k].0 != name by {
            assert(rest[k] == members[k + 1]);
        }
        lemma_first_member_at(rest, name, at - 1);
    }
}

/// `first_member` finds nothing when no member has the name.
pub proof fn lemma_first_member_none(members: Seq<(Seq<char>, Json)>, name: Seq<char>)
    requires
        forall|k: int| 0 <= k < members.len() ==> members[k].0 != name,
    ensures
        first_member(members, name).is_none(),
    decreases members.len(),
{
    if members.len() > 0 {
        let rest = members.drop_first();
        assert forall|k: int| 0 <= k < rest.len() implies rest[k].0 != name by {
            assert(rest[k] == members[k + 1]);
        }
        lemma_first_member_none(rest, name);
    }
}

impl Field {
    /// A member called `name` that holds `value`.
    pub fn new(name: String, value: Value) -> (f: Field)
        ensures
            f.name@ == name@,
            f.value@ == value@,
    {
        Field { name, value }
    }
}

/// Copies a list of values.
fn clone_items(items: &Vec<Value>) -> (out: Vec<Value>)
    ensures
        array_model(out@) == array_model(items@),
    decreases items,
{
    let mut out: Vec<Value> = Vec::new();
    let mut i: usize = 0;
    while i < items.len()
        invariant
            i <= items.len(),
            out.len() == i,
            forall|k: int| 0 <= k < i ==> out[k]@ == items[k]@,
        decreases items.len() - i,
    {
        let item = clone_value(&items[i]);
        out.push(item);
        i += 1;
    }
    assert(array_model(out@) =~= array_model(items@));
    out
}

/// Copies a list of members.
fn clone_fields(fields: &Vec<Field>) -> (out: Vec<Field>)
    ensures
        object_model(out@) == object_model(fields@),
    decreases fields,
{
    let mut out: Vec<Field> = Vec::new();
    let mut i: usize = 0;
    while i < fields.len()
        invariant
            i <= fields.len(),
            out.len() == i,
            forall|k: int|
                0 <= k < i ==> out[k].name@ == fields[k].name@ && out[k].value@ == fields[k].value@,
        decreases fields.len() - i,
    {
        let value = clone_value(&fields[i].value);
        out.push(Field { name: fields[i].name.clone(), value });
        i += 1;
    }
    assert(object_model(out@) =~= object_model(fields@));
    out
}

/// Copies a value with all that it holds.
fn clone_value(v: &Value) -> (r: Value)
    ensures
        r@ == v@,
    decreases v,
{
    match v {
        Value::Null => Value::Null,
        Value::Bool(b) => Value::Bool(*b),
        Value::Int(n) => Value::Int(*n),
        Value::Real(bits) => Value::Real(*bits),
        Value::Str(s) => Value::Str(s.clone()),
        Value::Array(items) => {
            let out = clone_items(items);
            proof {
                lemma_array_view(*items);
                lemma_array_view(out);
            }
            Value::Array(out)
        },
        Value::Object(fields) => {
            let out = clone_fields(fields);
            proof {
                lemma_object_view(*fields);
                lemma_object_view(out);
            }
            Value::Object(out)
        },
    }
}

impl Clone for Value {
    fn clone(&self) -> (r: Value)
        ensures
            r@ == self@,
    {
        clone_value(self)
    }
}

impl Clone for Field {
    fn clone(&self) -> (r: Field)
        ensures
            r.name@ == self.name@,
            r.value@ == self.value@,
    {
        Field { name: self.name.clone(), value: clone_value(&self.value) }
    }
}

/// Whether two lists of values have the same contents.
fn same_items(a: &Vec<Value>, b: &Vec<Value>) -> (r: bool)
    ensures
        r == (array_model(a@) == array_model(b@)),
    decreases a,
{
    if a.len() != b.len() {
        assert(array_model(a@).len() != array_model(b@).len());
        return false;
    }
    let mut i: usize = 0;
    while i < a.len()
        invariant
            i <= a.len(),
            a.len() == b.len(),
            forall|k: int| 0 <= k < i ==> a[k]@ == b[k]@,
        decreases a.len() - i,
    {
        if !same_value(&a[i], &b[i]) {
            assert(array_model(a@)[i as int] != array_model(b@)[i as int]);
            return false;
        }
        i += 1;
    }
    assert(array_model(a@) =~= array_model(b@));
    true
}

/// Whether two lists of members have the same names and contents.
fn same_fields(a: &Vec<Field>, b: &Vec<Field>) -> (r: bool)
    ensures
        r == (object_model(a@) == object_model(b@)),
    decreases a,
{
    if a.len() != b.len() {
        assert(object_model(a@).len() != object_model(b@).len());
        return false;
    }
    let mut i: usize = 0;
    while i < a.len()
        invariant
            i <= a.len(),
            a.len() == b.len(),
            forall|k: int|
                0 <= k < i ==> a[k].name@ == b[k].name@ && a[k].value@ == b[k].value@,
        decreases a.len() - i,
    {
        if a[i].name != b[i].name || !same_value(&a[i].value, &b[i].value) {
            assert(object_model(a@)[i as int] != object_model(b@)[i as int]);
            return false;
        }
        i += 1;
    }
    assert(object_model(a@) =~= object_model(b@));
    true
}

/// Whether two values have the same content.
fn same_value(a: &Value, b: &Value) -> (r: bool)
    ensures
        r == (a@ == b@),
    decreases a,
{
    match (a, b) {
        (Value::Null, Value::Null) => true,
        (Value::Bool(x), Value::Bool(y)) => *x == *y,
        (Value::Int(x), Value::Int(y)) => *x == *y,
        (Value::Real(x), Value::Real(y)) => *x == *y,
        (Value::Str(x), Value::Str(y)) => *x == *y,
        (Value::Array(x), Value::Array(y)) => {
            proof {
                lemma_array_view(*x);
                lemma_array_view(*y);
            }
            same_items(x, y)
        },
        (Value::Object(x), Value::Object(y)) => {
            proof {
                lemma_object_view(*x);
                lemma_object_view(*y);
            }
            same_fields(x, y)
        },
        _ => false,
    }
}

impl PartialEq for Value {
    fn eq(&self, other: &Self) -> (r: bool) {
        same_value(self, other)
    }
}

impl vstd::std_specs::cmp::PartialEqSpecImpl for Value {
    open spec fn obeys_eq_spec() -> bool {
        true
    }

    open spec fn eq_spec(&self, other: &Self) -> bool {
        self@ == other@
    }
}

impl PartialEq for Field {
    fn eq(&self, other: &Self) -> (r: bool) {
        self.name == other.name && same_value(&self.value, &other.value)
    }
}

impl vstd::std_specs::cmp::PartialEqSpecImpl for Field {
    open spec fn obeys_eq_spec() -> bool {
        true
    }

    open spec fn eq_spec(&self, other: &Self) -> bool {
        self.name@ == other.name@ && self.value@ == other.value@
    }
}

/// The content of an optional value.
pub open spec fn option_json(v: Option<Value>) -> Option<Json> {
    match v {
        Some(v) => Some(v@),
        None => None,
    }
}

/// Copies an optional value.
pub fn clone_option(v: &Option<Value>) -> (r: Option<Value>)
    ensures
        option_json(r) == option_json(*v),
{
    match v {
        Some(v) => Some(clone_value(v)),
        None => None,
    }
}

/// Whether two optional values have the same content.
pub fn same_option(a: &Option<Value>, b: &Option<Value>) -> (r: bool)
    ensures
        r == (option_json(*a) == option_json(*b)),
{
    match (a, b) {
        (Some(x), Some(y)) => same_value(x, y),
        (None, None) => true,
        _ => false,
    }
}

/// Whether `c` is one of the ten decimal digits.
pub open spec fn is_digit(c: char) -> bool {
    48 <= c as u32 <= 57
}

/// The number that the decimal digit `c` writes.
pub open spec fn digit_value(c: char) -> nat {
    if is_digit(c) {
        (c as u32 - 48) as nat
    } else {
        0
    }
}

/// The number that the decimal digits of `s` write.
pub open spec fn decimal_value(s: Seq<char>) -> nat
    decreases s.len(),
{
    if s.len() == 0 {
        0
    } else {
        decimal_value(s.drop_last()) * 10 + digit_value(s.last())
    }
}

/// Whether `s` writes an array position: decimal digits, at least one, and
/// no leading zero before another digit.
pub open spec fn is_index_text(s: Seq<char>) -> bool {
    &&& s.len() > 0
    &&& forall|k: int| 0 <= k < s.len() ==> is_digit(#[trigger] s[k])
    &&& (s.len() > 1 ==> s[0] != '0')
}

/// The array position that `s` writes, if it writes one.
pub open spec fn index_of_text(s: Seq<char>) -> Option<nat> {
    if is_index_text(s) {
        Some(decimal_value(s))
    } else {
        None
    }
}

/// The accessor that a path names: the path itself, without one leading `/`.
pub open spec fn path_token(path: Seq<char>) -> Seq<char> {
    if path.len() > 0 && path[0] == '/' {
        path.drop_first()
    } else {
        path
    }
}

impl Json {
    /// One step into this value: the member that the path names if this is
    /// an object, the element at the position it writes if this is an
    /// array. `None` is a missing member or element.
    pub open spec fn lookup(self, path: Seq<char>) -> Option<Json> {
        let token = path_token(path);
        match self {
            Json::Object(_) => self.member(token),
            Json::Array(_) => match index_of_text(token) {
                Some(i) => self.element(i as int),
                None => None,
            },
            _ => None,
        }
    }
}

/// One more digit multiplies the number by ten and adds the digit.
proof fn lemma_decimal_step(s: Seq<char>, i: int)
    requires
        0 <= i < s.len(),
    ensures
        decimal_value(s.take(i + 1)) == decimal_value(s.take(i)) * 10 + digit_value(s[i]),
{
    assert(s.take(i + 1).drop_last() =~= s.take(i));
    assert(s.take(i + 1).last() == s[i]);
}

/// Reads `token` as an array position below `limit`.
fn parse_index(token: &str, limit: usize) -> (r: Option<usize>)
    ensures
        match r {
            Some(i) => index_of_text(token@) == Some(i as nat) && i < limit,
            None => match index_of_text(token@) {
                Some(n) => n >= limit,
                None => true,
            },
        },
{
    let n = token.unicode_len();
    if n == 0 || limit == 0 {
        return None;
    }
    if n > 1 && token.get_char(0) == '0' {
        return None;
    }
    let mut acc: usize = 0;
    let mut over = false;
    let mut i: usize = 0;
    while i < n
        invariant
            i <= n,
            n == token@.len(),
            0 < limit,
            forall|k: int| 0 <= k < i ==> is_digit(#[trigger] token@[k]),
            !over ==> acc == decimal_value(token@.take(i as int)) && acc < limit,
            over ==> decimal_value(token@.take(i as int)) >= limit,
        decreases n - i,
    {
        let c = token.get_char(i);
        let d = c as u32;
        if d < 48 || d > 57 {
            return None;
        }
        proof {
            lemma_decimal_step(token@, i as int);
        }
        if !over {
            let next: u128 = acc as u128 * 10 + (d - 48) as u128;
            if next >= limit as u128 {
                over = true;
            } else {
                acc = next as usize;
            }
        }
        i += 1;
    }
    assert(token@.take(n as int) =~= token@);
    if over {
        None
    } else {
        Some(acc)
    }
}

impl Value {
    /// The first member called `name`, if this is an object that has one.
    pub fn member(&self, name: &str) -> (r: Option<&Value>)
        ensures
            match r {
                Some(v) => self@.member(name@) == Some(v@),
                None => self@.member(name@).is_none(),
            },
    {
        match self {
            Value::Object(fields) => {
                let key = name.to_owned();
                let mut i: usize = 0;
                proof {
                    lemma_object_view(*fields);
                }
                while i < fields.len()
                    invariant
                        i <= fields.len(),
                        key@ == name@,
                        self@ == Json::Object(object_model(fields@)),
                        forall|k: int| 0 <= k < i ==> fields[k].name@ != name@,
                    decreases fields.len() - i,
                {
                    if fields[i].name == key {
                        proof {
                            lemma_first_member_at(object_model(fields@), name@, i as int);
                        }
                        return Some(&fields[i].value);
                    }
                    i += 1;
                }
                proof {
                    lemma_first_member_none(object_model(fields@), name@);
                }
                None
            },
            _ => None,
        }
    }

    /// The element at position `index`, if this is an array that long.
    pub fn element(&self, index: usize) -> (r: Option<&Value>)
        ensures
            match r {
                Some(v) => self@.element(index as int) == Some(v@),
                None => self@.element(index as int).is_none(),
            },
    {
        match self {
            Value::Array(items) => {
                proof {
                    lemma_array_view(*items);
                }
                if index < items.len() {
                    Some(&items[index])
                } else {
                    None
                }
            },
            _ => None,
        }
    }

    /// One step into this value along `path`; `None` is a missing member or
    /// element.
    pub fn lookup(&self, path: &str) -> (r: Option<&Value>)
        ensures
            match r {
                Some(v) => self@.lookup(path@) == Some(v@),
                None => self@.lookup(path@).is_none(),
            },
    {
        let n = path.unicode_len();
        let token = if n > 0 && path.get_char(0) == '/' {
            path.substring_char(1, n)
        } else {
            path
        };
        assert(token@ == path_token(path@));
        match self {
            Value::Object(_) => self.member(token),
            Value::Array(items) => {
                proof {
                    lemma_array_view(*items);
                }
                match parse_index(token, items.len()) {
                    Some(i) => self.element(i),
                    None => None,
                }
            },
            _ => None,
        }
    }

    /// A string value.
    pub fn string(text: &str) -> (v: Value)
        ensures
            v@ == Json::Str(text@),
    {
        Value::Str(text.to_owned())
    }

    /// An array of `items`.
    pub fn array(items: Vec<Value>) -> (v: Value)
        ensures
            v@ == Json::Array(array_model(items@)),
    {
        proof {
            lemma_array_view(items);
        }
        Value::Array(items)
    }

    /// An object with `fields` as its members, in their order.
    pub fn object(fields: Vec<Field>) -> (v: Value)
        ensures
            v@ == Json::Object(object_model(fields@)),
    {
        proof {
            lemma_object_view(fields);
        }
        Value::Object(fields)
    }
}

} // verus!
