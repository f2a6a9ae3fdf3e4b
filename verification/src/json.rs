//! Statements as trees of a structured, human-readable format: maps of
//! named members, lists, texts, numbers and the empty value. The host
//! writes such a tree out in the notation it likes.

use crate::text::{push_text, same_text};
use crate::values::{
    statements_model, values_model, EllexFunction, EllexValue, Statement, StatementModel,
    ValueModel,
};
use vstd::prelude::*;

verus! {

/// A tree of the structured format.
#[derive(Debug)]
pub enum Json {
    Null,
    Text(String),
    /// A whole number.
    Integer(u64),
    /// The IEEE-754 bit pattern of a double.
    Number(u64),
    Array(Vec<Json>),
    /// Named members, in the order in which they were written.
    Object(Vec<(String, Json)>),
}

/// The model of a tree.
pub enum JsonModel {
    Null,
    Text(Seq<char>),
    Integer(u64),
    Number(u64),
    Array(Seq<JsonModel>),
    Object(Seq<(Seq<char>, JsonModel)>),
}

pub open spec fn json_model(j: Json) -> JsonModel
    decreases j,
{
    match j {
        Json::Null => JsonModel::Null,
        Json::Text(t) => JsonModel::Text(t@),
        Json::Integer(n) => JsonModel::Integer(n),
        Json::Number(bits) => JsonModel::Number(bits),
        Json::Array(items) => JsonModel::Array(jsons_model(items)),
        Json::Object(members) => JsonModel::Object(members_model(members)),
    }
}

pub open spec fn jsons_model(items: Vec<Json>) -> Seq<JsonModel>
    decreases items,
{
    Seq::new(
        items.len() as nat,
        |i: int|
            if 0 <= i < items.len() {
                json_model(items[i])
            } else {
                JsonModel::Null
            },
    )
}

pub open spec fn members_model(members: Vec<(String, Json)>) -> Seq<(Seq<char>, JsonModel)>
    decreases members,
{
    Seq::new(
        members.len() as nat,
        |i: int|
            if 0 <= i < members.len() {
                (members[i].0@, json_model(members[i].1))
            } else {
                (Seq::empty(), JsonModel::Null)
            },
    )
}

impl View for Json {
    type V = JsonModel;

    open spec fn view(&self) -> JsonModel {
        json_model(*self)
    }
}

pub open spec fn text(s: Seq<char>) -> JsonModel {
    JsonModel::Text(s)
}

/// A call of `function` with `args`; `module` names where the function
/// lives, if it lives in one.
pub open spec fn call(module: Option<Seq<char>>, function: Seq<char>, args: Seq<JsonModel>) -> JsonModel {
    JsonModel::Object(
        match module {
            Some(m) => seq![
                ("op"@, text("call"@)),
                ("module"@, text(m)),
                ("function"@, text(function)),
                ("args"@, JsonModel::Array(args)),
            ],
            None => seq![
                ("op"@, text("call"@)),
                ("function"@, text(function)),
                ("args"@, JsonModel::Array(args)),
            ],
        },
    )
}

/// The tree of a value: a text, a number, a list, the empty value; a
/// function is a map of its type, its name and its parameters.
pub open spec fn value_json(v: ValueModel) -> JsonModel
    decreases v, 0nat,
{
    match v {
        ValueModel::Text(s) => JsonModel::Text(s),
        ValueModel::Number(bits) => JsonModel::Number(bits),
        ValueModel::List(items) => JsonModel::Array(values_json(items)),
        ValueModel::Function(f) => JsonModel::Object(
            seq![
                ("type"@, text("function"@)),
                ("name"@, text(f.name)),
                ("params"@, JsonModel::Array(Seq::new(f.params.len(), |i: int| text(f.params[i])))),
            ],
        ),
        ValueModel::Nil => JsonModel::Null,
    }
}

pub open spec fn values_json(items: Seq<ValueModel>) -> Seq<JsonModel>
    decreases items, 0nat,
{
    Seq::new(
        items.len(),
        |i: int|
            if 0 <= i < items.len() {
                value_json(items[i])
            } else {
                JsonModel::Null
            },
    )
}

/// The tree of a statement:
///
/// - an output is a call of `Kernel.inspect` with the value;
/// - a prompt assigns to the variable what a call of `IO.gets` with the
///   prompt "Enter ", the name, ": " gives;
/// - an assignment names the variable and the value;
/// - a loop is a call of `Enum.each` with the range from one to the count
///   and a function of one unnamed argument that holds the body;
/// - a conditional tests the variable for equality with the value and
///   holds both bodies, the empty value where there is no second;
/// - a call names the function and has no arguments.
pub open spec fn statement_json(s: StatementModel) -> JsonModel
    decreases s, 0nat,
{
    match s {
        StatementModel::Assignment(variable, value) => JsonModel::Object(
            seq![
                ("op"@, text("assign"@)),
                ("variable"@, text(variable)),
                ("value"@, value_json(value)),
            ],
        ),
        StatementModel::Tell(value) => call(Some("Kernel"@), "inspect"@, seq![value_json(value)]),
        StatementModel::Ask(variable, _) => JsonModel::Object(
            seq![
                ("op"@, text("assign"@)),
                ("var"@, text(variable)),
                (
                    "value"@,
                    call(Some("IO"@), "gets"@, seq![text("Enter "@ + variable + ": "@)]),
                ),
            ],
        ),
        StatementModel::Repeat(times, body) => call(
            Some("Enum"@),
            "each"@,
            seq![
                JsonModel::Object(
                    seq![
                        ("op"@, text("range"@)),
                        ("start"@, JsonModel::Integer(1)),
                        ("end"@, JsonModel::Integer(times as u64)),
                    ],
                ),
                JsonModel::Object(
                    seq![
                        ("op"@, text("fn"@)),
                        ("args"@, JsonModel::Array(seq![text("_"@)])),
                        ("body"@, JsonModel::Array(statements_json(body))),
                    ],
                ),
            ],
        ),
        StatementModel::When(variable, value, then_body, else_body) => JsonModel::Object(
            seq![
                ("op"@, text("if"@)),
                (
                    "condition"@,
                    JsonModel::Object(
                        seq![
                            ("op"@, text("=="@)),
                            ("left"@, JsonModel::Object(seq![("var"@, text(variable))])),
                            ("right"@, value_json(value)),
                        ],
                    ),
                ),
                ("then"@, JsonModel::Array(statements_json(then_body))),
                (
                    "else"@,
                    match else_body {
                        Some(b) => JsonModel::Array(statements_json(b)),
                        None => JsonModel::Null,
                    },
                ),
            ],
        ),
        StatementModel::Call(name) => call(None, name, Seq::empty()),
    }
}

pub open spec fn statements_json(body: Seq<StatementModel>) -> Seq<JsonModel>
    decreases body, 0nat,
{
    Seq::new(
        body.len(),
        |i: int|
            if 0 <= i < body.len() {
                statement_json(body[i])
            } else {
                JsonModel::Null
            },
    )
}

/// The member of the name `key` that was written first, if `members` has
/// one.
pub open spec fn member(members: Seq<(Seq<char>, JsonModel)>, key: Seq<char>, from: int) -> Option<
    JsonModel,
>
    decreases members.len() - from,
{
    if from < 0 || from >= members.len() {
        None
    } else if members[from].0 == key {
        Some(members[from].1)
    } else {
        member(members, key, from + 1)
    }
}

fn word(s: &str) -> (j: Json)
    ensures
        j@ == text(s@),
{
    let mut t = String::new();
    push_text(&mut t, s);
    assert(t@ =~= s@);
    Json::Text(t)
}

fn named(name: &str, value: Json) -> (m: (String, Json))
    ensures
        m.0@ == name@,
        m.1@ == value@,
{
    let mut t = String::new();
    push_text(&mut t, name);
    assert(t@ =~= name@);
    (t, value)
}

fn object3(a: (String, Json), b: (String, Json), c: (String, Json)) -> (j: Json)
    ensures
        j@ == JsonModel::Object(seq![(a.0@, a.1@), (b.0@, b.1@), (c.0@, c.1@)]),
{
    let mut members: Vec<(String, Json)> = Vec::new();
    members.push(a);
    members.push(b);
    members.push(c);
    assert(members_model(members) =~= seq![(a.0@, a.1@), (b.0@, b.1@), (c.0@, c.1@)]);
    Json::Object(members)
}

fn object4(a: (String, Json), b: (String, Json), c: (String, Json), d: (String, Json)) -> (j: Json)
    ensures
        j@ == JsonModel::Object(seq![(a.0@, a.1@), (b.0@, b.1@), (c.0@, c.1@), (d.0@, d.1@)]),
{
    let mut members: Vec<(String, Json)> = Vec::new();
    members.push(a);
    members.push(b);
    members.push(c);
    members.push(d);
    assert(members_model(members) =~= seq![(a.0@, a.1@), (b.0@, b.1@), (c.0@, c.1@), (d.0@, d.1@)]);
    Json::Object(members)
}

fn call_of(module: Option<&str>, function: &str, args: Vec<Json>) -> (j: Json)
    ensures
        j@ == call(
            match module {
                Some(m) => Some(m@),
                None => None,
            },
            function@,
            jsons_model(args),
        ),
{
    match module {
        Some(m) => object4(
            named("op", word("call")),
            named("module", word(m)),
            named("function", word(function)),
            named("args", Json::Array(args)),
        ),
        None => object3(
            named("op", word("call")),
            named("function", word(function)),
            named("args", Json::Array(args)),
        ),
    }
}

fn one(a: Json) -> (v: Vec<Json>)
    ensures
        jsons_model(v) == seq![a@],
{
    let mut v: Vec<Json> = Vec::new();
    v.push(a);
    assert(jsons_model(v) =~= seq![a@]);
    v
}

fn two(a: Json, b: Json) -> (v: Vec<Json>)
    ensures
        jsons_model(v) == seq![a@, b@],
{
    let mut v: Vec<Json> = Vec::new();
    v.push(a);
    v.push(b);
    assert(jsons_model(v) =~= seq![a@, b@]);
    v
}

fn function_json(f: &EllexFunction) -> (j: Json)
    ensures
        j@ == value_json(ValueModel::Function(f@)),
{
    let mut params: Vec<Json> = Vec::new();
    let mut i: usize = 0;
    while i < f.params.len()
        invariant
            0 <= i <= f.params.len(),
            params.len() == i,
            forall|k: int| 0 <= k < i ==> params[k]@ == text(f.params[k]@),
        decreases f.params.len() - i,
    {
        params.push(word(f.params[i].as_str()));
        i += 1;
    }
    assert(jsons_model(params) =~= Seq::new(f@.params.len(), |k: int| text(f@.params[k])));
    object3(
        named("type", word("function")),
        named("name", word(f.name.as_str())),
        named("params", Json::Array(params)),
    )
}

/// The tree of a value.
pub fn ellex_value_to_json(value: &EllexValue) -> (j: Json)
    ensures
        j@ == value_json(value@),
    decreases value,
{
    match value {
        EllexValue::String(s) => word(s.as_str()),
        EllexValue::Number(bits) => Json::Number(*bits),
        EllexValue::List(items) => {
            let mut out: Vec<Json> = Vec::new();
            let mut i: usize = 0;
            while i < items.len()
                invariant
                    0 <= i <= items.len(),
                    out.len() == i,
                    *value is List,
                    value->List_0 == *items,
                    forall|k: int| 0 <= k < i ==> out[k]@ == value_json(items[k]@),
                decreases items.len() - i,
            {
                proof {
                    assert(decreases_to!(*value => value->List_0));
                    assert(decreases_to!(value->List_0 => items[i as int]));
                }
                out.push(ellex_value_to_json(&items[i]));
                i += 1;
            }
            assert(values_model(*items).len() == items.len());
            assert(jsons_model(out) =~= values_json(values_model(*items))) by {
                assert forall|k: int| 0 <= k < out.len() implies jsons_model(out)[k] == values_json(
                    values_model(*items),
                )[k] by {
                    assert(values_model(*items)[k] == items[k]@);
                }
            }
            Json::Array(out)
        },
        EllexValue::Function(f) => function_json(f),
        EllexValue::Nil => Json::Null,
    }
}

/// The trees of the statements of `body`.
pub fn ellex_to_json(body: &Vec<Statement>) -> (out: Vec<Json>)
    ensures
        jsons_model(out) == statements_json(statements_model(*body)),
    decreases body, 1nat,
{
    let mut out: Vec<Json> = Vec::new();
    let mut i: usize = 0;
    while i < body.len()
        invariant
            0 <= i <= body.len(),
            out.len() == i,
            forall|k: int| 0 <= k < i ==> out[k]@ == statement_json(body[k]@),
        decreases body.len() - i,
    {
        proof {
            assert(decreases_to!(body => body[i as int]));
        }
        out.push(statement_to_json(&body[i]));
        i += 1;
    }
    assert(statements_model(*body).len() == body.len());
    assert(jsons_model(out) =~= statements_json(statements_model(*body))) by {
        assert forall|k: int| 0 <= k < out.len() implies jsons_model(out)[k] == statements_json(
            statements_model(*body),
        )[k] by {
            assert(statements_model(*body)[k] == body[k]@);
        }
    }
    out
}

/// The tree of a statement.
pub fn statement_to_json(stmt: &Statement) -> (j: Json)
    ensures
        j@ == statement_json(stmt@),
    decreases stmt, 0nat,
{
    match stmt {
        Statement::Assignment(variable, value) => {
            let j = object3(
                named("op", word("assign")),
                named("variable", word(variable.as_str())),
                named("value", ellex_value_to_json(value)),
            );
            assert(j@ == statement_json(stmt@));
            j
        },
        Statement::Tell(value) => {
            let j = call_of(Some("Kernel"), "inspect", one(ellex_value_to_json(value)));
            assert(j@ == statement_json(stmt@));
            j
        },
        Statement::Ask(variable, hint) => {
            let mut prompt = String::from_str("Enter ");
            push_text(&mut prompt, variable.as_str());
            push_text(&mut prompt, ": ");
            assert(prompt@ =~= "Enter "@ + variable@ + ": "@);
            let j = object3(
                named("op", word("assign")),
                named("var", word(variable.as_str())),
                named("value", call_of(Some("IO"), "gets", one(Json::Text(prompt)))),
            );
            assert(j@ == statement_json(stmt@));
            j
        },
        Statement::Repeat(times, body) => {
            proof {
                assert(decreases_to!(*stmt => stmt->Repeat_1));
            }
            assert(stmt@ == StatementModel::Repeat(*times, statements_model(*body)));
            let range = object3(
                named("op", word("range")),
                named("start", Json::Integer(1)),
                named("end", Json::Integer(*times as u64)),
            );
            let function = object3(
                named("op", word("fn")),
                named("args", Json::Array(one(word("_")))),
                named("body", Json::Array(ellex_to_json(body))),
            );
            let j = call_of(Some("Enum"), "each", two(range, function));
            assert(j@ == statement_json(stmt@));
            j
        },
        Statement::When(variable, value, then_body, else_body) => {
            proof {
                assert(decreases_to!(*stmt => stmt->When_2));
            }
            assert(stmt@ == StatementModel::When(
                variable@,
                value@,
                statements_model(*then_body),
                match else_body {
                    Some(b) => Some(statements_model(*b)),
                    None => None,
                },
            ));
            let mut left: Vec<(String, Json)> = Vec::new();
            left.push(named("var", word(variable.as_str())));
            assert(members_model(left) =~= seq![("var"@, text(variable@))]);
            let condition = object3(
                named("op", word("==")),
                named("left", Json::Object(left)),
                named("right", ellex_value_to_json(value)),
            );
            let otherwise = match else_body {
                Some(b) => {
                    proof {
                        assert(decreases_to!(*stmt => stmt->When_3));
                        assert(decreases_to!(stmt->When_3 => b));
                    }
                    Json::Array(ellex_to_json(b))
                },
                None => Json::Null,
            };
            assert(otherwise@ == match else_body {
                Some(b) => JsonModel::Array(statements_json(statements_model(*b))),
                None => JsonModel::Null,
            });
            assert(condition@ == JsonModel::Object(
                seq![
                    ("op"@, text("=="@)),
                    ("left"@, JsonModel::Object(seq![("var"@, text(variable@))])),
                    ("right"@, value_json(value@)),
                ],
            ));
            let then_part = Json::Array(ellex_to_json(then_body));
            assert(then_part@ == JsonModel::Array(statements_json(statements_model(*then_body))));
            let j = object4(
                named("op", word("if")),
                named("condition", condition),
                named("then", then_part),
                named("else", otherwise),
            );
            proof {
                let else_model = match else_body {
                    Some(b) => Some(statements_model(*b)),
                    None => None,
                };
                let whole = statement_json(
                    StatementModel::When(
                        variable@,
                        value@,
                        statements_model(*then_body),
                        else_model,
                    ),
                );
                assert(whole->Object_0 =~= seq![
                    ("op"@, text("if"@)),
                    ("condition"@, condition@),
                    ("then"@, then_part@),
                    ("else"@, otherwise@),
                ]) by {
                    match else_body {
                        Some(b) => {
                            assert(else_model == Some(statements_model(*b)));
                        },
                        None => {
                            assert(else_model is None);
                        },
                    }
                }
            }
            assert(j@ == statement_json(stmt@));
            j
        },
        Statement::Call(name) => {
            let args: Vec<Json> = Vec::new();
            assert(jsons_model(args) =~= Seq::<JsonModel>::empty());
            let j = call_of(None, name.as_str(), args);
            assert(j@ == statement_json(stmt@));
            j
        },
    }
}

impl Json {
    /// The member of the name `key` that was written first, if the tree is
    /// a map and has one.
    pub fn get(&self, key: &str) -> (r: Option<&Json>)
        ensures
            match r {
                Some(j) => self is Object && member(members_model(self->Object_0), key@, 0) == Some(
                    j@,
                ),
                None => !(self is Object) || member(members_model(self->Object_0), key@, 0) is None,
            },
    {
        match self {
            Json::Object(members) => {
                let ghost model = members_model(*members);
                let mut i: usize = 0;
                while i < members.len()
                    invariant
                        0 <= i <= members.len(),
                        model == members_model(*members),
                        model.len() == members.len(),
                        *self is Object,
                        self->Object_0 == *members,
                        member(model, key@, 0) == member(model, key@, i as int),
                    decreases members.len() - i,
                {
                    assert(model[i as int] == (members[i as int].0@, members[i as int].1@));
                    if same_text(members[i].0.as_str(), key) {
                        assert(member(model, key@, i as int) == Some(members[i as int].1@));
                        assert(self->Object_0 == *members);
                        return Some(&members[i].1);
                    }
                    assert(model[i as int].0 != key@);
                    i += 1;
                }
                None
            },
            _ => None,
        }
    }
}

} // verus!
