//! Runtime values and the statement tree, with their mathematical models.
//!
//! A value is text, a number, a list, a function or nil. A number is carried
//! by the bit pattern of its double (see [`crate::number`]). Values and
//! statements are plain data: the functions here compare and copy them.

use crate::number::{numbers_equal, same_number};
use vstd::prelude::*;
use vstd::std_specs::cmp::PartialEqSpecImpl;

verus! {

/// A value of the language.
#[derive(Debug)]
pub enum EllexValue {
    String(String),
    /// The IEEE-754 bit pattern of a double.
    Number(u64),
    List(Vec<EllexValue>),
    Function(EllexFunction),
    Nil,
}

/// A user-defined function: its name, its body and the names of its
/// parameters.
#[derive(Debug)]
pub struct EllexFunction {
    pub name: String,
    pub body: Vec<Statement>,
    pub params: Vec<String>,
}

/// A statement of a program.
#[derive(Debug)]
pub enum Statement {
    /// Output a value.
    Tell(EllexValue),
    /// Prompt for input into a variable, with an optional type hint.
    Ask(String, Option<String>),
    /// Run the body a number of times.
    Repeat(u32, Vec<Statement>),
    /// Compare a variable with a value and run one of two bodies.
    When(String, EllexValue, Vec<Statement>, Option<Vec<Statement>>),
    /// Call a function by name.
    Call(String),
    /// Bind a variable to a value.
    Assignment(String, EllexValue),
}

/// The model of a value.
pub enum ValueModel {
    Text(Seq<char>),
    Number(u64),
    List(Seq<ValueModel>),
    Function(FunctionModel),
    Nil,
}

/// The model of a function.
pub struct FunctionModel {
    pub name: Seq<char>,
    pub body: Seq<StatementModel>,
    pub params: Seq<Seq<char>>,
}

/// The model of a statement.
pub enum StatementModel {
    Tell(ValueModel),
    Ask(Seq<char>, Option<Seq<char>>),
    Repeat(u32, Seq<StatementModel>),
    When(Seq<char>, ValueModel, Seq<StatementModel>, Option<Seq<StatementModel>>),
    Call(Seq<char>),
    Assignment(Seq<char>, ValueModel),
}

pub open spec fn value_model(v: EllexValue) -> ValueModel
    decreases v,
{
    match v {
        EllexValue::String(s) => ValueModel::Text(s@),
        EllexValue::Number(bits) => ValueModel::Number(bits),
        EllexValue::List(items) => ValueModel::List(values_model(items)),
        EllexValue::Function(f) => ValueModel::Function(function_model(f)),
        EllexValue::Nil => ValueModel::Nil,
    }
}

pub open spec fn values_model(items: Vec<EllexValue>) -> Seq<ValueModel>
    decreases items,
{
    Seq::new(
        items.len() as nat,
        |i: int|
            if 0 <= i < items.len() {
                value_model(items[i])
            } else {
                ValueModel::Nil
            },
    )
}

pub open spec fn function_model(f: EllexFunction) -> FunctionModel
    decreases f,
{
    FunctionModel { name: f.name@, body: statements_model(f.body), params: names_model(f.params) }
}

pub open spec fn names_model(names: Vec<String>) -> Seq<Seq<char>> {
    Seq::new(names.len() as nat, |i: int| names[i]@)
}

pub open spec fn statement_model(s: Statement) -> StatementModel
    decreases s,
{
    match s {
        Statement::Tell(v) => StatementModel::Tell(value_model(v)),
        Statement::Ask(name, hint) => StatementModel::Ask(
            name@,
            match hint {
                Some(h) => Some(h@),
                None => None,
            },
        ),
        Statement::Repeat(times, body) => StatementModel::Repeat(times, statements_model(body)),
        Statement::When(name, value, then_body, else_body) => StatementModel::When(
            name@,
            value_model(value),
            statements_model(then_body),
            match else_body {
                Some(b) => Some(statements_model(b)),
                None => None,
            },
        ),
        Statement::Call(name) => StatementModel::Call(name@),
        Statement::Assignment(name, v) => StatementModel::Assignment(name@, value_model(v)),
    }
}

pub open spec fn statements_model(body: Vec<Statement>) -> Seq<StatementModel>
    decreases body,
{
    Seq::new(
        body.len() as nat,
        |i: int|
            if 0 <= i < body.len() {
                statement_model(body[i])
            } else {
                StatementModel::Call(Seq::empty())
            },
    )
}

impl View for EllexValue {
    type V = ValueModel;

    open spec fn view(&self) -> ValueModel {
        value_model(*self)
    }
}

impl View for EllexFunction {
    type V = FunctionModel;

    open spec fn view(&self) -> FunctionModel {
        function_model(*self)
    }
}

impl View for Statement {
    type V = StatementModel;

    open spec fn view(&self) -> StatementModel {
        statement_model(*self)
    }
}

/// Equality of values: texts by their characters, numbers as doubles (a NaN
/// equals nothing, the two zeros are equal), lists and functions part by
/// part.
pub open spec fn values_equal(a: ValueModel, b: ValueModel) -> bool
    decreases a,
{
    match (a, b) {
        (ValueModel::Text(x), ValueModel::Text(y)) => x == y,
        (ValueModel::Number(x), ValueModel::Number(y)) => same_number(x, y),
        (ValueModel::List(xs), ValueModel::List(ys)) => value_lists_equal(xs, ys),
        (ValueModel::Function(f), ValueModel::Function(g)) => functions_equal(f, g),
        (ValueModel::Nil, ValueModel::Nil) => true,
        _ => false,
    }
}

pub open spec fn value_lists_equal(xs: Seq<ValueModel>, ys: Seq<ValueModel>) -> bool
    decreases xs,
{
    &&& xs.len() == ys.len()
    &&& forall|i: int| 0 <= i < xs.len() ==> values_equal(xs[i], #[trigger] ys[i])
}

pub open spec fn functions_equal(f: FunctionModel, g: FunctionModel) -> bool
    decreases f,
{
    &&& f.name == g.name
    &&& statement_lists_equal(f.body, g.body)
    &&& f.params == g.params
}

pub open spec fn statements_equal(a: StatementModel, b: StatementModel) -> bool
    decreases a,
{
    match (a, b) {
        (StatementModel::Tell(x), StatementModel::Tell(y)) => values_equal(x, y),
        (StatementModel::Ask(n, h), StatementModel::Ask(m, k)) => n == m && h == k,
        (StatementModel::Repeat(t, x), StatementModel::Repeat(u, y)) => t == u
            && statement_lists_equal(x, y),
        (StatementModel::When(n, v, t, e), StatementModel::When(m, w, u, f)) => {
            &&& n == m
            &&& values_equal(v, w)
            &&& statement_lists_equal(t, u)
            &&& match (e, f) {
                (Some(x), Some(y)) => statement_lists_equal(x, y),
                (None, None) => true,
                _ => false,
            }
        },
        (StatementModel::Call(n), StatementModel::Call(m)) => n == m,
        (StatementModel::Assignment(n, v), StatementModel::Assignment(m, w)) => n == m
            && values_equal(v, w),
        _ => false,
    }
}

pub open spec fn statement_lists_equal(xs: Seq<StatementModel>, ys: Seq<StatementModel>) -> bool
    decreases xs,
{
    &&& xs.len() == ys.len()
    &&& forall|i: int| 0 <= i < xs.len() ==> statements_equal(xs[i], #[trigger] ys[i])
}

/// Whether two texts hold the same characters.
fn same_string(a: &String, b: &String) -> (r: bool)
    ensures
        r == (a@ == b@),
{
    *a == *b
}

/// Whether two lists of names agree name by name.
fn same_names(a: &Vec<String>, b: &Vec<String>) -> (r: bool)
    ensures
        r == (names_model(*a) == names_model(*b)),
{
    if a.len() != b.len() {
        assert(names_model(*a).len() != names_model(*b).len());
        return false;
    }
    let mut i: usize = 0;
    while i < a.len()
        invariant
            0 <= i <= a.len(),
            a.len() == b.len(),
            forall|j: int| 0 <= j < i ==> a[j]@ == b[j]@,
        decreases a.len() - i,
    {
        if !same_string(&a[i], &b[i]) {
            assert(names_model(*a)[i as int] != names_model(*b)[i as int]);
            return false;
        }
        i += 1;
    }
    assert(names_model(*a) =~= names_model(*b));
    true
}

fn same_hint(a: &Option<String>, b: &Option<String>) -> (r: bool)
    ensures
        r == (match (*a, *b) {
            (Some(x), Some(y)) => x@ == y@,
            (None, None) => true,
            _ => false,
        }),
{
    match (a, b) {
        (Some(x), Some(y)) => same_string(x, y),
        (None, None) => true,
        _ => false,
    }
}

impl EllexValue {
    /// A text value with the characters of `s`.
    pub fn from_str(s: &str) -> (v: Self)
        ensures
            v@ == ValueModel::Text(s@),
    {
        EllexValue::String(String::from_str(s))
    }

    /// Whether `self` equals `other`.
    pub fn same_as(&self, other: &EllexValue) -> (r: bool)
        ensures
            r == values_equal(self@, other@),
        decreases self,
    {
        match (self, other) {
            (EllexValue::String(x), EllexValue::String(y)) => same_string(x, y),
            (EllexValue::Number(x), EllexValue::Number(y)) => numbers_equal(*x, *y),
            (EllexValue::List(xs), EllexValue::List(ys)) => same_values(xs, ys),
            (EllexValue::Function(f), EllexValue::Function(g)) => f.same_as(g),
            (EllexValue::Nil, EllexValue::Nil) => true,
            _ => false,
        }
    }

    /// A copy of `self`.
    pub fn duplicate(&self) -> (r: EllexValue)
        ensures
            r@ == self@,
        decreases self,
    {
        match self {
            EllexValue::String(s) => EllexValue::String(s.clone()),
            EllexValue::Number(bits) => EllexValue::Number(*bits),
            EllexValue::List(items) => EllexValue::List(duplicate_values(items)),
            EllexValue::Function(f) => EllexValue::Function(f.duplicate()),
            EllexValue::Nil => EllexValue::Nil,
        }
    }
}

/// Whether two lists of values agree value by value.
pub fn same_values(xs: &Vec<EllexValue>, ys: &Vec<EllexValue>) -> (r: bool)
    ensures
        r == value_lists_equal(values_model(*xs), values_model(*ys)),
    decreases xs,
{
    if xs.len() != ys.len() {
        return false;
    }
    let mut i: usize = 0;
    while i < xs.len()
        invariant
            0 <= i <= xs.len(),
            xs.len() == ys.len(),
            forall|j: int| 0 <= j < i ==> values_equal(xs[j]@, #[trigger] ys[j]@),
        decreases xs.len() - i,
    {
        if !xs[i].same_as(&ys[i]) {
            assert(values_model(*xs)[i as int] == xs[i as int]@);
            assert(values_model(*ys)[i as int] == ys[i as int]@);
            return false;
        }
        i += 1;
    }
    assert forall|j: int| 0 <= j < values_model(*xs).len() implies values_equal(
        values_model(*xs)[j],
        #[trigger] values_model(*ys)[j],
    ) by {
        assert(values_equal(xs[j]@, ys[j]@));
    }
    true
}

/// A copy of a list of values.
pub fn duplicate_values(items: &Vec<EllexValue>) -> (r: Vec<EllexValue>)
    ensures
        values_model(r) == values_model(*items),
    decreases items,
{
    let mut out: Vec<EllexValue> = Vec::new();
    let mut i: usize = 0;
    while i < items.len()
        invariant
            0 <= i <= items.len(),
            out.len() == i,
            forall|j: int| 0 <= j < i ==> out[j]@ == items[j]@,
        decreases items.len() - i,
    {
        out.push(items[i].duplicate());
        i += 1;
    }
    assert(values_model(out) =~= values_model(*items));
    out
}

/// A copy of a list of names.
pub fn duplicate_names(names: &Vec<String>) -> (r: Vec<String>)
    ensures
        names_model(r) == names_model(*names),
{
    let mut out: Vec<String> = Vec::new();
    let mut i: usize = 0;
    while i < names.len()
        invariant
            0 <= i <= names.len(),
            out.len() == i,
            forall|j: int| 0 <= j < i ==> out[j]@ == names[j]@,
        decreases names.len() - i,
    {
        out.push(names[i].clone());
        i += 1;
    }
    assert(names_model(out) =~= names_model(*names));
    out
}

impl EllexFunction {
    /// Whether `self` equals `other`: same name, equal bodies, same
    /// parameter names.
    pub fn same_as(&self, other: &EllexFunction) -> (r: bool)
        ensures
            r == functions_equal(self@, other@),
        decreases self,
    {
        same_string(&self.name, &other.name) && same_statements(&self.body, &other.body)
            && same_names(&self.params, &other.params)
    }

    /// A copy of `self`.
    pub fn duplicate(&self) -> (r: EllexFunction)
        ensures
            r@ == self@,
        decreases self,
    {
        EllexFunction {
            name: self.name.clone(),
            body: duplicate_statements(&self.body),
            params: duplicate_names(&self.params),
        }
    }
}

impl Statement {
    /// Whether `self` equals `other`.
    pub fn same_as(&self, other: &Statement) -> (r: bool)
        ensures
            r == statements_equal(self@, other@),
        decreases self,
    {
        match (self, other) {
            (Statement::Tell(x), Statement::Tell(y)) => x.same_as(y),
            (Statement::Ask(n, h), Statement::Ask(m, k)) => same_string(n, m) && same_hint(h, k),
            (Statement::Repeat(t, x), Statement::Repeat(u, y)) => *t == *u && same_statements(
                x,
                y,
            ),
            (Statement::When(n, v, t, e), Statement::When(m, w, u, f)) => {
                if !same_string(n, m) || !v.same_as(w) || !same_statements(t, u) {
                    return false;
                }
                match (e, f) {
                    (Some(x), Some(y)) => same_statements(x, y),
                    (None, None) => true,
                    _ => false,
                }
            },
            (Statement::Call(n), Statement::Call(m)) => same_string(n, m),
            (Statement::Assignment(n, v), Statement::Assignment(m, w)) => same_string(n, m)
                && v.same_as(w),
            _ => false,
        }
    }

    /// A copy of `self`.
    pub fn duplicate(&self) -> (r: Statement)
        ensures
            r@ == self@,
        decreases self,
    {
        match self {
            Statement::Tell(v) => Statement::Tell(v.duplicate()),
            Statement::Ask(name, hint) => Statement::Ask(
                name.clone(),
                match hint {
                    Some(h) => Some(h.clone()),
                    None => None,
                },
            ),
            Statement::Repeat(times, body) => Statement::Repeat(*times, duplicate_statements(body)),
            Statement::When(name, value, then_body, else_body) => Statement::When(
                name.clone(),
                value.duplicate(),
                duplicate_statements(then_body),
                match else_body {
                    Some(b) => Some(duplicate_statements(b)),
                    None => None,
                },
            ),
            Statement::Call(name) => Statement::Call(name.clone()),
            Statement::Assignment(name, v) => Statement::Assignment(name.clone(), v.duplicate()),
        }
    }
}

/// Whether two statement lists agree statement by statement.
pub fn same_statements(xs: &Vec<Statement>, ys: &Vec<Statement>) -> (r: bool)
    ensures
        r == statement_lists_equal(statements_model(*xs), statements_model(*ys)),
    decreases xs,
{
    if xs.len() != ys.len() {
        return false;
    }
    let mut i: usize = 0;
    while i < xs.len()
        invariant
            0 <= i <= xs.len(),
            xs.len() == ys.len(),
            forall|j: int| 0 <= j < i ==> statements_equal(xs[j]@, #[trigger] ys[j]@),
        decreases xs.len() - i,
    {
        if !xs[i].same_as(&ys[i]) {
            assert(statements_model(*xs)[i as int] == xs[i as int]@);
            assert(statements_model(*ys)[i as int] == ys[i as int]@);
            return false;
        }
        i += 1;
    }
    assert forall|j: int| 0 <= j < statements_model(*xs).len() implies statements_equal(
        statements_model(*xs)[j],
        #[trigger] statements_model(*ys)[j],
    ) by {
        assert(statements_equal(xs[j]@, ys[j]@));
    }
    true
}

/// A copy of a statement list.
pub fn duplicate_statements(body: &Vec<Statement>) -> (r: Vec<Statement>)
    ensures
        statements_model(r) == statements_model(*body),
    decreases body,
{
    let mut out: Vec<Statement> = Vec::new();
    let mut i: usize = 0;
    while i < body.len()
        invariant
            0 <= i <= body.len(),
            out.len() == i,
            forall|j: int| 0 <= j < i ==> out[j]@ == body[j]@,
        decreases body.len() - i,
    {
        out.push(body[i].duplicate());
        i += 1;
    }
    assert(statements_model(out) =~= statements_model(*body));
    out
}

impl EllexValue {
    /// Whether `self` and `other` are the same value part by part, numbers
    /// by their patterns: values that no operation tells apart.
    pub fn identical_to(&self, other: &EllexValue) -> (r: bool)
        ensures
            r == (self@ == other@),
        decreases self,
    {
        match (self, other) {
            (EllexValue::String(x), EllexValue::String(y)) => same_string(x, y),
            (EllexValue::Number(x), EllexValue::Number(y)) => *x == *y,
            (EllexValue::List(xs), EllexValue::List(ys)) => identical_values(xs, ys),
            (EllexValue::Function(f), EllexValue::Function(g)) => f.identical_to(g),
            (EllexValue::Nil, EllexValue::Nil) => true,
            _ => false,
        }
    }
}

/// Whether two lists of values are the same value by value.
pub fn identical_values(xs: &Vec<EllexValue>, ys: &Vec<EllexValue>) -> (r: bool)
    ensures
        r == (values_model(*xs) == values_model(*ys)),
    decreases xs,
{
    if xs.len() != ys.len() {
        assert(values_model(*xs).len() != values_model(*ys).len());
        return false;
    }
    let mut i: usize = 0;
    while i < xs.len()
        invariant
            0 <= i <= xs.len(),
            xs.len() == ys.len(),
            forall|j: int| 0 <= j < i ==> xs[j]@ == ys[j]@,
        decreases xs.len() - i,
    {
        if !xs[i].identical_to(&ys[i]) {
            assert(values_model(*xs)[i as int] == xs[i as int]@);
            assert(values_model(*ys)[i as int] == ys[i as int]@);
            return false;
        }
        i += 1;
    }
    assert(values_model(*xs) =~= values_model(*ys));
    true
}

impl EllexFunction {
    /// Whether `self` and `other` are the same function part by part.
    pub fn identical_to(&self, other: &EllexFunction) -> (r: bool)
        ensures
            r == (self@ == other@),
        decreases self,
    {
        same_string(&self.name, &other.name) && identical_statements(&self.body, &other.body)
            && same_names(&self.params, &other.params)
    }
}

impl Statement {
    /// Whether `self` and `other` are the same statement part by part.
    pub fn identical_to(&self, other: &Statement) -> (r: bool)
        ensures
            r == (self@ == other@),
        decreases self,
    {
        match (self, other) {
            (Statement::Tell(x), Statement::Tell(y)) => x.identical_to(y),
            (Statement::Ask(n, h), Statement::Ask(m, k)) => same_string(n, m) && same_hint(h, k),
            (Statement::Repeat(t, x), Statement::Repeat(u, y)) => *t == *u && identical_statements(
                x,
                y,
            ),
            (Statement::When(n, v, t, e), Statement::When(m, w, u, f)) => {
                if !same_string(n, m) || !v.identical_to(w) || !identical_statements(t, u) {
                    return false;
                }
                match (e, f) {
                    (Some(x), Some(y)) => identical_statements(x, y),
                    (None, None) => true,
                    _ => false,
                }
            },
            (Statement::Call(n), Statement::Call(m)) => same_string(n, m),
            (Statement::Assignment(n, v), Statement::Assignment(m, w)) => same_string(n, m)
                && v.identical_to(w),
            _ => false,
        }
    }
}

/// Whether two statement lists are the same statement by statement.
pub fn identical_statements(xs: &Vec<Statement>, ys: &Vec<Statement>) -> (r: bool)
    ensures
        r == (statements_model(*xs) == statements_model(*ys)),
    decreases xs,
{
    if xs.len() != ys.len() {
        assert(statements_model(*xs).len() != statements_model(*ys).len());
        return false;
    }
    let mut i: usize = 0;
    while i < xs.len()
        invariant
            0 <= i <= xs.len(),
            xs.len() == ys.len(),
            forall|j: int| 0 <= j < i ==> xs[j]@ == ys[j]@,
        decreases xs.len() - i,
    {
        if !xs[i].identical_to(&ys[i]) {
            assert(statements_model(*xs)[i as int] == xs[i as int]@);
            assert(statements_model(*ys)[i as int] == ys[i as int]@);
            return false;
        }
        i += 1;
    }
    assert(statements_model(*xs) =~= statements_model(*ys));
    true
}

impl Clone for EllexValue {
    fn clone(&self) -> (r: Self)
        ensures
            r@ == self@,
    {
        self.duplicate()
    }
}

impl Clone for EllexFunction {
    fn clone(&self) -> (r: Self)
        ensures
            r@ == self@,
    {
        self.duplicate()
    }
}

impl Clone for Statement {
    fn clone(&self) -> (r: Self)
        ensures
            r@ == self@,
    {
        self.duplicate()
    }
}

impl PartialEq for EllexValue {
    fn eq(&self, other: &Self) -> (r: bool) {
        self.same_as(other)
    }
}

impl PartialEqSpecImpl for EllexValue {
    open spec fn obeys_eq_spec() -> bool {
        true
    }

    open spec fn eq_spec(&self, other: &Self) -> bool {
        values_equal(self@, other@)
    }
}

impl PartialEq for EllexFunction {
    fn eq(&self, other: &Self) -> (r: bool) {
        self.same_as(other)
    }
}

impl PartialEqSpecImpl for EllexFunction {
    open spec fn obeys_eq_spec() -> bool {
        true
    }

    open spec fn eq_spec(&self, other: &Self) -> bool {
        functions_equal(self@, other@)
    }
}

impl PartialEq for Statement {
    fn eq(&self, other: &Self) -> (r: bool) {
        self.same_as(other)
    }
}

impl PartialEqSpecImpl for Statement {
    open spec fn obeys_eq_spec() -> bool {
        true
    }

    open spec fn eq_spec(&self, other: &Self) -> bool {
        statements_equal(self@, other@)
    }
}

} // verus!
