//! The wider expression dialect: its allow-list of modules and functions,
//! the context that an expression is evaluated in, its expressions with
//! their check and their evaluation, and its reader, which gives literals
//! and variables.

use crate::environment::Bindings;
use crate::inspection::{debug_text, debugged};
use crate::minielixir_parser::{digits_end, digits_value, is_digit, scan_digits};
use crate::number::{number_from_i64, whole_bits};
use crate::reading::{number_read, read_number};
use crate::text::{
    chars_of, matches_at, occurs_at, push_text, same_text, string_of_range, trim_text, trimmed,
};
use crate::minielixir::{
    access, access_value, apply_binary, apply_unary, binary_operation, is_truthy, logic, truth,
    truthy, unary_operation, Evaluated,
};
use crate::render::shown;
use crate::values::{values_model, EllexValue, ValueModel};
use crate::{EllexError, EllexResult, ErrorModel};
use std::time::Instant;
use vstd::prelude::*;

verus! {

/// The functions of one module that may be called.
#[derive(Debug)]
pub struct ModuleFunctions {
    pub module: String,
    pub functions: Vec<String>,
}

/// The limits and the allow-list of the wider expression dialect.
#[derive(Debug)]
pub struct SequinMiniElixir {
    timeout_ms: u64,
    max_recursion_depth: usize,
    allowed_functions: Vec<ModuleFunctions>,
}

/// `name` is one of `names`.
pub open spec fn among(names: Seq<String>, name: Seq<char>) -> bool {
    exists|i: int| 0 <= i < names.len() && (#[trigger] names[i])@ == name
}

/// The index of the first entry for `module`, or the number of entries.
pub open spec fn module_index(entries: Seq<ModuleFunctions>, module: Seq<char>) -> int
    decreases entries.len(),
{
    if entries.len() == 0 {
        0
    } else if entries[0].module@ == module {
        0
    } else {
        1 + module_index(entries.drop_first(), module)
    }
}

pub proof fn lemma_module_index(entries: Seq<ModuleFunctions>, module: Seq<char>)
    ensures
        0 <= module_index(entries, module) <= entries.len(),
        module_index(entries, module) < entries.len() ==> entries[module_index(
            entries,
            module,
        )].module@ == module,
        forall|j: int| 0 <= j < module_index(entries, module) ==> entries[j].module@ != module,
    decreases entries.len(),
{
    if entries.len() > 0 && entries[0].module@ != module {
        let rest = entries.drop_first();
        lemma_module_index(rest, module);
        assert forall|j: int| 0 <= j < module_index(entries, module) implies entries[j].module@
            != module by {
            if j > 0 {
                assert(rest[j - 1] == entries[j]);
            }
        }
    }
}

pub proof fn lemma_module_index_is(entries: Seq<ModuleFunctions>, module: Seq<char>, i: int)
    requires
        0 <= i <= entries.len(),
        i < entries.len() ==> entries[i].module@ == module,
        forall|j: int| 0 <= j < i ==> entries[j].module@ != module,
    ensures
        module_index(entries, module) == i,
{
    lemma_module_index(entries, module);
    let f = module_index(entries, module);
    if f < i {
        assert(entries[f].module@ != module);
    }
}

/// The module is listed and `function` is among its functions.
pub open spec fn permits(entries: Seq<ModuleFunctions>, module: Seq<char>, function: Seq<char>) -> bool {
    let i = module_index(entries, module);
    i < entries.len() && among(entries[i].functions@, function)
}

/// The texts of a list of strings, in order.
pub open spec fn texts(names: Seq<String>) -> Seq<Seq<char>> {
    Seq::new(names.len(), |i: int| names[i]@)
}

/// The functions of the module Kernel that may be called.
pub open spec fn kernel_functions() -> Seq<Seq<char>> {
    seq![
        "get_in"@,
        "put_in"@,
        "pop_in"@,
        "update_in"@,
        "inspect"@,
        "to_string"@,
        "is_nil"@,
        "is_atom"@,
        "is_binary"@,
        "is_boolean"@,
        "is_list"@,
        "is_map"@,
        "is_number"@,
        "is_tuple"@,
        "elem"@,
        "tuple_size"@,
        "hd"@,
        "tl"@,
        "length"@,
        "map_size"@,
    ]
}

/// The functions of the module Enum that may be called.
pub open spec fn enum_functions() -> Seq<Seq<char>> {
    seq![
        "map"@,
        "filter"@,
        "reduce"@,
        "find"@,
        "count"@,
        "any?"@,
        "all?"@,
        "empty?"@,
        "member?"@,
        "at"@,
        "concat"@,
        "join"@,
        "sort"@,
        "uniq"@,
        "reverse"@,
        "take"@,
        "drop"@,
        "split"@,
        "chunk_every"@,
        "flat_map"@,
        "group_by"@,
        "max"@,
        "min"@,
        "sum"@,
    ]
}

/// The functions of the module String that may be called.
pub open spec fn string_functions() -> Seq<Seq<char>> {
    seq![
        "length"@,
        "upcase"@,
        "downcase"@,
        "capitalize"@,
        "trim"@,
        "split"@,
        "contains?"@,
        "starts_with?"@,
        "ends_with?"@,
        "replace"@,
        "slice"@,
        "at"@,
        "first"@,
        "last"@,
        "reverse"@,
        "to_integer"@,
        "to_float"@,
    ]
}

/// The functions of the module Map that may be called.
pub open spec fn map_functions() -> Seq<Seq<char>> {
    seq![
        "get"@,
        "put"@,
        "delete"@,
        "has_key?"@,
        "keys"@,
        "values"@,
        "merge"@,
        "new"@,
        "from_struct"@,
        "take"@,
        "drop"@,
        "split"@,
        "update"@,
        "pop"@,
    ]
}

/// The functions of the module DateTime that may be called.
pub open spec fn date_time_functions() -> Seq<Seq<char>> {
    seq![
        "utc_now"@,
        "to_string"@,
        "from_iso8601"@,
        "compare"@,
        "diff"@,
    ]
}

fn listed(names: &[&str]) -> (v: Vec<String>)
    ensures
        v.len() == names.len(),
        forall|i: int| 0 <= i < names.len() ==> v[i]@ == names[i]@,
{
    let mut v: Vec<String> = Vec::new();
    let mut i: usize = 0;
    while i < names.len()
        invariant
            0 <= i <= names.len(),
            v.len() == i,
            forall|j: int| 0 <= j < i ==> v[j]@ == names[j]@,
        decreases names.len() - i,
    {
        v.push(String::from_str(names[i]));
        i += 1;
    }
    v
}

impl SequinMiniElixir {
    /// The entries of the allow-list, in order.
    pub closed spec fn entries(&self) -> Seq<ModuleFunctions> {
        self.allowed_functions@
    }

    /// The timeout of one execution, in milliseconds.
    pub closed spec fn timeout(&self) -> u64 {
        self.timeout_ms
    }

    /// The deepest recursion of one execution.
    pub closed spec fn depth_limit(&self) -> usize {
        self.max_recursion_depth
    }

    /// A timeout of one second, a depth of 100, and the functions of the
    /// modules Kernel, Enum, String, Map and DateTime that have no effect
    /// outside the evaluation.
    pub fn new() -> (s: Self)
        ensures
            s.timeout() == 1000,
            s.depth_limit() == 100,
            s.entries().len() == 5,
            s.entries()[0].module@ == "Kernel"@,
            texts(s.entries()[0].functions@) == kernel_functions(),
            s.entries()[1].module@ == "Enum"@,
            texts(s.entries()[1].functions@) == enum_functions(),
            s.entries()[2].module@ == "String"@,
            texts(s.entries()[2].functions@) == string_functions(),
            s.entries()[3].module@ == "Map"@,
            texts(s.entries()[3].functions@) == map_functions(),
            s.entries()[4].module@ == "DateTime"@,
            texts(s.entries()[4].functions@) == date_time_functions(),
    {
        let kernel = [
            "get_in",
            "put_in",
            "pop_in",
            "update_in",
            "inspect",
            "to_string",
            "is_nil",
            "is_atom",
            "is_binary",
            "is_boolean",
            "is_list",
            "is_map",
            "is_number",
            "is_tuple",
            "elem",
            "tuple_size",
            "hd",
            "tl",
            "length",
            "map_size",
        ];
        let enumerable = [
            "map",
            "filter",
            "reduce",
            "find",
            "count",
            "any?",
            "all?",
            "empty?",
            "member?",
            "at",
            "concat",
            "join",
            "sort",
            "uniq",
            "reverse",
            "take",
            "drop",
            "split",
            "chunk_every",
            "flat_map",
            "group_by",
            "max",
            "min",
            "sum",
        ];
        let string = [
            "length",
            "upcase",
            "downcase",
            "capitalize",
            "trim",
            "split",
            "contains?",
            "starts_with?",
            "ends_with?",
            "replace",
            "slice",
            "at",
            "first",
            "last",
            "reverse",
            "to_integer",
            "to_float",
        ];
        let map = [
            "get",
            "put",
            "delete",
            "has_key?",
            "keys",
            "values",
            "merge",
            "new",
            "from_struct",
            "take",
            "drop",
            "split",
            "update",
            "pop",
        ];
        let date_time = ["utc_now", "to_string", "from_iso8601", "compare", "diff"];
        let kernel_list = listed(&kernel);
        assert(texts(kernel_list@) =~= kernel_functions());
        let enum_list = listed(&enumerable);
        assert(texts(enum_list@) =~= enum_functions());
        let string_list = listed(&string);
        assert(texts(string_list@) =~= string_functions());
        let map_list = listed(&map);
        assert(texts(map_list@) =~= map_functions());
        let date_time_list = listed(&date_time);
        assert(texts(date_time_list@) =~= date_time_functions());
        let mut allowed: Vec<ModuleFunctions> = Vec::new();
        allowed.push(ModuleFunctions { module: String::from_str("Kernel"), functions: kernel_list });
        allowed.push(ModuleFunctions { module: String::from_str("Enum"), functions: enum_list });
        allowed.push(ModuleFunctions { module: String::from_str("String"), functions: string_list });
        allowed.push(ModuleFunctions { module: String::from_str("Map"), functions: map_list });
        allowed.push(
            ModuleFunctions { module: String::from_str("DateTime"), functions: date_time_list },
        );
        SequinMiniElixir { timeout_ms: 1000, max_recursion_depth: 100, allowed_functions: allowed }
    }

    /// Whether `function` of `module` may be called.
    pub fn is_allowed(&self, module: &str, function: &str) -> (r: bool)
        ensures
            r == permits(self.entries(), module@, function@),
    {
        let mut i: usize = 0;
        while i < self.allowed_functions.len()
            invariant
                0 <= i <= self.allowed_functions.len(),
                forall|j: int| 0 <= j < i ==> self.allowed_functions[j].module@ != module@,
            decreases self.allowed_functions.len() - i,
        {
            let entry = &self.allowed_functions[i];
            if same_text(entry.module.as_str(), module) {
                proof {
                    lemma_module_index_is(self.entries(), module@, i as int);
                }
                let mut k: usize = 0;
                while k < entry.functions.len()
                    invariant
                        0 <= k <= entry.functions.len(),
                        i < self.allowed_functions.len(),
                        *entry == self.allowed_functions[i as int],
                        module_index(self.entries(), module@) == i,
                        forall|j: int| 0 <= j < k ==> entry.functions[j]@ != function@,
                    decreases entry.functions.len() - k,
                {
                    if same_text(entry.functions[k].as_str(), function) {
                        assert(self.entries()[i as int].functions@[k as int]@ == function@);
                        return true;
                    }
                    k += 1;
                }
                return false;
            }
            i += 1;
        }
        proof {
            lemma_module_index_is(self.entries(), module@, i as int);
        }
        false
    }
}

impl Default for SequinMiniElixir {
    fn default() -> (s: Self) {
        Self::new()
    }
}

/// What an expression is evaluated in: the action under way and three
/// groups of named values, which an expression reads as `action`,
/// `record.name`, `changes.name` and `metadata.name`.
#[derive(Debug)]
pub struct ExecutionContext {
    pub action: String,
    pub record: Bindings,
    pub changes: Bindings,
    pub metadata: Bindings,
}

/// The model of a context.
pub struct ContextModel {
    pub action: Seq<char>,
    pub record: Map<Seq<char>, ValueModel>,
    pub changes: Map<Seq<char>, ValueModel>,
    pub metadata: Map<Seq<char>, ValueModel>,
}

impl View for ExecutionContext {
    type V = ContextModel;

    open spec fn view(&self) -> ContextModel {
        ContextModel {
            action: self.action@,
            record: self.record@,
            changes: self.changes@,
            metadata: self.metadata@,
        }
    }
}

impl ExecutionContext {
    /// The context of the action "unknown" without values.
    pub fn new() -> (c: Self)
        ensures
            c@ == (ContextModel {
                action: "unknown"@,
                record: Map::empty(),
                changes: Map::empty(),
                metadata: Map::empty(),
            }),
    {
        ExecutionContext {
            action: String::from_str("unknown"),
            record: Bindings::new(),
            changes: Bindings::new(),
            metadata: Bindings::new(),
        }
    }

    pub fn with_action(self, action: String) -> (c: Self)
        ensures
            c@ == (ContextModel { action: action@, ..self@ }),
    {
        ExecutionContext { action, ..self }
    }

    pub fn with_record(self, record: Bindings) -> (c: Self)
        ensures
            c@ == (ContextModel { record: record@, ..self@ }),
    {
        ExecutionContext { record, ..self }
    }

    pub fn with_changes(self, changes: Bindings) -> (c: Self)
        ensures
            c@ == (ContextModel { changes: changes@, ..self@ }),
    {
        ExecutionContext { changes, ..self }
    }

    pub fn with_metadata(self, metadata: Bindings) -> (c: Self)
        ensures
            c@ == (ContextModel { metadata: metadata@, ..self@ }),
    {
        ExecutionContext { metadata, ..self }
    }
}

impl Default for ExecutionContext {
    fn default() -> (c: Self)
        ensures
            c@ == (ContextModel {
                action: "unknown"@,
                record: Map::empty(),
                changes: Map::empty(),
                metadata: Map::empty(),
            }),
    {
        Self::new()
    }
}

/// The value of the name `rest` in `group` if `name` is `prefix` and
/// `rest`.
pub open spec fn in_group(
    name: Seq<char>,
    prefix: Seq<char>,
    group: Map<Seq<char>, ValueModel>,
) -> Option<ValueModel> {
    let rest = name.subrange(prefix.len() as int, name.len() as int);
    if occurs_at(name, prefix, 0) && group.contains_key(rest) {
        Some(group[rest])
    } else {
        None
    }
}

/// The value that `name` is bound to in the context: `action` is the
/// action, and a name behind `record.`, `changes.` or `metadata.` is the
/// value of that name in the group.
pub open spec fn bound(context: ContextModel, name: Seq<char>) -> Option<ValueModel> {
    if name == "action"@ {
        Some(ValueModel::Text(context.action))
    } else if in_group(name, "record."@, context.record) is Some {
        in_group(name, "record."@, context.record)
    } else if in_group(name, "changes."@, context.changes) is Some {
        in_group(name, "changes."@, context.changes)
    } else {
        in_group(name, "metadata."@, context.metadata)
    }
}

/// A literal of the dialect.
#[derive(Debug)]
pub enum Literal {
    Integer(i64),
    /// The IEEE-754 bit pattern of a double.
    Float(u64),
    String(String),
    Boolean(bool),
    Atom(String),
    Nil,
}

/// The model of a literal.
pub enum LiteralModel {
    Integer(i64),
    Float(u64),
    Text(Seq<char>),
    Boolean(bool),
    Atom(Seq<char>),
    Nil,
}

impl View for Literal {
    type V = LiteralModel;

    open spec fn view(&self) -> LiteralModel {
        match *self {
            Literal::Integer(n) => LiteralModel::Integer(n),
            Literal::Float(bits) => LiteralModel::Float(bits),
            Literal::String(s) => LiteralModel::Text(s@),
            Literal::Boolean(b) => LiteralModel::Boolean(b),
            Literal::Atom(a) => LiteralModel::Atom(a@),
            Literal::Nil => LiteralModel::Nil,
        }
    }
}

/// A binary operator of the dialect.
#[derive(Debug, Clone, Copy, PartialEq, Eq, Structural)]
pub enum BinaryOperator {
    Add,
    Subtract,
    Multiply,
    Divide,
    Equal,
    NotEqual,
    LessThan,
    LessThanOrEqual,
    GreaterThan,
    GreaterThanOrEqual,
    And,
    Or,
    Concat,
}

/// A unary operator of the dialect.
#[derive(Debug, Clone, Copy, PartialEq, Eq, Structural)]
pub enum UnaryOperator {
    Not,
    Minus,
}

/// One clause of a case expression.
#[derive(Debug)]
pub struct CaseClause {
    pub pattern: MiniElixirAST,
    pub guard: Option<MiniElixirAST>,
    pub body: MiniElixirAST,
}

/// An expression of the dialect. The reader gives literals and variables;
/// the other forms are built by the host.
#[derive(Debug)]
pub enum MiniElixirAST {
    Literal(Literal),
    Variable(String),
    BinaryOp { op: BinaryOperator, left: Box<MiniElixirAST>, right: Box<MiniElixirAST> },
    UnaryOp { op: UnaryOperator, operand: Box<MiniElixirAST> },
    FunctionCall { module: Option<String>, function: String, args: Vec<MiniElixirAST> },
    MapAccess { map: Box<MiniElixirAST>, key: Box<MiniElixirAST> },
    ListAccess { list: Box<MiniElixirAST>, index: Box<MiniElixirAST> },
    Pipe { left: Box<MiniElixirAST>, right: Box<MiniElixirAST> },
    Case { expr: Box<MiniElixirAST>, clauses: Vec<CaseClause> },
    If {
        condition: Box<MiniElixirAST>,
        then_branch: Box<MiniElixirAST>,
        else_branch: Option<Box<MiniElixirAST>>,
    },
    Block(Vec<MiniElixirAST>),
    PatternMatch { pattern: Box<MiniElixirAST>, value: Box<MiniElixirAST> },
    List(Vec<MiniElixirAST>),
    MapLiteral(Vec<(MiniElixirAST, MiniElixirAST)>),
    Tuple(Vec<MiniElixirAST>),
}

/// The model of an expression.
pub enum AstModel {
    Literal(LiteralModel),
    Variable(Seq<char>),
    BinaryOp { op: BinaryOperator, left: Box<AstModel>, right: Box<AstModel> },
    UnaryOp { op: UnaryOperator, operand: Box<AstModel> },
    FunctionCall { module: Option<Seq<char>>, function: Seq<char>, args: Seq<AstModel> },
    MapAccess { map: Box<AstModel>, key: Box<AstModel> },
    ListAccess { list: Box<AstModel>, index: Box<AstModel> },
    Pipe { left: Box<AstModel>, right: Box<AstModel> },
    Case { expr: Box<AstModel>, clauses: Seq<ClauseModel> },
    If { condition: Box<AstModel>, then_branch: Box<AstModel>, else_branch: Option<Box<AstModel>> },
    Block(Seq<AstModel>),
    PatternMatch { pattern: Box<AstModel>, value: Box<AstModel> },
    List(Seq<AstModel>),
    MapLiteral(Seq<(AstModel, AstModel)>),
    Tuple(Seq<AstModel>),
}

/// The model of a clause.
pub struct ClauseModel {
    pub pattern: AstModel,
    pub guard: Option<AstModel>,
    pub body: AstModel,
}

pub open spec fn ast_model(a: MiniElixirAST) -> AstModel
    decreases a,
{
    match a {
        MiniElixirAST::Literal(l) => AstModel::Literal(l@),
        MiniElixirAST::Variable(v) => AstModel::Variable(v@),
        MiniElixirAST::BinaryOp { op, left, right } => AstModel::BinaryOp {
            op,
            left: Box::new(ast_model(*left)),
            right: Box::new(ast_model(*right)),
        },
        MiniElixirAST::UnaryOp { op, operand } => AstModel::UnaryOp {
            op,
            operand: Box::new(ast_model(*operand)),
        },
        MiniElixirAST::FunctionCall { module, function, args } => AstModel::FunctionCall {
            module: match module {
                Some(m) => Some(m@),
                None => None,
            },
            function: function@,
            args: asts_model(args),
        },
        MiniElixirAST::MapAccess { map, key } => AstModel::MapAccess {
            map: Box::new(ast_model(*map)),
            key: Box::new(ast_model(*key)),
        },
        MiniElixirAST::ListAccess { list, index } => AstModel::ListAccess {
            list: Box::new(ast_model(*list)),
            index: Box::new(ast_model(*index)),
        },
        MiniElixirAST::Pipe { left, right } => AstModel::Pipe {
            left: Box::new(ast_model(*left)),
            right: Box::new(ast_model(*right)),
        },
        MiniElixirAST::Case { expr, clauses } => AstModel::Case {
            expr: Box::new(ast_model(*expr)),
            clauses: clauses_model(clauses),
        },
        MiniElixirAST::If { condition, then_branch, else_branch } => AstModel::If {
            condition: Box::new(ast_model(*condition)),
            then_branch: Box::new(ast_model(*then_branch)),
            else_branch: match else_branch {
                Some(b) => Some(Box::new(ast_model(*b))),
                None => None,
            },
        },
        MiniElixirAST::Block(items) => AstModel::Block(asts_model(items)),
        MiniElixirAST::PatternMatch { pattern, value } => AstModel::PatternMatch {
            pattern: Box::new(ast_model(*pattern)),
            value: Box::new(ast_model(*value)),
        },
        MiniElixirAST::List(items) => AstModel::List(asts_model(items)),
        MiniElixirAST::MapLiteral(pairs) => AstModel::MapLiteral(ast_pairs_model(pairs)),
        MiniElixirAST::Tuple(items) => AstModel::Tuple(asts_model(items)),
    }
}

pub open spec fn asts_model(items: Vec<MiniElixirAST>) -> Seq<AstModel>
    decreases items,
{
    Seq::new(
        items.len() as nat,
        |i: int|
            if 0 <= i < items.len() {
                ast_model(items[i])
            } else {
                AstModel::Literal(LiteralModel::Nil)
            },
    )
}

pub open spec fn ast_pairs_model(pairs: Vec<(MiniElixirAST, MiniElixirAST)>) -> Seq<
    (AstModel, AstModel),
>
    decreases pairs,
{
    Seq::new(
        pairs.len() as nat,
        |i: int|
            if 0 <= i < pairs.len() {
                (ast_model(pairs[i].0), ast_model(pairs[i].1))
            } else {
                (AstModel::Literal(LiteralModel::Nil), AstModel::Literal(LiteralModel::Nil))
            },
    )
}

pub open spec fn clause_model(c: CaseClause) -> ClauseModel
    decreases c,
{
    ClauseModel {
        pattern: ast_model(c.pattern),
        guard: match c.guard {
            Some(g) => Some(ast_model(g)),
            None => None,
        },
        body: ast_model(c.body),
    }
}

pub open spec fn clauses_model(clauses: Vec<CaseClause>) -> Seq<ClauseModel>
    decreases clauses,
{
    Seq::new(
        clauses.len() as nat,
        |i: int|
            if 0 <= i < clauses.len() {
                clause_model(clauses[i])
            } else {
                ClauseModel {
                    pattern: AstModel::Literal(LiteralModel::Nil),
                    guard: None,
                    body: AstModel::Literal(LiteralModel::Nil),
                }
            },
    )
}

impl View for MiniElixirAST {
    type V = AstModel;

    open spec fn view(&self) -> AstModel {
        ast_model(*self)
    }
}

impl View for CaseClause {
    type V = ClauseModel;

    open spec fn view(&self) -> ClauseModel {
        clause_model(*self)
    }
}

/// The largest magnitude of a whole number of 64 bits with a sign: 2^63.
pub const MAX_MAGNITUDE: u64 = 0x8000_0000_0000_0000;

/// The whole number that the text writes: a sign if wished, then digits,
/// nineteen at most, and the number within 64 bits with a sign.
pub open spec fn integer_read(t: Seq<char>) -> Option<i64> {
    let start: int = if t.len() > 0 && (t[0] == '-' || t[0] == '+') {
        1
    } else {
        0
    };
    let end = digits_end(t, start);
    let magnitude = digits_value(t, start, end, 0);
    if end == t.len() && start < end && end - start <= 19 {
        if t[0] == '-' {
            if magnitude <= MAX_MAGNITUDE {
                Some((-(magnitude as int)) as i64)
            } else {
                None
            }
        } else if magnitude < MAX_MAGNITUDE {
            Some(magnitude as i64)
        } else {
            None
        }
    } else {
        None
    }
}

/// The text stands between two quotes.
pub open spec fn in_quotes(t: Seq<char>) -> bool {
    t.len() >= 2 && t[0] == '"' && t[t.len() - 1] == '"'
}

/// What the reader gives for `code`, white space around it dropped: `nil`,
/// `true` and `false`, a text between quotes, a whole number, any other
/// number, and for everything else the variable of that name.
pub open spec fn parsed(code: Seq<char>) -> AstModel {
    let t = trimmed(code);
    if t == "nil"@ {
        AstModel::Literal(LiteralModel::Nil)
    } else if t == "true"@ {
        AstModel::Literal(LiteralModel::Boolean(true))
    } else if t == "false"@ {
        AstModel::Literal(LiteralModel::Boolean(false))
    } else if in_quotes(t) {
        AstModel::Literal(LiteralModel::Text(t.subrange(1, t.len() - 1)))
    } else if integer_read(t) is Some {
        AstModel::Literal(LiteralModel::Integer(integer_read(t).unwrap()))
    } else if number_read(t) is Some {
        AstModel::Literal(LiteralModel::Float(number_read(t).unwrap()))
    } else {
        AstModel::Variable(t)
    }
}

/// The value of a literal: a number is its double, a truth value and an
/// atom the text that writes them.
pub open spec fn literal_value(l: LiteralModel) -> ValueModel {
    match l {
        LiteralModel::Integer(n) => ValueModel::Number(
            whole_bits(
                n < 0,
                (if n < 0 {
                    -(n as int)
                } else {
                    n as int
                }) as nat,
            ),
        ),
        LiteralModel::Float(bits) => ValueModel::Number(bits),
        LiteralModel::Text(s) => ValueModel::Text(s),
        LiteralModel::Boolean(b) => ValueModel::Text(
            if b {
                "true"@
            } else {
                "false"@
            },
        ),
        LiteralModel::Atom(a) => ValueModel::Text(seq![':'] + a),
        LiteralModel::Nil => ValueModel::Nil,
    }
}

/// The operator of the core language that a binary operator stands for.
pub open spec fn core_operator(op: BinaryOperator) -> crate::minielixir::BinaryOperator {
    match op {
        BinaryOperator::Add => crate::minielixir::BinaryOperator::Add,
        BinaryOperator::Subtract => crate::minielixir::BinaryOperator::Sub,
        BinaryOperator::Multiply => crate::minielixir::BinaryOperator::Mul,
        BinaryOperator::Divide => crate::minielixir::BinaryOperator::Div,
        BinaryOperator::Equal => crate::minielixir::BinaryOperator::Eq,
        BinaryOperator::NotEqual => crate::minielixir::BinaryOperator::Ne,
        BinaryOperator::LessThan => crate::minielixir::BinaryOperator::Lt,
        BinaryOperator::LessThanOrEqual => crate::minielixir::BinaryOperator::Le,
        BinaryOperator::GreaterThan => crate::minielixir::BinaryOperator::Gt,
        BinaryOperator::GreaterThanOrEqual => crate::minielixir::BinaryOperator::Ge,
        BinaryOperator::And => crate::minielixir::BinaryOperator::And,
        BinaryOperator::Or => crate::minielixir::BinaryOperator::Or,
        BinaryOperator::Concat => crate::minielixir::BinaryOperator::Concat,
    }
}

/// The operator of the core language that a unary operator stands for.
pub open spec fn core_unary(op: UnaryOperator) -> crate::minielixir::UnaryOperator {
    match op {
        UnaryOperator::Not => crate::minielixir::UnaryOperator::Not,
        UnaryOperator::Minus => crate::minielixir::UnaryOperator::Minus,
    }
}

/// The name of a module as an error message writes it: nothing for none.
pub open spec fn module_name(module: Option<Seq<char>>) -> Seq<char> {
    match module {
        Some(m) => m,
        None => Seq::empty(),
    }
}

/// What the call of `function` of `module` with the values `args` gives.
/// Without a module the function is one of `Kernel`. `get_in`, `inspect`
/// and `to_string` count their arguments; `inspect` gives its argument as
/// a debugger writes it, `to_string` as it is shown; every other function
/// gives the empty value of its kind, whatever its arguments: nil, "false"
/// or "true", zero, the empty text or the empty list. A function that is
/// not named here is unknown.
pub open spec fn called(module: Option<Seq<char>>, function: Seq<char>, args: Seq<ValueModel>) -> Evaluated {
    let kernel = module is None || module == Some("Kernel"@);
    let of_enum = module == Some("Enum"@);
    let of_string = module == Some("String"@);
    let of_map = module == Some("Map"@);
    if kernel && function == "get_in"@ {
        if args.len() != 2 {
            Err(logic("get_in/2 expects exactly 2 arguments"@))
        } else {
            Ok(ValueModel::Nil)
        }
    } else if kernel && function == "inspect"@ {
        if args.len() != 1 {
            Err(logic("inspect/1 expects exactly 1 argument"@))
        } else {
            Ok(ValueModel::Text(debugged(args[0])))
        }
    } else if kernel && function == "to_string"@ {
        if args.len() != 1 {
            Err(logic("to_string/1 expects exactly 1 argument"@))
        } else {
            Ok(ValueModel::Text(shown(args[0])))
        }
    } else if (kernel && (function == "put_in"@ || function == "hd"@)) || (of_enum && function
        == "at"@) || (of_map && (function == "get"@ || function == "put"@)) {
        Ok(ValueModel::Nil)
    } else if (kernel && (function == "is_nil"@ || function == "is_atom"@ || function
        == "is_binary"@ || function == "is_boolean"@ || function == "is_list"@ || function
        == "is_map"@ || function == "is_number"@)) || (of_enum && function == "member?"@) || (
    of_string && function == "contains?"@) || (of_map && function == "has_key?"@) {
        Ok(truth(false))
    } else if of_enum && function == "empty?"@ {
        Ok(truth(true))
    } else if (kernel && function == "length"@) || (of_enum && function == "count"@) || (of_string
        && function == "length"@) {
        Ok(ValueModel::Number(0))
    } else if of_string && (function == "upcase"@ || function == "downcase"@ || function
        == "trim"@) {
        Ok(ValueModel::Text(Seq::empty()))
    } else if (kernel && function == "tl"@) || (of_enum && (function == "map"@ || function
        == "filter"@)) || (of_string && function == "split"@) || (of_map && (function == "keys"@
        || function == "values"@)) {
        Ok(ValueModel::List(Seq::empty()))
    } else {
        Err(logic("Unknown function: "@ + module_name(module) + ":"@ + function))
    }
}

/// The value of an expression in the context, or the first error that its
/// evaluation meets, parts evaluated from left to right.
pub open spec fn evaluated(ast: AstModel, context: ContextModel) -> Evaluated
    decreases ast, 0nat,
{
    match ast {
        AstModel::Literal(l) => Ok(literal_value(l)),
        AstModel::Variable(name) => match bound(context, name) {
            Some(v) => Ok(v),
            None => Err(logic("Variable '"@ + name + "' is undefined"@)),
        },
        AstModel::BinaryOp { op, left, right } => match evaluated(*left, context) {
            Err(e) => Err(e),
            Ok(l) => match evaluated(*right, context) {
                Err(e) => Err(e),
                Ok(r) => apply_binary(core_operator(op), l, r),
            },
        },
        AstModel::UnaryOp { op, operand } => match evaluated(*operand, context) {
            Err(e) => Err(e),
            Ok(v) => apply_unary(core_unary(op), v),
        },
        AstModel::FunctionCall { module, function, args } => match evaluated_all(
            args,
            args.len() as int,
            context,
        ) {
            Err(e) => Err(e),
            Ok(values) => called(module, function, values),
        },
        AstModel::MapAccess { map, key } => match evaluated(*map, context) {
            Err(e) => Err(e),
            Ok(m) => match evaluated(*key, context) {
                Err(e) => Err(e),
                Ok(k) => Ok(access(m, k)),
            },
        },
        AstModel::ListAccess { list, index } => match evaluated(*list, context) {
            Err(e) => Err(e),
            Ok(l) => match evaluated(*index, context) {
                Err(e) => Err(e),
                Ok(i) => if l is List && i is Number {
                    Ok(access(l, i))
                } else {
                    Err(logic("Invalid list access"@))
                },
            },
        },
        AstModel::Pipe { left, right } => match evaluated(*left, context) {
            Err(e) => Err(e),
            Ok(v) => match *right {
                AstModel::FunctionCall { module, function, args } => if !(v is Text || v is Number
                    || v is Nil) {
                    Err(logic("Cannot convert value to literal"@))
                } else {
                    match evaluated_all(args, args.len() as int, context) {
                        Err(e) => Err(e),
                        Ok(values) => called(module, function, seq![v] + values),
                    }
                },
                _ => Err(logic("Pipe target must be a function call"@)),
            },
        },
        AstModel::Case { expr, clauses } => match evaluated(*expr, context) {
            Err(e) => Err(e),
            Ok(_) => case_value(clauses, 0, context),
        },
        AstModel::If { condition, then_branch, else_branch } => match evaluated(
            *condition,
            context,
        ) {
            Err(e) => Err(e),
            Ok(c) => if truthy(c) {
                evaluated(*then_branch, context)
            } else {
                match else_branch {
                    Some(b) => evaluated(*b, context),
                    None => Ok(ValueModel::Nil),
                }
            },
        },
        AstModel::Block(items) => match evaluated_all(items, items.len() as int, context) {
            Err(e) => Err(e),
            Ok(values) => Ok(
                if values.len() == 0 {
                    ValueModel::Nil
                } else {
                    values.last()
                },
            ),
        },
        AstModel::PatternMatch { pattern, value } => evaluated(*value, context),
        AstModel::List(items) => match evaluated_all(items, items.len() as int, context) {
            Err(e) => Err(e),
            Ok(values) => Ok(ValueModel::List(values)),
        },
        AstModel::Tuple(items) => match evaluated_all(items, items.len() as int, context) {
            Err(e) => Err(e),
            Ok(values) => Ok(ValueModel::List(values)),
        },
        AstModel::MapLiteral(pairs) => match evaluated_pairs(pairs, pairs.len() as int, context) {
            Err(e) => Err(e),
            Ok(values) => Ok(ValueModel::List(values)),
        },
    }
}

/// The values of the first `n` expressions of `items`, or the first error.
pub open spec fn evaluated_all(items: Seq<AstModel>, n: int, context: ContextModel) -> Result<
    Seq<ValueModel>,
    ErrorModel,
>
    decreases items, n,
{
    if n <= 0 || n > items.len() {
        Ok(Seq::empty())
    } else {
        match evaluated_all(items, n - 1, context) {
            Err(e) => Err(e),
            Ok(values) => match evaluated(items[n - 1], context) {
                Err(e) => Err(e),
                Ok(v) => Ok(values.push(v)),
            },
        }
    }
}

/// The first `n` pairs of a map, each as the list of its key and its
/// value, or the first error.
pub open spec fn evaluated_pairs(pairs: Seq<(AstModel, AstModel)>, n: int, context: ContextModel) -> Result<
    Seq<ValueModel>,
    ErrorModel,
>
    decreases pairs, n,
{
    if n <= 0 || n > pairs.len() {
        Ok(Seq::empty())
    } else {
        match evaluated_pairs(pairs, n - 1, context) {
            Err(e) => Err(e),
            Ok(values) => match evaluated(pairs[n - 1].0, context) {
                Err(e) => Err(e),
                Ok(k) => match evaluated(pairs[n - 1].1, context) {
                    Err(e) => Err(e),
                    Ok(v) => Ok(values.push(ValueModel::List(seq![k, v]))),
                },
            },
        }
    }
}

/// The value of a case expression from the clause `from` on: every pattern
/// matches, so the first clause without a guard, or whose guard counts as
/// true, gives the value; with no such clause the case fails.
pub open spec fn case_value(clauses: Seq<ClauseModel>, from: int, context: ContextModel) -> Evaluated
    decreases clauses, clauses.len() - from,
{
    if from < 0 || from >= clauses.len() {
        Err(logic("No matching case clause"@))
    } else {
        match clauses[from].guard {
            None => evaluated(clauses[from].body, context),
            Some(g) => match evaluated(g, context) {
                Err(e) => Err(e),
                Ok(v) => if truthy(v) {
                    evaluated(clauses[from].body, context)
                } else {
                    case_value(clauses, from + 1, context)
                },
            },
        }
    }
}

/// What the execution of `code` in the context gives when the clock reads
/// `elapsed_ms` once the code is read: a timeout if that is above
/// `timeout_ms`, else the value of the code.
pub open spec fn executed(
    code: Seq<char>,
    context: ContextModel,
    timeout_ms: u64,
    elapsed_ms: u64,
) -> Evaluated {
    if elapsed_ms > timeout_ms {
        Err(ErrorModel::Timeout { limit_ms: timeout_ms })
    } else {
        evaluated(parsed(code), context)
    }
}

/// The result `r` is `expected`.
pub open spec fn is_result(r: EllexResult<EllexValue>, expected: Evaluated) -> bool {
    match r {
        Ok(v) => expected == Ok::<ValueModel, ErrorModel>(v@),
        Err(e) => expected == Err::<ValueModel, ErrorModel>(e@),
    }
}

/// The whole number that a text writes.
pub fn read_integer(t: &Vec<char>) -> (r: Option<i64>)
    ensures
        r == integer_read(t@),
{
    let start: usize = if t.len() > 0 && (t[0] == '-' || t[0] == '+') {
        1
    } else {
        0
    };
    let end = scan_digits(t, start);
    if end != t.len() || start >= end || end - start > 19 {
        return None;
    }
    let mut magnitude: u64 = 0;
    let mut i: usize = start;
    while i < end
        invariant
            start <= i <= end <= t.len(),
            end - start <= 19,
            forall|k: int| start <= k < end ==> is_digit(t[k]),
            magnitude < crate::number::pow10((i - start) as nat),
            digits_value(t@, i as int, end as int, magnitude as nat) == digits_value(
                t@,
                start as int,
                end as int,
                0,
            ),
        decreases end - i,
    {
        let c = t[i];
        let d: u64 = (c as u32 - '0' as u32) as u64;
        proof {
            crate::number::lemma_pow10_bound((i - start) as nat);
            crate::number::lemma_pow10_bound((i - start + 1) as nat);
            assert(crate::number::pow10((i - start + 1) as nat) == 10 * crate::number::pow10(
                (i - start) as nat,
            ));
        }
        magnitude = magnitude * 10 + d;
        i += 1;
    }
    if t[0] == '-' {
        if magnitude < MAX_MAGNITUDE {
            Some(-(magnitude as i64))
        } else if magnitude == MAX_MAGNITUDE {
            Some(i64::MIN)
        } else {
            None
        }
    } else if magnitude < MAX_MAGNITUDE {
        Some(magnitude as i64)
    } else {
        None
    }
}

/// What the reader gives for `code`.
pub fn parse_code(code: &str) -> (ast: MiniElixirAST)
    ensures
        ast@ == parsed(code@),
{
    let text = trim_text(code);
    let t = chars_of(text.as_str());
    if same_text(text.as_str(), "nil") {
        return MiniElixirAST::Literal(Literal::Nil);
    }
    if same_text(text.as_str(), "true") {
        return MiniElixirAST::Literal(Literal::Boolean(true));
    }
    if same_text(text.as_str(), "false") {
        return MiniElixirAST::Literal(Literal::Boolean(false));
    }
    if t.len() >= 2 && t[0] == '"' && t[t.len() - 1] == '"' {
        return MiniElixirAST::Literal(Literal::String(string_of_range(&t, 1, t.len() - 1)));
    }
    match read_integer(&t) {
        Some(n) => {
            return MiniElixirAST::Literal(Literal::Integer(n));
        },
        None => {},
    }
    match read_number(&t) {
        Some(bits) => {
            return MiniElixirAST::Literal(Literal::Float(bits));
        },
        None => {},
    }
    MiniElixirAST::Variable(text)
}

/// The value of the name behind `prefix` in `group`, if `name` starts with
/// `prefix`.
fn look_in(name: &Vec<char>, prefix: &str, group: &Bindings) -> (r: Option<EllexValue>)
    ensures
        match r {
            Some(v) => in_group(name@, prefix@, group@) == Some(v@),
            None => in_group(name@, prefix@, group@) is None,
        },
{
    let p = chars_of(prefix);
    if p.len() <= name.len() && matches_at(name, &p, 0) {
        let rest = string_of_range(name, p.len(), name.len());
        match group.get(rest.as_str()) {
            Some(v) => Some(v.duplicate()),
            None => None,
        }
    } else {
        None
    }
}

/// The value that `name` is bound to in the context.
pub fn lookup(context: &ExecutionContext, name: &str) -> (r: Option<EllexValue>)
    ensures
        match r {
            Some(v) => bound(context@, name@) == Some(v@),
            None => bound(context@, name@) is None,
        },
{
    if same_text(name, "action") {
        return Some(EllexValue::String(context.action.clone()));
    }
    let chars = chars_of(name);
    match look_in(&chars, "record.", &context.record) {
        Some(v) => {
            return Some(v);
        },
        None => {},
    }
    match look_in(&chars, "changes.", &context.changes) {
        Some(v) => {
            return Some(v);
        },
        None => {},
    }
    look_in(&chars, "metadata.", &context.metadata)
}

/// The value of a literal.
pub fn eval_literal(literal: &Literal) -> (v: EllexValue)
    ensures
        v@ == literal_value(literal@),
{
    match literal {
        Literal::Integer(n) => EllexValue::Number(number_from_i64(*n)),
        Literal::Float(bits) => EllexValue::Number(*bits),
        Literal::String(s) => EllexValue::String(s.clone()),
        Literal::Boolean(b) => {
            if *b {
                EllexValue::String(String::from_str("true"))
            } else {
                EllexValue::String(String::from_str("false"))
            }
        },
        Literal::Atom(a) => {
            let mut text = String::new();
            text.push(':');
            push_text(&mut text, a.as_str());
            assert(text@ =~= seq![':'] + a@);
            EllexValue::String(text)
        },
        Literal::Nil => EllexValue::Nil,
    }
}

fn to_core(op: BinaryOperator) -> (c: crate::minielixir::BinaryOperator)
    ensures
        c == core_operator(op),
{
    match op {
        BinaryOperator::Add => crate::minielixir::BinaryOperator::Add,
        BinaryOperator::Subtract => crate::minielixir::BinaryOperator::Sub,
        BinaryOperator::Multiply => crate::minielixir::BinaryOperator::Mul,
        BinaryOperator::Divide => crate::minielixir::BinaryOperator::Div,
        BinaryOperator::Equal => crate::minielixir::BinaryOperator::Eq,
        BinaryOperator::NotEqual => crate::minielixir::BinaryOperator::Ne,
        BinaryOperator::LessThan => crate::minielixir::BinaryOperator::Lt,
        BinaryOperator::LessThanOrEqual => crate::minielixir::BinaryOperator::Le,
        BinaryOperator::GreaterThan => crate::minielixir::BinaryOperator::Gt,
        BinaryOperator::GreaterThanOrEqual => crate::minielixir::BinaryOperator::Ge,
        BinaryOperator::And => crate::minielixir::BinaryOperator::And,
        BinaryOperator::Or => crate::minielixir::BinaryOperator::Or,
        BinaryOperator::Concat => crate::minielixir::BinaryOperator::Concat,
    }
}

fn failure(message: &str) -> (e: EllexError)
    ensures
        e@ == logic(message@),
{
    EllexError::LogicError { message: String::from_str(message) }
}

fn truth_of(b: bool) -> (v: EllexValue)
    ensures
        v@ == truth(b),
{
    if b {
        EllexValue::String(String::from_str("true"))
    } else {
        EllexValue::String(String::from_str("false"))
    }
}

fn is_name(function: &str, name: &str) -> (r: bool)
    ensures
        r == (function@ == name@),
{
    same_text(function, name)
}

/// Calls `function` of `module` with the values `args`.
pub fn call_function(module: &Option<String>, function: &str, args: &Vec<EllexValue>) -> (r:
    EllexResult<EllexValue>)
    ensures
        is_result(
            r,
            called(
                match *module {
                    Some(m) => Some(m@),
                    None => None,
                },
                function@,
                values_model(*args),
            ),
        ),
{
    let kernel = match module {
        Some(m) => same_text(m.as_str(), "Kernel"),
        None => true,
    };
    let of_enum = match module {
        Some(m) => same_text(m.as_str(), "Enum"),
        None => false,
    };
    let of_string = match module {
        Some(m) => same_text(m.as_str(), "String"),
        None => false,
    };
    let of_map = match module {
        Some(m) => same_text(m.as_str(), "Map"),
        None => false,
    };
    assert(values_model(*args).len() == args.len());
    if kernel && is_name(function, "get_in") {
        if args.len() != 2 {
            return Err(failure("get_in/2 expects exactly 2 arguments"));
        }
        return Ok(EllexValue::Nil);
    }
    if kernel && is_name(function, "inspect") {
        if args.len() != 1 {
            return Err(failure("inspect/1 expects exactly 1 argument"));
        }
        assert(values_model(*args)[0] == args[0]@);
        return Ok(EllexValue::String(debug_text(&args[0])));
    }
    if kernel && is_name(function, "to_string") {
        if args.len() != 1 {
            return Err(failure("to_string/1 expects exactly 1 argument"));
        }
        assert(values_model(*args)[0] == args[0]@);
        return Ok(EllexValue::String(args[0].to_string()));
    }
    if (kernel && (is_name(function, "put_in") || is_name(function, "hd"))) || (of_enum && is_name(
        function,
        "at",
    )) || (of_map && (is_name(function, "get") || is_name(function, "put"))) {
        return Ok(EllexValue::Nil);
    }
    if (kernel && (is_name(function, "is_nil") || is_name(function, "is_atom") || is_name(
        function,
        "is_binary",
    ) || is_name(function, "is_boolean") || is_name(function, "is_list") || is_name(
        function,
        "is_map",
    ) || is_name(function, "is_number"))) || (of_enum && is_name(function, "member?")) || (
    of_string && is_name(function, "contains?")) || (of_map && is_name(function, "has_key?")) {
        return Ok(truth_of(false));
    }
    if of_enum && is_name(function, "empty?") {
        return Ok(truth_of(true));
    }
    if (kernel && is_name(function, "length")) || (of_enum && is_name(function, "count")) || (
    of_string && is_name(function, "length")) {
        return Ok(EllexValue::Number(0));
    }
    if of_string && (is_name(function, "upcase") || is_name(function, "downcase") || is_name(
        function,
        "trim",
    )) {
        let empty = String::new();
        assert(empty@ =~= Seq::<char>::empty());
        return Ok(EllexValue::String(empty));
    }
    if (kernel && is_name(function, "tl")) || (of_enum && (is_name(function, "map") || is_name(
        function,
        "filter",
    ))) || (of_string && is_name(function, "split")) || (of_map && (is_name(function, "keys")
        || is_name(function, "values"))) {
        let none: Vec<EllexValue> = Vec::new();
        assert(values_model(none) =~= Seq::<ValueModel>::empty());
        return Ok(EllexValue::List(none));
    }
    let mut message = String::from_str("Unknown function: ");
    match module {
        Some(m) => {
            push_text(&mut message, m.as_str());
        },
        None => {
            assert(message@ + Seq::<char>::empty() =~= message@);
        },
    }
    push_text(&mut message, ":");
    push_text(&mut message, function);
    Err(EllexError::LogicError { message })
}

/// Evaluates the expressions of `items` in order.
pub fn evaluate_each(items: &Vec<MiniElixirAST>, context: &ExecutionContext) -> (r: EllexResult<
    Vec<EllexValue>,
>)
    ensures
        match r {
            Ok(values) => evaluated_all(asts_model(*items), items.len() as int, context@) == Ok::<
                Seq<ValueModel>,
                ErrorModel,
            >(values_model(values)),
            Err(error) => evaluated_all(asts_model(*items), items.len() as int, context@) == Err::<
                Seq<ValueModel>,
                ErrorModel,
            >(error@),
        },
    decreases items, 1nat,
{
    let ghost model = asts_model(*items);
    let mut values: Vec<EllexValue> = Vec::new();
    let mut i: usize = 0;
    assert(values_model(values) =~= Seq::<ValueModel>::empty());
    while i < items.len()
        invariant
            0 <= i <= items.len(),
            model == asts_model(*items),
            model.len() == items.len(),
            evaluated_all(model, i as int, context@) == Ok::<Seq<ValueModel>, ErrorModel>(
                values_model(values),
            ),
        decreases items.len() - i,
    {
        assert(model[i as int] == items[i as int]@);
        match evaluate_ast(&items[i], context) {
            Ok(v) => {
                let ghost before = values_model(values);
                values.push(v);
                assert(values_model(values) =~= before.push(v@));
            },
            Err(error) => {
                proof {
                    lemma_all_error_stays(model, i as int + 1, items.len() as int, context@);
                }
                return Err(error);
            },
        }
        i += 1;
    }
    Ok(values)
}

/// An error among the first `n` expressions is the error of every longer
/// prefix.
pub proof fn lemma_all_error_stays(items: Seq<AstModel>, n: int, m: int, context: ContextModel)
    requires
        0 <= n <= m <= items.len(),
        evaluated_all(items, n, context) is Err,
    ensures
        evaluated_all(items, m, context) == evaluated_all(items, n, context),
    decreases m - n,
{
    if n < m {
        lemma_all_error_stays(items, n, m - 1, context);
    }
}

/// An error among the first `n` pairs is the error of every longer prefix.
pub proof fn lemma_pairs_error_stays(
    pairs: Seq<(AstModel, AstModel)>,
    n: int,
    m: int,
    context: ContextModel,
)
    requires
        0 <= n <= m <= pairs.len(),
        evaluated_pairs(pairs, n, context) is Err,
    ensures
        evaluated_pairs(pairs, m, context) == evaluated_pairs(pairs, n, context),
    decreases m - n,
{
    if n < m {
        lemma_pairs_error_stays(pairs, n, m - 1, context);
    }
}

/// Evaluates the pairs of a map in order.
fn evaluate_pairs(pairs: &Vec<(MiniElixirAST, MiniElixirAST)>, context: &ExecutionContext) -> (r:
    EllexResult<Vec<EllexValue>>)
    ensures
        match r {
            Ok(values) => evaluated_pairs(ast_pairs_model(*pairs), pairs.len() as int, context@)
                == Ok::<Seq<ValueModel>, ErrorModel>(values_model(values)),
            Err(error) => evaluated_pairs(ast_pairs_model(*pairs), pairs.len() as int, context@)
                == Err::<Seq<ValueModel>, ErrorModel>(error@),
        },
    decreases pairs, 1nat,
{
    let ghost model = ast_pairs_model(*pairs);
    let mut values: Vec<EllexValue> = Vec::new();
    let mut i: usize = 0;
    assert(values_model(values) =~= Seq::<ValueModel>::empty());
    while i < pairs.len()
        invariant
            0 <= i <= pairs.len(),
            model == ast_pairs_model(*pairs),
            model.len() == pairs.len(),
            evaluated_pairs(model, i as int, context@) == Ok::<Seq<ValueModel>, ErrorModel>(
                values_model(values),
            ),
        decreases pairs.len() - i,
    {
        assert(model[i as int] == (pairs[i as int].0@, pairs[i as int].1@));
        proof {
            assert(decreases_to!(pairs => pairs[i as int]));
            assert(decreases_to!(pairs[i as int] => pairs[i as int].0));
            assert(decreases_to!(pairs[i as int] => pairs[i as int].1));
        }
        let key = match evaluate_ast(&pairs[i].0, context) {
            Ok(v) => v,
            Err(error) => {
                proof {
                    lemma_pairs_error_stays(model, i as int + 1, pairs.len() as int, context@);
                }
                return Err(error);
            },
        };
        let value = match evaluate_ast(&pairs[i].1, context) {
            Ok(v) => v,
            Err(error) => {
                proof {
                    lemma_pairs_error_stays(model, i as int + 1, pairs.len() as int, context@);
                }
                return Err(error);
            },
        };
        let ghost before = values_model(values);
        let mut pair: Vec<EllexValue> = Vec::new();
        pair.push(key);
        pair.push(value);
        assert(values_model(pair) =~= seq![key@, value@]);
        values.push(EllexValue::List(pair));
        assert(values_model(values) =~= before.push(ValueModel::List(seq![key@, value@])));
        i += 1;
    }
    Ok(values)
}

/// Evaluates the clauses of a case expression from the first on.
fn evaluate_clauses(clauses: &Vec<CaseClause>, context: &ExecutionContext) -> (r: EllexResult<
    EllexValue,
>)
    ensures
        is_result(r, case_value(clauses_model(*clauses), 0, context@)),
    decreases clauses, 1nat,
{
    let ghost model = clauses_model(*clauses);
    let mut i: usize = 0;
    while i < clauses.len()
        invariant
            0 <= i <= clauses.len(),
            model == clauses_model(*clauses),
            model.len() == clauses.len(),
            case_value(model, 0, context@) == case_value(model, i as int, context@),
        decreases clauses.len() - i,
    {
        let clause = &clauses[i];
        assert(model[i as int] == clause@);
        proof {
            assert(decreases_to!(clauses => clauses[i as int]));
            assert(decreases_to!(clauses[i as int] => clauses[i as int].body));
            assert(decreases_to!(clauses[i as int] => clauses[i as int].guard));
        }
        match &clause.guard {
            None => {
                return evaluate_ast(&clause.body, context);
            },
            Some(guard) => {
                proof {
                    assert(decreases_to!(clauses[i as int].guard => guard));
                }
                match evaluate_ast(guard, context) {
                    Err(error) => {
                        return Err(error);
                    },
                    Ok(v) => {
                        if is_truthy(&v) {
                            return evaluate_ast(&clause.body, context);
                        }
                    },
                }
            },
        }
        i += 1;
    }
    Err(failure("No matching case clause"))
}

/// The value of an expression in the context.
pub fn evaluate_ast(ast: &MiniElixirAST, context: &ExecutionContext) -> (r: EllexResult<EllexValue>)
    ensures
        is_result(r, evaluated(ast@, context@)),
    decreases ast, 0nat,
{
    match ast {
        MiniElixirAST::Literal(literal) => Ok(eval_literal(literal)),
        MiniElixirAST::Variable(name) => match lookup(context, name.as_str()) {
            Some(v) => Ok(v),
            None => Err(EllexError::logic("Variable '", name.as_str(), "' is undefined")),
        },
        MiniElixirAST::BinaryOp { op, left, right } => {
            let l = match evaluate_ast(left, context) {
                Ok(v) => v,
                Err(error) => {
                    return Err(error);
                },
            };
            let r = match evaluate_ast(right, context) {
                Ok(v) => v,
                Err(error) => {
                    return Err(error);
                },
            };
            binary_operation(to_core(*op), l, r)
        },
        MiniElixirAST::UnaryOp { op, operand } => {
            let v = match evaluate_ast(operand, context) {
                Ok(v) => v,
                Err(error) => {
                    return Err(error);
                },
            };
            match op {
                UnaryOperator::Not => unary_operation(crate::minielixir::UnaryOperator::Not, v),
                UnaryOperator::Minus => unary_operation(crate::minielixir::UnaryOperator::Minus, v),
            }
        },
        MiniElixirAST::FunctionCall { module, function, args } => {
            assert(asts_model(*args).len() == args.len());
            let values = match evaluate_each(args, context) {
                Ok(values) => values,
                Err(error) => {
                    return Err(error);
                },
            };
            call_function(module, function.as_str(), &values)
        },
        MiniElixirAST::MapAccess { map, key } => {
            let m = match evaluate_ast(map, context) {
                Ok(v) => v,
                Err(error) => {
                    return Err(error);
                },
            };
            let k = match evaluate_ast(key, context) {
                Ok(v) => v,
                Err(error) => {
                    return Err(error);
                },
            };
            Ok(access_value(&m, &k))
        },
        MiniElixirAST::ListAccess { list, index } => {
            let l = match evaluate_ast(list, context) {
                Ok(v) => v,
                Err(error) => {
                    return Err(error);
                },
            };
            let i = match evaluate_ast(index, context) {
                Ok(v) => v,
                Err(error) => {
                    return Err(error);
                },
            };
            match (&l, &i) {
                (EllexValue::List(_), EllexValue::Number(_)) => Ok(access_value(&l, &i)),
                _ => Err(failure("Invalid list access")),
            }
        },
        MiniElixirAST::Pipe { left, right } => {
            let v = match evaluate_ast(left, context) {
                Ok(v) => v,
                Err(error) => {
                    return Err(error);
                },
            };
            match &**right {
                MiniElixirAST::FunctionCall { module, function, args } => {
                    assert(asts_model(*args).len() == args.len());
                    assert(ast_model(**right) == (AstModel::FunctionCall {
                        module: match *module {
                            Some(m) => Some(m@),
                            None => None,
                        },
                        function: function@,
                        args: asts_model(*args),
                    }));
                    match &v {
                        EllexValue::String(_) | EllexValue::Number(_) | EllexValue::Nil => {},
                        _ => {
                            return Err(failure("Cannot convert value to literal"));
                        },
                    }
                    let values = match evaluate_each(args, context) {
                        Ok(values) => values,
                        Err(error) => {
                            return Err(error);
                        },
                    };
                    let mut all: Vec<EllexValue> = Vec::new();
                    all.push(v);
                    let mut i: usize = 0;
                    while i < values.len()
                        invariant
                            0 <= i <= values.len(),
                            all.len() == i + 1,
                            all[0]@ == v@,
                            forall|j: int| 0 <= j < i ==> all[j + 1]@ == values[j]@,
                        decreases values.len() - i,
                    {
                        all.push(values[i].duplicate());
                        i += 1;
                    }
                    assert(values_model(all) =~= seq![v@] + values_model(values));
                    call_function(module, function.as_str(), &all)
                },
                _ => {
                    assert(!(ast_model(**right) is FunctionCall));
                    Err(failure("Pipe target must be a function call"))
                },
            }
        },
        MiniElixirAST::Case { expr, clauses } => {
            match evaluate_ast(expr, context) {
                Ok(_) => {},
                Err(error) => {
                    return Err(error);
                },
            }
            evaluate_clauses(clauses, context)
        },
        MiniElixirAST::If { condition, then_branch, else_branch } => {
            let c = match evaluate_ast(condition, context) {
                Ok(v) => v,
                Err(error) => {
                    return Err(error);
                },
            };
            if is_truthy(&c) {
                evaluate_ast(then_branch, context)
            } else {
                match else_branch {
                    Some(b) => evaluate_ast(b, context),
                    None => Ok(EllexValue::Nil),
                }
            }
        },
        MiniElixirAST::Block(items) => {
            assert(asts_model(*items).len() == items.len());
            let mut values = match evaluate_each(items, context) {
                Ok(values) => values,
                Err(error) => {
                    return Err(error);
                },
            };
            let ghost all_values = values_model(values);
            let ghost count = values.len();
            assert(all_values.len() == count);
            assert(count > 0 ==> all_values[count - 1] == values[count - 1]@);
            match values.pop() {
                Some(last) => Ok(last),
                None => Ok(EllexValue::Nil),
            }
        },
        MiniElixirAST::PatternMatch { pattern, value } => evaluate_ast(value, context),
        MiniElixirAST::List(items) => {
            assert(asts_model(*items).len() == items.len());
            match evaluate_each(items, context) {
                Ok(values) => Ok(EllexValue::List(values)),
                Err(error) => Err(error),
            }
        },
        MiniElixirAST::Tuple(items) => {
            assert(asts_model(*items).len() == items.len());
            match evaluate_each(items, context) {
                Ok(values) => Ok(EllexValue::List(values)),
                Err(error) => Err(error),
            }
        },
        MiniElixirAST::MapLiteral(pairs) => {
            assert(ast_pairs_model(*pairs).len() == pairs.len());
            match evaluate_pairs(pairs, context) {
                Ok(values) => Ok(EllexValue::List(values)),
                Err(error) => Err(error),
            }
        },
    }
}

/// The deepest nesting of an expression that is let through.
pub const DEEPEST: usize = 100;

/// The module has an entry in the allow-list.
pub open spec fn lists_module(entries: Seq<ModuleFunctions>, module: Seq<char>) -> bool {
    module_index(entries, module) < entries.len()
}

pub open spec fn violation(reason: Seq<char>) -> ErrorModel {
    ErrorModel::SafetyViolation { reason }
}

/// What the check of an expression at the nesting `depth` finds, if it
/// finds anything: an expression nested deeper than `DEEPEST`, or a call
/// of a module that is not listed or of a function that is not among the
/// functions of its module. The parts of an operation, the arguments of a
/// call and the members of a list and of a block are checked one level
/// deeper, in order; other parts are not looked at.
pub open spec fn validated(ast: AstModel, depth: nat, entries: Seq<ModuleFunctions>) -> Option<
    ErrorModel,
>
    decreases ast, 0nat,
{
    if depth > DEEPEST {
        Some(violation("AST too deeply nested"@))
    } else {
        match ast {
            AstModel::BinaryOp { op, left, right } => match validated(*left, depth + 1, entries) {
                Some(e) => Some(e),
                None => validated(*right, depth + 1, entries),
            },
            AstModel::UnaryOp { op, operand } => validated(*operand, depth + 1, entries),
            AstModel::FunctionCall { module, function, args } => {
                if module is Some && !lists_module(entries, module.unwrap()) {
                    Some(violation("Module '"@ + module.unwrap() + "' is not allowed"@))
                } else if module is Some && !permits(entries, module.unwrap(), function) {
                    Some(
                        violation(
                            "Function '"@ + module.unwrap() + ":"@ + function + "' is not allowed"@,
                        ),
                    )
                } else {
                    validated_all(args, args.len() as int, depth + 1, entries)
                }
            },
            AstModel::List(items) => validated_all(items, items.len() as int, depth + 1, entries),
            AstModel::Block(items) => validated_all(items, items.len() as int, depth + 1, entries),
            _ => None,
        }
    }
}

/// What the check of the first `n` expressions of `items` finds first.
pub open spec fn validated_all(
    items: Seq<AstModel>,
    n: int,
    depth: nat,
    entries: Seq<ModuleFunctions>,
) -> Option<ErrorModel>
    decreases items, n,
{
    if n <= 0 || n > items.len() {
        None
    } else {
        match validated_all(items, n - 1, depth, entries) {
            Some(e) => Some(e),
            None => validated(items[n - 1], depth, entries),
        }
    }
}

/// A finding among the first `n` expressions is the finding of every
/// longer prefix.
pub proof fn lemma_finding_stays(
    items: Seq<AstModel>,
    n: int,
    m: int,
    depth: nat,
    entries: Seq<ModuleFunctions>,
)
    requires
        0 <= n <= m <= items.len(),
        validated_all(items, n, depth, entries) is Some,
    ensures
        validated_all(items, m, depth, entries) == validated_all(items, n, depth, entries),
    decreases m - n,
{
    if n < m {
        lemma_finding_stays(items, n, m - 1, depth, entries);
    }
}

/// What the reader gives is let through.
pub proof fn lemma_parsed_is_valid(code: Seq<char>, entries: Seq<ModuleFunctions>)
    ensures
        validated(parsed(code), 0, entries) is None,
{
}

impl SequinMiniElixir {
    /// Whether `module` has an entry in the allow-list.
    pub fn lists(&self, module: &str) -> (r: bool)
        ensures
            r == lists_module(self.entries(), module@),
    {
        let mut i: usize = 0;
        while i < self.allowed_functions.len()
            invariant
                0 <= i <= self.allowed_functions.len(),
                forall|j: int| 0 <= j < i ==> self.allowed_functions[j].module@ != module@,
            decreases self.allowed_functions.len() - i,
        {
            if same_text(self.allowed_functions[i].module.as_str(), module) {
                proof {
                    lemma_module_index_is(self.entries(), module@, i as int);
                }
                return true;
            }
            i += 1;
        }
        proof {
            lemma_module_index_is(self.entries(), module@, self.allowed_functions.len() as int);
        }
        false
    }

    /// Checks the expressions of `items` at the nesting `depth`, in order.
    fn validate_each(&self, items: &Vec<MiniElixirAST>, depth: usize) -> (r: EllexResult<()>)
        requires
            depth <= DEEPEST + 1,
        ensures
            match r {
                Ok(_) => validated_all(
                    asts_model(*items),
                    items.len() as int,
                    depth as nat,
                    self.entries(),
                ) is None,
                Err(e) => validated_all(
                    asts_model(*items),
                    items.len() as int,
                    depth as nat,
                    self.entries(),
                ) == Some(e@),
            },
        decreases items, 1nat,
    {
        let ghost model = asts_model(*items);
        let mut i: usize = 0;
        while i < items.len()
            invariant
                0 <= i <= items.len(),
                depth <= DEEPEST + 1,
                model == asts_model(*items),
                model.len() == items.len(),
                validated_all(model, i as int, depth as nat, self.entries()) is None,
            decreases items.len() - i,
        {
            assert(model[i as int] == items[i as int]@);
            match self.validate_at(&items[i], depth) {
                Ok(()) => {},
                Err(error) => {
                    proof {
                        lemma_finding_stays(
                            model,
                            i as int + 1,
                            items.len() as int,
                            depth as nat,
                            self.entries(),
                        );
                    }
                    return Err(error);
                },
            }
            i += 1;
        }
        Ok(())
    }

    /// Checks an expression at the nesting `depth`.
    fn validate_at(&self, ast: &MiniElixirAST, depth: usize) -> (r: EllexResult<()>)
        requires
            depth <= DEEPEST + 1,
        ensures
            match r {
                Ok(_) => validated(ast@, depth as nat, self.entries()) is None,
                Err(e) => validated(ast@, depth as nat, self.entries()) == Some(e@),
            },
        decreases ast, 0nat,
    {
        if depth > DEEPEST {
            return Err(
                EllexError::SafetyViolation { reason: String::from_str("AST too deeply nested") },
            );
        }
        match ast {
            MiniElixirAST::BinaryOp { op, left, right } => {
                match self.validate_at(left, depth + 1) {
                    Ok(()) => {},
                    Err(error) => {
                        return Err(error);
                    },
                }
                self.validate_at(right, depth + 1)
            },
            MiniElixirAST::UnaryOp { op, operand } => self.validate_at(operand, depth + 1),
            MiniElixirAST::FunctionCall { module, function, args } => {
                assert(asts_model(*args).len() == args.len());
                match module {
                    Some(m) => {
                        if !self.lists(m.as_str()) {
                            return Err(EllexError::violation("Module '", m.as_str(), "' is not allowed"));
                        }
                        if !self.is_allowed(m.as_str(), function.as_str()) {
                            let mut reason = String::from_str("Function '");
                            push_text(&mut reason, m.as_str());
                            push_text(&mut reason, ":");
                            push_text(&mut reason, function.as_str());
                            push_text(&mut reason, "' is not allowed");
                            return Err(EllexError::SafetyViolation { reason });
                        }
                    },
                    None => {},
                }
                self.validate_each(args, depth + 1)
            },
            MiniElixirAST::List(items) => {
                assert(asts_model(*items).len() == items.len());
                self.validate_each(items, depth + 1)
            },
            MiniElixirAST::Block(items) => {
                assert(asts_model(*items).len() == items.len());
                self.validate_each(items, depth + 1)
            },
            _ => Ok(()),
        }
    }

    /// Checks an expression: see `validated`.
    pub fn validate_ast(&self, ast: &MiniElixirAST) -> (r: EllexResult<()>)
        ensures
            match r {
                Ok(_) => validated(ast@, 0, self.entries()) is None,
                Err(e) => validated(ast@, 0, self.entries()) == Some(e@),
            },
    {
        self.validate_at(ast, 0)
    }
}

impl SequinMiniElixir {
    /// Executes `code` in the context for a clock that reads `elapsed_ms`
    /// once the code is read.
    pub fn execute_at(&self, code: &str, bindings: &ExecutionContext, elapsed_ms: u64) -> (r:
        EllexResult<EllexValue>)
        ensures
            is_result(r, executed(code@, bindings@, self.timeout(), elapsed_ms)),
    {
        let ast = parse_code(code);
        proof {
            lemma_parsed_is_valid(code@, self.entries());
        }
        match self.validate_ast(&ast) {
            Ok(()) => {},
            Err(error) => {
                return Err(error);
            },
        }
        if elapsed_ms > self.timeout_ms {
            return Err(EllexError::Timeout { limit_ms: self.timeout_ms });
        }
        evaluate_ast(&ast, bindings)
    }

    /// Executes `code` in the context on the clock of the machine, which is
    /// read once, when the code is read.
    pub fn execute(&self, code: &str, bindings: &ExecutionContext) -> (r: EllexResult<EllexValue>)
        ensures
            exists|elapsed_ms: u64|
                is_result(r, #[trigger] executed(code@, bindings@, self.timeout(), elapsed_ms)),
    {
        let start = Instant::now();
        let ast = parse_code(code);
        proof {
            lemma_parsed_is_valid(code@, self.entries());
        }
        match self.validate_ast(&ast) {
            Ok(()) => {},
            Err(error) => {
                return Err(error);
            },
        }
        let elapsed: u128 = start.elapsed().as_millis();
        let elapsed_ms: u64 = (elapsed % 0x1_0000_0000_0000_0000) as u64;
        let r = if elapsed_ms > self.timeout_ms {
            Err(EllexError::Timeout { limit_ms: self.timeout_ms })
        } else {
            evaluate_ast(&ast, bindings)
        };
        assert(is_result(r, executed(code@, bindings@, self.timeout(), elapsed_ms)));
        r
    }
}

} // verus!
