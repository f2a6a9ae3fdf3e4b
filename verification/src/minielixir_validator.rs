//! The validator of the sandboxed expression language: a structural safety
//! check, a determinism flag and a complexity score.

use crate::minielixir::{
    BinaryOperator, CaseClause, ClauseModel, ExprModel, MiniElixirExpr, UnaryOperator,
};
use crate::text::{
    chars_of, contains, decimal, has_substring, is_letter_or_digit, is_small_letter,
    letter_or_digit, push_decimal, same_text, small_letter,
};
use crate::{error_of, EllexError, EllexResult, ErrorModel};
use vstd::prelude::*;

verus! {

/// The longest text, in bytes, that the validator accepts.
pub const MAX_TEXT_BYTES: usize = 10000;

/// The model of a validator.
pub struct ValidatorModel {
    pub max_depth: usize,
    pub max_list_size: usize,
    pub allowed: Set<Seq<char>>,
    pub forbidden: Seq<Seq<char>>,
}

/// The built-ins that take exactly one argument.
pub open spec fn takes_one(name: Seq<char>) -> bool {
    ||| name == "length"@
    ||| name == "hd"@
    ||| name == "tl"@
    ||| name == "to_string"@
    ||| name == "is_list"@
    ||| name == "is_atom"@
    ||| name == "is_number"@
    ||| name == "is_binary"@
    ||| name == "tuple_size"@
}

/// The built-ins: pure, total operations on values.
pub open spec fn is_builtin(name: Seq<char>) -> bool {
    takes_one(name) || name == "elem"@
}

/// The functions that a validator allows when it is made.
pub open spec fn standard_allowed() -> Set<Seq<char>> {
    Set::new(|name: Seq<char>| is_builtin(name))
}

/// The texts that a validator refuses in strings and atoms when it is made.
pub open spec fn standard_forbidden() -> Seq<Seq<char>> {
    seq!["System"@, "File"@, "Process"@, ":os"@, "spawn"@]
}

impl ValidatorModel {
    /// Depth 50, size 1000, the built-ins, the standard refusals.
    pub open spec fn standard() -> ValidatorModel {
        ValidatorModel {
            max_depth: 50,
            max_list_size: 1000,
            allowed: standard_allowed(),
            forbidden: standard_forbidden(),
        }
    }
}

pub open spec fn violation(before: Seq<char>, name: Seq<char>, after: Seq<char>) -> ErrorModel {
    ErrorModel::SafetyViolation { reason: before + name + after }
}

pub open spec fn malformed(message: Seq<char>) -> ErrorModel {
    ErrorModel::ParseError { line: 0, column: 0, message }
}

/// The first of two findings.
pub open spec fn or_else(a: Option<ErrorModel>, b: Option<ErrorModel>) -> Option<ErrorModel> {
    if a is Some {
        a
    } else {
        b
    }
}

/// The index of the first refused text that `content` contains, or the
/// number of refused texts if it contains none.
pub open spec fn first_forbidden(forbidden: Seq<Seq<char>>, content: Seq<char>) -> int
    decreases forbidden.len(),
{
    if forbidden.len() == 0 {
        0
    } else if contains(content, forbidden[0]) {
        0
    } else {
        1 + first_forbidden(forbidden.drop_first(), content)
    }
}

pub proof fn lemma_first_forbidden(forbidden: Seq<Seq<char>>, content: Seq<char>)
    ensures
        0 <= first_forbidden(forbidden, content) <= forbidden.len(),
        first_forbidden(forbidden, content) < forbidden.len() ==> contains(
            content,
            forbidden[first_forbidden(forbidden, content)],
        ),
        forall|j: int|
            0 <= j < first_forbidden(forbidden, content) ==> !contains(content, forbidden[j]),
    decreases forbidden.len(),
{
    if forbidden.len() > 0 && !contains(content, forbidden[0]) {
        let rest = forbidden.drop_first();
        lemma_first_forbidden(rest, content);
        assert forall|j: int| 0 <= j < first_forbidden(forbidden, content) implies !contains(
            content,
            forbidden[j],
        ) by {
            if j > 0 {
                assert(rest[j - 1] == forbidden[j]);
            }
        }
    }
}

pub proof fn lemma_first_forbidden_is(forbidden: Seq<Seq<char>>, content: Seq<char>, i: int)
    requires
        0 <= i <= forbidden.len(),
        i < forbidden.len() ==> contains(content, forbidden[i]),
        forall|j: int| 0 <= j < i ==> !contains(content, forbidden[j]),
    ensures
        first_forbidden(forbidden, content) == i,
{
    lemma_first_forbidden(forbidden, content);
    let f = first_forbidden(forbidden, content);
    if f < i {
        assert(!contains(content, forbidden[f]));
    }
}

/// Letters, digits and the underscore only.
pub open spec fn word_chars(s: Seq<char>) -> bool {
    forall|i: int| 0 <= i < s.len() ==> letter_or_digit(#[trigger] s[i]) || s[i] == '_'
}

impl ValidatorModel {
    /// What is wrong with the text of a string literal: it contains a
    /// refused text (the first in the validator's order is named), or it is
    /// longer than 10 000 bytes.
    pub open spec fn check_text(self, content: Seq<char>) -> Option<ErrorModel> {
        let i = first_forbidden(self.forbidden, content);
        if i < self.forbidden.len() {
            Some(violation("Forbidden pattern '"@, self.forbidden[i], "' found in string"@))
        } else if vstd::utf8::encode_utf8(content).len() > MAX_TEXT_BYTES {
            Some(
                ErrorModel::SafetyViolation {
                    reason: "String too long (max: 10000 characters)"@,
                },
            )
        } else {
            None
        }
    }

    /// What is wrong with the name of an atom: it contains a refused text,
    /// or a character that is no letter, digit or underscore.
    pub open spec fn check_atom(self, atom: Seq<char>) -> Option<ErrorModel> {
        let i = first_forbidden(self.forbidden, atom);
        if i < self.forbidden.len() {
            Some(violation("Forbidden pattern '"@, self.forbidden[i], "' found in atom"@))
        } else if !word_chars(atom) {
            Some(malformed("Invalid atom name format"@))
        } else {
            None
        }
    }

    /// What is wrong with the name of a variable: it starts with something
    /// else than a lowercase letter or an underscore, or holds a character
    /// that is no letter, digit or underscore. The empty name passes.
    pub open spec fn check_variable(self, name: Seq<char>) -> Option<ErrorModel> {
        if name.len() > 0 && !small_letter(name[0]) && name[0] != '_' {
            Some(malformed("Variable names must start with lowercase letter or underscore"@))
        } else if !word_chars(name) {
            Some(malformed("Invalid characters in variable name"@))
        } else {
            None
        }
    }

    /// What is wrong with a call of `function` with `argc` arguments: the
    /// function is not allowed, or a built-in gets the wrong number of
    /// arguments.
    pub open spec fn check_call(self, function: Seq<char>, argc: nat) -> Option<ErrorModel> {
        if !self.allowed.contains(function) {
            Some(violation("Function '"@, function, "' is not allowed"@))
        } else if takes_one(function) && argc != 1 {
            Some(
                ErrorModel::LogicError {
                    message: "Function '"@ + function + "/1' expects exactly one argument"@,
                },
            )
        } else if function == "elem"@ && argc != 2 {
            Some(
                ErrorModel::LogicError {
                    message: "Function 'elem/2' expects exactly two arguments"@,
                },
            )
        } else {
            None
        }
    }

    pub open spec fn too_deep(self) -> ErrorModel {
        ErrorModel::SafetyViolation {
            reason: "Expression too deeply nested (max: "@ + decimal(self.max_depth as nat) + ")"@,
        }
    }

    pub open spec fn too_large(self, kind: Seq<char>) -> ErrorModel {
        ErrorModel::SafetyViolation {
            reason: kind + " too large (max: "@ + decimal(self.max_list_size as nat) + ")"@,
        }
    }

    /// The first thing wrong with `e` at nesting depth `depth`, in the order
    /// of a walk from the root, children left to right; `None` if nothing
    /// is.
    pub open spec fn check(self, e: ExprModel, depth: nat) -> Option<ErrorModel>
        decreases e, 0nat,
    {
        if depth > self.max_depth {
            Some(self.too_deep())
        } else {
            match e {
                ExprModel::Nil => None,
                ExprModel::Boolean(_) => None,
                ExprModel::Integer(_) => None,
                ExprModel::Float(_) => None,
                ExprModel::Text(s) => self.check_text(s),
                ExprModel::Atom(a) => self.check_atom(a),
                ExprModel::Variable(name) => self.check_variable(name),
                ExprModel::List(items) => if items.len() > self.max_list_size {
                    Some(self.too_large("List"@))
                } else {
                    self.check_all(items, 0, depth + 1)
                },
                ExprModel::Tuple(items) => if items.len() > self.max_list_size {
                    Some(self.too_large("Tuple"@))
                } else {
                    self.check_all(items, 0, depth + 1)
                },
                ExprModel::MapLiteral(pairs) => if pairs.len() > self.max_list_size {
                    Some(self.too_large("Map"@))
                } else {
                    self.check_pairs(pairs, 0, depth + 1)
                },
                ExprModel::BinaryOp { op, left, right } => or_else(
                    self.check(*left, depth + 1),
                    self.check(*right, depth + 1),
                ),
                ExprModel::UnaryOp { op, operand } => self.check(*operand, depth + 1),
                ExprModel::Call { function, args } => or_else(
                    self.check_call(function, args.len()),
                    self.check_all(args, 0, depth + 1),
                ),
                ExprModel::Pipe { value, function } => or_else(
                    self.check(*value, depth + 1),
                    self.check(*function, depth + 1),
                ),
                ExprModel::Match { pattern, value } => or_else(
                    self.check(*pattern, depth + 1),
                    self.check(*value, depth + 1),
                ),
                ExprModel::Case { expr, clauses } => or_else(
                    self.check(*expr, depth + 1),
                    self.check_clauses(clauses, 0, depth + 1),
                ),
                ExprModel::If { condition, then_branch, else_branch } => or_else(
                    self.check(*condition, depth + 1),
                    or_else(
                        self.check(*then_branch, depth + 1),
                        match else_branch {
                            Some(b) => self.check(*b, depth + 1),
                            None => None,
                        },
                    ),
                ),
                ExprModel::Block(items) => if items.len() > self.max_list_size {
                    Some(self.too_large("Block"@))
                } else {
                    self.check_all(items, 0, depth + 1)
                },
                ExprModel::Access { object, key } => or_else(
                    self.check(*object, depth + 1),
                    self.check(*key, depth + 1),
                ),
            }
        }
    }

    /// The first thing wrong with the expressions `items[from..]`.
    pub open spec fn check_all(self, items: Seq<ExprModel>, from: int, depth: nat) -> Option<
        ErrorModel,
    >
        decreases items, items.len() - from,
    {
        if from < 0 || from >= items.len() {
            None
        } else {
            or_else(self.check(items[from], depth), self.check_all(items, from + 1, depth))
        }
    }

    /// The first thing wrong with the pairs `pairs[from..]`, key before
    /// value.
    pub open spec fn check_pairs(
        self,
        pairs: Seq<(ExprModel, ExprModel)>,
        from: int,
        depth: nat,
    ) -> Option<ErrorModel>
        decreases pairs, pairs.len() - from,
    {
        if from < 0 || from >= pairs.len() {
            None
        } else {
            or_else(
                self.check(pairs[from].0, depth),
                or_else(self.check(pairs[from].1, depth), self.check_pairs(pairs, from + 1, depth)),
            )
        }
    }

    /// The first thing wrong with the clauses `clauses[from..]`: pattern,
    /// guard, body.
    pub open spec fn check_clauses(self, clauses: Seq<ClauseModel>, from: int, depth: nat) -> Option<
        ErrorModel,
    >
        decreases clauses, clauses.len() - from,
    {
        if from < 0 || from >= clauses.len() {
            None
        } else {
            or_else(
                self.check(clauses[from].pattern, depth),
                or_else(
                    match clauses[from].guard {
                        Some(g) => self.check(g, depth),
                        None => None,
                    },
                    or_else(
                        self.check(clauses[from].body, depth),
                        self.check_clauses(clauses, from + 1, depth),
                    ),
                ),
            )
        }
    }
}

/// Evaluating `e` twice against the same bindings gives the same value: `e`
/// is made of literals, variables, built-in calls and combinations of them.
/// A call of any other function and a case expression do not count.
pub open spec fn deterministic(e: ExprModel) -> bool
    decreases e,
{
    match e {
        ExprModel::List(items) => all_deterministic(items),
        ExprModel::Tuple(items) => all_deterministic(items),
        ExprModel::Block(items) => all_deterministic(items),
        ExprModel::MapLiteral(pairs) => all_pairs_deterministic(pairs),
        ExprModel::BinaryOp { op, left, right } => deterministic(*left) && deterministic(*right),
        ExprModel::UnaryOp { op, operand } => deterministic(*operand),
        ExprModel::Call { function, args } => is_builtin(function) && all_deterministic(args),
        ExprModel::Pipe { value, function } => deterministic(*value) && deterministic(*function),
        ExprModel::Match { pattern, value } => deterministic(*pattern) && deterministic(*value),
        ExprModel::If { condition, then_branch, else_branch } => {
            &&& deterministic(*condition)
            &&& deterministic(*then_branch)
            &&& match else_branch {
                Some(b) => deterministic(*b),
                None => true,
            }
        },
        ExprModel::Access { object, key } => deterministic(*object) && deterministic(*key),
        ExprModel::Case { expr, clauses } => false,
        _ => true,
    }
}

pub open spec fn pair_deterministic(pair: (ExprModel, ExprModel)) -> bool
    decreases pair,
{
    deterministic(pair.0) && deterministic(pair.1)
}

pub open spec fn all_pairs_deterministic(pairs: Seq<(ExprModel, ExprModel)>) -> bool
    decreases pairs,
{
    forall|i: int| 0 <= i < pairs.len() ==> pair_deterministic(#[trigger] pairs[i])
}

pub open spec fn all_deterministic(items: Seq<ExprModel>) -> bool
    decreases items,
{
    forall|i: int| 0 <= i < items.len() ==> deterministic(#[trigger] items[i])
}

/// The structural weight of `e`: one for a literal or a variable; one for a
/// list or a tuple or a map, two for a block or an operator, three for a
/// pipe or an access, four for a match, five for a call or a conditional,
/// ten for a case; plus the weights of all parts.
pub open spec fn weight(e: ExprModel) -> nat
    decreases e, 0nat,
{
    match e {
        ExprModel::List(items) => 1 + weight_sum(items, items.len() as int),
        ExprModel::Tuple(items) => 1 + weight_sum(items, items.len() as int),
        ExprModel::MapLiteral(pairs) => 1 + pair_weight_sum(pairs, pairs.len() as int),
        ExprModel::BinaryOp { op, left, right } => 2 + weight(*left) + weight(*right),
        ExprModel::UnaryOp { op, operand } => 2 + weight(*operand),
        ExprModel::Call { function, args } => 5 + weight_sum(args, args.len() as int),
        ExprModel::Pipe { value, function } => 3 + weight(*value) + weight(*function),
        ExprModel::Match { pattern, value } => 4 + weight(*pattern) + weight(*value),
        ExprModel::Case { expr, clauses } => 10 + weight(*expr) + clause_weight_sum(
            clauses,
            clauses.len() as int,
        ),
        ExprModel::If { condition, then_branch, else_branch } => 5 + weight(*condition) + weight(
            *then_branch,
        ) + match else_branch {
            Some(b) => weight(*b),
            None => 0,
        },
        ExprModel::Block(items) => 2 + weight_sum(items, items.len() as int),
        ExprModel::Access { object, key } => 3 + weight(*object) + weight(*key),
        _ => 1,
    }
}

/// The weights of the first `n` expressions of `items`, added up.
pub open spec fn weight_sum(items: Seq<ExprModel>, n: int) -> nat
    decreases items, n,
{
    if n <= 0 || n > items.len() {
        0
    } else {
        weight_sum(items, n - 1) + weight(items[n - 1])
    }
}

pub open spec fn pair_weight_sum(pairs: Seq<(ExprModel, ExprModel)>, n: int) -> nat
    decreases pairs, n,
{
    if n <= 0 || n > pairs.len() {
        0
    } else {
        pair_weight_sum(pairs, n - 1) + weight(pairs[n - 1].0) + weight(pairs[n - 1].1)
    }
}

pub open spec fn clause_weight(c: ClauseModel) -> nat
    decreases c, 0nat,
{
    weight(c.pattern) + weight(c.body) + match c.guard {
        Some(g) => weight(g),
        None => 0,
    }
}

pub open spec fn clause_weight_sum(clauses: Seq<ClauseModel>, n: int) -> nat
    decreases clauses, n,
{
    if n <= 0 || n > clauses.len() {
        0
    } else {
        clause_weight_sum(clauses, n - 1) + clause_weight(clauses[n - 1])
    }
}

/// `n` as a `usize`, the largest `usize` standing for everything above it.
pub open spec fn clamp(n: nat) -> usize {
    if n > usize::MAX {
        usize::MAX
    } else {
        n as usize
    }
}

/// The weight below which a result is not worth caching.
pub const MIN_CACHED_WEIGHT: usize = 3;

/// The texts of a list of strings, as a set.
pub open spec fn names_set(names: Seq<String>) -> Set<Seq<char>> {
    Set::new(|name: Seq<char>| exists|i: int| 0 <= i < names.len() && (#[trigger] names[i])@ == name)
}

/// The texts of a list of strings, in order.
pub open spec fn names_seq(names: Seq<String>) -> Seq<Seq<char>> {
    Seq::new(names.len(), |i: int| names[i]@)
}

pub proof fn lemma_names_set_push(names: Seq<String>, name: String)
    ensures
        names_set(names.push(name)) == names_set(names).insert(name@),
{
    let grown = names.push(name);
    assert forall|n: Seq<char>| names_set(grown).contains(n) == #[trigger] names_set(names).insert(
        name@,
    ).contains(n) by {
        if names_set(grown).contains(n) {
            let i = choose|i: int| 0 <= i < grown.len() && (#[trigger] grown[i])@ == n;
            if i < names.len() {
                assert(names[i]@ == n);
            }
        }
        if names_set(names).contains(n) {
            let i = choose|i: int| 0 <= i < names.len() && (#[trigger] names[i])@ == n;
            assert(grown[i]@ == n);
        }
        if n == name@ {
            assert(grown[names.len() as int]@ == n);
        }
    }
    assert(names_set(grown) =~= names_set(names).insert(name@));
}

/// Checks expressions of the sandboxed language before they are evaluated.
#[derive(Debug)]
pub struct MiniElixirValidator {
    max_depth: usize,
    max_list_size: usize,
    allowed_functions: Vec<String>,
    forbidden_patterns: Vec<String>,
}

impl View for MiniElixirValidator {
    type V = ValidatorModel;

    closed spec fn view(&self) -> ValidatorModel {
        ValidatorModel {
            max_depth: self.max_depth,
            max_list_size: self.max_list_size,
            allowed: names_set(self.allowed_functions@),
            forbidden: names_seq(self.forbidden_patterns@),
        }
    }
}

fn push_name(names: &mut Vec<String>, name: &str)
    ensures
        names_set(final(names)@) == names_set(old(names)@).insert(name@),
        names_seq(final(names)@) == names_seq(old(names)@).push(name@),
{
    let owned = String::from_str(name);
    proof {
        lemma_names_set_push(names@, owned);
    }
    names.push(owned);
    assert(names_seq(names@) =~= names_seq(old(names)@).push(name@));
}

fn decimal_text(n: usize) -> (s: String)
    ensures
        s@ == decimal(n as nat),
{
    let mut s = String::new();
    push_decimal(&mut s, n as u64);
    assert(s@ =~= decimal(n as nat));
    s
}

impl MiniElixirValidator {
    /// A validator with depth 50, size 1000, the built-ins allowed and the
    /// standard texts refused.
    pub fn new() -> (v: Self)
        ensures
            v@ == ValidatorModel::standard(),
    {
        let mut allowed: Vec<String> = Vec::new();
        assert(names_set(allowed@) =~= Set::<Seq<char>>::empty());
        push_name(&mut allowed, "length");
        push_name(&mut allowed, "hd");
        push_name(&mut allowed, "tl");
        push_name(&mut allowed, "to_string");
        push_name(&mut allowed, "is_list");
        push_name(&mut allowed, "is_atom");
        push_name(&mut allowed, "is_number");
        push_name(&mut allowed, "is_binary");
        push_name(&mut allowed, "elem");
        push_name(&mut allowed, "tuple_size");
        assert(names_set(allowed@) =~= standard_allowed());
        let mut forbidden: Vec<String> = Vec::new();
        assert(names_seq(forbidden@) =~= Seq::<Seq<char>>::empty());
        push_name(&mut forbidden, "System");
        push_name(&mut forbidden, "File");
        push_name(&mut forbidden, "Process");
        push_name(&mut forbidden, ":os");
        push_name(&mut forbidden, "spawn");
        assert(names_seq(forbidden@) =~= standard_forbidden());
        MiniElixirValidator {
            max_depth: 50,
            max_list_size: 1000,
            allowed_functions: allowed,
            forbidden_patterns: forbidden,
        }
    }

    /// The validator that also allows the functions named in `functions`.
    pub fn with_custom_functions(self, functions: Vec<String>) -> (v: Self)
        ensures
            v@ == (ValidatorModel {
                allowed: self@.allowed.union(names_set(functions@)),
                ..self@
            }),
    {
        let mut v = self;
        let mut i: usize = 0;
        while i < functions.len()
            invariant
                0 <= i <= functions.len(),
                v.max_depth == self.max_depth,
                v.max_list_size == self.max_list_size,
                v.forbidden_patterns == self.forbidden_patterns,
                names_set(v.allowed_functions@) == self@.allowed.union(
                    names_set(functions@.subrange(0, i as int)),
                ),
            decreases functions.len() - i,
        {
            let name = functions[i].clone();
            proof {
                lemma_names_set_push(v.allowed_functions@, name);
                lemma_names_set_push(functions@.subrange(0, i as int), functions[i as int]);
                assert(functions@.subrange(0, i as int).push(functions[i as int])
                    =~= functions@.subrange(0, i + 1));
            }
            v.allowed_functions.push(name);
            i += 1;
            assert(names_set(v.allowed_functions@) =~= self@.allowed.union(
                names_set(functions@.subrange(0, i as int)),
            ));
        }
        assert(functions@.subrange(0, functions.len() as int) =~= functions@);
        v
    }

    /// Whether calls of `name` are allowed.
    pub fn allows(&self, name: &str) -> (r: bool)
        ensures
            r == self@.allowed.contains(name@),
    {
        let mut i: usize = 0;
        while i < self.allowed_functions.len()
            invariant
                0 <= i <= self.allowed_functions.len(),
                forall|j: int| 0 <= j < i ==> self.allowed_functions[j]@ != name@,
            decreases self.allowed_functions.len() - i,
        {
            if same_text(self.allowed_functions[i].as_str(), name) {
                return true;
            }
            i += 1;
        }
        false
    }

    /// Checks `expr` from the root.
    pub fn validate(&self, expr: &MiniElixirExpr) -> (r: EllexResult<()>)
        ensures
            error_of(r) == self@.check(expr@, 0),
    {
        self.validate_recursive(expr, 0)
    }

    fn forbidden_in(&self, content: &Vec<char>) -> (i: usize)
        ensures
            i == first_forbidden(self@.forbidden, content@),
            i <= self.forbidden_patterns.len(),
    {
        let mut i: usize = 0;
        while i < self.forbidden_patterns.len()
            invariant
                0 <= i <= self.forbidden_patterns.len(),
                forall|j: int| 0 <= j < i ==> !contains(content@, self@.forbidden[j]),
            decreases self.forbidden_patterns.len() - i,
        {
            let pattern = chars_of(self.forbidden_patterns[i].as_str());
            if has_substring(content, &pattern) {
                proof {
                    lemma_first_forbidden_is(self@.forbidden, content@, i as int);
                }
                return i;
            }
            i += 1;
        }
        proof {
            lemma_first_forbidden_is(self@.forbidden, content@, i as int);
        }
        i
    }

    /// Checks the text of a string literal.
    pub fn validate_string_content(&self, content: &str) -> (r: EllexResult<()>)
        ensures
            error_of(r) == self@.check_text(content@),
    {
        let chars = chars_of(content);
        let i = self.forbidden_in(&chars);
        if i < self.forbidden_patterns.len() {
            return Err(
                EllexError::violation(
                    "Forbidden pattern '",
                    self.forbidden_patterns[i].as_str(),
                    "' found in string",
                ),
            );
        }
        if content.as_bytes().len() > MAX_TEXT_BYTES {
            return Err(
                EllexError::SafetyViolation {
                    reason: String::from_str("String too long (max: 10000 characters)"),
                },
            );
        }
        Ok(())
    }

    /// Checks the name of an atom.
    pub fn validate_atom_name(&self, atom: &str) -> (r: EllexResult<()>)
        ensures
            error_of(r) == self@.check_atom(atom@),
    {
        let chars = chars_of(atom);
        let i = self.forbidden_in(&chars);
        if i < self.forbidden_patterns.len() {
            return Err(
                EllexError::violation(
                    "Forbidden pattern '",
                    self.forbidden_patterns[i].as_str(),
                    "' found in atom",
                ),
            );
        }
        if !only_word_chars(&chars) {
            return Err(
                EllexError::ParseError {
                    line: 0,
                    column: 0,
                    message: String::from_str("Invalid atom name format"),
                },
            );
        }
        Ok(())
    }

    /// Checks the name of a variable.
    pub fn validate_variable_name(&self, name: &str) -> (r: EllexResult<()>)
        ensures
            error_of(r) == self@.check_variable(name@),
    {
        let chars = chars_of(name);
        if chars.len() > 0 {
            let first = chars[0];
            if !is_small_letter(first) && first != '_' {
                return Err(
                    EllexError::ParseError {
                        line: 0,
                        column: 0,
                        message: String::from_str(
                            "Variable names must start with lowercase letter or underscore",
                        ),
                    },
                );
            }
        }
        if !only_word_chars(&chars) {
            return Err(
                EllexError::ParseError {
                    line: 0,
                    column: 0,
                    message: String::from_str("Invalid characters in variable name"),
                },
            );
        }
        Ok(())
    }

    /// Every binary operator is safe.
    pub fn validate_binary_operator(&self, op: &BinaryOperator) -> (r: EllexResult<()>)
        ensures
            r is Ok,
    {
        Ok(())
    }

    /// Every unary operator is safe.
    pub fn validate_unary_operator(&self, op: &UnaryOperator) -> (r: EllexResult<()>)
        ensures
            r is Ok,
    {
        Ok(())
    }

    /// Checks a call of `function` with `argc` arguments.
    pub fn validate_function_call(&self, function: &str, argc: usize) -> (r: EllexResult<()>)
        ensures
            error_of(r) == self@.check_call(function@, argc as nat),
    {
        if !self.allows(function) {
            return Err(EllexError::violation("Function '", function, "' is not allowed"));
        }
        if name_takes_one(function) && argc != 1 {
            return Err(
                EllexError::logic("Function '", function, "/1' expects exactly one argument"),
            );
        }
        if same_text(function, "elem") && argc != 2 {
            return Err(
                EllexError::LogicError {
                    message: String::from_str("Function 'elem/2' expects exactly two arguments"),
                },
            );
        }
        Ok(())
    }

    fn too_deep_error(&self) -> (e: EllexError)
        ensures
            e@ == self@.too_deep(),
    {
        let n = decimal_text(self.max_depth);
        EllexError::violation("Expression too deeply nested (max: ", n.as_str(), ")")
    }

    fn too_large_error(&self, kind: &str) -> (e: EllexError)
        ensures
            e@ == self@.too_large(kind@),
    {
        let n = decimal_text(self.max_list_size);
        let mut reason = String::from_str(kind);
        crate::text::push_text(&mut reason, " too large (max: ");
        crate::text::push_text(&mut reason, n.as_str());
        crate::text::push_text(&mut reason, ")");
        assert(reason@ =~= kind@ + " too large (max: "@ + decimal(self.max_list_size as nat) + ")"@);
        EllexError::SafetyViolation { reason }
    }

    fn validate_recursive(&self, expr: &MiniElixirExpr, depth: usize) -> (r: EllexResult<()>)
        ensures
            error_of(r) == self@.check(expr@, depth as nat),
        decreases expr, 0nat,
    {
        if depth > self.max_depth {
            return Err(self.too_deep_error());
        }
        match expr {
            MiniElixirExpr::Nil => Ok(()),
            MiniElixirExpr::Boolean(_) => Ok(()),
            MiniElixirExpr::Integer(_) => Ok(()),
            MiniElixirExpr::Float(_) => Ok(()),
            MiniElixirExpr::String(s) => self.validate_string_content(s.as_str()),
            MiniElixirExpr::Atom(a) => self.validate_atom_name(a.as_str()),
            MiniElixirExpr::Variable(name) => self.validate_variable_name(name.as_str()),
            MiniElixirExpr::List(items) => {
                assert(crate::minielixir::exprs_model(*items).len() == items.len());
                if items.len() > self.max_list_size {
                    return Err(self.too_large_error("List"));
                }
                self.validate_all(items, depth)
            },
            MiniElixirExpr::Tuple(items) => {
                assert(crate::minielixir::exprs_model(*items).len() == items.len());
                if items.len() > self.max_list_size {
                    return Err(self.too_large_error("Tuple"));
                }
                self.validate_all(items, depth)
            },
            MiniElixirExpr::MapLiteral(pairs) => {
                assert(crate::minielixir::pairs_model(*pairs).len() == pairs.len());
                if pairs.len() > self.max_list_size {
                    return Err(self.too_large_error("Map"));
                }
                self.validate_pairs(pairs, depth)
            },
            MiniElixirExpr::BinaryOp { op, left, right } => {
                match self.validate_binary_operator(op) {
                    Err(error) => {
                        return Err(error);
                    },
                    Ok(()) => {},
                }
                match self.validate_child(left, depth) {
                    Err(error) => {
                        return Err(error);
                    },
                    Ok(()) => {},
                }
                self.validate_child(right, depth)
            },
            MiniElixirExpr::UnaryOp { op, operand } => {
                match self.validate_unary_operator(op) {
                    Err(error) => {
                        return Err(error);
                    },
                    Ok(()) => {},
                }
                self.validate_child(operand, depth)
            },
            MiniElixirExpr::Call { function, args } => {
                assert(crate::minielixir::exprs_model(*args).len() == args.len());
                match self.validate_function_call(function.as_str(), args.len()) {
                    Err(error) => {
                        return Err(error);
                    },
                    Ok(()) => {},
                }
                self.validate_all(args, depth)
            },
            MiniElixirExpr::Pipe { value, function } => {
                match self.validate_child(value, depth) {
                    Err(error) => {
                        return Err(error);
                    },
                    Ok(()) => {},
                }
                self.validate_child(function, depth)
            },
            MiniElixirExpr::Match { pattern, value } => {
                match self.validate_child(pattern, depth) {
                    Err(error) => {
                        return Err(error);
                    },
                    Ok(()) => {},
                }
                self.validate_child(value, depth)
            },
            MiniElixirExpr::Case { expr: subject, clauses } => {
                match self.validate_child(subject, depth) {
                    Err(error) => {
                        return Err(error);
                    },
                    Ok(()) => {},
                }
                self.validate_clauses(clauses, depth)
            },
            MiniElixirExpr::If { condition, then_branch, else_branch } => {
                match self.validate_child(condition, depth) {
                    Err(error) => {
                        return Err(error);
                    },
                    Ok(()) => {},
                }
                match self.validate_child(then_branch, depth) {
                    Err(error) => {
                        return Err(error);
                    },
                    Ok(()) => {},
                }
                match else_branch {
                    Some(b) => self.validate_child(b, depth),
                    None => Ok(()),
                }
            },
            MiniElixirExpr::Block(items) => {
                assert(crate::minielixir::exprs_model(*items).len() == items.len());
                if items.len() > self.max_list_size {
                    return Err(self.too_large_error("Block"));
                }
                self.validate_all(items, depth)
            },
            MiniElixirExpr::Access { object, key } => {
                match self.validate_child(object, depth) {
                    Err(error) => {
                        return Err(error);
                    },
                    Ok(()) => {},
                }
                self.validate_child(key, depth)
            },
        }
    }

    /// Checks `expr` as a child of a node at depth `depth`.
    fn validate_child(&self, expr: &MiniElixirExpr, depth: usize) -> (r: EllexResult<()>)
        requires
            depth <= self@.max_depth,
        ensures
            error_of(r) == self@.check(expr@, (depth + 1) as nat),
        decreases expr, 1nat,
    {
        if depth >= self.max_depth {
            return Err(self.too_deep_error());
        }
        self.validate_recursive(expr, depth + 1)
    }

    /// Checks every pair of `pairs` as children of a node at depth `depth`.
    fn validate_pairs(&self, pairs: &Vec<(MiniElixirExpr, MiniElixirExpr)>, depth: usize) -> (r:
        EllexResult<()>)
        requires
            depth <= self@.max_depth,
        ensures
            error_of(r) == self@.check_pairs(
                crate::minielixir::pairs_model(*pairs),
                0,
                (depth + 1) as nat,
            ),
        decreases pairs, 2nat,
    {
        let ghost model = crate::minielixir::pairs_model(*pairs);
        let mut i: usize = 0;
        while i < pairs.len()
            invariant
                0 <= i <= pairs.len(),
                depth <= self@.max_depth,
                model == crate::minielixir::pairs_model(*pairs),
                self@.check_pairs(model, 0, (depth + 1) as nat) == self@.check_pairs(
                    model,
                    i as int,
                    (depth + 1) as nat,
                ),
            decreases pairs.len() - i,
        {
            let pair = &pairs[i];
            assert(model[i as int] == (pair.0@, pair.1@));
            match self.validate_child(&pair.0, depth) {
                Err(error) => {
                    return Err(error);
                },
                Ok(()) => {},
            }
            match self.validate_child(&pair.1, depth) {
                Err(error) => {
                    return Err(error);
                },
                Ok(()) => {},
            }
            i += 1;
        }
        Ok(())
    }

    /// Checks every clause of `clauses` as children of a node at depth
    /// `depth`.
    fn validate_clauses(&self, clauses: &Vec<CaseClause>, depth: usize) -> (r: EllexResult<()>)
        requires
            depth <= self@.max_depth,
        ensures
            error_of(r) == self@.check_clauses(
                crate::minielixir::clauses_model(*clauses),
                0,
                (depth + 1) as nat,
            ),
        decreases clauses, 2nat,
    {
        let ghost model = crate::minielixir::clauses_model(*clauses);
        let mut i: usize = 0;
        while i < clauses.len()
            invariant
                0 <= i <= clauses.len(),
                depth <= self@.max_depth,
                model == crate::minielixir::clauses_model(*clauses),
                self@.check_clauses(model, 0, (depth + 1) as nat) == self@.check_clauses(
                    model,
                    i as int,
                    (depth + 1) as nat,
                ),
            decreases clauses.len() - i,
        {
            let clause = &clauses[i];
            assert(model[i as int] == clause@);
            match self.validate_child(&clause.pattern, depth) {
                Err(error) => {
                    return Err(error);
                },
                Ok(()) => {},
            }
            match &clause.guard {
                Some(guard) => {
                    match self.validate_child(guard, depth) {
                        Err(error) => {
                            return Err(error);
                        },
                        Ok(()) => {},
                    }
                },
                None => {},
            }
            match self.validate_child(&clause.body, depth) {
                Err(error) => {
                    return Err(error);
                },
                Ok(()) => {},
            }
            i += 1;
        }
        Ok(())
    }

    /// Checks every expression of `items` as a child of a node at depth
    /// `depth`.
    fn validate_all(&self, items: &Vec<MiniElixirExpr>, depth: usize) -> (r: EllexResult<()>)
        requires
            depth <= self@.max_depth,
        ensures
            error_of(r) == self@.check_all(
                crate::minielixir::exprs_model(*items),
                0,
                (depth + 1) as nat,
            ),
        decreases items, 2nat,
    {
        let ghost model = crate::minielixir::exprs_model(*items);
        let mut i: usize = 0;
        while i < items.len()
            invariant
                0 <= i <= items.len(),
                depth <= self@.max_depth,
                model == crate::minielixir::exprs_model(*items),
                self@.check_all(model, 0, (depth + 1) as nat) == self@.check_all(
                    model,
                    i as int,
                    (depth + 1) as nat,
                ),
            decreases items.len() - i,
        {
            match self.validate_child(&items[i], depth) {
                Err(error) => {
                    return Err(error);
                },
                Ok(()) => {},
            }
            i += 1;
        }
        Ok(())
    }
}

impl MiniElixirValidator {
    /// Whether evaluating `expr` twice against the same bindings gives the
    /// same value.
    pub fn is_deterministic(&self, expr: &MiniElixirExpr) -> (r: bool)
        ensures
            r == deterministic(expr@),
    {
        expr_is_deterministic(expr)
    }

    /// The structural weight of `expr`, the largest `usize` standing for
    /// everything above it.
    pub fn complexity_score(&self, expr: &MiniElixirExpr) -> (score: usize)
        ensures
            score == clamp(weight(expr@)),
    {
        expr_weight(expr)
    }
}

/// Whether evaluating `expr` twice against the same bindings gives the same
/// value.
pub fn expr_is_deterministic(expr: &MiniElixirExpr) -> (r: bool)
    ensures
        r == deterministic(expr@),
    decreases expr, 0nat,
{
    match expr {
        MiniElixirExpr::List(items) => exprs_are_deterministic(items),
        MiniElixirExpr::Tuple(items) => exprs_are_deterministic(items),
        MiniElixirExpr::Block(items) => exprs_are_deterministic(items),
        MiniElixirExpr::MapLiteral(pairs) => pairs_are_deterministic(pairs),
        MiniElixirExpr::BinaryOp { op, left, right } => expr_is_deterministic(left)
            && expr_is_deterministic(right),
        MiniElixirExpr::UnaryOp { op, operand } => expr_is_deterministic(operand),
        MiniElixirExpr::Call { function, args } => name_is_builtin(function.as_str())
            && exprs_are_deterministic(args),
        MiniElixirExpr::Pipe { value, function } => expr_is_deterministic(value)
            && expr_is_deterministic(function),
        MiniElixirExpr::Match { pattern, value } => expr_is_deterministic(pattern)
            && expr_is_deterministic(value),
        MiniElixirExpr::If { condition, then_branch, else_branch } => {
            if !expr_is_deterministic(condition) || !expr_is_deterministic(then_branch) {
                return false;
            }
            match else_branch {
                Some(b) => expr_is_deterministic(b),
                None => true,
            }
        },
        MiniElixirExpr::Access { object, key } => expr_is_deterministic(object)
            && expr_is_deterministic(key),
        MiniElixirExpr::Case { expr: subject, clauses } => false,
        _ => true,
    }
}

/// Whether every key and value of `pairs` is deterministic.
pub fn pairs_are_deterministic(pairs: &Vec<(MiniElixirExpr, MiniElixirExpr)>) -> (r: bool)
    ensures
        r == all_pairs_deterministic(crate::minielixir::pairs_model(*pairs)),
    decreases pairs, 1nat,
{
    let ghost model = crate::minielixir::pairs_model(*pairs);
    let mut i: usize = 0;
    while i < pairs.len()
        invariant
            0 <= i <= pairs.len(),
            model == crate::minielixir::pairs_model(*pairs),
            forall|j: int| 0 <= j < i ==> pair_deterministic(#[trigger] model[j]),
        decreases pairs.len() - i,
    {
        let pair = &pairs[i];
        assert(model[i as int] == (pair.0@, pair.1@));
        assert(pair_deterministic(model[i as int]) == (deterministic(pair.0@) && deterministic(
            pair.1@,
        )));
        if !expr_is_deterministic(&pair.0) || !expr_is_deterministic(&pair.1) {
            return false;
        }
        i += 1;
    }
    true
}

/// Whether every expression of `items` is deterministic.
pub fn exprs_are_deterministic(items: &Vec<MiniElixirExpr>) -> (r: bool)
    ensures
        r == all_deterministic(crate::minielixir::exprs_model(*items)),
    decreases items, 1nat,
{
    let ghost model = crate::minielixir::exprs_model(*items);
    let mut i: usize = 0;
    while i < items.len()
        invariant
            0 <= i <= items.len(),
            model == crate::minielixir::exprs_model(*items),
            forall|j: int| 0 <= j < i ==> deterministic(#[trigger] model[j]),
        decreases items.len() - i,
    {
        assert(model[i as int] == items[i as int]@);
        if !expr_is_deterministic(&items[i]) {
            return false;
        }
        i += 1;
    }
    true
}

/// The structural weight of `expr`, clamped to a `usize`.
pub fn expr_weight(expr: &MiniElixirExpr) -> (score: usize)
    ensures
        score == clamp(weight(expr@)),
    decreases expr, 0nat,
{
    match expr {
        MiniElixirExpr::List(items) => {
            assert(crate::minielixir::exprs_model(*items).len() == items.len());
            exprs_weight(items, 1)
        },
        MiniElixirExpr::Tuple(items) => {
            assert(crate::minielixir::exprs_model(*items).len() == items.len());
            exprs_weight(items, 1)
        },
        MiniElixirExpr::Block(items) => {
            assert(crate::minielixir::exprs_model(*items).len() == items.len());
            exprs_weight(items, 2)
        },
        MiniElixirExpr::Call { function, args } => {
            assert(crate::minielixir::exprs_model(*args).len() == args.len());
            exprs_weight(args, 5)
        },
        MiniElixirExpr::MapLiteral(pairs) => {
            let ghost model = crate::minielixir::pairs_model(*pairs);
            let mut total: usize = 1;
            let mut i: usize = 0;
            while i < pairs.len()
                invariant
                    0 <= i <= pairs.len(),
                    model == crate::minielixir::pairs_model(*pairs),
                    *expr is MapLiteral,
                    expr->MapLiteral_0 == *pairs,
                    total == clamp(1 + pair_weight_sum(model, i as int)),
                decreases pairs.len() - i,
            {
                proof {
                    assert(decreases_to!(*expr => expr->MapLiteral_0));
                    assert(decreases_to!(expr->MapLiteral_0 => pairs[i as int]));
                }
                let pair = &pairs[i];
                assert(model[i as int] == (pair.0@, pair.1@));
                total = total.saturating_add(expr_weight(&pair.0));
                total = total.saturating_add(expr_weight(&pair.1));
                i += 1;
            }
            total
        },
        MiniElixirExpr::BinaryOp { op, left, right } => {
            let l = expr_weight(left);
            let r = expr_weight(right);
            (2usize).saturating_add(l).saturating_add(r)
        },
        MiniElixirExpr::UnaryOp { op, operand } => (2usize).saturating_add(expr_weight(operand)),
        MiniElixirExpr::Pipe { value, function } => {
            let l = expr_weight(value);
            let r = expr_weight(function);
            (3usize).saturating_add(l).saturating_add(r)
        },
        MiniElixirExpr::Match { pattern, value } => {
            let l = expr_weight(pattern);
            let r = expr_weight(value);
            (4usize).saturating_add(l).saturating_add(r)
        },
        MiniElixirExpr::Case { expr: subject, clauses } => {
            let ghost model = crate::minielixir::clauses_model(*clauses);
            let mut total: usize = (10usize).saturating_add(expr_weight(subject));
            let mut i: usize = 0;
            while i < clauses.len()
                invariant
                    0 <= i <= clauses.len(),
                    model == crate::minielixir::clauses_model(*clauses),
                    *expr is Case,
                    expr->Case_clauses == *clauses,
                    total == clamp(10 + weight(subject@) + clause_weight_sum(model, i as int)),
                decreases clauses.len() - i,
            {
                proof {
                    assert(decreases_to!(*expr => expr->Case_clauses));
                    assert(decreases_to!(expr->Case_clauses => clauses[i as int]));
                }
                let clause = &clauses[i];
                assert(model[i as int] == clause@);
                assert(clause_weight(clause@) == weight(clause.pattern@) + weight(clause.body@)
                    + match clause@.guard {
                    Some(g) => weight(g),
                    None => 0,
                });
                total = total.saturating_add(expr_weight(&clause.pattern));
                match &clause.guard {
                    Some(g) => {
                        total = total.saturating_add(expr_weight(g));
                    },
                    None => {},
                }
                total = total.saturating_add(expr_weight(&clause.body));
                i += 1;
            }
            total
        },
        MiniElixirExpr::If { condition, then_branch, else_branch } => {
            let c = expr_weight(condition);
            let t = expr_weight(then_branch);
            let e = match else_branch {
                Some(b) => expr_weight(b),
                None => 0,
            };
            (5usize).saturating_add(c).saturating_add(t).saturating_add(e)
        },
        MiniElixirExpr::Access { object, key } => {
            let l = expr_weight(object);
            let r = expr_weight(key);
            (3usize).saturating_add(l).saturating_add(r)
        },
        _ => 1,
    }
}

/// `base` plus the weights of the expressions of `items`, clamped to a
/// `usize`.
pub fn exprs_weight(items: &Vec<MiniElixirExpr>, base: usize) -> (score: usize)
    ensures
        score == clamp(
            (base + weight_sum(crate::minielixir::exprs_model(*items), items.len() as int)) as nat,
        ),
    decreases items, 1nat,
{
    let ghost model = crate::minielixir::exprs_model(*items);
    let mut total: usize = base;
    let mut i: usize = 0;
    while i < items.len()
        invariant
            0 <= i <= items.len(),
            model == crate::minielixir::exprs_model(*items),
            total == clamp((base + weight_sum(model, i as int)) as nat),
        decreases items.len() - i,
    {
        assert(model[i as int] == items[i as int]@);
        total = total.saturating_add(expr_weight(&items[i]));
        i += 1;
    }
    total
}

/// Whether `name` is a built-in that takes exactly one argument.
pub fn name_takes_one(name: &str) -> (r: bool)
    ensures
        r == takes_one(name@),
{
    same_text(name, "length") || same_text(name, "hd") || same_text(name, "tl") || same_text(
        name,
        "to_string",
    ) || same_text(name, "is_list") || same_text(name, "is_atom") || same_text(name, "is_number")
        || same_text(name, "is_binary") || same_text(name, "tuple_size")
}

/// Whether `name` is a built-in.
pub fn name_is_builtin(name: &str) -> (r: bool)
    ensures
        r == is_builtin(name@),
{
    name_takes_one(name) || same_text(name, "elem")
}

/// Whether `chars` holds letters, digits and underscores only.
pub fn only_word_chars(chars: &Vec<char>) -> (r: bool)
    ensures
        r == word_chars(chars@),
{
    let mut i: usize = 0;
    while i < chars.len()
        invariant
            0 <= i <= chars.len(),
            forall|j: int| 0 <= j < i ==> letter_or_digit(#[trigger] chars[j]) || chars[j] == '_',
        decreases chars.len() - i,
    {
        let c = chars[i];
        if !is_letter_or_digit(c) && c != '_' {
            return false;
        }
        i += 1;
    }
    true
}

impl Default for MiniElixirValidator {
    fn default() -> (v: Self)
        ensures
            v@ == ValidatorModel::standard(),
    {
        Self::new()
    }
}

} // verus!
