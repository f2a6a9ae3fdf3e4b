//! The reader of the expression language.
//!
//! A text is cut into tokens and the tokens are read by splitting at the
//! operator that binds least:
//!
//! ```text
//! expression := expression operator expression      operators, loosest first:
//!             | "!" expression | "-" expression         ||   &&   == != < <= > >=
//!             | "(" expression ")"                      <>   + -   * /
//!             | "[" items "]" | name "(" items ")"
//!             | number | "text" | :atom | name | nil | true | false
//! items      := [ expression { "," expression } ]
//! ```
//!
//! Operators of one level group to the left. A minus sign is an operator
//! between two operands and a sign anywhere else.

use crate::minielixir::{BinaryOperator, ExprModel, MiniElixirExpr, UnaryOperator};
use crate::number::{
    bits_of_nat, decimal_bits, lemma_pow10_bound, number_from_decimal, number_from_u64, pow10,
    MAX_SCALE,
};
use crate::reading::{number_read, read_number};
use crate::text::{
    char_is_space, chars_of, is_letter_or_digit, letter_or_digit, same_text, skip_spaces,
    string_of_range,
};
use crate::{EllexError, EllexResult, ErrorModel};
use vstd::prelude::*;

verus! {

/// A token of the expression language.
#[derive(Debug)]
pub enum Token {
    /// The digits of a number without its point, and how many of them
    /// follow the point.
    Number { mantissa: u64, scale: u32 },
    /// A number of more than nineteen digits, as the double nearest to it.
    Long(u64),
    Text(String),
    Atom(String),
    Name(String),
    Operator(BinaryOperator),
    Bang,
    Open,
    Close,
    OpenList,
    CloseList,
    Comma,
}

/// The model of a token.
pub enum TokenModel {
    Number { mantissa: u64, scale: u32 },
    Long(u64),
    Text(Seq<char>),
    Atom(Seq<char>),
    Name(Seq<char>),
    Operator(BinaryOperator),
    Bang,
    Open,
    Close,
    OpenList,
    CloseList,
    Comma,
}

impl View for Token {
    type V = TokenModel;

    open spec fn view(&self) -> TokenModel {
        match *self {
            Token::Number { mantissa, scale } => TokenModel::Number { mantissa, scale },
            Token::Long(bits) => TokenModel::Long(bits),
            Token::Text(t) => TokenModel::Text(t@),
            Token::Atom(a) => TokenModel::Atom(a@),
            Token::Name(n) => TokenModel::Name(n@),
            Token::Operator(op) => TokenModel::Operator(op),
            Token::Bang => TokenModel::Bang,
            Token::Open => TokenModel::Open,
            Token::Close => TokenModel::Close,
            Token::OpenList => TokenModel::OpenList,
            Token::CloseList => TokenModel::CloseList,
            Token::Comma => TokenModel::Comma,
        }
    }
}

pub open spec fn tokens_model(tokens: Seq<Token>) -> Seq<TokenModel> {
    Seq::new(tokens.len(), |i: int| tokens[i]@)
}

/// A decimal digit.
pub open spec fn is_digit(c: char) -> bool {
    '0' <= c <= '9'
}

/// The value of a decimal digit.
pub open spec fn digit_value(c: char) -> nat {
    (c as u32 - '0' as u32) as nat
}

/// A letter, a digit or an underscore.
pub open spec fn is_word_char(c: char) -> bool {
    letter_or_digit(c) || c == '_'
}

/// The end of the digits that start at `i`.
pub open spec fn digits_end(s: Seq<char>, i: int) -> int
    decreases s.len() - i,
{
    if 0 <= i < s.len() && is_digit(s[i]) {
        digits_end(s, i + 1)
    } else {
        i
    }
}

/// The end of the letters, digits and underscores that start at `i`.
pub open spec fn word_end(s: Seq<char>, i: int) -> int
    decreases s.len() - i,
{
    if 0 <= i < s.len() && is_word_char(s[i]) {
        word_end(s, i + 1)
    } else {
        i
    }
}

/// The index of the first double quote at or after `i`, or the length of
/// the text.
pub open spec fn quote_at(s: Seq<char>, i: int) -> int
    decreases s.len() - i,
{
    if 0 <= i < s.len() && s[i] != '"' {
        quote_at(s, i + 1)
    } else {
        i
    }
}

/// The number that the digits `s[lo..hi)` write after the digits that made
/// `before`.
pub open spec fn digits_value(s: Seq<char>, lo: int, hi: int, before: nat) -> nat
    decreases hi - lo,
{
    if lo >= hi || lo < 0 || hi > s.len() {
        before
    } else {
        digits_value(s, lo + 1, hi, before * 10 + digit_value(s[lo]))
    }
}

/// The most digits of a number that is read.
pub const MAX_DIGITS: usize = 19;

/// The operator that starts at `i`, with its length.
pub open spec fn operator_at(s: Seq<char>, i: int) -> Option<(BinaryOperator, int)> {
    let c = s[i];
    let d = if i + 1 < s.len() {
        s[i + 1]
    } else {
        ' '
    };
    if c == '|' && d == '|' {
        Some((BinaryOperator::Or, 2))
    } else if c == '&' && d == '&' {
        Some((BinaryOperator::And, 2))
    } else if c == '=' && d == '=' {
        Some((BinaryOperator::Eq, 2))
    } else if c == '!' && d == '=' {
        Some((BinaryOperator::Ne, 2))
    } else if c == '<' && d == '=' {
        Some((BinaryOperator::Le, 2))
    } else if c == '>' && d == '=' {
        Some((BinaryOperator::Ge, 2))
    } else if c == '<' && d == '>' {
        Some((BinaryOperator::Concat, 2))
    } else if c == '<' {
        Some((BinaryOperator::Lt, 1))
    } else if c == '>' {
        Some((BinaryOperator::Gt, 1))
    } else if c == '+' {
        Some((BinaryOperator::Add, 1))
    } else if c == '-' {
        Some((BinaryOperator::Sub, 1))
    } else if c == '*' {
        Some((BinaryOperator::Mul, 1))
    } else if c == '/' {
        Some((BinaryOperator::Div, 1))
    } else {
        None
    }
}

/// The token that starts at `i`, with the index after it; `None` where no
/// token starts.
pub open spec fn token_at(s: Seq<char>, i: int) -> Option<(TokenModel, int)>
    recommends
        0 <= i < s.len(),
{
    let c = s[i];
    if is_digit(c) {
        let whole_end = digits_end(s, i);
        let fraction = whole_end + 1 < s.len() && s[whole_end] == '.' && is_digit(s[whole_end + 1]);
        let end = if fraction {
            digits_end(s, whole_end + 1)
        } else {
            whole_end
        };
        let scale = if fraction {
            end - whole_end - 1
        } else {
            0
        };
        if (whole_end - i) + scale > MAX_DIGITS {
            match number_read(s.subrange(i, end)) {
                Some(bits) => Some((TokenModel::Long(bits), end)),
                None => None,
            }
        } else {
            let whole = digits_value(s, i, whole_end, 0);
            let mantissa = if fraction {
                digits_value(s, whole_end + 1, end, whole)
            } else {
                whole
            };
            Some((TokenModel::Number { mantissa: mantissa as u64, scale: scale as u32 }, end))
        }
    } else if c == '"' {
        let close = quote_at(s, i + 1);
        if close < s.len() {
            Some((TokenModel::Text(s.subrange(i + 1, close)), close + 1))
        } else {
            None
        }
    } else if c == ':' {
        let end = word_end(s, i + 1);
        Some((TokenModel::Atom(s.subrange(i + 1, end)), end))
    } else if is_word_char(c) {
        let end = word_end(s, i);
        Some((TokenModel::Name(s.subrange(i, end)), end))
    } else if operator_at(s, i) is Some {
        Some((TokenModel::Operator(operator_at(s, i).unwrap().0), i + operator_at(s, i).unwrap().1))
    } else if c == '!' {
        Some((TokenModel::Bang, i + 1))
    } else if c == '(' {
        Some((TokenModel::Open, i + 1))
    } else if c == ')' {
        Some((TokenModel::Close, i + 1))
    } else if c == '[' {
        Some((TokenModel::OpenList, i + 1))
    } else if c == ']' {
        Some((TokenModel::CloseList, i + 1))
    } else if c == ',' {
        Some((TokenModel::Comma, i + 1))
    } else {
        None
    }
}

/// The tokens of `s` from `i` on, white space between them skipped; `None`
/// if some part of the text is no token.
pub open spec fn tokens_from(s: Seq<char>, i: int) -> Option<Seq<TokenModel>>
    decreases s.len() - i,
{
    let start = skip_spaces(s, i, s.len() as int);
    if i < 0 || start < i || start >= s.len() {
        Some(Seq::empty())
    } else {
        match token_at(s, start) {
            None => None,
            Some((token, end)) => if end <= start || end > s.len() {
                None
            } else {
                match tokens_from(s, end) {
                    None => None,
                    Some(rest) => Some(seq![token] + rest),
                }
            },
        }
    }
}

/// How tightly an operator binds: 0 for `||` up to 5 for `*` and `/`.
/// Operators that the language does not write have no level.
pub open spec fn level_of(op: BinaryOperator) -> Option<nat> {
    match op {
        BinaryOperator::Or => Some(0),
        BinaryOperator::And => Some(1),
        BinaryOperator::Eq | BinaryOperator::Ne | BinaryOperator::Lt | BinaryOperator::Le
        | BinaryOperator::Gt | BinaryOperator::Ge => Some(2),
        BinaryOperator::Concat => Some(3),
        BinaryOperator::Add | BinaryOperator::Sub => Some(4),
        BinaryOperator::Mul | BinaryOperator::Div => Some(5),
        _ => None,
    }
}

/// The number of levels.
pub const LEVELS: u8 = 6;

/// A token that can end an operand.
pub open spec fn ends_operand(t: TokenModel) -> bool {
    t is Number || t is Long || t is Text || t is Atom || t is Name || t is Close || t is CloseList
}

/// By how much a token changes the nesting depth.
pub open spec fn depth_change(t: TokenModel) -> int {
    if t is Open || t is OpenList {
        1
    } else if t is Close || t is CloseList {
        -1
    } else {
        0
    }
}

/// The nesting depth before token `i`, counted from `lo`.
pub open spec fn depth_before(tokens: Seq<TokenModel>, lo: int, i: int) -> int
    decreases i - lo,
{
    if i <= lo || i > tokens.len() || lo < 0 {
        0
    } else {
        depth_before(tokens, lo, i - 1) + depth_change(tokens[i - 1])
    }
}

/// Token `j` is an operator of level `level` between two operands, outside
/// all brackets of the range that starts at `lo`.
pub open spec fn splits_at(tokens: Seq<TokenModel>, lo: int, j: int, level: nat) -> bool {
    &&& lo < j < tokens.len()
    &&& depth_before(tokens, lo, j) == 0
    &&& tokens[j] is Operator
    &&& level_of(tokens[j]->Operator_0) == Some(level)
    &&& ends_operand(tokens[j - 1])
}

/// The last index in `[lo, i)` at which the range splits on `level`, or -1.
pub open spec fn last_split(tokens: Seq<TokenModel>, lo: int, i: int, level: nat) -> int
    decreases i - lo,
{
    if i <= lo {
        -1
    } else if splits_at(tokens, lo, i - 1, level) {
        i - 1
    } else {
        last_split(tokens, lo, i - 1, level)
    }
}

/// The loosest level from `level` on at which the range `[lo, hi)` splits,
/// with the last index of the split; `None` if it splits at no level.
pub open spec fn split_point(tokens: Seq<TokenModel>, lo: int, hi: int, level: nat) -> Option<int>
    decreases LEVELS - level,
{
    if level >= LEVELS {
        None
    } else if last_split(tokens, lo, hi, level) >= 0 {
        Some(last_split(tokens, lo, hi, level))
    } else {
        split_point(tokens, lo, hi, level + 1)
    }
}

/// The first comma in `[j, hi)` outside all brackets of the range that
/// starts at `lo`, or `hi`.
pub open spec fn first_comma(tokens: Seq<TokenModel>, lo: int, j: int, hi: int) -> int
    decreases hi - j,
{
    if j >= hi || j < lo || hi > tokens.len() || lo < 0 {
        hi
    } else if depth_before(tokens, lo, j) == 0 && tokens[j] is Comma {
        j
    } else {
        first_comma(tokens, lo, j + 1, hi)
    }
}

/// The largest whole number that a negative integer literal can write.
pub const MIN_MAGNITUDE: u64 = 0x8000_0000_0000_0000;

/// The expression that one token writes.
pub open spec fn literal(t: TokenModel) -> Option<ExprModel> {
    match t {
        TokenModel::Number { mantissa, scale } => if scale == 0 {
            if mantissa <= i64::MAX {
                Some(ExprModel::Integer(mantissa as i64))
            } else {
                Some(ExprModel::Float(bits_of_nat(mantissa as nat)))
            }
        } else if scale <= MAX_SCALE {
            Some(ExprModel::Float(decimal_bits(mantissa as nat, scale as nat)))
        } else {
            None
        },
        TokenModel::Long(bits) => Some(ExprModel::Float(bits)),
        TokenModel::Text(t) => Some(ExprModel::Text(t)),
        TokenModel::Atom(a) => Some(ExprModel::Atom(a)),
        TokenModel::Name(n) => if n == "nil"@ {
            Some(ExprModel::Nil)
        } else if n == "true"@ {
            Some(ExprModel::Boolean(true))
        } else if n == "false"@ {
            Some(ExprModel::Boolean(false))
        } else {
            Some(ExprModel::Variable(n))
        },
        _ => None,
    }
}

/// The negative whole number of magnitude `m`.
pub open spec fn negative_literal(m: u64) -> Option<ExprModel> {
    if m <= MIN_MAGNITUDE {
        Some(ExprModel::Integer((-(m as int)) as i64))
    } else {
        None
    }
}

/// The expression that the tokens `[lo, hi)` write.
pub open spec fn parse_range(tokens: Seq<TokenModel>, lo: int, hi: int) -> Option<ExprModel>
    decreases hi - lo, 0nat,
{
    if lo < 0 || lo >= hi || hi > tokens.len() {
        None
    } else {
        match split_point(tokens, lo, hi, 0) {
            Some(p) => if lo < p < hi && tokens[p] is Operator {
                match (parse_range(tokens, lo, p), parse_range(tokens, p + 1, hi)) {
                    (Some(left), Some(right)) => Some(
                        ExprModel::BinaryOp {
                            op: tokens[p]->Operator_0,
                            left: Box::new(left),
                            right: Box::new(right),
                        },
                    ),
                    _ => None,
                }
            } else {
                None
            },
            None => {
                let first = tokens[lo];
                let last = tokens[hi - 1];
                if first is Bang {
                    match parse_range(tokens, lo + 1, hi) {
                        Some(operand) => Some(
                            ExprModel::UnaryOp { op: UnaryOperator::Not, operand: Box::new(operand) },
                        ),
                        None => None,
                    }
                } else if first == TokenModel::Operator(BinaryOperator::Sub) {
                    if hi == lo + 2 && tokens[lo + 1] is Number && tokens[lo + 1]->Number_scale
                        == 0 && negative_literal(tokens[lo + 1]->Number_mantissa) is Some {
                        negative_literal(tokens[lo + 1]->Number_mantissa)
                    } else {
                        match parse_range(tokens, lo + 1, hi) {
                            Some(operand) => Some(
                                ExprModel::UnaryOp {
                                    op: UnaryOperator::Minus,
                                    operand: Box::new(operand),
                                },
                            ),
                            None => None,
                        }
                    }
                } else if hi == lo + 1 {
                    literal(first)
                } else if first is Open && last is Close {
                    parse_range(tokens, lo + 1, hi - 1)
                } else if first is OpenList && last is CloseList {
                    match parse_items(tokens, lo + 1, hi - 1) {
                        Some(items) => Some(ExprModel::List(items)),
                        None => None,
                    }
                } else if first is Name && hi >= lo + 3 && tokens[lo + 1] is Open && last is Close {
                    match parse_items(tokens, lo + 2, hi - 1) {
                        Some(args) => Some(ExprModel::Call { function: first->Name_0, args }),
                        None => None,
                    }
                } else {
                    None
                }
            },
        }
    }
}

/// The expressions that the tokens `[lo, hi)` write, separated by commas.
pub open spec fn parse_items(tokens: Seq<TokenModel>, lo: int, hi: int) -> Option<Seq<ExprModel>>
    decreases hi - lo, 1nat,
{
    if lo < 0 || lo >= hi || hi > tokens.len() {
        Some(Seq::empty())
    } else {
        let comma = first_comma(tokens, lo, lo, hi);
        if comma < lo || comma > hi {
            None
        } else {
            match parse_range(tokens, lo, comma) {
                None => None,
                Some(first) => if comma >= hi {
                    Some(seq![first])
                } else {
                    match parse_items(tokens, comma + 1, hi) {
                        None => None,
                        Some(rest) => Some(seq![first] + rest),
                    }
                },
            }
        }
    }
}

/// The expression that the text `code` writes; `None` if it writes none.
pub open spec fn parse_model(code: Seq<char>) -> Option<ExprModel> {
    match tokens_from(code, 0) {
        Some(tokens) => parse_range(tokens, 0, tokens.len() as int),
        None => None,
    }
}

proof fn lemma_digits_end_bounds(s: Seq<char>, i: int)
    requires
        0 <= i <= s.len(),
    ensures
        i <= digits_end(s, i) <= s.len(),
    decreases s.len() - i,
{
    if i < s.len() && is_digit(s[i]) {
        lemma_digits_end_bounds(s, i + 1);
    }
}

proof fn lemma_word_end_bounds(s: Seq<char>, i: int)
    requires
        0 <= i <= s.len(),
    ensures
        i <= word_end(s, i) <= s.len(),
    decreases s.len() - i,
{
    if i < s.len() && is_word_char(s[i]) {
        lemma_word_end_bounds(s, i + 1);
    }
}

fn char_is_digit(c: char) -> (r: bool)
    ensures
        r == is_digit(c),
{
    '0' <= c && c <= '9'
}

/// Whether `c` is a letter, a digit or an underscore.
pub fn char_is_word(c: char) -> (r: bool)
    ensures
        r == is_word_char(c),
{
    is_letter_or_digit(c) || c == '_'
}

fn scan_spaces(s: &Vec<char>, i: usize) -> (e: usize)
    requires
        i <= s.len(),
    ensures
        e == skip_spaces(s@, i as int, s.len() as int),
        i <= e <= s.len(),
{
    let mut e: usize = i;
    while e < s.len() && char_is_space(s[e])
        invariant
            i <= e <= s.len(),
            skip_spaces(s@, e as int, s.len() as int) == skip_spaces(s@, i as int, s.len() as int),
        decreases s.len() - e,
    {
        e += 1;
    }
    e
}

pub fn scan_digits(s: &Vec<char>, i: usize) -> (e: usize)
    requires
        i <= s.len(),
    ensures
        e == digits_end(s@, i as int),
        i <= e <= s.len(),
        forall|k: int| i <= k < e ==> is_digit(s[k]),
{
    let mut e: usize = i;
    while e < s.len() && char_is_digit(s[e])
        invariant
            i <= e <= s.len(),
            digits_end(s@, e as int) == digits_end(s@, i as int),
            forall|k: int| i <= k < e ==> is_digit(s[k]),
        decreases s.len() - e,
    {
        e += 1;
    }
    e
}

fn scan_word(s: &Vec<char>, i: usize) -> (e: usize)
    requires
        i <= s.len(),
    ensures
        e == word_end(s@, i as int),
        i <= e <= s.len(),
{
    let mut e: usize = i;
    while e < s.len() && char_is_word(s[e])
        invariant
            i <= e <= s.len(),
            word_end(s@, e as int) == word_end(s@, i as int),
        decreases s.len() - e,
    {
        e += 1;
    }
    e
}

fn scan_quote(s: &Vec<char>, i: usize) -> (e: usize)
    requires
        i <= s.len(),
    ensures
        e == quote_at(s@, i as int),
        i <= e <= s.len(),
{
    let mut e: usize = i;
    while e < s.len() && s[e] != '"'
        invariant
            i <= e <= s.len(),
            quote_at(s@, e as int) == quote_at(s@, i as int),
        decreases s.len() - e,
    {
        e += 1;
    }
    e
}

/// Reads the digits `s[lo..hi)` after `before`, which was read from `seen`
/// digits.
fn read_digits(s: &Vec<char>, lo: usize, hi: usize, before: u64, Ghost(seen): Ghost<nat>) -> (v: u64)
    requires
        lo <= hi <= s.len(),
        forall|k: int| lo <= k < hi ==> is_digit(s[k]),
        seen + (hi - lo) <= MAX_DIGITS,
        before < pow10(seen),
    ensures
        v == digits_value(s@, lo as int, hi as int, before as nat),
        v < pow10(seen + (hi - lo) as nat),
{
    let mut v: u64 = before;
    let mut i: usize = lo;
    while i < hi
        invariant
            lo <= i <= hi <= s.len(),
            forall|k: int| lo <= k < hi ==> is_digit(s[k]),
            seen + (hi - lo) <= MAX_DIGITS,
            v < pow10(seen + (i - lo) as nat),
            digits_value(s@, i as int, hi as int, v as nat) == digits_value(
                s@,
                lo as int,
                hi as int,
                before as nat,
            ),
        decreases hi - i,
    {
        let c = s[i];
        let d: u64 = (c as u32 - '0' as u32) as u64;
        proof {
            lemma_pow10_bound(seen + (i - lo) as nat + 1);
            assert(pow10(seen + (i - lo) as nat + 1) == 10 * pow10(seen + (i - lo) as nat));
        }
        v = v * 10 + d;
        i += 1;
    }
    v
}

fn operator_of(s: &Vec<char>, i: usize) -> (r: Option<(BinaryOperator, usize)>)
    requires
        i < s.len(),
    ensures
        match r {
            Some((op, n)) => operator_at(s@, i as int) == Some((op, n as int)) && 1 <= n <= 2
                && i + n <= s.len(),
            None => operator_at(s@, i as int) is None,
        },
{
    let c = s[i];
    let d = if i + 1 < s.len() {
        s[i + 1]
    } else {
        ' '
    };
    if c == '|' && d == '|' {
        Some((BinaryOperator::Or, 2))
    } else if c == '&' && d == '&' {
        Some((BinaryOperator::And, 2))
    } else if c == '=' && d == '=' {
        Some((BinaryOperator::Eq, 2))
    } else if c == '!' && d == '=' {
        Some((BinaryOperator::Ne, 2))
    } else if c == '<' && d == '=' {
        Some((BinaryOperator::Le, 2))
    } else if c == '>' && d == '=' {
        Some((BinaryOperator::Ge, 2))
    } else if c == '<' && d == '>' {
        Some((BinaryOperator::Concat, 2))
    } else if c == '<' {
        Some((BinaryOperator::Lt, 1))
    } else if c == '>' {
        Some((BinaryOperator::Gt, 1))
    } else if c == '+' {
        Some((BinaryOperator::Add, 1))
    } else if c == '-' {
        Some((BinaryOperator::Sub, 1))
    } else if c == '*' {
        Some((BinaryOperator::Mul, 1))
    } else if c == '/' {
        Some((BinaryOperator::Div, 1))
    } else {
        None
    }
}

/// The token that starts at `i`, with the index after it.
pub fn next_token(s: &Vec<char>, i: usize) -> (r: Option<(Token, usize)>)
    requires
        i < s.len(),
    ensures
        match r {
            Some((token, end)) => token_at(s@, i as int) == Some((token@, end as int)) && i < end
                <= s.len(),
            None => token_at(s@, i as int) is None || token_at(s@, i as int).unwrap().1 <= i,
        },
{
    let c = s[i];
    if char_is_digit(c) {
        let whole_end = scan_digits(s, i);
        let fraction = whole_end < s.len() - 1 && s[whole_end] == '.' && char_is_digit(
            s[whole_end + 1],
        );
        let end = if fraction {
            scan_digits(s, whole_end + 1)
        } else {
            whole_end
        };
        let scale: usize = if fraction {
            end - whole_end - 1
        } else {
            0
        };
        assert(whole_end > i) by {
            assert(is_digit(s@[i as int]));
            lemma_digits_end_bounds(s@, i + 1);
        }
        if (whole_end - i) > MAX_DIGITS || scale > MAX_DIGITS || (whole_end - i) + scale
            > MAX_DIGITS {
            let mut numeral: Vec<char> = Vec::new();
            let mut k: usize = i;
            while k < end
                invariant
                    i <= k <= end <= s.len(),
                    numeral.len() == k - i,
                    forall|j: int| 0 <= j < numeral.len() ==> numeral[j] == s[i + j],
                decreases end - k,
            {
                numeral.push(s[k]);
                k += 1;
            }
            assert(numeral@ =~= s@.subrange(i as int, end as int));
            return match read_number(&numeral) {
                Some(bits) => Some((Token::Long(bits), end)),
                None => None,
            };
        }
        proof {
            lemma_pow10_bound(0);
            lemma_pow10_bound((whole_end - i) as nat);
            lemma_pow10_bound(((whole_end - i) + scale) as nat);
        }
        let whole = read_digits(s, i, whole_end, 0, Ghost(0));
        let mantissa = if fraction {
            read_digits(s, whole_end + 1, end, whole, Ghost((whole_end - i) as nat))
        } else {
            whole
        };
        Some((Token::Number { mantissa, scale: scale as u32 }, end))
    } else if c == '"' {
        let close = scan_quote(s, i + 1);
        if close < s.len() {
            Some((Token::Text(string_of_range(s, i + 1, close)), close + 1))
        } else {
            None
        }
    } else if c == ':' {
        let end = scan_word(s, i + 1);
        Some((Token::Atom(string_of_range(s, i + 1, end)), end))
    } else if char_is_word(c) {
        let end = scan_word(s, i);
        assert(end > i) by {
            assert(is_word_char(s@[i as int]));
            lemma_word_end_bounds(s@, i + 1);
        }
        Some((Token::Name(string_of_range(s, i, end)), end))
    } else {
        match operator_of(s, i) {
            Some((op, n)) => Some((Token::Operator(op), i + n)),
            None => {
                if c == '!' {
                    Some((Token::Bang, i + 1))
                } else if c == '(' {
                    Some((Token::Open, i + 1))
                } else if c == ')' {
                    Some((Token::Close, i + 1))
                } else if c == '[' {
                    Some((Token::OpenList, i + 1))
                } else if c == ']' {
                    Some((Token::CloseList, i + 1))
                } else if c == ',' {
                    Some((Token::Comma, i + 1))
                } else {
                    None
                }
            },
        }
    }
}

/// Cuts `s` into tokens.
pub fn tokenize(s: &Vec<char>) -> (r: Option<Vec<Token>>)
    ensures
        match r {
            Some(tokens) => tokens_from(s@, 0) == Some(tokens_model(tokens@)),
            None => tokens_from(s@, 0) is None,
        },
{
    let mut tokens: Vec<Token> = Vec::new();
    let mut i: usize = 0;
    assert(tokens_model(tokens@) =~= Seq::<TokenModel>::empty());
    loop
        invariant
            0 <= i <= s.len(),
            match tokens_from(s@, i as int) {
                Some(rest) => tokens_from(s@, 0) == Some(tokens_model(tokens@) + rest),
                None => tokens_from(s@, 0) is None,
            },
        decreases s.len() - i,
    {
        let start = scan_spaces(s, i);
        if start >= s.len() {
            assert(tokens_model(tokens@) + Seq::<TokenModel>::empty() =~= tokens_model(tokens@));
            return Some(tokens);
        }
        match next_token(s, start) {
            None => {
                return None;
            },
            Some((token, end)) => {
                proof {
                    let ghost before = tokens_model(tokens@);
                    match tokens_from(s@, end as int) {
                        Some(rest) => {
                            assert(before + (seq![token@] + rest) =~= before.push(token@) + rest);
                        },
                        None => {},
                    }
                }
                let ghost before = tokens_model(tokens@);
                tokens.push(token);
                assert(tokens_model(tokens@) =~= before.push(token@));
                i = end;
            },
        }
    }
}

fn level_of_operator(op: BinaryOperator) -> (r: Option<u8>)
    ensures
        match r {
            Some(l) => level_of(op) == Some(l as nat) && l < LEVELS,
            None => level_of(op) is None,
        },
{
    match op {
        BinaryOperator::Or => Some(0),
        BinaryOperator::And => Some(1),
        BinaryOperator::Eq | BinaryOperator::Ne | BinaryOperator::Lt | BinaryOperator::Le
        | BinaryOperator::Gt | BinaryOperator::Ge => Some(2),
        BinaryOperator::Concat => Some(3),
        BinaryOperator::Add | BinaryOperator::Sub => Some(4),
        BinaryOperator::Mul | BinaryOperator::Div => Some(5),
        _ => None,
    }
}

fn token_ends_operand(t: &Token) -> (r: bool)
    ensures
        r == ends_operand(t@),
{
    match t {
        Token::Number { mantissa, scale } => true,
        Token::Long(_) => true,
        Token::Text(_) => true,
        Token::Atom(_) => true,
        Token::Name(_) => true,
        Token::Close => true,
        Token::CloseList => true,
        _ => false,
    }
}

fn token_depth_change(t: &Token) -> (r: i128)
    ensures
        r == depth_change(t@),
{
    match t {
        Token::Open => 1,
        Token::OpenList => 1,
        Token::Close => -1,
        Token::CloseList => -1,
        _ => 0,
    }
}

/// The last index in `[lo, hi)` at which the range splits on `level`.
fn find_split(tokens: &Vec<Token>, lo: usize, hi: usize, level: u8) -> (r: Option<usize>)
    requires
        lo <= hi <= tokens.len(),
    ensures
        match r {
            Some(p) => last_split(tokens_model(tokens@), lo as int, hi as int, level as nat) == p
                && lo < p < hi,
            None => last_split(tokens_model(tokens@), lo as int, hi as int, level as nat) == -1,
        },
{
    let ghost model = tokens_model(tokens@);
    let mut found: Option<usize> = None;
    let mut depth: i128 = 0;
    let mut j: usize = lo;
    while j < hi
        invariant
            lo <= j <= hi <= tokens.len(),
            model == tokens_model(tokens@),
            depth == depth_before(model, lo as int, j as int),
            -(j - lo) <= depth <= j - lo,
            match found {
                Some(p) => last_split(model, lo as int, j as int, level as nat) == p && lo < p < j,
                None => last_split(model, lo as int, j as int, level as nat) == -1,
            },
        decreases hi - j,
    {
        let token = &tokens[j];
        assert(model[j as int] == token@);
        let splits = j > lo && depth == 0 && match token {
            Token::Operator(op) => {
                match level_of_operator(*op) {
                    Some(l) => l == level,
                    None => false,
                }
            },
            _ => false,
        } && {
            assert(model[j - 1] == tokens[j - 1]@);
            token_ends_operand(&tokens[j - 1])
        };
        assert(splits == splits_at(model, lo as int, j as int, level as nat));
        if splits {
            found = Some(j);
        }
        depth = depth + token_depth_change(token);
        j += 1;
    }
    found
}

/// The loosest level at which the range `[lo, hi)` splits, with the last
/// index of the split.
fn find_split_point(tokens: &Vec<Token>, lo: usize, hi: usize) -> (r: Option<usize>)
    requires
        lo <= hi <= tokens.len(),
    ensures
        match r {
            Some(p) => split_point(tokens_model(tokens@), lo as int, hi as int, 0) == Some(
                p as int,
            ) && lo < p < hi,
            None => split_point(tokens_model(tokens@), lo as int, hi as int, 0) is None,
        },
{
    let ghost model = tokens_model(tokens@);
    let mut level: u8 = 0;
    while level < LEVELS
        invariant
            0 <= level <= LEVELS,
            lo <= hi <= tokens.len(),
            model == tokens_model(tokens@),
            split_point(model, lo as int, hi as int, 0) == split_point(
                model,
                lo as int,
                hi as int,
                level as nat,
            ),
        decreases LEVELS - level,
    {
        match find_split(tokens, lo, hi, level) {
            Some(p) => {
                return Some(p);
            },
            None => {},
        }
        level += 1;
    }
    None
}

/// The first comma of `[lo, hi)` outside all brackets, or `hi`.
fn find_comma(tokens: &Vec<Token>, lo: usize, hi: usize) -> (r: usize)
    requires
        lo <= hi <= tokens.len(),
    ensures
        r == first_comma(tokens_model(tokens@), lo as int, lo as int, hi as int),
        lo <= r <= hi,
{
    let ghost model = tokens_model(tokens@);
    let mut depth: i128 = 0;
    let mut j: usize = lo;
    while j < hi
        invariant
            lo <= j <= hi <= tokens.len(),
            model == tokens_model(tokens@),
            depth == depth_before(model, lo as int, j as int),
            -(j - lo) <= depth <= j - lo,
            first_comma(model, lo as int, lo as int, hi as int) == first_comma(
                model,
                lo as int,
                j as int,
                hi as int,
            ),
        decreases hi - j,
    {
        let token = &tokens[j];
        assert(model[j as int] == token@);
        let is_comma = match token {
            Token::Comma => true,
            _ => false,
        };
        if depth == 0 && is_comma {
            return j;
        }
        depth = depth + token_depth_change(token);
        j += 1;
    }
    hi
}

fn literal_of(t: &Token) -> (r: Option<MiniElixirExpr>)
    ensures
        match r {
            Some(e) => literal(t@) == Some(e@),
            None => literal(t@) is None,
        },
{
    match t {
        Token::Number { mantissa, scale } => {
            if *scale == 0 {
                if *mantissa <= i64::MAX as u64 {
                    Some(MiniElixirExpr::Integer(*mantissa as i64))
                } else {
                    Some(MiniElixirExpr::Float(number_from_u64(*mantissa)))
                }
            } else if *scale <= MAX_SCALE {
                Some(MiniElixirExpr::Float(number_from_decimal(*mantissa, *scale)))
            } else {
                None
            }
        },
        Token::Long(bits) => Some(MiniElixirExpr::Float(*bits)),
        Token::Text(t) => Some(MiniElixirExpr::String(t.clone())),
        Token::Atom(a) => Some(MiniElixirExpr::Atom(a.clone())),
        Token::Name(n) => {
            if same_text(n.as_str(), "nil") {
                Some(MiniElixirExpr::Nil)
            } else if same_text(n.as_str(), "true") {
                Some(MiniElixirExpr::Boolean(true))
            } else if same_text(n.as_str(), "false") {
                Some(MiniElixirExpr::Boolean(false))
            } else {
                Some(MiniElixirExpr::Variable(n.clone()))
            }
        },
        _ => None,
    }
}

/// Reads the tokens `[lo, hi)` as one expression.
pub fn parse_tokens(tokens: &Vec<Token>, lo: usize, hi: usize) -> (r: Option<MiniElixirExpr>)
    requires
        hi <= tokens.len(),
    ensures
        match r {
            Some(e) => parse_range(tokens_model(tokens@), lo as int, hi as int) == Some(e@),
            None => parse_range(tokens_model(tokens@), lo as int, hi as int) is None,
        },
    decreases hi - lo, 0nat,
{
    let ghost model = tokens_model(tokens@);
    if lo >= hi {
        return None;
    }
    match find_split_point(tokens, lo, hi) {
        Some(p) => {
            assert(model[p as int] == tokens[p as int]@);
            let op = match &tokens[p] {
                Token::Operator(op) => *op,
                _ => {
                    return None;
                },
            };
            let left = match parse_tokens(tokens, lo, p) {
                Some(e) => e,
                None => {
                    return None;
                },
            };
            let right = match parse_tokens(tokens, p + 1, hi) {
                Some(e) => e,
                None => {
                    return None;
                },
            };
            Some(MiniElixirExpr::BinaryOp { op, left: Box::new(left), right: Box::new(right) })
        },
        None => {
            let first = &tokens[lo];
            let last = &tokens[hi - 1];
            assert(model[lo as int] == first@);
            assert(model[hi - 1] == last@);
            match first {
                Token::Bang => {
                    match parse_tokens(tokens, lo + 1, hi) {
                        Some(operand) => Some(
                            MiniElixirExpr::UnaryOp {
                                op: UnaryOperator::Not,
                                operand: Box::new(operand),
                            },
                        ),
                        None => None,
                    }
                },
                Token::Operator(BinaryOperator::Sub) => {
                    if hi - lo == 2 {
                        assert(model[lo + 1] == tokens[lo + 1]@);
                        match &tokens[lo + 1] {
                            Token::Number { mantissa, scale } => {
                                if *scale == 0 && *mantissa <= MIN_MAGNITUDE {
                                    let n: i64 = if *mantissa == MIN_MAGNITUDE {
                                        i64::MIN
                                    } else {
                                        -(*mantissa as i64)
                                    };
                                    return Some(MiniElixirExpr::Integer(n));
                                }
                            },
                            _ => {},
                        }
                    }
                    match parse_tokens(tokens, lo + 1, hi) {
                        Some(operand) => Some(
                            MiniElixirExpr::UnaryOp {
                                op: UnaryOperator::Minus,
                                operand: Box::new(operand),
                            },
                        ),
                        None => None,
                    }
                },
                _ => {
                    if hi - lo == 1 {
                        return literal_of(first);
                    }
                    match (first, last) {
                        (Token::Open, Token::Close) => parse_tokens(tokens, lo + 1, hi - 1),
                        (Token::OpenList, Token::CloseList) => {
                            match parse_list(tokens, lo + 1, hi - 1) {
                                Some(items) => Some(MiniElixirExpr::List(items)),
                                None => None,
                            }
                        },
                        (Token::Name(name), Token::Close) => {
                            if hi - lo < 3 {
                                return None;
                            }
                            assert(model[lo + 1] == tokens[lo + 1]@);
                            match &tokens[lo + 1] {
                                Token::Open => {
                                    match parse_list(tokens, lo + 2, hi - 1) {
                                        Some(args) => Some(
                                            MiniElixirExpr::Call { function: name.clone(), args },
                                        ),
                                        None => None,
                                    }
                                },
                                _ => None,
                            }
                        },
                        _ => None,
                    }
                },
            }
        },
    }
}

/// Reads the tokens `[lo, hi)` as expressions separated by commas.
pub fn parse_list(tokens: &Vec<Token>, lo: usize, hi: usize) -> (r: Option<Vec<MiniElixirExpr>>)
    requires
        hi <= tokens.len(),
    ensures
        match r {
            Some(items) => parse_items(tokens_model(tokens@), lo as int, hi as int) == Some(
                crate::minielixir::exprs_model(items),
            ),
            None => parse_items(tokens_model(tokens@), lo as int, hi as int) is None,
        },
    decreases hi - lo, 1nat,
{
    let ghost model = tokens_model(tokens@);
    if lo >= hi {
        let items: Vec<MiniElixirExpr> = Vec::new();
        assert(crate::minielixir::exprs_model(items) =~= Seq::<ExprModel>::empty());
        return Some(items);
    }
    let comma = find_comma(tokens, lo, hi);
    let first = match parse_tokens(tokens, lo, comma) {
        Some(e) => e,
        None => {
            return None;
        },
    };
    if comma >= hi {
        let mut items: Vec<MiniElixirExpr> = Vec::new();
        items.push(first);
        assert(crate::minielixir::exprs_model(items) =~= seq![first@]);
        return Some(items);
    }
    let rest = match parse_list(tokens, comma + 1, hi) {
        Some(rest) => rest,
        None => {
            return None;
        },
    };
    let mut items: Vec<MiniElixirExpr> = Vec::new();
    items.push(first);
    let mut rest = rest;
    let ghost rest_model = crate::minielixir::exprs_model(rest);
    let ghost first_model = first@;
    assert(rest_model.len() == rest.len());
    assert forall|j: int| 0 <= j < rest.len() implies rest_model[j] == rest[j]@ by {}
    items.append(&mut rest);
    assert(crate::minielixir::exprs_model(items) =~= seq![first_model] + rest_model);
    Some(items)
}

/// The error of a text that writes no expression.
pub open spec fn unreadable() -> ErrorModel {
    ErrorModel::ParseError { line: 0, column: 0, message: "Could not read the expression"@ }
}

/// What reading `code` gives: its expression, or the error of a text that
/// writes none.
pub open spec fn read(code: Seq<char>) -> Result<ExprModel, ErrorModel> {
    match parse_model(code) {
        Some(e) => Ok(e),
        None => Err(unreadable()),
    }
}

/// Reads `code` as one expression.
pub fn parse(code: &str) -> (r: EllexResult<MiniElixirExpr>)
    ensures
        match r {
            Ok(e) => read(code@) == Ok::<ExprModel, ErrorModel>(e@),
            Err(error) => read(code@) == Err::<ExprModel, ErrorModel>(error@),
        },
{
    let chars = chars_of(code);
    let parsed = match tokenize(&chars) {
        Some(tokens) => parse_tokens(&tokens, 0, tokens.len()),
        None => None,
    };
    match parsed {
        Some(e) => Ok(e),
        None => Err(
            EllexError::ParseError {
                line: 0,
                column: 0,
                message: String::from_str("Could not read the expression"),
            },
        ),
    }
}

/// The tokens of the text `length([1,2,3])`.
pub open spec fn length_tokens() -> Seq<TokenModel> {
    seq![
        TokenModel::Name("length"@),
        TokenModel::Open,
        TokenModel::OpenList,
        TokenModel::Number { mantissa: 1, scale: 0 },
        TokenModel::Comma,
        TokenModel::Number { mantissa: 2, scale: 0 },
        TokenModel::Comma,
        TokenModel::Number { mantissa: 3, scale: 0 },
        TokenModel::CloseList,
        TokenModel::Close,
    ]
}

/// The text `length([1,2,3])` is cut into its ten tokens.
#[verifier::rlimit(100)]
pub proof fn lemma_length_text_tokens()
    ensures
        tokens_from("length([1,2,3])"@, 0) == Some(length_tokens()),
{
    reveal_strlit("length([1,2,3])");
    reveal_strlit("length");
    let s = "length([1,2,3])"@;
    assert(s =~= seq![
        'l', 'e', 'n', 'g', 't', 'h', '(', '[', '1', ',', '2', ',', '3', ']', ')',
    ]);
    reveal_with_fuel(word_end, 8);
    reveal_with_fuel(digits_end, 3);
    reveal_with_fuel(digits_value, 3);
    reveal_with_fuel(skip_spaces, 2);
    assert(word_end(s, 0) == 6);
    assert(s.subrange(0, 6) =~= "length"@);
    assert(token_at(s, 0) == Some((TokenModel::Name("length"@), 6int)));
    assert(token_at(s, 6) == Some((TokenModel::Open, 7int)));
    assert(token_at(s, 7) == Some((TokenModel::OpenList, 8int)));
    assert(token_at(s, 8) == Some((TokenModel::Number { mantissa: 1, scale: 0 }, 9int)));
    assert(token_at(s, 9) == Some((TokenModel::Comma, 10int)));
    assert(token_at(s, 10) == Some((TokenModel::Number { mantissa: 2, scale: 0 }, 11int)));
    assert(token_at(s, 11) == Some((TokenModel::Comma, 12int)));
    assert(token_at(s, 12) == Some((TokenModel::Number { mantissa: 3, scale: 0 }, 13int)));
    assert(token_at(s, 13) == Some((TokenModel::CloseList, 14int)));
    assert(token_at(s, 14) == Some((TokenModel::Close, 15int)));
    assert(tokens_from(s, 15) == Some(Seq::<TokenModel>::empty()));
    assert(tokens_from(s, 14) == Some(seq![TokenModel::Close] + Seq::<TokenModel>::empty()));
    let t14 = seq![TokenModel::Close];
    assert(seq![TokenModel::Close] + Seq::<TokenModel>::empty() =~= t14);
    let t13 = seq![TokenModel::CloseList] + t14;
    assert(tokens_from(s, 13) == Some(t13));
    let t12 = seq![TokenModel::Number { mantissa: 3, scale: 0 }] + t13;
    assert(tokens_from(s, 12) == Some(t12));
    let t11 = seq![TokenModel::Comma] + t12;
    assert(tokens_from(s, 11) == Some(t11));
    let t10 = seq![TokenModel::Number { mantissa: 2, scale: 0 }] + t11;
    assert(tokens_from(s, 10) == Some(t10));
    let t9 = seq![TokenModel::Comma] + t10;
    assert(tokens_from(s, 9) == Some(t9));
    let t8 = seq![TokenModel::Number { mantissa: 1, scale: 0 }] + t9;
    assert(tokens_from(s, 8) == Some(t8));
    let t7 = seq![TokenModel::OpenList] + t8;
    assert(tokens_from(s, 7) == Some(t7));
    let t6 = seq![TokenModel::Open] + t7;
    assert(tokens_from(s, 6) == Some(t6));
    let t0 = seq![TokenModel::Name("length"@)] + t6;
    assert(tokens_from(s, 0) == Some(t0));
    assert(t0 =~= length_tokens());
}

/// Without an operator among the tokens no range splits.
pub proof fn lemma_no_operator_no_split(tokens: Seq<TokenModel>, lo: int, hi: int, level: nat)
    requires
        0 <= lo,
        forall|j: int| 0 <= j < tokens.len() ==> !((#[trigger] tokens[j]) is Operator),
    ensures
        split_point(tokens, lo, hi, level) is None,
    decreases LEVELS - level,
{
    if level < LEVELS {
        lemma_no_operator_no_last_split(tokens, lo, hi, level);
        lemma_no_operator_no_split(tokens, lo, hi, level + 1);
    }
}

/// Without an operator among the tokens no range splits at any level.
pub proof fn lemma_no_operator_no_last_split(tokens: Seq<TokenModel>, lo: int, i: int, level: nat)
    requires
        0 <= lo,
        forall|j: int| 0 <= j < tokens.len() ==> !((#[trigger] tokens[j]) is Operator),
    ensures
        last_split(tokens, lo, i, level) == -1,
    decreases i - lo,
{
    if i > lo {
        lemma_no_operator_no_last_split(tokens, lo, i - 1, level);
    }
}

/// The text `length([1,2,3])` writes the call of `length` with the list of
/// the three numbers.
#[verifier::rlimit(100)]
pub proof fn lemma_length_of_a_list_reads()
    ensures
        parse_model("length([1,2,3])"@) == Some(
            ExprModel::Call {
                function: "length"@,
                args: seq![
                    ExprModel::List(
                        seq![ExprModel::Integer(1), ExprModel::Integer(2), ExprModel::Integer(3)],
                    ),
                ],
            },
        ),
{
    lemma_length_text_tokens();
    let t = length_tokens();
    assert forall|j: int| 0 <= j < t.len() implies !((#[trigger] t[j]) is Operator) by {}
    assert(t.len() == 10);
    reveal_with_fuel(depth_before, 8);
    reveal_with_fuel(first_comma, 8);
    let one = ExprModel::Integer(1);
    let two = ExprModel::Integer(2);
    let three = ExprModel::Integer(3);
    lemma_no_operator_no_split(t, 7, 8, 0);
    assert(parse_range(t, 7, 8) == Some(three));
    assert(first_comma(t, 7, 7, 8) == 8);
    assert(parse_items(t, 7, 8) == Some(seq![three]));
    lemma_no_operator_no_split(t, 5, 6, 0);
    assert(parse_range(t, 5, 6) == Some(two));
    assert(first_comma(t, 5, 5, 8) == 6);
    assert(parse_items(t, 5, 8) == Some(seq![two] + seq![three]));
    lemma_no_operator_no_split(t, 3, 4, 0);
    assert(parse_range(t, 3, 4) == Some(one));
    assert(first_comma(t, 3, 3, 8) == 4);
    assert(parse_items(t, 3, 8) == Some(seq![one] + (seq![two] + seq![three])));
    let items = seq![one, two, three];
    assert(seq![one] + (seq![two] + seq![three]) =~= items);
    lemma_no_operator_no_split(t, 2, 9, 0);
    assert(parse_range(t, 2, 9) == Some(ExprModel::List(items)));
    assert(first_comma(t, 2, 2, 9) == 9);
    assert(parse_items(t, 2, 9) == Some(seq![ExprModel::List(items)]));
    lemma_no_operator_no_split(t, 0, 10, 0);
    assert(parse_range(t, 0, 10) == Some(
        ExprModel::Call { function: "length"@, args: seq![ExprModel::List(items)] },
    ));
}

} // verus!
