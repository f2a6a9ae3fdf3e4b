//! The execution core of a small scripting language for beginners: a
//! resource monitor, inline caches, a cache-augmented statement executor and
//! a sandboxed expression language with a result cache.

pub mod benchmarks;
pub mod cached_ast;
pub mod cached_statement;
pub mod direct_runtime;
pub mod double;
pub mod ellex_minielixir_bridge;
pub mod environment;
pub mod expr_values;
pub mod inspection;
pub mod json;
pub mod minielixir;
pub mod minielixir_cached_runtime;
pub mod minielixir_parser;
pub mod minielixir_terms;
pub mod minielixir_validator;
pub mod number;
pub mod numeral;
pub mod optimized_runtime;
pub mod reading;
pub mod render;
pub mod result_cache;
pub mod runtime;
pub mod safety;
pub mod sequin_minielixir;
pub mod text;
pub mod turtle;
pub mod values;

pub use crate::direct_runtime::EllexRuntime;
pub use crate::environment::{Binding, Bindings};
pub use crate::runtime::Pipeline;
pub use crate::safety::{ExecutionLimits, SafetyMonitor};
pub use crate::turtle::TurtleGraphics;
pub use crate::values::{EllexFunction, EllexValue, Statement};

use crate::safety::SafetyError;
use crate::text::{decimal, push_decimal, push_text};
use vstd::prelude::*;

verus! {

/// The errors of the runtime. Every failure crosses the library's boundary as
/// one of these values.
#[derive(Debug, Clone)]
pub enum EllexError {
    /// The execution ran longer than its timeout.
    Timeout { limit_ms: u64 },
    /// The source is malformed.
    ParseError { line: usize, column: usize, message: String },
    /// A command the language does not have.
    UnknownCommand { input: String, suggestion: String },
    /// A type mismatch, an undefined name, a division by zero, a wrong
    /// number of arguments.
    LogicError { message: String },
    /// Content the sandbox refuses.
    SafetyViolation { reason: String },
    /// More instructions than the ceiling allows.
    InstructionLimitExceeded { count: u64 },
    /// More memory than the ceiling allows.
    MemoryLimitExceeded { current_mb: usize, limit_mb: usize },
    /// Recursion deeper than the ceiling allows.
    RecursionDepthExceeded { current: usize, limit: usize },
    /// A loop longer than the ceiling allows.
    LoopLimitExceeded { current: usize, limit: usize },
}

/// The model of an error.
pub enum ErrorModel {
    Timeout { limit_ms: u64 },
    ParseError { line: usize, column: usize, message: Seq<char> },
    UnknownCommand { input: Seq<char>, suggestion: Seq<char> },
    LogicError { message: Seq<char> },
    SafetyViolation { reason: Seq<char> },
    InstructionLimitExceeded { count: u64 },
    MemoryLimitExceeded { current_mb: usize, limit_mb: usize },
    RecursionDepthExceeded { current: usize, limit: usize },
    LoopLimitExceeded { current: usize, limit: usize },
}

impl View for EllexError {
    type V = ErrorModel;

    open spec fn view(&self) -> ErrorModel {
        match *self {
            EllexError::Timeout { limit_ms } => ErrorModel::Timeout { limit_ms },
            EllexError::ParseError { line, column, message } => ErrorModel::ParseError {
                line,
                column,
                message: message@,
            },
            EllexError::UnknownCommand { input, suggestion } => ErrorModel::UnknownCommand {
                input: input@,
                suggestion: suggestion@,
            },
            EllexError::LogicError { message } => ErrorModel::LogicError { message: message@ },
            EllexError::SafetyViolation { reason } => ErrorModel::SafetyViolation {
                reason: reason@,
            },
            EllexError::InstructionLimitExceeded { count } => ErrorModel::InstructionLimitExceeded {
                count,
            },
            EllexError::MemoryLimitExceeded { current_mb, limit_mb } => ErrorModel::MemoryLimitExceeded {
                current_mb,
                limit_mb,
            },
            EllexError::RecursionDepthExceeded { current, limit } => ErrorModel::RecursionDepthExceeded {
                current,
                limit,
            },
            EllexError::LoopLimitExceeded { current, limit } => ErrorModel::LoopLimitExceeded {
                current,
                limit,
            },
        }
    }
}

impl ErrorModel {
    /// The runtime error that stands for a breach of a limit, kind and
    /// figures kept.
    pub open spec fn of_safety(e: SafetyError) -> ErrorModel {
        match e {
            SafetyError::ExecutionTimeout { limit_ms } => ErrorModel::Timeout { limit_ms },
            SafetyError::MemoryLimitExceeded { current_mb, limit_mb } => ErrorModel::MemoryLimitExceeded {
                current_mb,
                limit_mb,
            },
            SafetyError::RecursionDepthExceeded { current, limit } => ErrorModel::RecursionDepthExceeded {
                current,
                limit,
            },
            SafetyError::LoopLimitExceeded { current, limit } => ErrorModel::LoopLimitExceeded {
                current,
                limit,
            },
            SafetyError::InstructionLimitExceeded { count } => ErrorModel::InstructionLimitExceeded {
                count,
            },
        }
    }

    /// The breach of a limit that this error reports, if it reports one.
    pub open spec fn as_safety(self) -> Option<SafetyError> {
        match self {
            ErrorModel::Timeout { limit_ms } => Some(SafetyError::ExecutionTimeout { limit_ms }),
            ErrorModel::MemoryLimitExceeded { current_mb, limit_mb } => Some(
                SafetyError::MemoryLimitExceeded { current_mb, limit_mb },
            ),
            ErrorModel::RecursionDepthExceeded { current, limit } => Some(
                SafetyError::RecursionDepthExceeded { current, limit },
            ),
            ErrorModel::LoopLimitExceeded { current, limit } => Some(
                SafetyError::LoopLimitExceeded { current, limit },
            ),
            ErrorModel::InstructionLimitExceeded { count } => Some(
                SafetyError::InstructionLimitExceeded { count },
            ),
            _ => None,
        }
    }

    /// The text of the error.
    pub open spec fn message(self) -> Seq<char> {
        match self {
            ErrorModel::Timeout { limit_ms } => "Execution timeout: code took longer than "@
                + decimal(limit_ms as nat) + "ms"@,
            ErrorModel::ParseError { line, column, message } => "Parse error at line "@ + decimal(
                line as nat,
            ) + ", column "@ + decimal(column as nat) + ": "@ + message,
            ErrorModel::UnknownCommand { input, suggestion } => "I don't understand '"@ + input
                + "'. "@ + suggestion,
            ErrorModel::LogicError { message } => "That doesn't make sense here: "@ + message,
            ErrorModel::SafetyViolation { reason } => "Safety first! "@ + reason,
            _ => self.as_safety().unwrap().message(),
        }
    }

    /// The error in words a beginner can read.
    pub open spec fn friendly(self) -> Seq<char> {
        match self {
            ErrorModel::Timeout {
                limit_ms,
            } => "Whoa! Your code is taking a really long time. Let's try something simpler! 🐌"@,
            ErrorModel::ParseError { line, column, message } => "I didn't understand that. "@
                + message + " 🤔"@,
            ErrorModel::UnknownCommand { input, suggestion } => "I don't know how to '"@ + input
                + "'. "@ + suggestion + " 💡"@,
            ErrorModel::LogicError { message } => "That doesn't make sense: "@ + message + " 🤷"@,
            ErrorModel::SafetyViolation { reason } => "Safety first! "@ + reason + " 🛡️"@,
            _ => "Safety first! "@ + self.as_safety().unwrap().message() + " 🛡️"@,
        }
    }
}

impl EllexError {
    /// The runtime error that stands for a breach of a limit.
    pub fn from_safety(e: SafetyError) -> (r: EllexError)
        ensures
            r@ == ErrorModel::of_safety(e),
    {
        match e {
            SafetyError::ExecutionTimeout { limit_ms } => EllexError::Timeout { limit_ms },
            SafetyError::MemoryLimitExceeded { current_mb, limit_mb } => EllexError::MemoryLimitExceeded {
                current_mb,
                limit_mb,
            },
            SafetyError::RecursionDepthExceeded { current, limit } => EllexError::RecursionDepthExceeded {
                current,
                limit,
            },
            SafetyError::LoopLimitExceeded { current, limit } => EllexError::LoopLimitExceeded {
                current,
                limit,
            },
            SafetyError::InstructionLimitExceeded { count } => EllexError::InstructionLimitExceeded {
                count,
            },
        }
    }

    /// A `LogicError` whose message is `before`, `name`, `after`.
    pub fn logic(before: &str, name: &str, after: &str) -> (r: EllexError)
        ensures
            r@ == (ErrorModel::LogicError { message: before@ + name@ + after@ }),
    {
        let mut message = String::from_str(before);
        push_text(&mut message, name);
        push_text(&mut message, after);
        EllexError::LogicError { message }
    }

    /// A `SafetyViolation` whose reason is `before`, `name`, `after`.
    pub fn violation(before: &str, name: &str, after: &str) -> (r: EllexError)
        ensures
            r@ == (ErrorModel::SafetyViolation { reason: before@ + name@ + after@ }),
    {
        let mut reason = String::from_str(before);
        push_text(&mut reason, name);
        push_text(&mut reason, after);
        EllexError::SafetyViolation { reason }
    }

    /// Renders the error as text.
    pub fn to_string(&self) -> (s: String)
        ensures
            s@ == self@.message(),
    {
        let mut s = String::new();
        assert(s@ + "x"@ =~= "x"@);
        match self {
            EllexError::Timeout { limit_ms } => {
                push_text(&mut s, "Execution timeout: code took longer than ");
                push_decimal(&mut s, *limit_ms);
                push_text(&mut s, "ms");
                assert(s@ =~= self@.message());
            },
            EllexError::ParseError { line, column, message } => {
                push_text(&mut s, "Parse error at line ");
                push_decimal(&mut s, *line as u64);
                push_text(&mut s, ", column ");
                push_decimal(&mut s, *column as u64);
                push_text(&mut s, ": ");
                push_text(&mut s, message.as_str());
                assert(s@ =~= self@.message());
            },
            EllexError::UnknownCommand { input, suggestion } => {
                push_text(&mut s, "I don't understand '");
                push_text(&mut s, input.as_str());
                push_text(&mut s, "'. ");
                push_text(&mut s, suggestion.as_str());
                assert(s@ =~= self@.message());
            },
            EllexError::LogicError { message } => {
                push_text(&mut s, "That doesn't make sense here: ");
                push_text(&mut s, message.as_str());
                assert(s@ =~= self@.message());
            },
            EllexError::SafetyViolation { reason } => {
                push_text(&mut s, "Safety first! ");
                push_text(&mut s, reason.as_str());
                assert(s@ =~= self@.message());
            },
            EllexError::InstructionLimitExceeded { count } => {
                s = (SafetyError::InstructionLimitExceeded { count: *count }).to_string();
            },
            EllexError::MemoryLimitExceeded { current_mb, limit_mb } => {
                s = (SafetyError::MemoryLimitExceeded {
                    current_mb: *current_mb,
                    limit_mb: *limit_mb,
                }).to_string();
            },
            EllexError::RecursionDepthExceeded { current, limit } => {
                s = (SafetyError::RecursionDepthExceeded {
                    current: *current,
                    limit: *limit,
                }).to_string();
            },
            EllexError::LoopLimitExceeded { current, limit } => {
                s = (SafetyError::LoopLimitExceeded { current: *current, limit: *limit }).to_string();
            },
        }
        s
    }

    /// The breach of a limit that this error reports, if it reports one.
    pub fn as_safety(&self) -> (r: Option<SafetyError>)
        ensures
            r == self@.as_safety(),
    {
        match self {
            EllexError::Timeout { limit_ms } => Some(
                SafetyError::ExecutionTimeout { limit_ms: *limit_ms },
            ),
            EllexError::MemoryLimitExceeded { current_mb, limit_mb } => Some(
                SafetyError::MemoryLimitExceeded { current_mb: *current_mb, limit_mb: *limit_mb },
            ),
            EllexError::RecursionDepthExceeded { current, limit } => Some(
                SafetyError::RecursionDepthExceeded { current: *current, limit: *limit },
            ),
            EllexError::LoopLimitExceeded { current, limit } => Some(
                SafetyError::LoopLimitExceeded { current: *current, limit: *limit },
            ),
            EllexError::InstructionLimitExceeded { count } => Some(
                SafetyError::InstructionLimitExceeded { count: *count },
            ),
            _ => None,
        }
    }
}

/// The error of a result, if it is one.
pub open spec fn error_of<T>(r: Result<T, EllexError>) -> Option<ErrorModel> {
    match r {
        Ok(_) => None,
        Err(e) => Some(e@),
    }
}

/// The result of a runtime operation.
pub type EllexResult<T> = Result<T, EllexError>;

/// The options of a runtime.
#[derive(Debug, Clone, Copy, PartialEq, Eq, Structural)]
pub struct EllexConfig {
    /// Maximum execution time in milliseconds.
    pub execution_timeout_ms: u64,
    /// Maximum memory in megabytes.
    pub memory_limit_mb: usize,
    /// Whether graphics commands are recognized.
    pub enable_turtle: bool,
    /// Whether assistance is enabled; the execution core does not read it.
    pub enable_ai: bool,
    /// Maximum recursion depth.
    pub max_recursion_depth: usize,
    /// Maximum number of rounds of one loop.
    pub max_loop_iterations: usize,
}

impl EllexConfig {
    /// The standard options: 5 s, 64 MB, graphics and assistance on, depth
    /// 100, 10 000 rounds.
    pub open spec fn standard() -> EllexConfig {
        EllexConfig {
            execution_timeout_ms: 5000,
            memory_limit_mb: 64,
            enable_turtle: true,
            enable_ai: true,
            max_recursion_depth: 100,
            max_loop_iterations: 10000,
        }
    }

    /// The ceilings that these options ask for; the instruction ceiling is
    /// always 100 000.
    pub open spec fn limits(self) -> ExecutionLimits {
        ExecutionLimits {
            timeout_ms: self.execution_timeout_ms,
            memory_limit_mb: self.memory_limit_mb,
            max_recursion_depth: self.max_recursion_depth,
            max_loop_iterations: self.max_loop_iterations,
            max_instructions: 100000,
        }
    }

    /// The ceilings that these options ask for.
    pub fn to_limits(&self) -> (l: ExecutionLimits)
        ensures
            l == self.limits(),
    {
        ExecutionLimits {
            timeout_ms: self.execution_timeout_ms,
            memory_limit_mb: self.memory_limit_mb,
            max_recursion_depth: self.max_recursion_depth,
            max_loop_iterations: self.max_loop_iterations,
            max_instructions: 100000,
        }
    }
}

impl Default for EllexConfig {
    fn default() -> (c: Self)
        ensures
            c == Self::standard(),
    {
        EllexConfig {
            execution_timeout_ms: 5000,
            memory_limit_mb: 64,
            enable_turtle: true,
            enable_ai: true,
            max_recursion_depth: 100,
            max_loop_iterations: 10000,
        }
    }
}

/// A runtime with the standard options.
pub fn init() -> (rt: EllexRuntime)
    ensures
        rt.world() == crate::direct_runtime::new_world(EllexConfig::standard()),
        rt.options() == EllexConfig::standard(),
{
    EllexRuntime::new()
}

/// A runtime with the options `config`.
pub fn init_with_config(config: EllexConfig) -> (rt: EllexRuntime)
    ensures
        rt.world() == crate::direct_runtime::new_world(config),
        rt.options() == config,
{
    EllexRuntime::with_config(config)
}

/// The error in words a beginner can read.
pub fn friendly_error_message(error: &EllexError) -> (s: String)
    ensures
        s@ == error@.friendly(),
{
    let mut s = String::new();
    assert(s@ + "x"@ =~= "x"@);
    match error {
        EllexError::Timeout { limit_ms } => {
            push_text(
                &mut s,
                "Whoa! Your code is taking a really long time. Let's try something simpler! 🐌",
            );
            assert(s@ =~= error@.friendly());
        },
        EllexError::ParseError { line, column, message } => {
            push_text(&mut s, "I didn't understand that. ");
            push_text(&mut s, message.as_str());
            push_text(&mut s, " 🤔");
            assert(s@ =~= error@.friendly());
        },
        EllexError::UnknownCommand { input, suggestion } => {
            push_text(&mut s, "I don't know how to '");
            push_text(&mut s, input.as_str());
            push_text(&mut s, "'. ");
            push_text(&mut s, suggestion.as_str());
            push_text(&mut s, " 💡");
            assert(s@ =~= error@.friendly());
        },
        EllexError::LogicError { message } => {
            push_text(&mut s, "That doesn't make sense: ");
            push_text(&mut s, message.as_str());
            push_text(&mut s, " 🤷");
            assert(s@ =~= error@.friendly());
        },
        EllexError::SafetyViolation { reason } => {
            push_text(&mut s, "Safety first! ");
            push_text(&mut s, reason.as_str());
            push_text(&mut s, " 🛡️");
            assert(s@ =~= error@.friendly());
        },
        _ => {
            let inner = match error.as_safety() {
                Some(e) => e.to_string(),
                None => String::new(),
            };
            push_text(&mut s, "Safety first! ");
            push_text(&mut s, inner.as_str());
            push_text(&mut s, " 🛡️");
            assert(s@ =~= error@.friendly());
        },
    }
    s
}

} // verus!
