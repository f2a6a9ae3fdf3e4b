//! The execution limit monitor: counters for instructions, recursion depth and
//! memory, a wall clock, and the check-points that turn a breach of a limit
//! into an error value.
//!
//! Every transition of the monitor is a spec function on [`MonitorView`]; the
//! check-points that read the clock have a twin that takes the reading as an
//! argument and is specified exactly.

use crate::text::{decimal, push_decimal, push_text};
use std::time::{Duration, Instant};
use vstd::prelude::*;

verus! {

/// A breach of one of the execution limits.
#[derive(Debug, Clone, Copy, PartialEq, Eq, Structural)]
pub enum SafetyError {
    ExecutionTimeout { limit_ms: u64 },
    MemoryLimitExceeded { current_mb: usize, limit_mb: usize },
    RecursionDepthExceeded { current: usize, limit: usize },
    LoopLimitExceeded { current: usize, limit: usize },
    InstructionLimitExceeded { count: u64 },
}

impl SafetyError {
    /// The text of the error.
    pub open spec fn message(self) -> Seq<char> {
        match self {
            SafetyError::ExecutionTimeout { limit_ms } => "Execution timeout: exceeded "@ + decimal(
                limit_ms as nat,
            ) + "ms"@,
            SafetyError::MemoryLimitExceeded { current_mb, limit_mb } => "Memory limit exceeded: "@
                + decimal(current_mb as nat) + "MB > "@ + decimal(limit_mb as nat) + "MB"@,
            SafetyError::RecursionDepthExceeded { current, limit } => "Recursion depth exceeded: "@
                + decimal(current as nat) + " > "@ + decimal(limit as nat),
            SafetyError::LoopLimitExceeded { current, limit } => "Loop iteration limit exceeded: "@
                + decimal(current as nat) + " > "@ + decimal(limit as nat),
            SafetyError::InstructionLimitExceeded { count } => "Instruction count exceeded: "@
                + decimal(count as nat),
        }
    }

    /// Renders the error as text, with the limit and the offending figure.
    pub fn to_string(&self) -> (s: String)
        ensures
            s@ == self.message(),
    {
        let mut s = String::new();
        assert(s@ + "x"@ =~= "x"@);
        match *self {
            SafetyError::ExecutionTimeout { limit_ms } => {
                push_text(&mut s, "Execution timeout: exceeded ");
                push_decimal(&mut s, limit_ms);
                push_text(&mut s, "ms");
                assert(s@ =~= self.message());
            },
            SafetyError::MemoryLimitExceeded { current_mb, limit_mb } => {
                push_text(&mut s, "Memory limit exceeded: ");
                push_decimal(&mut s, current_mb as u64);
                push_text(&mut s, "MB > ");
                push_decimal(&mut s, limit_mb as u64);
                push_text(&mut s, "MB");
                assert(s@ =~= self.message());
            },
            SafetyError::RecursionDepthExceeded { current, limit } => {
                push_text(&mut s, "Recursion depth exceeded: ");
                push_decimal(&mut s, current as u64);
                push_text(&mut s, " > ");
                push_decimal(&mut s, limit as u64);
                assert(s@ =~= self.message());
            },
            SafetyError::LoopLimitExceeded { current, limit } => {
                push_text(&mut s, "Loop iteration limit exceeded: ");
                push_decimal(&mut s, current as u64);
                push_text(&mut s, " > ");
                push_decimal(&mut s, limit as u64);
                assert(s@ =~= self.message());
            },
            SafetyError::InstructionLimitExceeded { count } => {
                push_text(&mut s, "Instruction count exceeded: ");
                push_decimal(&mut s, count);
                assert(s@ =~= self.message());
            },
        }
        s
    }
}

/// The ceilings of one execution.
#[derive(Debug, Clone, Copy, PartialEq, Eq, Structural)]
pub struct ExecutionLimits {
    pub timeout_ms: u64,
    pub memory_limit_mb: usize,
    pub max_recursion_depth: usize,
    pub max_loop_iterations: usize,
    pub max_instructions: u64,
}

impl ExecutionLimits {
    /// Every ceiling is positive.
    pub open spec fn valid(self) -> bool {
        &&& self.timeout_ms > 0
        &&& self.memory_limit_mb > 0
        &&& self.max_recursion_depth > 0
        &&& self.max_loop_iterations > 0
        &&& self.max_instructions > 0
    }

    /// `self` is at most `other` on every ceiling.
    pub open spec fn at_most(self, other: ExecutionLimits) -> bool {
        &&& self.timeout_ms <= other.timeout_ms
        &&& self.memory_limit_mb <= other.memory_limit_mb
        &&& self.max_recursion_depth <= other.max_recursion_depth
        &&& self.max_loop_iterations <= other.max_loop_iterations
        &&& self.max_instructions <= other.max_instructions
    }

    pub open spec fn standard() -> ExecutionLimits {
        ExecutionLimits {
            timeout_ms: 5000,
            memory_limit_mb: 64,
            max_recursion_depth: 100,
            max_loop_iterations: 10000,
            max_instructions: 100000,
        }
    }

    pub open spec fn beginner() -> ExecutionLimits {
        ExecutionLimits {
            timeout_ms: 3000,
            memory_limit_mb: 32,
            max_recursion_depth: 50,
            max_loop_iterations: 1000,
            max_instructions: 10000,
        }
    }

    pub open spec fn advanced() -> ExecutionLimits {
        ExecutionLimits {
            timeout_ms: 30000,
            memory_limit_mb: 256,
            max_recursion_depth: 500,
            max_loop_iterations: 100000,
            max_instructions: 1000000,
        }
    }

    /// The standard ceilings: 5 s, 64 MB, depth 100, 10 000 iterations,
    /// 100 000 instructions.
    pub fn new() -> (l: Self)
        ensures
            l == Self::standard(),
            l.valid(),
    {
        ExecutionLimits {
            timeout_ms: 5000,
            memory_limit_mb: 64,
            max_recursion_depth: 100,
            max_loop_iterations: 10000,
            max_instructions: 100000,
        }
    }

    pub fn with_timeout(self, timeout_ms: u64) -> (l: Self)
        ensures
            l == (ExecutionLimits { timeout_ms, ..self }),
    {
        let mut l = self;
        l.timeout_ms = timeout_ms;
        l
    }

    pub fn with_memory_limit(self, memory_limit_mb: usize) -> (l: Self)
        ensures
            l == (ExecutionLimits { memory_limit_mb, ..self }),
    {
        let mut l = self;
        l.memory_limit_mb = memory_limit_mb;
        l
    }

    pub fn with_recursion_limit(self, max_recursion_depth: usize) -> (l: Self)
        ensures
            l == (ExecutionLimits { max_recursion_depth, ..self }),
    {
        let mut l = self;
        l.max_recursion_depth = max_recursion_depth;
        l
    }

    pub fn with_loop_limit(self, max_loop_iterations: usize) -> (l: Self)
        ensures
            l == (ExecutionLimits { max_loop_iterations, ..self }),
    {
        let mut l = self;
        l.max_loop_iterations = max_loop_iterations;
        l
    }

    /// The tighter preset: 3 s, 32 MB, depth 50, 1 000 iterations,
    /// 10 000 instructions.
    pub fn for_beginners() -> (l: Self)
        ensures
            l == Self::beginner(),
            l.valid(),
            l.at_most(Self::advanced()),
    {
        ExecutionLimits {
            timeout_ms: 3000,
            memory_limit_mb: 32,
            max_recursion_depth: 50,
            max_loop_iterations: 1000,
            max_instructions: 10000,
        }
    }

    /// The looser preset: 30 s, 256 MB, depth 500, 100 000 iterations,
    /// 1 000 000 instructions.
    pub fn for_advanced() -> (l: Self)
        ensures
            l == Self::advanced(),
            l.valid(),
            Self::beginner().at_most(l),
    {
        ExecutionLimits {
            timeout_ms: 30000,
            memory_limit_mb: 256,
            max_recursion_depth: 500,
            max_loop_iterations: 100000,
            max_instructions: 1000000,
        }
    }
}

impl Default for ExecutionLimits {
    fn default() -> (l: Self)
        ensures
            l == Self::standard(),
    {
        Self::new()
    }
}

/// What the monitor holds besides its clock.
pub struct MonitorView {
    pub limits: ExecutionLimits,
    pub instruction_count: u64,
    pub recursion_depth: usize,
    pub memory_usage_mb: usize,
}

impl MonitorView {
    /// A monitor that has counted nothing yet.
    pub open spec fn fresh(limits: ExecutionLimits) -> MonitorView {
        MonitorView { limits, instruction_count: 0, recursion_depth: 0, memory_usage_mb: 0 }
    }

    /// All counters back to zero.
    pub open spec fn after_reset(self) -> MonitorView {
        MonitorView::fresh(self.limits)
    }

    /// One more instruction counted. The counter stops at the largest `u64`.
    pub open spec fn after_continue(self) -> MonitorView {
        MonitorView {
            instruction_count: if self.instruction_count < u64::MAX {
                (self.instruction_count + 1) as u64
            } else {
                self.instruction_count
            },
            ..self
        }
    }

    /// What a check-point answers once the instruction has been counted and
    /// the clock reads `elapsed_ms`: the instruction ceiling is tested first,
    /// then the timeout, then the memory ceiling.
    pub open spec fn continue_verdict(self, elapsed_ms: u64) -> Result<(), SafetyError> {
        let counted = self.after_continue();
        if counted.instruction_count > self.limits.max_instructions {
            Err(SafetyError::InstructionLimitExceeded { count: counted.instruction_count })
        } else if elapsed_ms > self.limits.timeout_ms {
            Err(SafetyError::ExecutionTimeout { limit_ms: self.limits.timeout_ms })
        } else if self.memory_usage_mb > self.limits.memory_limit_mb {
            Err(
                SafetyError::MemoryLimitExceeded {
                    current_mb: self.memory_usage_mb,
                    limit_mb: self.limits.memory_limit_mb,
                },
            )
        } else {
            Ok(())
        }
    }

    /// One level deeper. The depth stops at the largest `usize`.
    pub open spec fn after_enter(self) -> MonitorView {
        MonitorView {
            recursion_depth: if self.recursion_depth < usize::MAX {
                (self.recursion_depth + 1) as usize
            } else {
                self.recursion_depth
            },
            ..self
        }
    }

    /// What entering one more level answers.
    pub open spec fn enter_verdict(self) -> Result<(), SafetyError> {
        let entered = self.after_enter();
        if entered.recursion_depth > self.limits.max_recursion_depth {
            Err(
                SafetyError::RecursionDepthExceeded {
                    current: entered.recursion_depth,
                    limit: self.limits.max_recursion_depth,
                },
            )
        } else {
            Ok(())
        }
    }

    /// One level back up; at depth zero nothing changes.
    pub open spec fn after_exit(self) -> MonitorView {
        MonitorView {
            recursion_depth: if self.recursion_depth > 0 {
                (self.recursion_depth - 1) as usize
            } else {
                0
            },
            ..self
        }
    }

    /// What the test before a loop of `iterations` rounds answers.
    pub open spec fn loop_start_verdict(self, iterations: usize) -> Result<(), SafetyError> {
        if iterations > self.limits.max_loop_iterations {
            Err(
                SafetyError::LoopLimitExceeded {
                    current: iterations,
                    limit: self.limits.max_loop_iterations,
                },
            )
        } else {
            Ok(())
        }
    }

    /// Round number `iteration` (from zero) is still below the ceiling.
    pub open spec fn iteration_allowed(self, iteration: usize) -> bool {
        iteration < self.limits.max_loop_iterations
    }

    /// The monitor after the check of round `iteration`: a round at or above
    /// the ceiling is refused before anything is counted.
    pub open spec fn after_iteration(self, iteration: usize) -> MonitorView {
        if self.iteration_allowed(iteration) {
            self.after_continue()
        } else {
            self
        }
    }

    /// What the check of round `iteration` answers when the clock reads
    /// `elapsed_ms`.
    pub open spec fn iteration_verdict(self, iteration: usize, elapsed_ms: u64) -> Result<
        (),
        SafetyError,
    > {
        if self.iteration_allowed(iteration) {
            self.continue_verdict(elapsed_ms)
        } else {
            Err(
                SafetyError::LoopLimitExceeded {
                    current: iteration,
                    limit: self.limits.max_loop_iterations,
                },
            )
        }
    }

    /// The figures reported when the clock reads `elapsed_ms`.
    pub open spec fn stats(self, elapsed_ms: u64) -> SafetyStats {
        SafetyStats {
            elapsed_ms,
            instruction_count: self.instruction_count,
            recursion_depth: self.recursion_depth,
            memory_usage_mb: self.memory_usage_mb,
            limits: self.limits,
        }
    }

    /// More than 80% of the timeout has passed.
    pub open spec fn near_timeout(self, elapsed_ms: u64) -> bool {
        elapsed_ms > self.limits.timeout_ms * 80 / 100
    }

    /// More than 80% of the memory ceiling is in use.
    pub open spec fn near_memory_limit(self) -> bool {
        self.memory_usage_mb > self.limits.memory_limit_mb * 80 / 100
    }

    /// The depth is above 90% of its ceiling.
    pub open spec fn deep_recursion(self) -> bool {
        self.recursion_depth > self.limits.max_recursion_depth * 90 / 100
    }

    /// The soft alerts when the clock reads `elapsed_ms`: time first, then
    /// memory, then recursion, each only if its threshold is passed.
    pub open spec fn warnings(self, elapsed_ms: u64) -> Seq<SafetyWarning> {
        let time = if self.near_timeout(elapsed_ms) {
            seq![
                SafetyWarning::NearTimeout {
                    current_ms: elapsed_ms,
                    limit_ms: self.limits.timeout_ms,
                },
            ]
        } else {
            Seq::<SafetyWarning>::empty()
        };
        let memory = if self.near_memory_limit() {
            seq![
                SafetyWarning::NearMemoryLimit {
                    current_mb: self.memory_usage_mb,
                    limit_mb: self.limits.memory_limit_mb,
                },
            ]
        } else {
            Seq::<SafetyWarning>::empty()
        };
        let recursion = if self.deep_recursion() {
            seq![
                SafetyWarning::DeepRecursion {
                    current: self.recursion_depth,
                    limit: self.limits.max_recursion_depth,
                },
            ]
        } else {
            Seq::<SafetyWarning>::empty()
        };
        time + memory + recursion
    }
}

/// `Instant::now` reads the clock; nothing is known of the reading.
pub assume_specification[ Instant::now ]() -> (t: Instant)
;

/// `Instant::elapsed` measures the time since the instant; nothing is known
/// of the measure.
pub assume_specification[ Instant::elapsed ](t: &Instant) -> (d: Duration)
;

/// `Duration::as_millis` gives the whole milliseconds of a duration; the
/// duration is opaque here, so nothing is stated of the figure.
pub assume_specification[ Duration::as_millis ](d: &Duration) -> (ms: u128)
;

#[verifier::external_type_specification]
#[verifier::external_body]
pub struct ExInstant(Instant);

/// Tracks one execution against its limits.
#[derive(Debug)]
pub struct SafetyMonitor {
    limits: ExecutionLimits,
    start_time: Instant,
    instruction_count: u64,
    recursion_depth: usize,
    memory_usage_mb: usize,
}

impl View for SafetyMonitor {
    type V = MonitorView;

    closed spec fn view(&self) -> MonitorView {
        MonitorView {
            limits: self.limits,
            instruction_count: self.instruction_count,
            recursion_depth: self.recursion_depth,
            memory_usage_mb: self.memory_usage_mb,
        }
    }
}

impl SafetyMonitor {
    pub fn new(limits: ExecutionLimits) -> (m: Self)
        ensures
            m@ == MonitorView::fresh(limits),
    {
        SafetyMonitor {
            limits,
            start_time: Instant::now(),
            instruction_count: 0,
            recursion_depth: 0,
            memory_usage_mb: 0,
        }
    }

    /// Reads the clock: milliseconds since it was last restarted, cut to 64
    /// bits. Nothing is known of the reading.
    pub fn elapsed_ms(&self) -> (ms: u64) {
        let d = self.start_time.elapsed();
        let ms: u128 = d.as_millis();
        (ms % 0x1_0000_0000_0000_0000) as u64
    }

    /// Zeroes every counter and restarts the clock.
    pub fn reset(&mut self)
        ensures
            final(self)@ == old(self)@.after_reset(),
    {
        self.start_time = Instant::now();
        self.instruction_count = 0;
        self.recursion_depth = 0;
        self.memory_usage_mb = 0;
    }

    /// Opens a top-level execution: the same as `reset`. It never fails.
    pub fn check_execution_start(&mut self) -> (r: Result<(), SafetyError>)
        ensures
            r is Ok,
            final(self)@ == old(self)@.after_reset(),
    {
        self.reset();
        Ok(())
    }

    /// The check-point before a statement, for a clock that reads
    /// `elapsed_ms`: counts one instruction, then tests the instruction
    /// ceiling, the timeout and the memory ceiling, in this order.
    pub fn check_execution_continue_at(&mut self, elapsed_ms: u64) -> (r: Result<(), SafetyError>)
        ensures
            final(self)@ == old(self)@.after_continue(),
            r == old(self)@.continue_verdict(elapsed_ms),
    {
        if self.instruction_count < u64::MAX {
            self.instruction_count = self.instruction_count + 1;
        }
        if self.instruction_count > self.limits.max_instructions {
            return Err(SafetyError::InstructionLimitExceeded { count: self.instruction_count });
        }
        if elapsed_ms > self.limits.timeout_ms {
            return Err(SafetyError::ExecutionTimeout { limit_ms: self.limits.timeout_ms });
        }
        if self.memory_usage_mb > self.limits.memory_limit_mb {
            return Err(
                SafetyError::MemoryLimitExceeded {
                    current_mb: self.memory_usage_mb,
                    limit_mb: self.limits.memory_limit_mb,
                },
            );
        }
        Ok(())
    }

    /// The check-point before a statement, on the monitor's own clock.
    pub fn check_execution_continue(&mut self) -> (r: Result<(), SafetyError>)
        ensures
            final(self)@ == old(self)@.after_continue(),
            exists|elapsed_ms: u64| r == old(self)@.continue_verdict(elapsed_ms),
    {
        let elapsed_ms = self.elapsed_ms();
        self.check_execution_continue_at(elapsed_ms)
    }

    /// Enters one level of recursion; fails when the new depth is above the
    /// ceiling. The level stays counted either way.
    pub fn check_recursion_depth(&mut self) -> (r: Result<(), SafetyError>)
        ensures
            final(self)@ == old(self)@.after_enter(),
            r == old(self)@.enter_verdict(),
    {
        if self.recursion_depth < usize::MAX {
            self.recursion_depth = self.recursion_depth + 1;
        }
        if self.recursion_depth > self.limits.max_recursion_depth {
            return Err(
                SafetyError::RecursionDepthExceeded {
                    current: self.recursion_depth,
                    limit: self.limits.max_recursion_depth,
                },
            );
        }
        Ok(())
    }

    /// Leaves one level of recursion.
    pub fn exit_recursion(&mut self)
        ensures
            final(self)@ == old(self)@.after_exit(),
    {
        if self.recursion_depth > 0 {
            self.recursion_depth = self.recursion_depth - 1;
        }
    }

    /// The test before a loop runs: fails exactly when `iterations` is above
    /// the ceiling.
    pub fn check_loop_start(&self, iterations: usize) -> (r: Result<(), SafetyError>)
        ensures
            r == self@.loop_start_verdict(iterations),
            r is Err <==> iterations > self@.limits.max_loop_iterations,
    {
        if iterations > self.limits.max_loop_iterations {
            return Err(
                SafetyError::LoopLimitExceeded {
                    current: iterations,
                    limit: self.limits.max_loop_iterations,
                },
            );
        }
        Ok(())
    }

    /// The check of round `iteration`, for a clock that reads `elapsed_ms`:
    /// a round at or above the ceiling fails at once; any other round is a
    /// check-point like the one before a statement.
    pub fn check_loop_iteration_at(&mut self, iteration: usize, elapsed_ms: u64) -> (r: Result<
        (),
        SafetyError,
    >)
        ensures
            final(self)@ == old(self)@.after_iteration(iteration),
            r == old(self)@.iteration_verdict(iteration, elapsed_ms),
    {
        if iteration >= self.limits.max_loop_iterations {
            return Err(
                SafetyError::LoopLimitExceeded {
                    current: iteration,
                    limit: self.limits.max_loop_iterations,
                },
            );
        }
        self.check_execution_continue_at(elapsed_ms)
    }

    /// The check of round `iteration`, on the monitor's own clock.
    pub fn check_loop_iteration(&mut self, iteration: usize) -> (r: Result<(), SafetyError>)
        ensures
            final(self)@ == old(self)@.after_iteration(iteration),
            exists|elapsed_ms: u64| r == old(self)@.iteration_verdict(iteration, elapsed_ms),
    {
        let elapsed_ms = self.elapsed_ms();
        self.check_loop_iteration_at(iteration, elapsed_ms)
    }

    /// Records the current memory estimate.
    pub fn update_memory_usage(&mut self, mb: usize)
        ensures
            final(self)@ == (MonitorView { memory_usage_mb: mb, ..old(self)@ }),
    {
        self.memory_usage_mb = mb;
    }

    /// The current figures, with the clock's reading.
    pub fn get_stats(&self) -> (stats: SafetyStats)
        ensures
            stats == self@.stats(stats.elapsed_ms),
    {
        SafetyStats {
            elapsed_ms: self.elapsed_ms(),
            instruction_count: self.instruction_count,
            recursion_depth: self.recursion_depth,
            memory_usage_mb: self.memory_usage_mb,
            limits: self.limits,
        }
    }

    /// The soft alerts for a clock that reads `elapsed_ms`.
    pub fn warnings_at(&self, elapsed_ms: u64) -> (warnings: Vec<SafetyWarning>)
        ensures
            warnings@ == self@.warnings(elapsed_ms),
    {
        let mut warnings: Vec<SafetyWarning> = Vec::new();
        let time_mark: u128 = (self.limits.timeout_ms as u128) * 80 / 100;
        if (elapsed_ms as u128) > time_mark {
            warnings.push(
                SafetyWarning::NearTimeout {
                    current_ms: elapsed_ms,
                    limit_ms: self.limits.timeout_ms,
                },
            );
        }
        let memory_mark: u128 = (self.limits.memory_limit_mb as u128) * 80 / 100;
        if (self.memory_usage_mb as u128) > memory_mark {
            warnings.push(
                SafetyWarning::NearMemoryLimit {
                    current_mb: self.memory_usage_mb,
                    limit_mb: self.limits.memory_limit_mb,
                },
            );
        }
        let depth_mark: u128 = (self.limits.max_recursion_depth as u128) * 90 / 100;
        if (self.recursion_depth as u128) > depth_mark {
            warnings.push(
                SafetyWarning::DeepRecursion {
                    current: self.recursion_depth,
                    limit: self.limits.max_recursion_depth,
                },
            );
        }
        assert(warnings@ =~= self@.warnings(elapsed_ms));
        warnings
    }

    /// The soft alerts on the monitor's own clock. They never abort anything.
    pub fn check_warning_thresholds(&self) -> (warnings: Vec<SafetyWarning>)
        ensures
            exists|elapsed_ms: u64| warnings@ == self@.warnings(elapsed_ms),
    {
        let elapsed_ms = self.elapsed_ms();
        self.warnings_at(elapsed_ms)
    }

    /// The current depth of recursion.
    pub fn recursion_depth(&self) -> (depth: usize)
        ensures
            depth == self@.recursion_depth,
    {
        self.recursion_depth
    }

    /// The number of instructions counted so far.
    pub fn instruction_count(&self) -> (count: u64)
        ensures
            count == self@.instruction_count,
    {
        self.instruction_count
    }

    pub fn get_limits(&self) -> (limits: &ExecutionLimits)
        ensures
            *limits == self@.limits,
    {
        &self.limits
    }

    /// Replaces the ceilings; the counters stay.
    pub fn update_limits(&mut self, limits: ExecutionLimits)
        ensures
            final(self)@ == (MonitorView { limits, ..old(self)@ }),
    {
        self.limits = limits;
    }
}

/// The figures of a monitor at one moment.
#[derive(Debug, Clone, Copy, PartialEq, Eq, Structural)]
pub struct SafetyStats {
    pub elapsed_ms: u64,
    pub instruction_count: u64,
    pub recursion_depth: usize,
    pub memory_usage_mb: usize,
    pub limits: ExecutionLimits,
}

impl SafetyStats {
    /// Time or memory is above 80% of its ceiling, or the depth above 90%.
    /// A ceiling of zero counts as passed by any positive figure.
    pub open spec fn warned(self) -> bool {
        ||| 100 * self.elapsed_ms > 80 * self.limits.timeout_ms
        ||| 100 * self.memory_usage_mb > 80 * self.limits.memory_limit_mb
        ||| 100 * self.recursion_depth > 90 * self.limits.max_recursion_depth
    }

    pub fn has_warnings(&self) -> (r: bool)
        ensures
            r == self.warned(),
    {
        100 * (self.elapsed_ms as u128) > 80 * (self.limits.timeout_ms as u128) || 100 * (
        self.memory_usage_mb as u128) > 80 * (self.limits.memory_limit_mb as u128) || 100 * (
        self.recursion_depth as u128) > 90 * (self.limits.max_recursion_depth as u128)
    }
}

/// A soft alert: a figure is close to its ceiling.
#[derive(Debug, Clone, Copy, PartialEq, Eq, Structural)]
pub enum SafetyWarning {
    NearTimeout { current_ms: u64, limit_ms: u64 },
    NearMemoryLimit { current_mb: usize, limit_mb: usize },
    DeepRecursion { current: usize, limit: usize },
}

impl SafetyWarning {
    /// The text of the alert.
    pub open spec fn message(self) -> Seq<char> {
        match self {
            SafetyWarning::NearTimeout { current_ms, limit_ms } => "⏰ Your code is taking a while ("@
                + decimal(current_ms as nat) + "/"@ + decimal(limit_ms as nat)
                + "ms). Try to make it simpler!"@,
            SafetyWarning::NearMemoryLimit {
                current_mb,
                limit_mb,
            } => "💾 Your code is using lots of memory ("@ + decimal(current_mb as nat) + "/"@
                + decimal(limit_mb as nat) + "MB). Try using fewer variables!"@,
            SafetyWarning::DeepRecursion {
                current,
                limit,
            } => "🔄 Your functions are calling each other a lot ("@ + decimal(current as nat)
                + "/"@ + decimal(limit as nat) + "). Watch out for infinite loops!"@,
        }
    }

    /// The alert in words a beginner can read.
    pub fn friendly_message(&self) -> (s: String)
        ensures
            s@ == self.message(),
    {
        let mut s = String::new();
        assert(s@ + "x"@ =~= "x"@);
        match *self {
            SafetyWarning::NearTimeout { current_ms, limit_ms } => {
                push_text(&mut s, "⏰ Your code is taking a while (");
                push_decimal(&mut s, current_ms);
                push_text(&mut s, "/");
                push_decimal(&mut s, limit_ms);
                push_text(&mut s, "ms). Try to make it simpler!");
                assert(s@ =~= self.message());
            },
            SafetyWarning::NearMemoryLimit { current_mb, limit_mb } => {
                push_text(&mut s, "💾 Your code is using lots of memory (");
                push_decimal(&mut s, current_mb as u64);
                push_text(&mut s, "/");
                push_decimal(&mut s, limit_mb as u64);
                push_text(&mut s, "MB). Try using fewer variables!");
                assert(s@ =~= self.message());
            },
            SafetyWarning::DeepRecursion { current, limit } => {
                push_text(&mut s, "🔄 Your functions are calling each other a lot (");
                push_decimal(&mut s, current as u64);
                push_text(&mut s, "/");
                push_decimal(&mut s, limit as u64);
                push_text(&mut s, "). Watch out for infinite loops!");
                assert(s@ =~= self.message());
            },
        }
        s
    }
}

/// The monitor after `readings.len()` check-points in a row, the clock
/// reading `readings[i]` at the `i`-th.
pub open spec fn after_checkpoints(start: MonitorView, readings: Seq<u64>) -> MonitorView
    decreases readings.len(),
{
    if readings.len() == 0 {
        start
    } else {
        after_checkpoints(start, readings.drop_last()).after_continue()
    }
}

/// The monitor counts check-points one by one as long as the counter has
/// room.
pub proof fn lemma_checkpoints_count(start: MonitorView, readings: Seq<u64>)
    requires
        start.instruction_count + readings.len() <= u64::MAX,
    ensures
        after_checkpoints(start, readings).instruction_count == start.instruction_count
            + readings.len(),
        after_checkpoints(start, readings).limits == start.limits,
        after_checkpoints(start, readings).memory_usage_mb == start.memory_usage_mb,
        after_checkpoints(start, readings).recursion_depth == start.recursion_depth,
    decreases readings.len(),
{
    if readings.len() > 0 {
        lemma_checkpoints_count(start, readings.drop_last());
    }
}

/// The instruction ceiling is exact. Start from a monitor that has counted
/// nothing, keep the memory estimate within its ceiling, and let the clock
/// stay within the timeout at every check-point: then each of the first
/// `max_instructions` check-points succeeds, and the next one fails with
/// `InstructionLimitExceeded`, reporting `max_instructions + 1`.
pub proof fn lemma_instruction_limit_is_exact(start: MonitorView, readings: Seq<u64>, k: int)
    requires
        start.instruction_count == 0,
        start.limits.max_instructions < u64::MAX,
        start.memory_usage_mb <= start.limits.memory_limit_mb,
        readings.len() == start.limits.max_instructions + 1,
        forall|i: int| 0 <= i < readings.len() ==> readings[i] <= start.limits.timeout_ms,
        0 <= k < readings.len(),
    ensures
        k < start.limits.max_instructions ==> after_checkpoints(
            start,
            readings.take(k),
        ).continue_verdict(readings[k]) is Ok,
        k == start.limits.max_instructions ==> after_checkpoints(
            start,
            readings.take(k),
        ).continue_verdict(readings[k]) == Err::<(), SafetyError>(
            SafetyError::InstructionLimitExceeded {
                count: (start.limits.max_instructions + 1) as u64,
            },
        ),
{
    lemma_checkpoints_count(start, readings.take(k));
}

/// The loop ceiling is inclusive: a loop of exactly `max_loop_iterations`
/// rounds may start, one round more may not.
pub proof fn lemma_loop_start_boundary(m: MonitorView, iterations: usize)
    ensures
        m.loop_start_verdict(iterations) is Err <==> iterations > m.limits.max_loop_iterations,
        m.loop_start_verdict(m.limits.max_loop_iterations) is Ok,
{
}

} // verus!
