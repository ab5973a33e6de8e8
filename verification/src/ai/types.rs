//! Core value types of the AI layer: providers, errors, responses, token
//! accounting and the progress model for one unit of background work.
//!
//! All wall-clock instants are carried as milliseconds (`u64`); generation
//! rates are carried in thousandths of a token per second and completion in
//! thousandths of the whole (permille), so that every computation here is
//! exact integer arithmetic.

use vstd::prelude::*;
use vstd::string::StringExecFns;

verus! {

/// Supported AI provider types.
#[derive(Debug, Clone, Copy, PartialEq, Eq, Structural, Hash)]
pub enum Provider {
    /// Ollama local models.
    Ollama,
    /// OpenAI API models.
    OpenAI,
    /// Anthropic API models.
    Anthropic,
    /// Local models via LM Studio.
    LMStudio,
}

impl Provider {
    /// The display name of the provider.
    pub open spec fn spec_name(self) -> Seq<char> {
        match self {
            Provider::Ollama => "Ollama"@,
            Provider::OpenAI => "OpenAI"@,
            Provider::Anthropic => "Anthropic"@,
            Provider::LMStudio => "LMStudio"@,
        }
    }

    /// Human-readable provider name.
    pub fn name(&self) -> (r: String)
        ensures
            r@ == self.spec_name(),
    {
        match self {
            Provider::Ollama => String::from_str("Ollama"),
            Provider::OpenAI => String::from_str("OpenAI"),
            Provider::Anthropic => String::from_str("Anthropic"),
            Provider::LMStudio => String::from_str("LMStudio"),
        }
    }
}

impl Default for Provider {
    /// The default provider is the local Ollama backend.
    fn default() -> (r: Self)
        ensures
            r == Provider::Ollama,
    {
        Provider::Ollama
    }
}

/// Errors that can occur when working with AI providers.
#[derive(Debug, Clone)]
pub enum AIError {
    /// Network-related errors.
    NetworkError(String),
    /// API errors from the provider.
    APIError(String),
    /// Invalid response errors.
    InvalidResponse(String),
    /// Configuration errors.
    ConfigError(String),
    /// Rate limit errors.
    RateLimit(String),
    /// Authentication errors.
    Authentication(String),
    /// Content policy errors.
    ContentPolicy(String),
    /// Internal server errors.
    ServerError(String),
    /// Operation cancelled by the user or by a global abort.
    Cancelled(String),
}

impl AIError {
    /// Whether this error is the distinguished cancellation outcome.
    pub open spec fn spec_is_cancelled(self) -> bool {
        self is Cancelled
    }

    /// Runtime check for the cancellation outcome.
    pub fn is_cancelled(&self) -> (r: bool)
        ensures
            r == self.spec_is_cancelled(),
    {
        matches!(self, AIError::Cancelled(_))
    }

    /// The full display text of the error.
    pub open spec fn spec_message(self) -> Seq<char> {
        match self {
            AIError::NetworkError(m) => "Network error: "@ + m@,
            AIError::APIError(m) => "API error: "@ + m@,
            AIError::InvalidResponse(m) => "Invalid response: "@ + m@,
            AIError::ConfigError(m) => "Configuration error: "@ + m@,
            AIError::RateLimit(m) => "Rate limit exceeded: "@ + m@,
            AIError::Authentication(m) => "Authentication error: "@ + m@,
            AIError::ContentPolicy(m) => "Content policy violation: "@ + m@,
            AIError::ServerError(m) => "Internal server error: "@ + m@,
            AIError::Cancelled(m) => "Operation cancelled: "@ + m@,
        }
    }

    /// Human-readable error text, one line per error kind.
    pub fn message(&self) -> (r: String)
        ensures
            r@ == self.spec_message(),
    {
        let mut s: String;
        match self {
            AIError::NetworkError(m) => {
                s = String::from_str("Network error: ");
                s.append(m.as_str());
            }
            AIError::APIError(m) => {
                s = String::from_str("API error: ");
                s.append(m.as_str());
            }
            AIError::InvalidResponse(m) => {
                s = String::from_str("Invalid response: ");
                s.append(m.as_str());
            }
            AIError::ConfigError(m) => {
                s = String::from_str("Configuration error: ");
                s.append(m.as_str());
            }
            AIError::RateLimit(m) => {
                s = String::from_str("Rate limit exceeded: ");
                s.append(m.as_str());
            }
            AIError::Authentication(m) => {
                s = String::from_str("Authentication error: ");
                s.append(m.as_str());
            }
            AIError::ContentPolicy(m) => {
                s = String::from_str("Content policy violation: ");
                s.append(m.as_str());
            }
            AIError::ServerError(m) => {
                s = String::from_str("Internal server error: ");
                s.append(m.as_str());
            }
            AIError::Cancelled(m) => {
                s = String::from_str("Operation cancelled: ");
                s.append(m.as_str());
            }
        }
        s
    }
}

/// Response from an AI completion request.
#[derive(Debug, Clone)]
pub struct AIResponse {
    /// Generated text content.
    pub content: String,
    /// Model identifier that generated the response.
    pub model: String,
    /// Token usage information.
    pub usage: TokenUsage,
    /// Optional progress statistics.
    pub progress: Option<ProgressStats>,
}

/// Token usage statistics of one completion request.
#[derive(Debug, Clone, Copy, PartialEq, Eq, Structural)]
pub struct TokenUsage {
    /// Tokens used in the prompt.
    pub prompt_tokens: usize,
    /// Tokens generated in the completion.
    pub completion_tokens: usize,
    /// Total tokens used (prompt + completion).
    pub total_tokens: usize,
}

/// Model cost information, in millionths of a dollar per 1,000 tokens.
#[derive(Debug, Clone, Copy, PartialEq, Eq, Structural)]
pub struct ModelCosts {
    /// Cost per 1,000 prompt tokens, in millionths of a dollar.
    pub prompt_cost_per_1k: u64,
    /// Cost per 1,000 completion tokens, in millionths of a dollar.
    pub completion_cost_per_1k: u64,
}

impl ModelCosts {
    /// The cost of `usage` under these rates, in millionths of a dollar:
    /// each token class is billed at its per-1,000-token rate, rounded down.
    pub open spec fn spec_cost(self, usage: TokenUsage) -> int {
        usage.prompt_tokens * self.prompt_cost_per_1k / 1000
            + usage.completion_tokens * self.completion_cost_per_1k / 1000
    }

    /// Calculate the cost for a given token usage, in millionths of a dollar.
    pub fn calculate_cost(&self, usage: &TokenUsage) -> (r: u64)
        requires
            self.spec_cost(*usage) <= u64::MAX,
        ensures
            r == self.spec_cost(*usage),
    {
        let prompt_cost = (usage.prompt_tokens as u128 * self.prompt_cost_per_1k as u128) / 1000;
        let completion_cost = (usage.completion_tokens as u128 * self.completion_cost_per_1k
            as u128) / 1000;
        (prompt_cost + completion_cost) as u64
    }
}

/// Session statistics for token usage and costs.
///
/// Costs are held in millionths of a dollar.
#[derive(Debug, Clone, Copy, PartialEq, Eq, Structural)]
pub struct SessionStats {
    /// Total prompt tokens used in the session.
    pub total_prompt_tokens: usize,
    /// Total completion tokens used in the session.
    pub total_completion_tokens: usize,
    /// Total cost incurred in the session, in millionths of a dollar.
    pub total_cost: u64,
}

impl Default for SessionStats {
    /// A fresh session has no usage and no cost.
    fn default() -> (r: Self)
        ensures
            r.total_prompt_tokens == 0,
            r.total_completion_tokens == 0,
            r.total_cost == 0,
    {
        SessionStats { total_prompt_tokens: 0, total_completion_tokens: 0, total_cost: 0 }
    }
}

impl SessionStats {
    /// Add one request's usage and its cost under `costs` to the session totals.
    pub fn update(&mut self, usage: &TokenUsage, costs: &ModelCosts)
        requires
            old(self).total_prompt_tokens + usage.prompt_tokens <= usize::MAX,
            old(self).total_completion_tokens + usage.completion_tokens <= usize::MAX,
            old(self).total_cost + costs.spec_cost(*usage) <= u64::MAX,
        ensures
            final(self).total_prompt_tokens == old(self).total_prompt_tokens
                + usage.prompt_tokens,
            final(self).total_completion_tokens == old(self).total_completion_tokens
                + usage.completion_tokens,
            final(self).total_cost == old(self).total_cost + costs.spec_cost(*usage),
    {
        self.total_prompt_tokens = self.total_prompt_tokens + usage.prompt_tokens;
        self.total_completion_tokens = self.total_completion_tokens + usage.completion_tokens;
        self.total_cost = self.total_cost + costs.calculate_cost(usage);
    }

    /// Total tokens used in the session.
    pub fn total_tokens(&self) -> (r: usize)
        requires
            self.total_prompt_tokens + self.total_completion_tokens <= usize::MAX,
        ensures
            r == self.total_prompt_tokens + self.total_completion_tokens,
    {
        self.total_prompt_tokens + self.total_completion_tokens
    }
}

/// Status of a background task.
///
/// The machine is `Pending -> Running -> {Completed | Failed | Cancelled}`;
/// the three right-hand states are terminal and are never overwritten by
/// the registry.
#[derive(Debug, Clone, Copy, PartialEq, Eq, Structural)]
pub enum TaskStatus {
    /// Task is waiting to start.
    Pending,
    /// Task is currently running.
    Running,
    /// Task has completed successfully.
    Completed,
    /// Task has failed.
    Failed,
    /// Task was cancelled.
    Cancelled,
}

impl TaskStatus {
    /// Whether this status is terminal: no later transition may leave it.
    pub open spec fn spec_is_terminal(self) -> bool {
        self == TaskStatus::Completed || self == TaskStatus::Failed || self == TaskStatus::Cancelled
    }

    /// Runtime check for a terminal status.
    pub fn is_terminal(&self) -> (r: bool)
        ensures
            r == self.spec_is_terminal(),
    {
        match self {
            TaskStatus::Completed => true,
            TaskStatus::Failed => true,
            TaskStatus::Cancelled => true,
            TaskStatus::Pending => false,
            TaskStatus::Running => false,
        }
    }

    /// Display name of the status.
    pub open spec fn spec_name(self) -> Seq<char> {
        match self {
            TaskStatus::Pending => "Pending"@,
            TaskStatus::Running => "Running"@,
            TaskStatus::Completed => "Completed"@,
            TaskStatus::Failed => "Failed"@,
            TaskStatus::Cancelled => "Cancelled"@,
        }
    }

    /// Human-readable status name.
    pub fn name(&self) -> (r: String)
        ensures
            r@ == self.spec_name(),
    {
        match self {
            TaskStatus::Pending => String::from_str("Pending"),
            TaskStatus::Running => String::from_str("Running"),
            TaskStatus::Completed => String::from_str("Completed"),
            TaskStatus::Failed => String::from_str("Failed"),
            TaskStatus::Cancelled => String::from_str("Cancelled"),
        }
    }
}

/// Largest token count the progress model accepts; far beyond any real
/// request, and small enough that every intermediate product here fits
/// comfortably in 64 bits.
pub const PROGRESS_TOKEN_LIMIT: u64 = 1_000_000_000_000;

/// Progress statistics for tracking task execution.
///
/// `tokens_per_second_milli` is an exponential moving average with
/// smoothing factor 3/10, in thousandths of a token per second.
/// `completion_permille` is capped at 999 (99.9%) until [`ProgressStats::complete`]
/// sets it to 1000 (100.0%). Updates less than ~10 ms apart are coalesced
/// so back-to-back calls do not distort the rate estimate.
#[derive(Debug, Clone, Copy, PartialEq, Eq, Structural)]
pub struct ProgressStats {
    /// Total number of tokens generated so far.
    pub tokens_generated: usize,
    /// Estimated total tokens that will be generated.
    pub estimated_total_tokens: Option<usize>,
    /// Start instant of the task, in milliseconds.
    pub start_time: u64,
    /// Last update instant, in milliseconds.
    pub last_update: u64,
    /// Generation rate, in thousandths of a token per second.
    pub tokens_per_second_milli: u64,
    /// Estimated completion, in thousandths of the whole (0..=1000).
    pub completion_permille: Option<u32>,
}

/// The exponential moving average step used for the rate estimate: keep
/// 7/10 of the previous rate and take 3/10 of the instantaneous one; a
/// zero previous rate jumps straight to the instantaneous rate.
pub open spec fn ema_step(prev: int, instant: int) -> int {
    if prev > 0 {
        (7 * prev + 3 * instant) / 10
    } else {
        instant
    }
}

impl ProgressStats {
    /// Internal consistency of a progress record.
    pub open spec fn wf(self) -> bool {
        &&& self.start_time <= self.last_update
        &&& self.tokens_generated <= PROGRESS_TOKEN_LIMIT
        &&& match self.estimated_total_tokens {
            Some(t) => t <= PROGRESS_TOKEN_LIMIT,
            None => true,
        }
        &&& match self.completion_permille {
            Some(p) => p <= 1000,
            None => true,
        }
    }

    /// A fresh progress record started at instant `now`: no tokens, no
    /// estimate, no rate.
    pub open spec fn spec_new(now: u64) -> ProgressStats {
        ProgressStats {
            tokens_generated: 0,
            estimated_total_tokens: None,
            start_time: now,
            last_update: now,
            tokens_per_second_milli: 0,
            completion_permille: None,
        }
    }

    /// Create a new progress record at instant `now_ms`.
    pub fn new(now_ms: u64) -> (r: Self)
        ensures
            r == Self::spec_new(now_ms),
            r.wf(),
    {
        ProgressStats {
            tokens_generated: 0,
            estimated_total_tokens: None,
            start_time: now_ms,
            last_update: now_ms,
            tokens_per_second_milli: 0,
            completion_permille: None,
        }
    }

    /// The record after an update to `tokens` total generated tokens at
    /// instant `now`. An update less than ~10 ms after the previous one
    /// (or one that does not move forward in time) is coalesced: the
    /// record is unchanged.
    pub open spec fn spec_updated(self, tokens: usize, now: u64) -> ProgressStats {
        if now <= self.last_update || now - self.last_update <= 10 {
            self
        } else {
            let elapsed = now - self.last_update;
            let new_tokens: int = if tokens >= self.tokens_generated {
                tokens - self.tokens_generated
            } else {
                0
            };
            let instant = new_tokens * 1_000_000 / elapsed;
            let rate = ema_step(self.tokens_per_second_milli as int, instant);
            let permille: Option<u32> = match self.estimated_total_tokens {
                Some(total) => if total > 0 {
                    if (tokens as int) * 1000 / (total as int) > 999 {
                        Some(999u32)
                    } else {
                        Some(((tokens as int) * 1000 / (total as int)) as u32)
                    }
                } else {
                    self.completion_permille
                },
                None => self.completion_permille,
            };
            ProgressStats {
                tokens_generated: tokens,
                estimated_total_tokens: self.estimated_total_tokens,
                start_time: self.start_time,
                last_update: now,
                tokens_per_second_milli: rate as u64,
                completion_permille: permille,
            }
        }
    }

    /// Update the record with a new total token count at instant `now_ms`.
    pub fn update(&mut self, tokens_generated: usize, now_ms: u64)
        requires
            old(self).wf(),
            tokens_generated <= PROGRESS_TOKEN_LIMIT,
        ensures
            *final(self) == old(self).spec_updated(tokens_generated, now_ms),
            final(self).wf(),
    {
        if !(now_ms > self.last_update && now_ms - self.last_update > 10) {
            return ;
        }
        let elapsed = now_ms - self.last_update;
        let new_tokens: usize = if tokens_generated >= self.tokens_generated {
            tokens_generated - self.tokens_generated
        } else {
            0
        };
        let instant_wide: u128 = new_tokens as u128 * 1_000_000u128 / elapsed as u128;
        proof {
            assert(new_tokens * 1_000_000 / elapsed as int <= PROGRESS_TOKEN_LIMIT * 1_000_000
                / 11) by (nonlinear_arith)
                requires
                    new_tokens <= PROGRESS_TOKEN_LIMIT,
                    elapsed >= 11,
            ;
        }
        let instant: u64 = instant_wide as u64;
        let rate: u64 = if self.tokens_per_second_milli > 0 {
            let wide: u128 = (7u128 * self.tokens_per_second_milli as u128 + 3u128 * instant
                as u128) / 10;
            proof {
                assert((7 * self.tokens_per_second_milli + 3 * instant) / 10 <= u64::MAX)
                    by (nonlinear_arith)
                    requires
                        self.tokens_per_second_milli <= u64::MAX,
                        instant <= u64::MAX,
                ;
            }
            wide as u64
        } else {
            instant
        };
        if let Some(total) = self.estimated_total_tokens {
            if total > 0 {
                let scaled: u64 = (tokens_generated as u64) * 1000;
                let q: u64 = scaled / (total as u64);
                let permille: u32 = if q > 999 {
                    999
                } else {
                    q as u32
                };
                self.completion_permille = Some(permille);
            }
        }
        self.tokens_generated = tokens_generated;
        self.last_update = now_ms;
        self.tokens_per_second_milli = rate;
    }

    /// Mark the work as fully complete: completion reads 1000 permille.
    pub fn complete(&mut self)
        ensures
            *final(self) == (ProgressStats {
                completion_permille: Some(1000u32),
                ..*old(self)
            }),
    {
        self.completion_permille = Some(1000);
    }

    /// Estimated seconds remaining: the tokens still owed at the current
    /// rate, or nothing when no estimate or no positive rate is known.
    pub open spec fn spec_remaining_seconds(self) -> Option<u64> {
        if self.tokens_per_second_milli == 0 {
            None
        } else {
            match self.estimated_total_tokens {
                Some(total) => {
                    let remaining: int = if total >= self.tokens_generated {
                        total - self.tokens_generated
                    } else {
                        0
                    };
                    Some((remaining * 1000 / (self.tokens_per_second_milli as int)) as u64)
                },
                None => None,
            }
        }
    }

    /// Estimate the time remaining, in whole seconds.
    pub fn estimate_remaining_seconds(&self) -> (r: Option<u64>)
        requires
            self.wf(),
        ensures
            r == self.spec_remaining_seconds(),
    {
        if self.tokens_per_second_milli == 0 {
            return None;
        }
        match self.estimated_total_tokens {
            Some(total) => {
                let remaining: usize = if total >= self.tokens_generated {
                    total - self.tokens_generated
                } else {
                    0
                };
                let wide: u128 = remaining as u128 * 1000u128 / (self.tokens_per_second_milli
                    as u128);
                proof {
                    assert(remaining * 1000 / (self.tokens_per_second_milli as int)
                        <= PROGRESS_TOKEN_LIMIT * 1000) by (nonlinear_arith)
                        requires
                            remaining <= PROGRESS_TOKEN_LIMIT,
                            self.tokens_per_second_milli >= 1,
                    ;
                }
                Some(wide as u64)
            },
            None => None,
        }
    }
}

/// One step of the rate average never overshoots: the new rate lies
/// between the previous rate and the instantaneous one.
pub proof fn lemma_ema_step_between(prev: int, instant: int)
    requires
        prev >= 0,
        instant >= 0,
    ensures
        prev > 0 && prev >= instant ==> instant <= ema_step(prev, instant) <= prev,
        prev > 0 && prev < instant ==> prev <= ema_step(prev, instant) <= instant,
        prev == 0 ==> ema_step(prev, instant) == instant,
{
    if prev > 0 {
        let a = 7 * prev + 3 * instant;
        vstd::arithmetic::div_mod::lemma_fundamental_div_mod(a, 10);
        vstd::arithmetic::div_mod::lemma_mod_bound(a, 10);
        assert(a == 10 * (a / 10) + a % 10);
    }
}

/// The gap between the rate estimate and a steady instantaneous rate
/// shrinks by a factor of about 7/10 at every update step: fed a constant
/// instantaneous rate, the estimate converges toward it (from above it
/// reaches it exactly; from below it settles within a few thousandths of
/// a token per second, the integer-rounding floor).
pub proof fn lemma_ema_step_contracts(prev: int, instant: int)
    requires
        prev > 0,
        instant >= 0,
    ensures
        prev >= instant ==> 0 <= ema_step(prev, instant) - instant <= 7 * (prev - instant) / 10,
        prev < instant ==> 0 <= instant - ema_step(prev, instant) <= (7 * (instant - prev) + 9)
            / 10,
{
    let d = prev - instant;
    let a = 7 * prev + 3 * instant;
    let q = a / 10;
    vstd::arithmetic::div_mod::lemma_fundamental_div_mod(a, 10);
    vstd::arithmetic::div_mod::lemma_mod_bound(a, 10);
    assert(a == 10 * q + a % 10);
    if prev >= instant {
        let qd = 7 * d / 10;
        vstd::arithmetic::div_mod::lemma_fundamental_div_mod(7 * d, 10);
        vstd::arithmetic::div_mod::lemma_mod_bound(7 * d, 10);
        assert(7 * d == 10 * qd + (7 * d) % 10);
        assert(10 * (q - instant) + a % 10 == 10 * qd + (7 * d) % 10);
        assert(q - instant == qd);
    } else {
        let k = instant - prev;
        let b = 7 * k + 9;
        let qb = b / 10;
        vstd::arithmetic::div_mod::lemma_fundamental_div_mod(b, 10);
        vstd::arithmetic::div_mod::lemma_mod_bound(b, 10);
        assert(b == 10 * qb + b % 10);
        assert(10 * (instant - q) == 7 * k + a % 10);
        assert(10 * (instant - q) <= 10 * qb + b % 10);
        assert(instant - q <= qb);
    }
}

/// The rate estimate after `k` update steps against a steady
/// instantaneous rate.
pub open spec fn ema_iter(prev: int, instant: int, k: nat) -> int
    decreases k,
{
    if k == 0 {
        prev
    } else {
        ema_iter(ema_step(prev, instant), instant, (k - 1) as nat)
    }
}

/// A steady rate is a fixed point of the average step.
pub proof fn lemma_ema_step_fixed(instant: int)
    requires
        instant >= 0,
    ensures
        ema_step(instant, instant) == instant,
{
    if instant > 0 {
        assert(7 * instant + 3 * instant == 10 * instant);
        vstd::arithmetic::div_mod::lemma_div_by_multiple(instant, 10);
    }
}

/// An estimate within three thousandths below a steady rate stays
/// within that band under further steps.
proof fn lemma_ema_band(prev: int, instant: int, k: nat)
    requires
        0 < prev <= instant,
        instant - prev <= 3,
    ensures
        0 < ema_iter(prev, instant, k) <= instant,
        instant - ema_iter(prev, instant, k) <= 3,
    decreases k,
{
    if k > 0 {
        let next = ema_step(prev, instant);
        lemma_ema_step_between(prev, instant);
        lemma_ema_step_contracts(prev, instant);
        if prev == instant {
            lemma_ema_step_fixed(instant);
        }
        assert(0 < next <= instant);
        assert(instant - next <= 3);
        lemma_ema_band(next, instant, (k - 1) as nat);
    }
}

/// The settling time of the rate estimate: fed a steady instantaneous
/// rate, after as many steps as the initial gap the estimate has
/// reached the steady rate — exactly when it started above (or at
/// zero), and to within three thousandths of a token per second, the
/// integer-rounding floor, when it started below.
pub proof fn lemma_ema_settles(prev: int, instant: int, k: nat)
    requires
        prev >= 0,
        instant >= 0,
    ensures
        prev >= instant && k >= prev - instant ==> ema_iter(prev, instant, k) == instant,
        prev == 0 && k >= 1 ==> ema_iter(prev, instant, k) == instant,
        0 < prev < instant && k >= instant - prev ==> 0 < ema_iter(prev, instant, k) <= instant
            && instant - ema_iter(prev, instant, k) <= 3,
    decreases k,
{
    if k > 0 {
        let next = ema_step(prev, instant);
        assert(ema_iter(prev, instant, k) == ema_iter(next, instant, (k - 1) as nat));
        lemma_ema_step_between(prev, instant);
        if prev == instant {
            lemma_ema_step_fixed(instant);
            lemma_ema_settles(next, instant, (k - 1) as nat);
            if k - 1 == 0 {
                assert(ema_iter(next, instant, 0) == instant);
            }
        } else if prev == 0 {
            assert(next == instant);
            if k == 1 {
                assert(ema_iter(next, instant, 0) == instant);
            } else {
                lemma_ema_settles(next, instant, (k - 1) as nat);
            }
        } else {
            lemma_ema_step_contracts(prev, instant);
            if prev > instant {
                let d = prev - instant;
                assert(next - instant <= 7 * d / 10);
                assert(7 * d / 10 <= d - 1) by {
                    vstd::arithmetic::div_mod::lemma_fundamental_div_mod(7 * d, 10);
                    vstd::arithmetic::div_mod::lemma_mod_bound(7 * d, 10);
                }
                lemma_ema_settles(next, instant, (k - 1) as nat);
            } else {
                // 0 < prev < instant
                let d = instant - prev;
                assert(instant - next <= (7 * d + 9) / 10);
                if d <= 3 {
                    assert((7 * d + 9) / 10 <= 3) by {
                        vstd::arithmetic::div_mod::lemma_fundamental_div_mod(7 * d + 9, 10);
                        vstd::arithmetic::div_mod::lemma_mod_bound(7 * d + 9, 10);
                    }
                    if next == instant {
                        lemma_ema_settles(next, instant, (k - 1) as nat);
                    } else {
                        lemma_ema_band(next, instant, (k - 1) as nat);
                    }
                } else {
                    assert((7 * d + 9) / 10 <= d - 1) by {
                        vstd::arithmetic::div_mod::lemma_fundamental_div_mod(7 * d + 9, 10);
                        vstd::arithmetic::div_mod::lemma_mod_bound(7 * d + 9, 10);
                    }
                    lemma_ema_settles(next, instant, (k - 1) as nat);
                }
            }
        }
    }
}

} // verus!
