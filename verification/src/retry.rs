//! The decisions of retrying an outside call: how often a failed call is
//! tried again and how long to wait before each new try. The program runs the
//! calls and the waits; after each failure it asks a retry state what to do.

use vstd::prelude::*;

verus! {

/// The services whose calls are retried, each with its own retry budget.
#[derive(Debug, Clone, Copy, PartialEq, Eq, Structural)]
pub enum RetryConfig {
    /// Google Sheets operations.
    Sheets,
    /// Omie API operations.
    Omie,
    /// Asaas API operations.
    Asaas,
    /// WhatsApp messages.
    WhatsApp,
}

impl RetryConfig {
    /// How many times a call is made at most.
    pub open spec fn spec_max_attempts(self) -> nat {
        match self {
            RetryConfig::Sheets => 8,
            RetryConfig::Omie => 5,
            RetryConfig::Asaas => 5,
            RetryConfig::WhatsApp => 3,
        }
    }

    /// The wait, in milliseconds, after the first failure.
    pub open spec fn spec_initial_backoff(self) -> nat {
        match self {
            RetryConfig::Sheets => 2000,
            RetryConfig::Omie => 1000,
            RetryConfig::Asaas => 1000,
            RetryConfig::WhatsApp => 500,
        }
    }

    /// The longest wait, in milliseconds.
    pub open spec fn spec_max_backoff(self) -> nat {
        match self {
            RetryConfig::Sheets => 64000,
            RetryConfig::Omie => 32000,
            RetryConfig::Asaas => 32000,
            RetryConfig::WhatsApp => 8000,
        }
    }

    /// How many times a call is made at most.
    pub fn max_attempts(&self) -> (n: u32)
        ensures
            n == self.spec_max_attempts(),
    {
        match self {
            RetryConfig::Sheets => 8,
            RetryConfig::Omie => 5,
            RetryConfig::Asaas => 5,
            RetryConfig::WhatsApp => 3,
        }
    }

    /// The wait, in milliseconds, after the first failure.
    pub fn initial_backoff(&self) -> (ms: u64)
        ensures
            ms == self.spec_initial_backoff(),
    {
        match self {
            RetryConfig::Sheets => 2000,
            RetryConfig::Omie => 1000,
            RetryConfig::Asaas => 1000,
            RetryConfig::WhatsApp => 500,
        }
    }

    /// The longest wait, in milliseconds.
    pub fn max_backoff(&self) -> (ms: u64)
        ensures
            ms == self.spec_max_backoff(),
    {
        match self {
            RetryConfig::Sheets => 64000,
            RetryConfig::Omie => 32000,
            RetryConfig::Asaas => 32000,
            RetryConfig::WhatsApp => 8000,
        }
    }
}

/// The wait after the `(k + 1)`-th failure: the initial wait, doubled at each
/// further failure, but never above the longest wait.
pub open spec fn backoff_after(config: RetryConfig, k: nat) -> nat
    decreases k,
{
    if k == 0 {
        config.spec_initial_backoff()
    } else {
        let doubled = 2 * backoff_after(config, (k - 1) as nat);
        if doubled < config.spec_max_backoff() {
            doubled
        } else {
            config.spec_max_backoff()
        }
    }
}

/// What to do after a failed call.
#[derive(Debug, Clone, Copy, PartialEq, Eq, Structural)]
pub enum RetryDecision {
    /// Stop and hand back the last error.
    GiveUp,
    /// Wait this many milliseconds, then call again.
    WaitMillis(u64),
}

/// The decision after the `failures`-th failure in a row (counting from 1).
pub open spec fn decision_after(config: RetryConfig, failures: nat) -> RetryDecision {
    if failures >= config.spec_max_attempts() {
        RetryDecision::GiveUp
    } else {
        RetryDecision::WaitMillis(backoff_after(config, (failures - 1) as nat) as u64)
    }
}

/// What a retry state stands for: the service and the failures so far.
pub struct RetryView {
    pub config: RetryConfig,
    pub failures: nat,
}

/// The retry state of one call: the failures so far and the next wait.
pub struct RetryState {
    config: RetryConfig,
    attempts: u32,
    backoff: u64,
}

impl View for RetryState {
    type V = RetryView;

    closed spec fn view(&self) -> RetryView {
        RetryView { config: self.config, failures: self.attempts as nat }
    }
}

impl RetryState {
    #[verifier::type_invariant]
    closed spec fn inv(self) -> bool {
        &&& self.attempts <= self.config.spec_max_attempts()
        &&& self.attempts < self.config.spec_max_attempts() ==> self.backoff == backoff_after(
            self.config,
            self.attempts as nat,
        )
    }

    /// A fresh state: no failure yet.
    pub fn new(config: RetryConfig) -> (s: Self)
        ensures
            s@.config == config,
            s@.failures == 0,
    {
        RetryState { config, attempts: 0, backoff: config.initial_backoff() }
    }

    /// The failures so far.
    pub fn failures(&self) -> (n: u32)
        ensures
            n == self@.failures,
    {
        self.attempts
    }

    /// Whether the state has given up: a failure was met with `GiveUp`.
    pub open spec fn gave_up(self) -> bool {
        self@.failures >= self@.config.spec_max_attempts()
    }

    /// Records a failed call and says what to do next: give up once the
    /// number of failures reaches the service's maximum of attempts, else wait
    /// the current backoff, which then doubles up to the service's longest wait.
    pub fn on_failure(&mut self) -> (d: RetryDecision)
        requires
            !old(self).gave_up(),
        ensures
            final(self)@.config == old(self)@.config,
            final(self)@.failures == old(self)@.failures + 1,
            d == decision_after(old(self)@.config, final(self)@.failures),
    {
        proof { use_type_invariant(&*self); }
        proof { lemma_backoff_bounded(self.config, self.attempts as nat); }
        let max_attempts = self.config.max_attempts();
        let max_backoff = self.config.max_backoff();
        let attempts = self.attempts + 1;
        if attempts >= max_attempts {
            self.attempts = attempts;
            RetryDecision::GiveUp
        } else {
            let wait = self.backoff;
            let doubled = self.backoff * 2;
            let next = if doubled < max_backoff { doubled } else { max_backoff };
            let config = self.config;
            *self = RetryState { config, attempts, backoff: next };
            RetryDecision::WaitMillis(wait)
        }
    }
}

/// Every wait lies between the initial wait and the longest wait.
pub proof fn lemma_backoff_bounded(config: RetryConfig, k: nat)
    ensures
        config.spec_initial_backoff() <= backoff_after(config, k) <= config.spec_max_backoff(),
    decreases k,
{
    if k > 0 {
        lemma_backoff_bounded(config, (k - 1) as nat);
    }
}

/// Waits never shrink: each is at least the one before.
pub proof fn lemma_backoff_monotonic(config: RetryConfig, k: nat)
    ensures
        backoff_after(config, k) <= backoff_after(config, k + 1),
{
    lemma_backoff_bounded(config, k);
}

/// Until it reaches the longest wait, each wait is twice the one before.
pub proof fn lemma_backoff_doubles(config: RetryConfig, k: nat)
    requires
        2 * backoff_after(config, k) < config.spec_max_backoff(),
    ensures
        backoff_after(config, k + 1) == 2 * backoff_after(config, k),
{
}

/// A call is made at most as often as its service allows: the failures before
/// the last allowed attempt are answered with a wait, the failure of the last
/// allowed attempt with giving up.
pub proof fn lemma_attempts_bounded(config: RetryConfig, failures: nat)
    requires
        1 <= failures,
    ensures
        failures < config.spec_max_attempts() ==> decision_after(config, failures) is WaitMillis,
        failures == config.spec_max_attempts() ==> decision_after(config, failures) is GiveUp,
{
}

/// The total wait before the `(k + 1)`-th attempt: the waits after the first
/// `k` failures.
pub open spec fn total_wait(config: RetryConfig, k: nat) -> nat
    decreases k,
{
    if k == 0 {
        0
    } else {
        total_wait(config, (k - 1) as nat) + backoff_after(config, (k - 1) as nat)
    }
}

/// The waits before `k + 1` attempts add up to at most `k` times the longest
/// wait, and to at least `k` times the initial wait.
pub proof fn lemma_total_wait_bounded(config: RetryConfig, k: nat)
    ensures
        k * config.spec_initial_backoff() <= total_wait(config, k) <= k * config.spec_max_backoff(),
    decreases k,
{
    if k > 0 {
        let j = (k - 1) as nat;
        lemma_total_wait_bounded(config, j);
        lemma_backoff_bounded(config, j);
        let lo = config.spec_initial_backoff();
        let hi = config.spec_max_backoff();
        assert(k * lo == j * lo + lo) by (nonlinear_arith)
            requires
                k == j + 1,
        ;
        assert(k * hi == j * hi + hi) by (nonlinear_arith)
            requires
                k == j + 1,
        ;
    }
}

/// The fixed retry policy: at most five calls, one second between them.
pub open spec fn fixed_decision_after(failures: nat) -> RetryDecision {
    if failures >= 5 {
        RetryDecision::GiveUp
    } else {
        RetryDecision::WaitMillis(1000)
    }
}

/// The state of a call retried under the fixed policy.
pub struct FixedRetryState {
    attempts: u32,
}

impl View for FixedRetryState {
    type V = nat;

    closed spec fn view(&self) -> nat {
        self.attempts as nat
    }
}

impl FixedRetryState {
    #[verifier::type_invariant]
    closed spec fn inv(self) -> bool {
        self.attempts <= 5
    }

    /// A fresh state: no failure yet.
    pub fn new() -> (s: Self)
        ensures
            s@ == 0,
    {
        FixedRetryState { attempts: 0 }
    }

    /// Records a failed call: give up at the fifth failure, else wait a second.
    pub fn on_failure(&mut self) -> (d: RetryDecision)
        requires
            old(self)@ < 5,
        ensures
            final(self)@ == old(self)@ + 1,
            d == fixed_decision_after(final(self)@),
    {
        proof { use_type_invariant(&*self); }
        self.attempts = self.attempts + 1;
        if self.attempts >= 5 {
            RetryDecision::GiveUp
        } else {
            RetryDecision::WaitMillis(1000)
        }
    }
}

} // verus!
