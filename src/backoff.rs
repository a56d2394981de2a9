use rand::Rng;
use vstd::prelude::*;

use vstd::arithmetic::div_mod::{lemma_div_is_ordered, lemma_fundamental_div_mod_converse};
use vstd::arithmetic::power2::{lemma_pow2_pos, lemma_pow2_unfold, pow2};

verus! {

/// Delay before the second connection attempt, in milliseconds.
pub const CONNECT_INITIAL_DELAY_MS: u64 = 50;

/// Cap on the delay between connection attempts, before jitter, in milliseconds.
pub const CONNECT_MAX_DELAY_MS: u64 = 1000;

/// Number of connection attempts before giving up.
pub const CONNECT_MAX_ATTEMPTS: u32 = 10;

/// Jitter factors are drawn in `[JITTER_LOW, JITTER_HIGH)` thousandths, that is in `[0.9, 1.1)`.
pub const JITTER_LOW: u64 = 900;

pub const JITTER_HIGH: u64 = 1100;

/// Delay before jitter that follows failed attempt `i` (counting from 0):
/// `50 * 2^i` milliseconds, capped at one second.
pub open spec fn connect_base_delay(i: nat) -> nat {
    if 50 * pow2(i) <= 1000 {
        50 * pow2(i)
    } else {
        1000
    }
}

/// A delay scaled by a jitter factor given in thousandths, rounded down.
pub open spec fn jittered(delay: nat, jitter: nat) -> nat {
    delay * jitter / 1000
}

/// Relies on rand's `thread_rng().gen_range(lo..hi)`: a value drawn in `lo..hi`
/// (`gen_range` panics only on an empty range).
#[verifier::external_body]
fn random_in_range(lo: u64, hi: u64) -> (r: u64)
    requires
        lo < hi,
    ensures
        lo <= r < hi,
{
    rand::thread_rng().gen_range(lo..hi)
}

/// What to do after a failed connection attempt.
#[derive(Clone, Copy, Debug, PartialEq, Eq, Structural)]
pub enum ConnectStep {
    /// Sleep this many milliseconds, then attempt again.
    RetryAfter(u64),
    /// Every attempt failed: give up with `MaxRetriesExceeded`.
    GiveUp,
}

/// The schedule of connection attempts: exponential backoff from 50 ms, doubling,
/// capped at one second, with each sleep scaled by a jitter factor in `[0.9, 1.1)`.
#[derive(Clone, Copy, Debug, PartialEq, Eq, Structural)]
pub struct ConnectRetry {
    pub attempts: u32,
    pub delay_ms: u64,
}

impl ConnectRetry {
    /// The delay in force matches the number of failed attempts.
    pub open spec fn wf(&self) -> bool {
        &&& self.attempts <= CONNECT_MAX_ATTEMPTS
        &&& self.delay_ms == connect_base_delay(self.attempts as nat)
    }

    /// No attempt made yet.
    pub fn new() -> (r: ConnectRetry)
        ensures
            r.wf(),
            r.attempts == 0,
    {
        proof {
            vstd::arithmetic::power2::lemma2_to64();
        }
        ConnectRetry { attempts: 0, delay_ms: CONNECT_INITIAL_DELAY_MS }
    }

    /// Records a failed attempt, with the jitter factor `jitter` in thousandths.
    /// Gives up once `CONNECT_MAX_ATTEMPTS` attempts have failed; otherwise asks
    /// for a sleep of the current delay scaled by the jitter, and doubles the
    /// delay up to the cap.
    pub fn on_failure(&mut self, jitter: u64) -> (r: ConnectStep)
        requires
            old(self).wf(),
            old(self).attempts < CONNECT_MAX_ATTEMPTS,
            JITTER_LOW <= jitter < JITTER_HIGH,
        ensures
            final(self).wf(),
            final(self).attempts == old(self).attempts + 1,
            final(self).attempts == CONNECT_MAX_ATTEMPTS ==> r == ConnectStep::GiveUp,
            final(self).attempts < CONNECT_MAX_ATTEMPTS ==> r == ConnectStep::RetryAfter(
                jittered(connect_base_delay(old(self).attempts as nat), jitter as nat) as u64,
            ),
    {
        let i = self.attempts;
        let d = self.delay_ms;
        proof {
            lemma_pow2_unfold((i + 1) as nat);
            lemma_pow2_pos(i as nat);
            assert(d * jitter <= 1000 * 1100) by (nonlinear_arith)
                requires
                    d <= 1000,
                    jitter < 1100,
            ;
        }
        self.attempts = i + 1;
        self.delay_ms = if d * 2 <= CONNECT_MAX_DELAY_MS { d * 2 } else { CONNECT_MAX_DELAY_MS };
        if self.attempts == CONNECT_MAX_ATTEMPTS {
            ConnectStep::GiveUp
        } else {
            ConnectStep::RetryAfter(d * jitter / 1000)
        }
    }

    /// Records a failed attempt and draws the jitter factor at random.
    pub fn on_failure_random(&mut self) -> (r: ConnectStep)
        requires
            old(self).wf(),
            old(self).attempts < CONNECT_MAX_ATTEMPTS,
        ensures
            final(self).wf(),
            final(self).attempts == old(self).attempts + 1,
            final(self).attempts == CONNECT_MAX_ATTEMPTS ==> r == ConnectStep::GiveUp,
            final(self).attempts < CONNECT_MAX_ATTEMPTS ==> exists|j: nat|
                JITTER_LOW <= j < JITTER_HIGH && r == ConnectStep::RetryAfter(
                    #[trigger] jittered(connect_base_delay(old(self).attempts as nat), j) as u64,
                ),
    {
        let jitter = random_in_range(JITTER_LOW, JITTER_HIGH);
        self.on_failure(jitter)
    }
}

/// The sleep after failed connection attempt `i` lies between 0.9 and 1.1 times
/// `50 * 2^i` milliseconds capped at one second (both bounds rounded down).
pub proof fn lemma_connect_delay_bounds(i: nat, jitter: nat)
    requires
        JITTER_LOW <= jitter < JITTER_HIGH,
    ensures
        connect_base_delay(i) == if 50 * pow2(i) <= 1000 {
            50 * pow2(i)
        } else {
            1000
        },
        connect_base_delay(i) * 900 / 1000 <= jittered(connect_base_delay(i), jitter)
            <= connect_base_delay(i) * 1100 / 1000,
{
    let b = connect_base_delay(i);
    assert(b * 900 <= b * jitter <= b * 1100) by (nonlinear_arith)
        requires
            900 <= jitter <= 1100,
            b >= 0,
    ;
    lemma_div_is_ordered((b * 900) as int, (b * jitter) as int, 1000);
    lemma_div_is_ordered((b * jitter) as int, (b * 1100) as int, 1000);
}


/// Settings of the prediction polling loop.
#[derive(Clone, Copy, Debug, PartialEq, Eq, Structural)]
pub struct PollingConfig {
    /// Pause between two polls, in milliseconds.
    pub poll_interval_ms: u64,
    /// Retries after a failed poll before the poll counts as failed.
    pub max_retries: u64,
    /// Delay before the first retry, in milliseconds.
    pub initial_delay_ms: u64,
    /// Factor applied to the delay after each failed retry.
    pub backoff_factor: u32,
    /// Number of failed polls in a row after which the loop stops.
    pub max_consecutive_failures: u64,
}

/// Outcome of one poll, or the shutdown signal.
#[derive(Clone, Copy, Debug, PartialEq, Eq, Structural)]
pub enum PollEvent {
    Succeeded,
    Failed,
    Shutdown,
}

/// Why the polling loop stopped.
#[derive(Clone, Copy, Debug, PartialEq, Eq, Structural)]
pub enum StopReason {
    Shutdown,
    PersistentFailure,
}

/// What the polling loop does next.
#[derive(Clone, Copy, Debug, PartialEq, Eq, Structural)]
pub enum PollAction {
    /// Wait this many milliseconds, then poll.
    PollAfter(u64),
    /// Wait this many milliseconds, then retry the failed poll.
    RetryAfter(u64),
    /// Leave the loop.
    Stop(StopReason),
}

/// State of the polling loop between two events.
#[derive(Clone, Copy, Debug, PartialEq, Eq, Structural)]
pub struct PollerState {
    /// Failed polls in a row.
    pub consecutive_failures: u64,
    /// Whether a failed poll is being retried.
    pub retrying: bool,
    /// Retries issued for the poll being retried.
    pub retries: u64,
    /// Delay of the last retry issued, in milliseconds.
    pub retry_delay_ms: u64,
    /// Whether the loop has stopped.
    pub stopped: bool,
}

/// `a * b`, or `u64::MAX` when that does not fit.
pub open spec fn saturating_product(a: u64, b: u64) -> u64 {
    if a * b > u64::MAX {
        u64::MAX
    } else {
        (a * b) as u64
    }
}

/// The state after a failed poll (or a failed last retry): one more failure in a
/// row, and a stop when the ceiling is reached.
pub open spec fn after_failed_poll(c: PollingConfig, s: PollerState) -> (PollerState, PollAction) {
    let f = if s.consecutive_failures < u64::MAX {
        (s.consecutive_failures + 1) as u64
    } else {
        u64::MAX
    };
    let stop = f >= c.max_consecutive_failures;
    (
        PollerState {
            consecutive_failures: f,
            retrying: false,
            retries: 0,
            retry_delay_ms: 0,
            stopped: stop,
        },
        if stop {
            PollAction::Stop(StopReason::PersistentFailure)
        } else {
            PollAction::PollAfter(c.poll_interval_ms)
        },
    )
}

/// The decision of the polling loop on event `e` in state `s`. A success, of a
/// poll or of a retry, clears the failure count. A failed poll is retried up to
/// `max_retries` times, the delay starting at `initial_delay_ms` and multiplied
/// by `backoff_factor` after each failed retry; when no retry succeeds the poll
/// counts as one more failure in a row, and at `max_consecutive_failures` the
/// loop stops. Shutdown stops the loop at once.
pub open spec fn poll_step(c: PollingConfig, s: PollerState, e: PollEvent) -> (PollerState, PollAction) {
    match e {
        PollEvent::Shutdown => (
            PollerState { stopped: true, ..s },
            PollAction::Stop(StopReason::Shutdown),
        ),
        PollEvent::Succeeded => (
            PollerState {
                consecutive_failures: 0,
                retrying: false,
                retries: 0,
                retry_delay_ms: 0,
                stopped: false,
            },
            PollAction::PollAfter(c.poll_interval_ms),
        ),
        PollEvent::Failed => if !s.retrying {
            if c.max_retries > 0 {
                (
                    PollerState {
                        retrying: true,
                        retries: 1,
                        retry_delay_ms: c.initial_delay_ms,
                        ..s
                    },
                    PollAction::RetryAfter(c.initial_delay_ms),
                )
            } else {
                after_failed_poll(c, s)
            }
        } else if s.retries < c.max_retries {
            let d = saturating_product(s.retry_delay_ms, c.backoff_factor as u64);
            (
                PollerState { retries: (s.retries + 1) as u64, retry_delay_ms: d, ..s },
                PollAction::RetryAfter(d),
            )
        } else {
            after_failed_poll(c, s)
        },
    }
}

/// The state of a loop that has not polled yet.
pub open spec fn initial_poller_state() -> PollerState {
    PollerState {
        consecutive_failures: 0,
        retrying: false,
        retries: 0,
        retry_delay_ms: 0,
        stopped: false,
    }
}

/// The state and the last action after `k` failure events in a row from `s`
/// (the action is irrelevant when `k` is 0).
pub open spec fn run_failed(c: PollingConfig, s: PollerState, k: nat) -> (PollerState, PollAction)
    decreases k,
{
    if k == 0 {
        (s, PollAction::PollAfter(c.poll_interval_ms))
    } else {
        poll_step(c, run_failed(c, s, (k - 1) as nat).0, PollEvent::Failed)
    }
}

/// `s` is in the round of failed poll number `f` (counting from 0), after `i`
/// of its retries.
pub open spec fn in_round(s: PollerState, f: nat, i: nat) -> bool {
    &&& s.consecutive_failures == f
    &&& !s.stopped
    &&& if i == 0 {
        !s.retrying
    } else {
        s.retrying && s.retries == i
    }
}

proof fn lemma_failed_run_prefix(c: PollingConfig, k: nat)
    requires
        c.max_consecutive_failures >= 1,
        k <= (c.max_retries + 1) * c.max_consecutive_failures,
    ensures
        k < (c.max_retries + 1) * c.max_consecutive_failures ==> in_round(
            run_failed(c, initial_poller_state(), k).0,
            k / (c.max_retries + 1) as nat,
            k % (c.max_retries + 1) as nat,
        ),
        k < (c.max_retries + 1) * c.max_consecutive_failures ==> (k / ((c.max_retries
            + 1) as nat)) < c.max_consecutive_failures,
        1 <= k < (c.max_retries + 1) * c.max_consecutive_failures ==> !(run_failed(
            c,
            initial_poller_state(),
            k,
        ).1 is Stop),
        k == (c.max_retries + 1) * c.max_consecutive_failures ==> run_failed(
            c,
            initial_poller_state(),
            k,
        ).1 == PollAction::Stop(StopReason::PersistentFailure),
    decreases k,
{
    let n: nat = (c.max_retries + 1) as nat;
    let m: nat = c.max_consecutive_failures as nat;
    if k == 0 {
        lemma_fundamental_div_mod_converse(0, n as int, 0, 0);
        assert(0 < n * m) by (nonlinear_arith)
            requires
                n >= 1,
                m >= 1,
        ;
    } else {
        let j0 = ((k - 1) as nat) / n;
        let i0 = ((k - 1) as nat) % n;
        lemma_failed_run_prefix(c, (k - 1) as nat);
        vstd::arithmetic::div_mod::lemma_fundamental_div_mod((k - 1) as int, n as int);
        assert(k - 1 == n * j0 + i0);
        if i0 + 1 < n {
            lemma_fundamental_div_mod_converse(k as int, n as int, j0 as int, (i0 + 1) as int);
            assert(k < n * m) by (nonlinear_arith)
                requires
                    k == n * j0 + i0 + 1,
                    i0 + 1 < n,
                    j0 < m,
            ;
        } else {
            assert(k == n * (j0 + 1) && k == (j0 + 1) * n + 0) by (nonlinear_arith)
                requires
                    k == n * j0 + i0 + 1,
                    i0 + 1 == n,
            ;
            lemma_fundamental_div_mod_converse(k as int, n as int, (j0 + 1) as int, 0);
            if j0 + 1 < m {
                assert(k < n * m) by (nonlinear_arith)
                    requires
                        k == n * (j0 + 1),
                        j0 + 1 < m,
                        n >= 1,
                ;
            } else {
                assert(k == n * m);
            }
        }
    }
}

/// When every poll and every retry fails, the loop never stops before
/// `(max_retries + 1) * max_consecutive_failures` failure events, and stops for
/// persistent failure at that event: each failed poll is retried `max_retries`
/// times, and the loop ends once `max_consecutive_failures` polls in a row
/// have failed.
pub proof fn lemma_persistent_failure_stops(c: PollingConfig, k: nat)
    requires
        c.max_consecutive_failures >= 1,
        1 <= k <= (c.max_retries + 1) * c.max_consecutive_failures,
    ensures
        run_failed(c, initial_poller_state(), k).1 is Stop <==> k == (c.max_retries + 1)
            * c.max_consecutive_failures,
        k == (c.max_retries + 1) * c.max_consecutive_failures ==> run_failed(
            c,
            initial_poller_state(),
            k,
        ).1 == PollAction::Stop(StopReason::PersistentFailure),
{
    lemma_failed_run_prefix(c, k);
}

/// The polling loop's decisions, apart from the waiting and polling themselves.
pub struct PredictionPoller {
    pub config: PollingConfig,
    pub state: PollerState,
}

impl PredictionPoller {
    /// A loop that has not polled yet.
    pub fn new(config: PollingConfig) -> (r: PredictionPoller)
        ensures
            r.config == config,
            r.state == (PollerState {
                consecutive_failures: 0,
                retrying: false,
                retries: 0,
                retry_delay_ms: 0,
                stopped: false,
            }),
    {
        PredictionPoller {
            config,
            state: PollerState {
                consecutive_failures: 0,
                retrying: false,
                retries: 0,
                retry_delay_ms: 0,
                stopped: false,
            },
        }
    }

    fn failed_poll(&mut self) -> (r: PollAction)
        ensures
            final(self).config == old(self).config,
            (final(self).state, r) == after_failed_poll(old(self).config, old(self).state),
    {
        let f = if self.state.consecutive_failures < u64::MAX {
            self.state.consecutive_failures + 1
        } else {
            u64::MAX
        };
        let stop = f >= self.config.max_consecutive_failures;
        self.state = PollerState {
            consecutive_failures: f,
            retrying: false,
            retries: 0,
            retry_delay_ms: 0,
            stopped: stop,
        };
        if stop {
            PollAction::Stop(StopReason::PersistentFailure)
        } else {
            PollAction::PollAfter(self.config.poll_interval_ms)
        }
    }

    /// Takes the event that ended the last wait or poll and says what to do next
    /// (see `poll_step`).
    pub fn on_event(&mut self, e: PollEvent) -> (r: PollAction)
        ensures
            final(self).config == old(self).config,
            (final(self).state, r) == poll_step(old(self).config, old(self).state, e),
    {
        match e {
            PollEvent::Shutdown => {
                self.state.stopped = true;
                PollAction::Stop(StopReason::Shutdown)
            },
            PollEvent::Succeeded => {
                self.state = PollerState {
                    consecutive_failures: 0,
                    retrying: false,
                    retries: 0,
                    retry_delay_ms: 0,
                    stopped: false,
                };
                PollAction::PollAfter(self.config.poll_interval_ms)
            },
            PollEvent::Failed => {
                if !self.state.retrying {
                    if self.config.max_retries > 0 {
                        self.state.retrying = true;
                        self.state.retries = 1;
                        self.state.retry_delay_ms = self.config.initial_delay_ms;
                        PollAction::RetryAfter(self.config.initial_delay_ms)
                    } else {
                        self.failed_poll()
                    }
                } else if self.state.retries < self.config.max_retries {
                    let d = match self.state.retry_delay_ms.checked_mul(
                        self.config.backoff_factor as u64,
                    ) {
                        Some(x) => x,
                        None => u64::MAX,
                    };
                    self.state.retries = self.state.retries + 1;
                    self.state.retry_delay_ms = d;
                    PollAction::RetryAfter(d)
                } else {
                    self.failed_poll()
                }
            },
        }
    }
}

} // verus!
