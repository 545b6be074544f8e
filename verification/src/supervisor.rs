//! The supervisor's decisions: what the splash screen's exit means, and
//! when repeated fast launcher crashes make it give up.
use vstd::prelude::*;

verus! {

/// How many fast launcher exits in a row make the supervisor give up.
pub const MAX_FAST_FAILURES: u32 = 3;

/// A launcher run shorter than this, in milliseconds, counts as a failure.
pub const FAST_FAILURE_THRESHOLD_MS: u128 = 2000;

/// The pause after a fast failure, in milliseconds.
pub const BACKOFF_SLEEP_MS: u64 = 5000;

/// The pause before every relaunch, in milliseconds.
pub const RELAUNCH_PAUSE_MS: u64 = 500;

/// What the splash screen's exit means.
#[derive(Debug, Clone, Copy, PartialEq, Eq, Structural)]
pub enum SplashOutcome {
    /// It counted down: go on to the launcher.
    Proceed,
    /// The user escaped: leave to the MiSTer menu (successfully).
    EscapeToMenu,
    /// It did not start: leave to the MiSTer menu with a failure.
    StartFailed,
}

/// What the splash screen's exit code means (`None` if it could not start).
pub open spec fn splash_outcome_of(code: Option<i32>) -> SplashOutcome {
    match code {
        Some(0) => SplashOutcome::Proceed,
        Some(_) => SplashOutcome::EscapeToMenu,
        None => SplashOutcome::StartFailed,
    }
}

/// Interpret the splash screen's exit code (`None` if it could not start).
pub fn splash_outcome(code: Option<i32>) -> (r: SplashOutcome)
    ensures
        r == splash_outcome_of(code),
{
    match code {
        Some(0) => SplashOutcome::Proceed,
        Some(_) => SplashOutcome::EscapeToMenu,
        None => SplashOutcome::StartFailed,
    }
}

/// What to do after the launcher exited.
#[derive(Debug, Clone, Copy, PartialEq, Eq, Structural)]
pub enum BackoffAction {
    /// Too many fast failures: fall back to the MiSTer menu.
    GiveUp,
    /// A fast failure: wait `BACKOFF_SLEEP_MS`, then relaunch.
    Backoff,
    /// A normal exit: relaunch.
    Relaunch,
}

/// The count of fast failures in a row.
pub struct CrashBackoff {
    fast_failures: u32,
}

/// The failure count after a run of `elapsed_ms` milliseconds.
pub open spec fn failures_after(count: nat, elapsed_ms: u128) -> nat {
    if elapsed_ms < FAST_FAILURE_THRESHOLD_MS {
        count + 1
    } else {
        0
    }
}

/// The action after a run of `elapsed_ms` milliseconds with `count` fast
/// failures before it.
pub open spec fn action_after(count: nat, elapsed_ms: u128) -> BackoffAction {
    if elapsed_ms < FAST_FAILURE_THRESHOLD_MS {
        if count + 1 >= MAX_FAST_FAILURES {
            BackoffAction::GiveUp
        } else {
            BackoffAction::Backoff
        }
    } else {
        BackoffAction::Relaunch
    }
}

impl CrashBackoff {
    /// The number of fast failures in a row so far.
    pub closed spec fn count(&self) -> nat {
        self.fast_failures as nat
    }

    pub fn new() -> (b: CrashBackoff)
        ensures
            b.count() == 0,
    {
        CrashBackoff { fast_failures: 0 }
    }

    /// The number of fast failures in a row so far.
    pub fn fast_failures(&self) -> (n: u32)
        ensures
            n == self.count(),
    {
        self.fast_failures
    }

    /// Account for a launcher run of `elapsed_ms` milliseconds.  It is not
    /// called again once it said to give up.
    pub fn after_exit(&mut self, elapsed_ms: u128) -> (a: BackoffAction)
        requires
            old(self).count() < MAX_FAST_FAILURES,
        ensures
            final(self).count() == failures_after(old(self).count(), elapsed_ms),
            a == action_after(old(self).count(), elapsed_ms),
            a != BackoffAction::GiveUp ==> final(self).count() < MAX_FAST_FAILURES,
    {
        if elapsed_ms < FAST_FAILURE_THRESHOLD_MS {
            self.fast_failures += 1;
            if self.fast_failures >= MAX_FAST_FAILURES {
                return BackoffAction::GiveUp;
            }
            BackoffAction::Backoff
        } else {
            self.fast_failures = 0;
            BackoffAction::Relaunch
        }
    }
}

/// Three fast exits in a row, from a fresh start, make the supervisor give
/// up at the third; the first two back off.
pub proof fn lemma_gives_up_at_third_fast_exit(e1: u128, e2: u128, e3: u128)
    requires
        e1 < FAST_FAILURE_THRESHOLD_MS,
        e2 < FAST_FAILURE_THRESHOLD_MS,
        e3 < FAST_FAILURE_THRESHOLD_MS,
    ensures
        action_after(0, e1) == BackoffAction::Backoff,
        action_after(failures_after(0, e1), e2) == BackoffAction::Backoff,
        action_after(failures_after(failures_after(0, e1), e2), e3) == BackoffAction::GiveUp,
{
}

/// A normal run resets the count, so it never gives up right after one.
pub proof fn lemma_normal_exit_resets(count: nat, elapsed_ms: u128)
    requires
        elapsed_ms >= FAST_FAILURE_THRESHOLD_MS,
    ensures
        failures_after(count, elapsed_ms) == 0,
        action_after(count, elapsed_ms) == BackoffAction::Relaunch,
{
}

/// It gives up only when the count reaches the limit: after fewer fast
/// failures in a row it always relaunches.
pub proof fn lemma_gives_up_only_at_limit(count: nat, elapsed_ms: u128)
    requires
        action_after(count, elapsed_ms) == BackoffAction::GiveUp,
    ensures
        failures_after(count, elapsed_ms) >= MAX_FAST_FAILURES,
{
}

} // verus!
