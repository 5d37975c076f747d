//! The shared connection record and the pure decision model over it.
//!
//! A [`Context`] holds everything the controller knows about one source:
//! whether it is reconnecting, whether a recovery cycle is already pending,
//! when data was last seen, when recovery last began, and the handles of the
//! four timer kinds it owns.  The watchdog decision table and the
//! orchestrator entry guard are spec functions over plain context snapshots,
//! so every executable handler can promise to equal its mathematical model.

use vstd::prelude::*;

verus! {

/// Period of the staleness watchdog, in milliseconds.
pub const WATCHDOG_PERIOD_MS: u64 = 1_000;

/// How long the source may stay silent before the watchdog considers it
/// dead; also the shortest distance between two recovery decisions.
pub const STALENESS_WINDOW_MS: u64 = 10_000;

/// Mandatory wait between tearing the source down and resynchronizing it.
pub const COOLDOWN_MS: u64 = 5_000;

/// Period of the fast poll that follows an asynchronous state transition.
pub const ASYNC_WATCH_PERIOD_MS: u64 = 20;

/// Why a recovery cycle is entered.
#[derive(Clone, Copy, Debug, PartialEq, Eq, Structural)]
pub enum RetryReason {
    /// No data was observed within the staleness window.
    Timeout,
    /// A requested or queried state transition returned an error.
    StateChangeFailure,
}

/// How a state transition request reported back when it did not fail.
#[derive(Clone, Copy, Debug, PartialEq, Eq, Structural)]
pub enum TransitionOutcome {
    /// The transition completed synchronously.
    Complete,
    /// The transition continues asynchronously and must be polled.
    Async,
    /// The transition succeeded without prerolling, as live sources do.
    NoPreroll,
}

/// A state transition request or query failed.
#[derive(Clone, Copy, Debug, PartialEq, Eq, Structural)]
pub struct TransitionError;

/// The coarse source states the controller distinguishes when it polls an
/// asynchronous transition.
#[derive(Clone, Copy, Debug, PartialEq, Eq, Structural)]
pub enum SourceState {
    /// Fully stopped.
    Stopped,
    /// Ready but not processing data.
    Ready,
    /// Paused, the usual resting point of an unfinished transition.
    Paused,
    /// Fully running; the terminal state of a recovery cycle.
    Playing,
}

/// What the embedding pipeline must do to the source next on behalf of the
/// controller.  The controller never blocks on the outcome: the pipeline
/// performs the request and reports back through the matching event method.
#[derive(Clone, Copy, Debug, PartialEq, Eq, Structural)]
pub enum Action {
    /// Asynchronously take the source down to its stopped state, off the
    /// caller's own execution context, then report completion.
    Teardown,
    /// Ask the source to resynchronize its state with its parent container
    /// and report the outcome.
    Resync,
    /// Explicitly request the running state once more.
    RequestPlaying,
}

/// The shared record of liveness and in-flight recovery state for one
/// source.  In the embedding runtime it sits behind a mutual-exclusion
/// lock shared by the data-flow context and the timer scheduler; here every
/// handler runs atomically, which is exactly what that lock guarantees.
#[derive(Clone, Copy, Debug, PartialEq, Eq)]
pub struct Context {
    /// True from the moment recovery is decided until the source is
    /// confirmed healthy again.
    pub reconnecting: bool,
    /// True while a teardown/cooldown/restart sequence is queued or
    /// executing; at most one such cycle may ever be active.
    pub pending_restart: bool,
    /// When data last passed the probe, in scheduler milliseconds.
    /// Monotonically non-decreasing; updated only by the probe.
    pub last_buffer_time: u64,
    /// When a recovery cycle last reached its resynchronization step.
    pub last_reconnect_time: u64,
    /// Handle of the periodic staleness watchdog.
    pub watchdog_timer_handle: Option<u64>,
    /// Handle of the fast poll that supervises an asynchronous transition.
    pub async_watch_timer_handle: Option<u64>,
    /// Handle of the single-shot wait between teardown and resync.
    pub cooldown_timer_handle: Option<u64>,
    /// Handle of the single-shot restart timer kind; owned so that
    /// destruction and the entry guard can cancel it unconditionally.
    pub restart_timer_handle: Option<u64>,
}

impl Context {
    /// The state of a freshly attached source: healthy, no cycle pending,
    /// both clocks stamped `now`, no timers.
    pub open spec fn initial(now: u64) -> Context {
        Context {
            reconnecting: false,
            pending_restart: false,
            last_buffer_time: now,
            last_reconnect_time: now,
            watchdog_timer_handle: None,
            async_watch_timer_handle: None,
            cooldown_timer_handle: None,
            restart_timer_handle: None,
        }
    }

    /// Internal consistency: the async-watch poll only runs outside a
    /// pending teardown/cooldown cycle, since the entry guard cancels it
    /// before a new cycle starts.
    pub open spec fn inv(self) -> bool {
        self.async_watch_timer_handle is Some ==> !self.pending_restart
    }

    /// Creates the context for a source attached at scheduler time `now`.
    pub fn new(now: u64) -> (c: Context)
        ensures
            c == Context::initial(now),
    {
        Context {
            reconnecting: false,
            pending_restart: false,
            last_buffer_time: now,
            last_reconnect_time: now,
            watchdog_timer_handle: None,
            async_watch_timer_handle: None,
            cooldown_timer_handle: None,
            restart_timer_handle: None,
        }
    }
}

/// Both staleness windows have elapsed at `now`: no data for the staleness
/// window, and at least as long since recovery last began.
pub open spec fn stale_and_gated(ctx: Context, now: u64) -> bool {
    &&& now - ctx.last_buffer_time >= STALENESS_WINDOW_MS
    &&& now - ctx.last_reconnect_time >= STALENESS_WINDOW_MS
}

/// The watchdog decision table: nothing while already recovering, nothing
/// while healthy or too soon after a prior attempt, and a timeout-driven
/// recovery exactly when both windows have elapsed.
pub open spec fn watchdog_decision(ctx: Context, now: u64) -> Option<RetryReason> {
    if ctx.reconnecting {
        None
    } else if stale_and_gated(ctx, now) {
        Some(RetryReason::Timeout)
    } else {
        None
    }
}

/// The orchestrator entry guard's effect on an open context: mark a cycle
/// pending and the source reconnecting, and drop every single-cycle timer
/// handle, since the guard cancels those timers.  The watchdog handle is
/// untouched.
pub open spec fn guarded_entry(ctx: Context) -> Context {
    Context {
        reconnecting: true,
        pending_restart: true,
        async_watch_timer_handle: None,
        cooldown_timer_handle: None,
        restart_timer_handle: None,
        ..ctx
    }
}

/// One watchdog tick's effect on the context alone: enter the guard when
/// the decision table fires and no cycle is pending, otherwise change
/// nothing.
pub open spec fn watchdog_step_ctx(ctx: Context, now: u64) -> Context {
    if watchdog_decision(ctx, now) is Some && !ctx.pending_restart {
        guarded_entry(ctx)
    } else {
        ctx
    }
}

} // verus!
