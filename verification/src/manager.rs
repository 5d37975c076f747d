//! The connection manager: the facade that owns the context, the watchdog
//! loop, the buffer liveness probe and the reconnect orchestrator.
//!
//! Every handler is the verified body of one callback of the embedding
//! runtime: the probe fires from the data-flow context, the watchdog and
//! poll timers fire from the scheduler, and the orchestrator's outside work
//! — tearing the source down, resynchronizing it, re-requesting the running
//! state — is handed back to the embedding pipeline as an [`Action`], whose
//! outcome returns through the matching event method.

use vstd::prelude::*;

verus! {

use crate::context::{
    Action,
    Context,
    RetryReason,
    SourceState,
    TransitionError,
    TransitionOutcome,
    guarded_entry,
    watchdog_decision,
    watchdog_step_ctx,
    ASYNC_WATCH_PERIOD_MS,
    COOLDOWN_MS,
    STALENESS_WINDOW_MS,
    WATCHDOG_PERIOD_MS,
};
use crate::timer::{Scheduler, TimerEntry, TimerTag};

/// A timer entry belongs to the context that owns the manager: its tag
/// names the handle that holds its identifier, and its period is the one
/// that kind of timer is always scheduled with.
pub open spec fn entry_owned(ctx: Context, e: TimerEntry) -> bool {
    match e.tag {
        TimerTag::Watchdog => ctx.watchdog_timer_handle == Some(e.id) && e.period == Some(
            WATCHDOG_PERIOD_MS,
        ),
        TimerTag::AsyncWatch => ctx.async_watch_timer_handle == Some(e.id) && e.period == Some(
            ASYNC_WATCH_PERIOD_MS,
        ),
        TimerTag::Cooldown => ctx.cooldown_timer_handle == Some(e.id) && e.period is None,
        TimerTag::Restart => ctx.restart_timer_handle == Some(e.id) && e.period is None,
    }
}

/// The connection manager for one source bin.  It owns the [`Context`],
/// installs the watchdog and the probe on a dedicated [`Scheduler`], and
/// exposes the liveness query and the probe attachment call outward.
pub struct BinConectionManager {
    /// The shared connection record.  Public so that the embedding driver
    /// can test a handler's precondition before delivering an event; the
    /// handlers themselves are the only mutators that preserve [`Self::wf`].
    pub ctx: Context,
    /// Whether the buffer liveness probe has been installed.
    pub probe_attached: bool,
}

impl BinConectionManager {
    /// The manager's invariant against its scheduler: the scheduler is
    /// well-formed and dedicated to this manager — every live timer is one
    /// of the four kinds the context owns — the context is internally
    /// consistent, and its clocks never run ahead of the scheduler.
    pub open spec fn wf(&self, s: &Scheduler) -> bool {
        &&& s.wf()
        &&& self.ctx.inv()
        &&& self.ctx.last_buffer_time <= s.time()
        &&& self.ctx.last_reconnect_time <= s.time()
        &&& forall|i: int|
            0 <= i < s.entries().len() ==> entry_owned(self.ctx, #[trigger] s.entries()[i])
    }

    /// Attaches a manager to a source at the current scheduler time and
    /// starts the watchdog loop.  The scheduler must be fresh: the manager
    /// owns every timer on it from here on.
    pub fn new(sched: &mut Scheduler) -> (m: BinConectionManager)
        requires
            old(sched).wf(),
            old(sched).entries().len() == 0,
            old(sched).time() + WATCHDOG_PERIOD_MS <= u64::MAX,
            old(sched).id_counter() < u64::MAX,
        ensures
            m.wf(final(sched)),
            !m.probe_attached,
            m.ctx == (Context {
                watchdog_timer_handle: Some(old(sched).id_counter()),
                ..Context::initial(old(sched).time())
            }),
            final(sched).time() == old(sched).time(),
            final(sched).id_counter() == old(sched).id_counter() + 1,
            final(sched).entries().len() == 1,
            final(sched).entries()[0].tag == TimerTag::Watchdog,
            final(sched).entries()[0].deadline == old(sched).time() + WATCHDOG_PERIOD_MS,
    {
        let now = sched.now();
        let mut ctx = Context::new(now);
        let wid = sched.schedule_periodic(WATCHDOG_PERIOD_MS, TimerTag::Watchdog);
        ctx.watchdog_timer_handle = Some(wid);
        BinConectionManager { ctx, probe_attached: false }
    }

    /// Locks, reads and returns whether the source is reconnecting.  Takes
    /// the manager immutably, so repeated calls cannot have side effects.
    pub fn is_reconnecting(&self) -> (r: bool)
        ensures
            r == self.ctx.reconnecting,
    {
        self.ctx.reconnecting
    }

    /// Installs the buffer liveness probe at the source's attachment
    /// point.  From here on the data-flow context reports every unit of
    /// media through [`Self::on_buffer`].
    pub fn setup_src_pad(&mut self)
        ensures
            final(self).ctx == old(self).ctx,
            final(self).probe_attached,
    {
        self.probe_attached = true;
    }

    /// The buffer liveness probe: runs on the data-flow execution context
    /// for every unit of media that passes the attachment point.  It
    /// unconditionally stamps the source alive — a data unit arriving even
    /// mid-reconnect immediately clears `reconnecting` — and touches
    /// nothing else.
    pub fn on_buffer(&mut self, sched: &Scheduler)
        requires
            old(self).wf(sched),
            old(self).probe_attached,
        ensures
            final(self).wf(sched),
            final(self).ctx == (Context {
                reconnecting: false,
                last_buffer_time: sched.time(),
                ..old(self).ctx
            }),
            final(self).probe_attached,
    {
        self.ctx.reconnecting = false;
        self.ctx.last_buffer_time = sched.now();
    }

    /// The reconnect orchestrator's entry.  Under the lock it checks and
    /// sets `pending_restart` atomically — finding it already set makes the
    /// whole call a no-op, so no second cycle can ever start — marks the
    /// source reconnecting, cancels every stray single-cycle timer, and
    /// only then asks the pipeline for the asynchronous teardown, off the
    /// caller's own execution context.  The pipeline reports the finished
    /// teardown through [`Self::on_teardown_complete`].
    pub fn handle_source_error(&mut self, sched: &mut Scheduler, reason: RetryReason) -> (a: Option<
        Action,
    >)
        requires
            old(self).wf(old(sched)),
        ensures
            final(self).wf(final(sched)),
            final(self).probe_attached == old(self).probe_attached,
            final(sched).time() == old(sched).time(),
            final(sched).id_counter() == old(sched).id_counter(),
            old(self).ctx.pending_restart ==> {
                &&& final(self).ctx == old(self).ctx
                &&& final(sched).entries() == old(sched).entries()
                &&& a is None
            },
            !old(self).ctx.pending_restart ==> {
                &&& final(self).ctx == guarded_entry(old(self).ctx)
                &&& a == Some(Action::Teardown)
                &&& forall|i: int|
                    0 <= i < final(sched).entries().len()
                        ==> (#[trigger] final(sched).entries()[i]).tag == TimerTag::Watchdog
                &&& forall|i: int|
                    0 <= i < final(sched).entries().len()
                        ==> old(sched).entries().contains(#[trigger] final(sched).entries()[i])
            },
    {
        if self.ctx.pending_restart {
            return None;
        }
        let ghost old_ctx = self.ctx;
        let ghost es0 = sched.entries();

        self.ctx.pending_restart = true;
        self.ctx.reconnecting = true;

        sched.cancel_handle(self.ctx.restart_timer_handle);
        self.ctx.restart_timer_handle = None;
        let ghost es1 = sched.entries();
        proof {
            assert forall|i: int| 0 <= i < es1.len() implies (#[trigger] es1[i]).tag
                != TimerTag::Restart && es0.contains(es1[i]) by {
                let j = choose|j: int| 0 <= j < es0.len() && es0[j] == es1[i];
                if es1[i].tag == TimerTag::Restart {
                    assert(entry_owned(old_ctx, es0[j]));
                }
            }
        }

        sched.cancel_handle(self.ctx.cooldown_timer_handle);
        self.ctx.cooldown_timer_handle = None;
        let ghost es2 = sched.entries();
        proof {
            assert forall|i: int| 0 <= i < es2.len() implies (#[trigger] es2[i]).tag
                != TimerTag::Restart && es2[i].tag != TimerTag::Cooldown && es0.contains(es2[i]) by {
                let j = choose|j: int| 0 <= j < es1.len() && es1[j] == es2[i];
                assert(es0.contains(es1[j]));
                let j0 = choose|j0: int| 0 <= j0 < es0.len() && es0[j0] == es2[i];
                if es2[i].tag == TimerTag::Cooldown {
                    assert(entry_owned(old_ctx, es0[j0]));
                }
            }
        }

        sched.cancel_handle(self.ctx.async_watch_timer_handle);
        self.ctx.async_watch_timer_handle = None;
        let ghost es3 = sched.entries();
        proof {
            assert forall|i: int| 0 <= i < es3.len() implies (#[trigger] es3[i]).tag
                == TimerTag::Watchdog && es0.contains(es3[i]) && entry_owned(self.ctx, es3[i]) by {
                let j = choose|j: int| 0 <= j < es2.len() && es2[j] == es3[i];
                assert(es0.contains(es2[j]));
                let j0 = choose|j0: int| 0 <= j0 < es0.len() && es0[j0] == es3[i];
                assert(entry_owned(old_ctx, es0[j0]));
                if es3[i].tag == TimerTag::AsyncWatch {
                    assert(old_ctx.async_watch_timer_handle == Some(es3[i].id));
                }
            }
        }
        Some(Action::Teardown)
    }

    /// One tick of the watchdog loop.  Under the lock it evaluates the
    /// decision table against the context; when the table fires, the
    /// orchestrator is invoked after the lock is conceptually released.
    /// The periodic timer has already re-armed itself: a tick never
    /// cancels the loop.
    pub fn on_watchdog_tick(&mut self, sched: &mut Scheduler) -> (a: Option<Action>)
        requires
            old(self).wf(old(sched)),
        ensures
            final(self).wf(final(sched)),
            final(self).probe_attached == old(self).probe_attached,
            final(sched).time() == old(sched).time(),
            final(sched).id_counter() == old(sched).id_counter(),
            final(self).ctx == watchdog_step_ctx(old(self).ctx, old(sched).time()),
            a == Some(Action::Teardown) <==> (watchdog_decision(old(self).ctx, old(sched).time())
                is Some && !old(self).ctx.pending_restart),
            a is Some ==> a == Some(Action::Teardown),
            final(self).ctx == old(self).ctx ==> final(sched).entries() == old(sched).entries(),
            (watchdog_decision(old(self).ctx, old(sched).time()) is Some && !old(
                self,
            ).ctx.pending_restart) ==> {
                &&& forall|i: int|
                    0 <= i < final(sched).entries().len()
                        ==> (#[trigger] final(sched).entries()[i]).tag == TimerTag::Watchdog
                &&& forall|i: int|
                    0 <= i < final(sched).entries().len()
                        ==> old(sched).entries().contains(#[trigger] final(sched).entries()[i])
            },
    {
        let now = sched.now();
        let decision = if self.ctx.reconnecting {
            None
        } else {
            let update_elapsed: u64 = now - self.ctx.last_buffer_time;
            let reconnect_elapsed: u64 = now - self.ctx.last_reconnect_time;
            if update_elapsed >= STALENESS_WINDOW_MS && reconnect_elapsed >= STALENESS_WINDOW_MS {
                Some(RetryReason::Timeout)
            } else {
                None
            }
        };
        match decision {
            Some(reason) => self.handle_source_error(sched, reason),
            None => None,
        }
    }

    /// Completion of the asynchronous teardown: the source reached its
    /// stopped state.  Schedules the single-shot cooldown that must elapse
    /// before resynchronization; the entry guard guarantees that no other
    /// cooldown timer is outstanding.
    pub fn on_teardown_complete(&mut self, sched: &mut Scheduler)
        requires
            old(self).wf(old(sched)),
            old(self).ctx.pending_restart,
            old(self).ctx.cooldown_timer_handle is None,
            old(sched).time() + COOLDOWN_MS <= u64::MAX,
            old(sched).id_counter() < u64::MAX,
        ensures
            final(self).wf(final(sched)),
            final(self).probe_attached == old(self).probe_attached,
            final(sched).time() == old(sched).time(),
            final(sched).id_counter() == old(sched).id_counter() + 1,
            final(self).ctx == (Context {
                cooldown_timer_handle: Some(old(sched).id_counter()),
                ..old(self).ctx
            }),
            final(sched).entries() == old(sched).entries().push(
                (TimerEntry {
                    id: old(sched).id_counter(),
                    deadline: (old(sched).time() + COOLDOWN_MS) as u64,
                    period: None,
                    tag: TimerTag::Cooldown,
                }),
            ),
    {
        let cid = sched.schedule_after(COOLDOWN_MS, TimerTag::Cooldown);
        self.ctx.cooldown_timer_handle = Some(cid);
    }

    /// The cooldown elapsed: the resynchronization step begins.  Under the
    /// lock it closes the pending cycle, stamps the recovery clock, and
    /// cancels the spent cooldown handle if one is still present; the
    /// caller must then ask the source to resynchronize with its parent
    /// and report the outcome through [`Self::on_resync_result`].
    pub fn on_cooldown_fired(&mut self, sched: &mut Scheduler) -> (a: Action)
        requires
            old(self).wf(old(sched)),
            old(self).ctx.pending_restart,
        ensures
            final(self).wf(final(sched)),
            final(self).probe_attached == old(self).probe_attached,
            final(sched).time() == old(sched).time(),
            final(sched).id_counter() == old(sched).id_counter(),
            final(self).ctx == (Context {
                pending_restart: false,
                last_reconnect_time: old(sched).time(),
                cooldown_timer_handle: None,
                ..old(self).ctx
            }),
            a == Action::Resync,
            forall|i: int|
                0 <= i < final(sched).entries().len()
                    ==> (#[trigger] final(sched).entries()[i]).tag != TimerTag::Cooldown,
            forall|i: int|
                0 <= i < final(sched).entries().len()
                    ==> old(sched).entries().contains(#[trigger] final(sched).entries()[i]),
    {
        let ghost old_ctx = self.ctx;
        let ghost es0 = sched.entries();
        self.ctx.pending_restart = false;
        self.ctx.last_reconnect_time = sched.now();
        sched.cancel_handle(self.ctx.cooldown_timer_handle);
        self.ctx.cooldown_timer_handle = None;
        proof {
            let es1 = sched.entries();
            assert forall|i: int| 0 <= i < es1.len() implies (#[trigger] es1[i]).tag
                != TimerTag::Cooldown && entry_owned(self.ctx, es1[i]) by {
                let j = choose|j: int| 0 <= j < es0.len() && es0[j] == es1[i];
                assert(entry_owned(old_ctx, es0[j]));
                if es1[i].tag == TimerTag::Cooldown {
                    assert(old_ctx.cooldown_timer_handle == Some(es1[i].id));
                }
            }
        }
        Action::Resync
    }

    /// Outcome of the resynchronization request, folded together with the
    /// zero-timeout state query that follows a successful request.
    /// Immediate success ends the cycle; a transition still in progress
    /// starts the fast supervision poll; a reported failure re-enters
    /// teardown at once, without waiting for the next watchdog tick.
    pub fn on_resync_result(
        &mut self,
        sched: &mut Scheduler,
        outcome: Result<TransitionOutcome, TransitionError>,
    ) -> (a: Option<Action>)
        requires
            old(self).wf(old(sched)),
            !old(self).ctx.pending_restart,
            old(self).ctx.async_watch_timer_handle is None,
            old(sched).time() + ASYNC_WATCH_PERIOD_MS <= u64::MAX,
            old(sched).id_counter() < u64::MAX,
        ensures
            final(self).wf(final(sched)),
            final(self).probe_attached == old(self).probe_attached,
            final(sched).time() == old(sched).time(),
            match outcome {
                Ok(TransitionOutcome::Complete) => {
                    &&& final(self).ctx == (Context { reconnecting: false, ..old(self).ctx })
                    &&& final(sched).entries() == old(sched).entries()
                    &&& a is None
                },
                Ok(_) => {
                    &&& final(self).ctx == (Context {
                        async_watch_timer_handle: Some(old(sched).id_counter()),
                        ..old(self).ctx
                    })
                    &&& final(sched).entries() == old(sched).entries().push(
                        (TimerEntry {
                            id: old(sched).id_counter(),
                            deadline: (old(sched).time() + ASYNC_WATCH_PERIOD_MS) as u64,
                            period: Some(ASYNC_WATCH_PERIOD_MS),
                            tag: TimerTag::AsyncWatch,
                        }),
                    )
                    &&& a is None
                },
                Err(_) => {
                    &&& final(self).ctx == guarded_entry(old(self).ctx)
                    &&& a == Some(Action::Teardown)
                    &&& forall|i: int|
                        0 <= i < final(sched).entries().len()
                            ==> (#[trigger] final(sched).entries()[i]).tag == TimerTag::Watchdog
                },
            },
    {
        match outcome {
            Ok(TransitionOutcome::Complete) => {
                self.ctx.reconnecting = false;
                None
            },
            Ok(_) => {
                let aid = sched.schedule_periodic(ASYNC_WATCH_PERIOD_MS, TimerTag::AsyncWatch);
                self.ctx.async_watch_timer_handle = Some(aid);
                None
            },
            Err(_) => self.handle_source_error(sched, RetryReason::StateChangeFailure),
        }
    }

    /// One firing of the fast poll that supervises an asynchronous state
    /// transition; the caller passes the result of the zero-timeout state
    /// query.  Still asynchronous: keep waiting.  Query failed: stop the
    /// poll and re-enter teardown.  Reached the running state: recovery is
    /// complete and the poll ends.  Settled anywhere short of running:
    /// explicitly re-request the running state and keep polling.
    pub fn watch_source_async_state_change(
        &mut self,
        sched: &mut Scheduler,
        query: Result<TransitionOutcome, TransitionError>,
        current: SourceState,
    ) -> (a: Option<Action>)
        requires
            old(self).wf(old(sched)),
            old(self).ctx.async_watch_timer_handle is Some,
        ensures
            final(self).wf(final(sched)),
            final(self).probe_attached == old(self).probe_attached,
            final(sched).time() == old(sched).time(),
            final(sched).id_counter() == old(sched).id_counter(),
            match query {
                Ok(TransitionOutcome::Async) => {
                    &&& final(self).ctx == old(self).ctx
                    &&& final(sched).entries() == old(sched).entries()
                    &&& a is None
                },
                Err(_) => {
                    &&& final(self).ctx == guarded_entry(old(self).ctx)
                    &&& a == Some(Action::Teardown)
                    &&& forall|i: int|
                        0 <= i < final(sched).entries().len()
                            ==> (#[trigger] final(sched).entries()[i]).tag == TimerTag::Watchdog
                },
                Ok(_) => if current == SourceState::Playing {
                    &&& final(self).ctx == (Context {
                        reconnecting: false,
                        async_watch_timer_handle: None,
                        ..old(self).ctx
                    })
                    &&& a is None
                    &&& forall|i: int|
                        0 <= i < final(sched).entries().len()
                            ==> (#[trigger] final(sched).entries()[i]).tag != TimerTag::AsyncWatch
                } else {
                    &&& final(self).ctx == old(self).ctx
                    &&& final(sched).entries() == old(sched).entries()
                    &&& a == Some(Action::RequestPlaying)
                },
            },
    {
        let still_async = match query {
            Ok(TransitionOutcome::Async) => true,
            _ => false,
        };
        if still_async {
            return None;
        }
        if query.is_err() {
            let ghost old_ctx = self.ctx;
            let ghost es0 = sched.entries();
            sched.cancel_handle(self.ctx.async_watch_timer_handle);
            self.ctx.async_watch_timer_handle = None;
            proof {
                let es1 = sched.entries();
                assert forall|i: int| 0 <= i < es1.len() implies (#[trigger] es1[i]).tag
                    != TimerTag::AsyncWatch && entry_owned(self.ctx, es1[i]) by {
                    let j = choose|j: int| 0 <= j < es0.len() && es0[j] == es1[i];
                    assert(entry_owned(old_ctx, es0[j]));
                    if es1[i].tag == TimerTag::AsyncWatch {
                        assert(old_ctx.async_watch_timer_handle == Some(es1[i].id));
                    }
                }
            }
            return self.handle_source_error(sched, RetryReason::StateChangeFailure);
        }
        if matches!(current, SourceState::Playing) {
            let ghost old_ctx = self.ctx;
            let ghost es0 = sched.entries();
            self.ctx.reconnecting = false;
            sched.cancel_handle(self.ctx.async_watch_timer_handle);
            self.ctx.async_watch_timer_handle = None;
            proof {
                let es1 = sched.entries();
                assert forall|i: int| 0 <= i < es1.len() implies (#[trigger] es1[i]).tag
                    != TimerTag::AsyncWatch && entry_owned(self.ctx, es1[i]) by {
                    let j = choose|j: int| 0 <= j < es0.len() && es0[j] == es1[i];
                    assert(entry_owned(old_ctx, es0[j]));
                    if es1[i].tag == TimerTag::AsyncWatch {
                        assert(old_ctx.async_watch_timer_handle == Some(es1[i].id));
                    }
                }
            }
            None
        } else {
            Some(Action::RequestPlaying)
        }
    }

    /// The destruction path of the manager: unconditionally and
    /// synchronously cancels all four timer kinds, so that no callback can
    /// fire afterwards.  Safe to call even when some timers were never
    /// scheduled; cancelling a dead or absent handle is a harmless no-op,
    /// so cancellation cannot fail.
    pub fn shutdown(&mut self, sched: &mut Scheduler)
        requires
            old(self).wf(old(sched)),
        ensures
            final(self).wf(final(sched)),
            final(self).probe_attached == old(self).probe_attached,
            final(sched).time() == old(sched).time(),
            final(sched).id_counter() == old(sched).id_counter(),
            final(self).ctx == (Context {
                watchdog_timer_handle: None,
                async_watch_timer_handle: None,
                cooldown_timer_handle: None,
                restart_timer_handle: None,
                ..old(self).ctx
            }),
            final(sched).entries().len() == 0,
    {
        let ghost old_ctx = self.ctx;
        let ghost es0 = sched.entries();

        sched.cancel_handle(self.ctx.watchdog_timer_handle);
        self.ctx.watchdog_timer_handle = None;
        let ghost es1 = sched.entries();
        proof {
            assert forall|i: int| 0 <= i < es1.len() implies (#[trigger] es1[i]).tag
                != TimerTag::Watchdog && es0.contains(es1[i]) by {
                let j = choose|j: int| 0 <= j < es0.len() && es0[j] == es1[i];
                if es1[i].tag == TimerTag::Watchdog {
                    assert(entry_owned(old_ctx, es0[j]));
                }
            }
        }

        sched.cancel_handle(self.ctx.async_watch_timer_handle);
        self.ctx.async_watch_timer_handle = None;
        let ghost es2 = sched.entries();
        proof {
            assert forall|i: int| 0 <= i < es2.len() implies (#[trigger] es2[i]).tag
                != TimerTag::Watchdog && es2[i].tag != TimerTag::AsyncWatch && es0.contains(
                es2[i],
            ) by {
                let j = choose|j: int| 0 <= j < es1.len() && es1[j] == es2[i];
                assert(es0.contains(es1[j]));
                let j0 = choose|j0: int| 0 <= j0 < es0.len() && es0[j0] == es2[i];
                if es2[i].tag == TimerTag::AsyncWatch {
                    assert(entry_owned(old_ctx, es0[j0]));
                }
            }
        }

        sched.cancel_handle(self.ctx.cooldown_timer_handle);
        self.ctx.cooldown_timer_handle = None;
        let ghost es3 = sched.entries();
        proof {
            assert forall|i: int| 0 <= i < es3.len() implies (#[trigger] es3[i]).tag
                != TimerTag::Watchdog && es3[i].tag != TimerTag::AsyncWatch && es3[i].tag
                != TimerTag::Cooldown && es0.contains(es3[i]) by {
                let j = choose|j: int| 0 <= j < es2.len() && es2[j] == es3[i];
                assert(es0.contains(es2[j]));
                let j0 = choose|j0: int| 0 <= j0 < es0.len() && es0[j0] == es3[i];
                if es3[i].tag == TimerTag::Cooldown {
                    assert(entry_owned(old_ctx, es0[j0]));
                }
            }
        }

        sched.cancel_handle(self.ctx.restart_timer_handle);
        self.ctx.restart_timer_handle = None;
        proof {
            let es4 = sched.entries();
            if es4.len() > 0 {
                let j = choose|j: int| 0 <= j < es3.len() && es3[j] == es4[0];
                assert(es0.contains(es3[j]));
                let j0 = choose|j0: int| 0 <= j0 < es0.len() && es0[j0] == es4[0];
                assert(entry_owned(old_ctx, es0[j0]));
                assert(es4[0].tag == TimerTag::Restart);
                assert(old_ctx.restart_timer_handle == Some(es4[0].id));
                assert(false);
            }
        }
    }
}

} // verus!
