//! Library-wide laws: properties that relate several handlers, stated over
//! the same context model and scheduler views that the handlers' own
//! contracts use, and proved once and for all.

use vstd::prelude::*;

verus! {

use crate::context::{
    guarded_entry,
    stale_and_gated,
    watchdog_decision,
    watchdog_step_ctx,
    Context,
    RetryReason,
};
use crate::manager::{entry_owned, BinConectionManager};
use crate::timer::{due_exists, Scheduler};

/// No duplicate cycles: a well-formed manager never owns two live timers
/// of the same kind, so at most one cooldown timer and at most one
/// async-watch timer exist per context at any instant.  (That a second
/// orchestrator invocation under `pending_restart` is a no-op is part of
/// the contract of `BinConectionManager::handle_source_error`.)
pub proof fn lemma_at_most_one_timer_per_kind(m: BinConectionManager, s: Scheduler)
    requires
        m.wf(&s),
    ensures
        forall|i: int, j: int|
            0 <= i < j < s.entries().len()
                ==> (#[trigger] s.entries()[i]).tag != (#[trigger] s.entries()[j]).tag,
{
    assert forall|i: int, j: int| 0 <= i < j < s.entries().len() implies (
    #[trigger] s.entries()[i]).tag != (#[trigger] s.entries()[j]).tag by {
        if s.entries()[i].tag == s.entries()[j].tag {
            assert(entry_owned(m.ctx, s.entries()[i]));
            assert(entry_owned(m.ctx, s.entries()[j]));
            assert(s.entries()[i].id == s.entries()[j].id);
        }
    }
}

/// Teardown-safety: once the destruction path has cleared all four timer
/// handles, the manager's dedicated scheduler holds no timers at all, so
/// advancing its clock past any previously scheduled delay finds nothing
/// due and can invoke no callback, at any horizon.
pub proof fn lemma_teardown_safety(m: BinConectionManager, s: Scheduler, horizon: u64)
    requires
        m.wf(&s),
        m.ctx.watchdog_timer_handle is None,
        m.ctx.async_watch_timer_handle is None,
        m.ctx.cooldown_timer_handle is None,
        m.ctx.restart_timer_handle is None,
    ensures
        s.entries().len() == 0,
        !due_exists(s.entries(), horizon),
{
    if s.entries().len() > 0 {
        assert(entry_owned(m.ctx, s.entries()[0]));
    }
}

/// The manager's invariant is insensitive to the clock advancing and to
/// timers firing: a scheduler whose surviving timers keep their identity,
/// tag and period — exactly what `Scheduler::fire_next` guarantees — and
/// whose clock has not gone backwards still satisfies it.  Together with
/// the handlers' own contracts, the invariant therefore holds at every
/// instant of a run, however timer firings and events interleave.
pub proof fn lemma_wf_preserved_by_firing(m: BinConectionManager, s1: Scheduler, s2: Scheduler)
    requires
        m.wf(&s1),
        s2.wf(),
        s1.time() <= s2.time(),
        forall|i: int|
            0 <= i < s2.entries().len()
                ==> exists|j: int|
                    0 <= j < s1.entries().len()
                        && (#[trigger] s2.entries()[i]).id == s1.entries()[j].id
                        && s2.entries()[i].tag == s1.entries()[j].tag
                        && s2.entries()[i].period == s1.entries()[j].period,
    ensures
        m.wf(&s2),
{
    assert forall|i: int| 0 <= i < s2.entries().len() implies entry_owned(
        m.ctx,
        #[trigger] s2.entries()[i],
    ) by {
        let j = choose|j: int|
            0 <= j < s1.entries().len() && s2.entries()[i].id == s1.entries()[j].id
                && s2.entries()[i].tag == s1.entries()[j].tag && s2.entries()[i].period
                == s1.entries()[j].period;
        assert(entry_owned(m.ctx, s1.entries()[j]));
    }
}

/// The context after the watchdog has ticked once at each time in
/// `ticks`, in order, with no other event delivered in between.
pub open spec fn run_watchdog_ticks(ctx: Context, ticks: Seq<u64>) -> Context
    decreases ticks.len(),
{
    if ticks.len() == 0 {
        ctx
    } else {
        run_watchdog_ticks(watchdog_step_ctx(ctx, ticks[0]), ticks.drop_first())
    }
}

/// Appending one tick to a run is one more step of the model.
pub proof fn lemma_run_snoc(ctx: Context, ticks: Seq<u64>, t: u64)
    ensures
        run_watchdog_ticks(ctx, ticks.push(t)) == watchdog_step_ctx(
            run_watchdog_ticks(ctx, ticks),
            t,
        ),
    decreases ticks.len(),
{
    if ticks.len() == 0 {
        assert(ticks.push(t).drop_first() =~= ticks);
        assert(ticks.push(t)[0] == t);
        assert(run_watchdog_ticks(ctx, ticks.push(t)) == run_watchdog_ticks(
            watchdog_step_ctx(ctx, t),
            ticks,
        ));
    } else {
        assert(ticks.push(t).drop_first() =~= ticks.drop_first().push(t));
        assert(ticks.push(t)[0] == ticks[0]);
        assert(run_watchdog_ticks(ctx, ticks.push(t)) == run_watchdog_ticks(
            watchdog_step_ctx(ctx, ticks[0]),
            ticks.drop_first().push(t),
        ));
        lemma_run_snoc(watchdog_step_ctx(ctx, ticks[0]), ticks.drop_first(), t);
        assert(run_watchdog_ticks(ctx, ticks) == run_watchdog_ticks(
            watchdog_step_ctx(ctx, ticks[0]),
            ticks.drop_first(),
        ));
    }
}

/// While the source is marked reconnecting the decision table is silent,
/// so any run of further ticks changes nothing.
pub proof fn lemma_reconnecting_absorbs(ctx: Context, ticks: Seq<u64>)
    requires
        ctx.reconnecting,
    ensures
        run_watchdog_ticks(ctx, ticks) == ctx,
    decreases ticks.len(),
{
    if ticks.len() > 0 {
        lemma_reconnecting_absorbs(ctx, ticks.drop_first());
    }
}

/// Ticks at which neither staleness window has fully elapsed leave the
/// context exactly as it was.
proof fn lemma_quiet_prefix(ctx: Context, ticks: Seq<u64>, k: int)
    requires
        !ctx.reconnecting,
        0 <= k <= ticks.len(),
        forall|i: int| 0 <= i < k ==> !stale_and_gated(ctx, #[trigger] ticks[i]),
    ensures
        forall|i: int| 0 <= i <= k ==> run_watchdog_ticks(ctx, ticks.take(i)) == ctx,
    decreases k,
{
    assert(ticks.take(0) =~= Seq::<u64>::empty());
    if k > 0 {
        lemma_quiet_prefix(ctx, ticks, k - 1);
        assert(ticks.take(k) =~= ticks.take(k - 1).push(ticks[k - 1]));
        lemma_run_snoc(ctx, ticks.take(k - 1), ticks[k - 1]);
        assert(watchdog_step_ctx(ctx, ticks[k - 1]) == ctx);
    }
}

/// Once a run has reached a reconnecting context, it stays there.
proof fn lemma_guarded_suffix(ctx: Context, g: Context, ticks: Seq<u64>, k: int, i: int)
    requires
        g.reconnecting,
        0 <= k < i <= ticks.len(),
        run_watchdog_ticks(ctx, ticks.take(k + 1)) == g,
    ensures
        run_watchdog_ticks(ctx, ticks.take(i)) == g,
    decreases i,
{
    if i == k + 1 {
    } else {
        lemma_guarded_suffix(ctx, g, ticks, k, i - 1);
        assert(ticks.take(i) =~= ticks.take(i - 1).push(ticks[i - 1]));
        lemma_run_snoc(ctx, ticks.take(i - 1), ticks[i - 1]);
        assert(watchdog_step_ctx(g, ticks[i - 1]) == g);
    }
}

/// Liveness threshold: starting from a healthy context with no cycle
/// pending, and with no data arriving during the run, the watchdog
/// triggers exactly one recovery cycle — at the first tick where both the
/// staleness window since `last_buffer_time` and the retry window since
/// `last_reconnect_time` have elapsed — and stays silent at every tick
/// before and after it.
pub proof fn lemma_liveness_threshold(ctx: Context, ticks: Seq<u64>, k: int)
    requires
        !ctx.reconnecting,
        !ctx.pending_restart,
        0 <= k < ticks.len(),
        stale_and_gated(ctx, ticks[k]),
        forall|i: int| 0 <= i < k ==> !stale_and_gated(ctx, #[trigger] ticks[i]),
    ensures
        forall|i: int| 0 <= i <= k ==> run_watchdog_ticks(ctx, ticks.take(i)) == ctx,
        forall|i: int|
            0 <= i < k ==> watchdog_decision(
                run_watchdog_ticks(ctx, ticks.take(i)),
                #[trigger] ticks[i],
            ) is None,
        watchdog_decision(ctx, ticks[k]) == Some(RetryReason::Timeout),
        run_watchdog_ticks(ctx, ticks.take(k + 1)) == guarded_entry(ctx),
        forall|i: int|
            k < i < ticks.len() ==> watchdog_decision(
                run_watchdog_ticks(ctx, ticks.take(i)),
                #[trigger] ticks[i],
            ) is None,
        forall|i: int|
            k < i <= ticks.len() ==> run_watchdog_ticks(ctx, ticks.take(i)) == guarded_entry(ctx),
{
    lemma_quiet_prefix(ctx, ticks, k);
    assert(ticks.take(k + 1) =~= ticks.take(k).push(ticks[k]));
    lemma_run_snoc(ctx, ticks.take(k), ticks[k]);
    let g = guarded_entry(ctx);
    assert(run_watchdog_ticks(ctx, ticks.take(k + 1)) == g);
    assert forall|i: int| k < i <= ticks.len() implies run_watchdog_ticks(ctx, ticks.take(i))
        == g by {
        lemma_guarded_suffix(ctx, g, ticks, k, i);
    }
}

} // verus!
