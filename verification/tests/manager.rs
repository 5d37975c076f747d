//! Unit behaviour of the connection manager: the probe, the watchdog
//! decision table, the orchestrator guard and the destruction path.

use reconnect::context::{Action, Context, RetryReason, SourceState, TransitionError, TransitionOutcome};
use reconnect::manager::BinConectionManager;
use reconnect::timer::{Scheduler, TimerTag};

/// Advances the scheduler to `horizon`, delivering every watchdog tick to
/// the manager and panicking if anything else fires or any tick asks for
/// an action.
fn drain_quiet_ticks(m: &mut BinConectionManager, s: &mut Scheduler, horizon: u64) {
    while let Some((_, tag)) = s.fire_next(horizon) {
        assert_eq!(tag, TimerTag::Watchdog);
        assert_eq!(m.on_watchdog_tick(s), None);
    }
}

#[test]
fn fresh_manager_is_not_reconnecting() {
    let mut s = Scheduler::new();
    let m = BinConectionManager::new(&mut s);
    assert!(!m.is_reconnecting());
    assert!(!m.ctx.pending_restart);
}

#[test]
fn is_reconnecting_has_no_side_effects() {
    let mut s = Scheduler::new();
    let m = BinConectionManager::new(&mut s);
    let before = m.ctx;
    for _ in 0..100 {
        assert!(!m.is_reconnecting());
    }
    assert_eq!(m.ctx, before);
}

#[test]
fn buffer_probe_stamps_alive() {
    let mut s = Scheduler::new();
    let mut m = BinConectionManager::new(&mut s);
    m.setup_src_pad();
    assert_eq!(s.fire_next(400), None);
    m.on_buffer(&s);
    assert_eq!(m.ctx.last_buffer_time, 400);
    assert!(!m.is_reconnecting());
}

#[test]
fn buffer_probe_clears_reconnecting_mid_cycle() {
    let mut s = Scheduler::new();
    let mut m = BinConectionManager::new(&mut s);
    m.setup_src_pad();
    assert_eq!(m.handle_source_error(&mut s, RetryReason::Timeout), Some(Action::Teardown));
    assert!(m.is_reconnecting());
    m.on_buffer(&s);
    assert!(!m.is_reconnecting());
    // the cycle itself is still pending; only the liveness flag dropped
    assert!(m.ctx.pending_restart);
}

#[test]
fn second_orchestrator_invocation_is_noop() {
    let mut s = Scheduler::new();
    let mut m = BinConectionManager::new(&mut s);
    assert_eq!(m.handle_source_error(&mut s, RetryReason::Timeout), Some(Action::Teardown));
    let snapshot = m.ctx;
    assert_eq!(m.handle_source_error(&mut s, RetryReason::StateChangeFailure), None);
    assert_eq!(m.ctx, snapshot);
    m.on_teardown_complete(&mut s);
    // still pending: a third invocation is still refused
    assert_eq!(m.handle_source_error(&mut s, RetryReason::Timeout), None);
}

#[test]
fn watchdog_triggers_at_first_qualifying_tick_only() {
    let mut s = Scheduler::new();
    let mut m = BinConectionManager::new(&mut s);
    // no data at all after attachment at time zero
    for tick in 1u64..=9 {
        assert_eq!(s.fire_next(tick * 1_000), Some((0, TimerTag::Watchdog)));
        assert_eq!(m.on_watchdog_tick(&mut s), None, "tick at {} ms must not trigger", tick * 1_000);
    }
    assert_eq!(s.fire_next(10_000), Some((0, TimerTag::Watchdog)));
    assert_eq!(m.on_watchdog_tick(&mut s), Some(Action::Teardown));
    assert!(m.is_reconnecting());
    // later ticks are silent while the recovery is in flight
    assert_eq!(s.fire_next(11_000), Some((0, TimerTag::Watchdog)));
    assert_eq!(m.on_watchdog_tick(&mut s), None);
}

#[test]
fn watchdog_respects_reconnect_gate() {
    let mut s = Scheduler::new();
    let mut m = BinConectionManager::new(&mut s);
    // a full recovery that completes at 10 s
    drain_quiet_ticks(&mut m, &mut s, 9_999);
    assert_eq!(s.fire_next(10_000), Some((0, TimerTag::Watchdog)));
    assert_eq!(m.on_watchdog_tick(&mut s), Some(Action::Teardown));
    m.on_teardown_complete(&mut s);
    // cooldown elapses at 15 s
    drain_quiet_ticks(&mut m, &mut s, 14_999);
    assert_eq!(s.fire_next(15_000), Some((0, TimerTag::Watchdog)));
    assert_eq!(m.on_watchdog_tick(&mut s), None);
    assert_eq!(s.fire_next(15_000), Some((1, TimerTag::Cooldown)));
    assert_eq!(m.on_cooldown_fired(&mut s), Action::Resync);
    assert_eq!(m.on_resync_result(&mut s, Ok(TransitionOutcome::Complete)), None);
    assert!(!m.is_reconnecting());
    assert_eq!(m.ctx.last_reconnect_time, 15_000);
    // still no data: stale, but held back until 10 s after the reconnect stamp
    for tick in 16u64..=24 {
        assert_eq!(s.fire_next(tick * 1_000), Some((0, TimerTag::Watchdog)));
        assert_eq!(m.on_watchdog_tick(&mut s), None, "tick at {} ms is too soon after the last attempt", tick * 1_000);
    }
    assert_eq!(s.fire_next(25_000), Some((0, TimerTag::Watchdog)));
    assert_eq!(m.on_watchdog_tick(&mut s), Some(Action::Teardown));
}

#[test]
fn resync_failure_reenters_teardown_immediately() {
    let mut s = Scheduler::new();
    let mut m = BinConectionManager::new(&mut s);
    assert_eq!(m.handle_source_error(&mut s, RetryReason::Timeout), Some(Action::Teardown));
    m.on_teardown_complete(&mut s);
    drain_quiet_ticks(&mut m, &mut s, 4_999);
    assert_eq!(s.fire_next(5_000), Some((0, TimerTag::Watchdog)));
    assert_eq!(m.on_watchdog_tick(&mut s), None);
    assert_eq!(s.fire_next(5_000), Some((1, TimerTag::Cooldown)));
    assert_eq!(m.on_cooldown_fired(&mut s), Action::Resync);
    assert!(!m.ctx.pending_restart);
    // the failure is recovered locally, without waiting for a watchdog tick
    assert_eq!(m.on_resync_result(&mut s, Err(TransitionError)), Some(Action::Teardown));
    assert!(m.ctx.pending_restart);
    assert!(m.is_reconnecting());
}

#[test]
fn resync_async_starts_poll_and_playing_ends_it() {
    let mut s = Scheduler::new();
    let mut m = BinConectionManager::new(&mut s);
    assert_eq!(m.handle_source_error(&mut s, RetryReason::Timeout), Some(Action::Teardown));
    m.on_teardown_complete(&mut s);
    drain_quiet_ticks(&mut m, &mut s, 4_999);
    assert_eq!(s.fire_next(5_000), Some((0, TimerTag::Watchdog)));
    assert_eq!(m.on_watchdog_tick(&mut s), None);
    assert_eq!(s.fire_next(5_000), Some((1, TimerTag::Cooldown)));
    assert_eq!(m.on_cooldown_fired(&mut s), Action::Resync);
    assert_eq!(m.on_resync_result(&mut s, Ok(TransitionOutcome::Async)), None);
    let poll = m.ctx.async_watch_timer_handle.expect("poll must be scheduled");
    // polls every 20 ms while the transition stays asynchronous
    assert_eq!(s.fire_next(60_000), Some((poll, TimerTag::AsyncWatch)));
    assert_eq!(s.now(), 5_020);
    assert_eq!(
        m.watch_source_async_state_change(&mut s, Ok(TransitionOutcome::Async), SourceState::Paused),
        None
    );
    assert_eq!(s.fire_next(60_000), Some((poll, TimerTag::AsyncWatch)));
    assert_eq!(s.now(), 5_040);
    assert!(m.is_reconnecting());
    // the first poll that sees the running state finishes the recovery
    assert_eq!(
        m.watch_source_async_state_change(
            &mut s,
            Ok(TransitionOutcome::Complete),
            SourceState::Playing
        ),
        None
    );
    assert!(!m.is_reconnecting());
    assert_eq!(m.ctx.async_watch_timer_handle, None);
    // the poll is cancelled: only watchdog ticks remain
    drain_quiet_ticks(&mut m, &mut s, 9_000);
}

#[test]
fn nopreroll_resync_also_starts_poll() {
    let mut s = Scheduler::new();
    let mut m = BinConectionManager::new(&mut s);
    assert_eq!(m.handle_source_error(&mut s, RetryReason::Timeout), Some(Action::Teardown));
    m.on_teardown_complete(&mut s);
    drain_quiet_ticks(&mut m, &mut s, 4_999);
    assert_eq!(s.fire_next(5_000), Some((0, TimerTag::Watchdog)));
    assert_eq!(m.on_watchdog_tick(&mut s), None);
    assert_eq!(s.fire_next(5_000), Some((1, TimerTag::Cooldown)));
    assert_eq!(m.on_cooldown_fired(&mut s), Action::Resync);
    assert_eq!(m.on_resync_result(&mut s, Ok(TransitionOutcome::NoPreroll)), None);
    assert!(m.ctx.async_watch_timer_handle.is_some());
}

#[test]
fn poll_rerequests_playing_on_settled_nonterminal_state() {
    let mut s = Scheduler::new();
    let mut m = BinConectionManager::new(&mut s);
    assert_eq!(m.handle_source_error(&mut s, RetryReason::Timeout), Some(Action::Teardown));
    m.on_teardown_complete(&mut s);
    drain_quiet_ticks(&mut m, &mut s, 4_999);
    assert_eq!(s.fire_next(5_000), Some((0, TimerTag::Watchdog)));
    assert_eq!(m.on_watchdog_tick(&mut s), None);
    assert_eq!(s.fire_next(5_000), Some((1, TimerTag::Cooldown)));
    assert_eq!(m.on_cooldown_fired(&mut s), Action::Resync);
    assert_eq!(m.on_resync_result(&mut s, Ok(TransitionOutcome::Async)), None);
    let poll = m.ctx.async_watch_timer_handle.unwrap();
    assert_eq!(s.fire_next(5_020), Some((poll, TimerTag::AsyncWatch)));
    assert_eq!(
        m.watch_source_async_state_change(
            &mut s,
            Ok(TransitionOutcome::Complete),
            SourceState::Paused
        ),
        Some(Action::RequestPlaying)
    );
    // the poll keeps running
    assert!(m.ctx.async_watch_timer_handle.is_some());
    assert_eq!(s.fire_next(5_040), Some((poll, TimerTag::AsyncWatch)));
}

#[test]
fn poll_query_failure_reenters_teardown() {
    let mut s = Scheduler::new();
    let mut m = BinConectionManager::new(&mut s);
    assert_eq!(m.handle_source_error(&mut s, RetryReason::Timeout), Some(Action::Teardown));
    m.on_teardown_complete(&mut s);
    drain_quiet_ticks(&mut m, &mut s, 4_999);
    assert_eq!(s.fire_next(5_000), Some((0, TimerTag::Watchdog)));
    assert_eq!(m.on_watchdog_tick(&mut s), None);
    assert_eq!(s.fire_next(5_000), Some((1, TimerTag::Cooldown)));
    assert_eq!(m.on_cooldown_fired(&mut s), Action::Resync);
    assert_eq!(m.on_resync_result(&mut s, Ok(TransitionOutcome::Async)), None);
    let poll = m.ctx.async_watch_timer_handle.unwrap();
    assert_eq!(s.fire_next(5_020), Some((poll, TimerTag::AsyncWatch)));
    assert_eq!(
        m.watch_source_async_state_change(&mut s, Err(TransitionError), SourceState::Paused),
        Some(Action::Teardown)
    );
    assert_eq!(m.ctx.async_watch_timer_handle, None);
    assert!(m.ctx.pending_restart);
    assert!(m.is_reconnecting());
}

#[test]
fn shutdown_cancels_everything_even_if_never_scheduled() {
    let mut s = Scheduler::new();
    let mut m = BinConectionManager::new(&mut s);
    // cooldown, poll and restart were never scheduled
    m.shutdown(&mut s);
    assert_eq!(m.ctx.watchdog_timer_handle, None);
    assert_eq!(s.fire_next(1_000_000), None);
    // destruction is idempotent
    m.shutdown(&mut s);
    assert_eq!(s.fire_next(2_000_000), None);
}

#[test]
fn shutdown_mid_cycle_silences_every_callback() {
    let mut s = Scheduler::new();
    let mut m = BinConectionManager::new(&mut s);
    assert_eq!(m.handle_source_error(&mut s, RetryReason::Timeout), Some(Action::Teardown));
    m.on_teardown_complete(&mut s);
    // a cooldown timer and the watchdog are both live now
    m.shutdown(&mut s);
    assert_eq!(s.fire_next(u64::MAX), None, "no callback may run after destruction");
}

#[test]
fn shutdown_with_live_poll_silences_it() {
    let mut s = Scheduler::new();
    let mut m = BinConectionManager::new(&mut s);
    assert_eq!(m.handle_source_error(&mut s, RetryReason::Timeout), Some(Action::Teardown));
    m.on_teardown_complete(&mut s);
    drain_quiet_ticks(&mut m, &mut s, 4_999);
    assert_eq!(s.fire_next(5_000), Some((0, TimerTag::Watchdog)));
    assert_eq!(m.on_watchdog_tick(&mut s), None);
    assert_eq!(s.fire_next(5_000), Some((1, TimerTag::Cooldown)));
    assert_eq!(m.on_cooldown_fired(&mut s), Action::Resync);
    assert_eq!(m.on_resync_result(&mut s, Ok(TransitionOutcome::Async)), None);
    assert!(m.ctx.async_watch_timer_handle.is_some());
    m.shutdown(&mut s);
    assert_eq!(s.fire_next(u64::MAX), None);
}

#[test]
fn context_new_is_healthy_and_timerless() {
    let c = Context::new(1_234);
    assert!(!c.reconnecting);
    assert!(!c.pending_restart);
    assert_eq!(c.last_buffer_time, 1_234);
    assert_eq!(c.last_reconnect_time, 1_234);
    assert_eq!(c.watchdog_timer_handle, None);
    assert_eq!(c.async_watch_timer_handle, None);
    assert_eq!(c.cooldown_timer_handle, None);
    assert_eq!(c.restart_timer_handle, None);
}

#[test]
fn buffer_time_never_goes_backwards() {
    let mut s = Scheduler::new();
    let mut m = BinConectionManager::new(&mut s);
    m.setup_src_pad();
    assert_eq!(s.fire_next(100), None);
    m.on_buffer(&s);
    assert_eq!(m.ctx.last_buffer_time, 100);
    assert_eq!(s.fire_next(250), None);
    m.on_buffer(&s);
    assert_eq!(m.ctx.last_buffer_time, 250);
}

#[test]
fn permanently_failing_resync_retries_at_fixed_rate() {
    let mut s = Scheduler::new();
    let mut m = BinConectionManager::new(&mut s);
    drain_quiet_ticks(&mut m, &mut s, 9_999);
    assert_eq!(s.fire_next(10_000), Some((0, TimerTag::Watchdog)));
    assert_eq!(m.on_watchdog_tick(&mut s), Some(Action::Teardown));
    m.on_teardown_complete(&mut s);
    // a permanently broken source: every resynchronization fails, and each
    // retry follows the previous one after the same 5 s cooldown
    let mut expected_cooldown = 15_000;
    for _ in 0..3 {
        loop {
            let (_, tag) = s.fire_next(expected_cooldown).expect("cooldown must come due");
            match tag {
                TimerTag::Watchdog => assert_eq!(m.on_watchdog_tick(&mut s), None),
                TimerTag::Cooldown => break,
                other => panic!("unexpected timer: {:?}", other),
            }
        }
        assert_eq!(s.now(), expected_cooldown);
        assert_eq!(m.on_cooldown_fired(&mut s), Action::Resync);
        assert_eq!(m.on_resync_result(&mut s, Err(TransitionError)), Some(Action::Teardown));
        m.on_teardown_complete(&mut s);
        expected_cooldown += 5_000;
    }
    // never surfaced as a fatal error: the only outward sign is the flag
    assert!(m.is_reconnecting());
}
