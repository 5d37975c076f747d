//! Liveness watchdog and reconnection controller for a long-lived media
//! source embedded in a processing pipeline.
//!
//! The controller watches a shared [`context::Context`] record that a data
//! probe stamps on every unit of media, decides when the source has gone
//! stale, and drives a teardown / cooldown / resynchronize cycle to
//! completion or failure.  All waiting is expressed as timers on a
//! cooperative [`timer::Scheduler`], an injected capability with a virtual
//! clock, so every decision of the controller is a verified function of the
//! current context snapshot and the incoming event.  The embedding pipeline
//! performs the requested state transitions and feeds their outcomes back.
//!
//! The properties that relate several handlers — one recovery cycle at a
//! time, silence after destruction, the exact staleness threshold — are
//! stated and proved in [`laws`].

pub mod context;
pub mod laws;
pub mod manager;
pub mod timer;
