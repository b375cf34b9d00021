//! A door-buzzer service core: a mutation-guarded activation counter behind a
//! unary unlock operation, and a per-subscription state machine that produces
//! a paced, backpressure-respecting, cleanly cancellable sequence of ring
//! notifications through a bounded FIFO delivery queue.
//!
//! Transport, pacing timers and task scheduling are thin collaborators that
//! live outside this crate; the contracts here fix the service-level
//! behaviour those layers must honor.

pub mod decimal;
pub mod door;
pub mod laws;
pub mod ring;
