//! Timeout scheduling for cooperatively scheduled tasks: single-shot
//! timeouts that talk to a background worker through a bounded request
//! channel, and a jittered periodic interval built on top of them.
//!
//! Time is modelled explicitly: the caller supplies "now" and the identity
//! of the task that is polling, so every decision is a function of plain
//! values and is verified.

mod time;
mod worker;
mod timer;
mod interval;

pub use time::{Duration, Instant, NANOS_PER_SEC};
pub use worker::{Request, TaskId, Token, Worker};
pub use timer::{all_by, build, is_poll_run, lemma_fresh_same_task_polls, lemma_polls_then_cancel, lemma_same_task_polls, registers, registered_for, Poll, Timeout, Timer, DEFAULT_CHANNEL_CAPACITY};
pub use interval::{in_draw_range, is_jitter_sample, lemma_interval_spacing, lemma_jitter_in_range, new, next_duration, secs_bounds, secs_range, subsec_bounds, subsec_range, valid_range, Interval, TimerError};
