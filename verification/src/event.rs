//! The abstract input events and the decision rules of the background
//! input pump.
//!
//! The pump runs on its own thread outside this crate: each cycle it looks
//! for a shutdown signal, polls the input source with a bounded timeout,
//! forwards what it saw, and emits a tick once a full tick interval has
//! passed. The decisions of one cycle are the pure function `pump_step`;
//! the thread, the channels and the clock live with the caller.

use vstd::prelude::*;

verus! {

/// The key identifiers the viewer reacts to; everything else is `Other`.
#[derive(Debug, Clone, Copy, PartialEq, Eq, Structural)]
pub enum KeyPress {
    /// A printable character.
    Char(char),
    /// The up arrow.
    Up,
    /// The down arrow.
    Down,
    /// The page-up key.
    PageUp,
    /// The page-down key.
    PageDown,
    /// The enter key.
    Enter,
    /// The backspace key.
    Backspace,
    /// The escape key.
    Esc,
    /// Any other key.
    Other,
}

/// An event handed from the input pump to the consuming loop.
#[derive(Debug, Clone, Copy, PartialEq, Eq, Structural)]
pub enum Event {
    /// A periodic tick for time-based refresh.
    Tick,
    /// A key press.
    Key(KeyPress),
    /// A terminal resize to the given width and height.
    Resize(u16, u16),
}

/// What one poll of the input source came back with.
#[derive(Debug, Clone, Copy, PartialEq, Eq, Structural)]
pub enum PollOutcome {
    /// A key press arrived.
    PolledKey(KeyPress),
    /// The terminal was resized.
    PolledResize(u16, u16),
    /// Something arrived that the viewer ignores.
    PolledOther,
    /// The timeout passed without an event.
    NoEvent,
    /// Polling or reading the source failed.
    Failed,
}

/// The decisions of one pump cycle.
#[derive(Debug, Clone, Copy, PartialEq, Eq, Structural)]
pub struct PumpStep {
    /// Leave the pump loop.
    pub stop: bool,
    /// An event to hand to the consumer, in the order it was observed.
    pub forward: Option<Event>,
    /// Emit a tick after the forwarded event, and restart the tick clock.
    pub emit_tick: bool,
}

/// The longest single wait inside one poll, in milliseconds: short enough
/// that a shutdown signal is noticed promptly even under a long tick
/// interval.
pub const MAX_POLL_WAIT_MS: u64 = 50;

/// How long the next poll may wait: the time left until the next tick,
/// capped at `MAX_POLL_WAIT_MS`.
pub fn poll_timeout_ms(tick_rate_ms: u64, elapsed_ms: u64) -> (r: u64)
    ensures
        r == ({
            let rem: int = if elapsed_ms < tick_rate_ms {
                tick_rate_ms - elapsed_ms
            } else {
                0
            };
            if rem < MAX_POLL_WAIT_MS as int {
                rem
            } else {
                MAX_POLL_WAIT_MS as int
            }
        }),
        r <= MAX_POLL_WAIT_MS,
{
    let rem: u64 = if elapsed_ms < tick_rate_ms {
        tick_rate_ms - elapsed_ms
    } else {
        0
    };
    if rem < MAX_POLL_WAIT_MS {
        rem
    } else {
        MAX_POLL_WAIT_MS
    }
}

/// Whether a full tick interval has passed since the last tick.
pub fn should_emit_tick(tick_rate_ms: u64, elapsed_ms: u64) -> (r: bool)
    ensures
        r == (elapsed_ms >= tick_rate_ms),
{
    elapsed_ms >= tick_rate_ms
}

/// The decisions of one pump cycle: stop at a shutdown signal or a failed
/// poll; forward a key or resize; emit a tick when the interval has
/// passed and the cycle goes on. A tick never passes an event observed in
/// the same cycle.
pub fn pump_step(shutdown: bool, outcome: PollOutcome, tick_rate_ms: u64, elapsed_ms: u64) -> (s:
    PumpStep)
    ensures
        s.stop == (shutdown || outcome == PollOutcome::Failed),
        s.forward == (match outcome {
            PollOutcome::PolledKey(k) => if shutdown {
                None
            } else {
                Some(Event::Key(k))
            },
            PollOutcome::PolledResize(w, h) => if shutdown {
                None
            } else {
                Some(Event::Resize(w, h))
            },
            _ => None::<Event>,
        }),
        s.emit_tick == (!s.stop && elapsed_ms >= tick_rate_ms),
{
    if shutdown {
        return PumpStep { stop: true, forward: None, emit_tick: false };
    }
    match outcome {
        PollOutcome::Failed => PumpStep { stop: true, forward: None, emit_tick: false },
        PollOutcome::PolledKey(k) => PumpStep {
            stop: false,
            forward: Some(Event::Key(k)),
            emit_tick: should_emit_tick(tick_rate_ms, elapsed_ms),
        },
        PollOutcome::PolledResize(w, h) => PumpStep {
            stop: false,
            forward: Some(Event::Resize(w, h)),
            emit_tick: should_emit_tick(tick_rate_ms, elapsed_ms),
        },
        _ => PumpStep {
            stop: false,
            forward: None,
            emit_tick: should_emit_tick(tick_rate_ms, elapsed_ms),
        },
    }
}

} // verus!
