use vstd::prelude::*;

use std::time::Instant;

verus! {

/// A point of the monotonic clock, carried through unread.
#[verifier::external_type_specification]
#[verifier::external_body]
pub struct ExInstant(std::time::Instant);

/// Relies on std::time::Instant::now to read the monotonic clock; nothing is
/// known of the value it returns.
pub assume_specification[ std::time::Instant::now ]() -> std::time::Instant;

/// Shortest time between two passes of the event loop: 16 ms, for at most
/// about 60 passes a second.
pub const FRAME_INTERVAL_NANOS: u128 = 16_000_000;

/// The decisions of the window's event loop: how long to wait before
/// polling, and whether to block for the next event. The loop itself (the
/// sleeping, polling and waiting) belongs to the window system's caller.
pub struct EventLoop {
    ui_needs_update: bool,
    last_update: Instant,
}

impl EventLoop {
    /// Whether the interface must be updated on the next pass even without
    /// events.
    pub closed spec fn pending_update(&self) -> bool {
        self.ui_needs_update
    }

    /// When the last pass finished.
    pub closed spec fn updated_at(&self) -> Instant {
        self.last_update
    }

    /// A loop that starts now and updates the interface on its first pass.
    pub fn new() -> (r: Self)
        ensures
            r.pending_update(),
    {
        EventLoop { last_update: Instant::now(), ui_needs_update: true }
    }

    /// Asks for another update of the interface whether or not events are
    /// pending, as when part of it is still animating.
    pub fn needs_update(&mut self)
        ensures
            final(self).pending_update(),
            final(self).updated_at() == old(self).updated_at(),
    {
        self.ui_needs_update = true;
    }

    pub fn ui_needs_update(&self) -> (r: bool)
        ensures
            r == self.pending_update(),
    {
        self.ui_needs_update
    }

    pub fn last_update(&self) -> (r: Instant)
        ensures
            r == self.updated_at(),
    {
        self.last_update
    }

    /// How long to sleep before polling, given the nanoseconds elapsed since
    /// the last pass: what is left of the frame interval, or nothing.
    pub fn frame_delay(elapsed_nanos: u128) -> (r: u128)
        ensures
            elapsed_nanos < FRAME_INTERVAL_NANOS ==> r == FRAME_INTERVAL_NANOS - elapsed_nanos,
            elapsed_nanos >= FRAME_INTERVAL_NANOS ==> r == 0,
    {
        if elapsed_nanos < FRAME_INTERVAL_NANOS {
            FRAME_INTERVAL_NANOS - elapsed_nanos
        } else {
            0
        }
    }

    /// Whether to block until the next event: only when polling found none
    /// and no update is pending.
    pub fn should_wait(&self, pending_events: usize) -> (r: bool)
        ensures
            r == (pending_events == 0 && !self.pending_update()),
    {
        pending_events == 0 && !self.ui_needs_update
    }

    /// Records the end of a pass at `at`: the pending update is done.
    pub fn finish_pass(&mut self, at: Instant)
        ensures
            !final(self).pending_update(),
            final(self).updated_at() == at,
    {
        self.ui_needs_update = false;
        self.last_update = at;
    }
}

} // verus!
