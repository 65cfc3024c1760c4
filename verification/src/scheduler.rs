use vstd::prelude::*;

verus! {

/// A one-shot, time-deferred action primitive, polled cooperatively from the
/// host's update loop.
///
/// The holder constructs it with a delay and the current instant (in
/// milliseconds), then calls [`Scheduler::update`] on every tick.  Before the
/// delay elapses, `update` reports "not yet"; the first poll at or after the
/// deadline reports that the action fired; every later poll reports "not yet"
/// forever.  Dropping the value is the only cancellation mechanism.
pub struct Scheduler {
    /// How long after `time_scheduled` the action becomes due, in milliseconds.
    pub delay: u64,
    /// The instant the action was scheduled, in milliseconds.
    pub time_scheduled: u64,
    /// Set permanently once the action has fired.
    pub done: bool,
}

impl Scheduler {
    /// The action is due at `now_ms`: the delay has fully elapsed.
    pub open spec fn due(self, now_ms: u64) -> bool {
        now_ms >= self.time_scheduled + self.delay
    }

    pub fn new(delay: u64, now_ms: u64) -> (s: Scheduler)
        ensures
            s.delay == delay,
            s.time_scheduled == now_ms,
            !s.done,
    {
        Scheduler { delay, time_scheduled: now_ms, done: false }
    }

    /// Polls the action.  Returns true exactly when the action fires: on the
    /// first poll whose instant is at or past the deadline.  A completed
    /// scheduler is inert and never fires again.
    pub fn update(&mut self, now_ms: u64) -> (fired: bool)
        ensures
            fired == (!old(self).done && old(self).due(now_ms)),
            final(self).delay == old(self).delay,
            final(self).time_scheduled == old(self).time_scheduled,
            final(self).done == (old(self).done || fired),
    {
        if self.done {
            return false;
        }

        if now_ms >= self.time_scheduled && now_ms - self.time_scheduled >= self.delay {
            self.done = true;
            return true;
        }

        false
    }
}

} // verus!
