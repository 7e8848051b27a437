use vstd::prelude::*;

verus! {

/// The interval between polls right after a diff was applied, in milliseconds.
pub const BASE_POLL_INTERVAL_MS: u64 = 20;

/// The longest interval between polls, in milliseconds.
pub const MAX_POLL_INTERVAL_MS: u64 = 30000;

/// The interval after one more decision cycle: doubled, up to the ceiling.
pub open spec fn backed_off(interval: u64) -> u64 {
    if 2 * interval >= MAX_POLL_INTERVAL_MS {
        MAX_POLL_INTERVAL_MS
    } else {
        (2 * interval) as u64
    }
}

/// Whether a decision cycle at `now_ms` sends a poll: none is outstanding,
/// the session lives, and the doubled interval has passed since the last one.
pub open spec fn poll_due(s: PollScheduler, now_ms: u64) -> bool {
    !s.polling() && !s.dead() && now_ms >= s.last_poll() && now_ms - s.last_poll() >= backed_off(
        s.interval(),
    )
}

/// How a poll for a diff failed.
#[derive(Clone, Copy, PartialEq, Eq, Structural, Debug)]
pub enum PollFailure {
    /// The connection broke; a later poll may succeed.
    Retryable,
    /// Anything else: the session is gone.
    Fatal,
}

/// Decides when to ask the remote endpoint for a new diff: with exponential
/// backoff, never while a poll is outstanding, and never once the session
/// is dead.
pub struct PollScheduler {
    interval_ms: u64,
    last_poll_ms: u64,
    in_progress: bool,
    dead: bool,
}

impl PollScheduler {
    pub closed spec fn interval(&self) -> u64 {
        self.interval_ms
    }

    pub closed spec fn last_poll(&self) -> u64 {
        self.last_poll_ms
    }

    pub closed spec fn polling(&self) -> bool {
        self.in_progress
    }

    pub closed spec fn dead(&self) -> bool {
        self.dead
    }

    pub closed spec fn wf(&self) -> bool {
        BASE_POLL_INTERVAL_MS <= self.interval_ms <= MAX_POLL_INTERVAL_MS
    }

    /// A scheduler that counts the last poll as made at `now_ms`.
    pub fn new(now_ms: u64) -> (r: PollScheduler)
        ensures
            r.wf(),
            r.interval() == BASE_POLL_INTERVAL_MS,
            r.last_poll() == now_ms,
            !r.polling(),
            !r.dead(),
    {
        PollScheduler {
            interval_ms: BASE_POLL_INTERVAL_MS,
            last_poll_ms: now_ms,
            in_progress: false,
            dead: false,
        }
    }

    /// One decision cycle at time `now_ms`: unless a poll is outstanding,
    /// the interval doubles up to the ceiling. A poll is due once that
    /// interval has passed since the last one, provided the session lives.
    /// A due poll is recorded as outstanding from now on.
    pub fn should_poll(&mut self, now_ms: u64) -> (r: bool)
        requires
            old(self).wf(),
        ensures
            final(self).wf(),
            final(self).dead() == old(self).dead(),
            r == poll_due(*old(self), now_ms),
            old(self).polling() ==> !r && *final(self) == *old(self),
            !old(self).polling() ==> {
                &&& final(self).interval() == backed_off(old(self).interval())
                &&& r == (!old(self).dead() && now_ms >= old(self).last_poll() && now_ms
                    - old(self).last_poll() >= final(self).interval())
                &&& r ==> final(self).polling() && final(self).last_poll() == now_ms
                &&& !r ==> !final(self).polling() && final(self).last_poll() == old(self).last_poll()
            },
    {
        if self.in_progress {
            return false;
        }
        let doubled = self.interval_ms * 2;
        self.interval_ms = if doubled >= MAX_POLL_INTERVAL_MS {
            MAX_POLL_INTERVAL_MS
        } else {
            doubled
        };
        if self.dead || now_ms < self.last_poll_ms || now_ms - self.last_poll_ms < self.interval_ms {
            return false;
        }
        self.last_poll_ms = now_ms;
        self.in_progress = true;
        true
    }

    /// The outstanding poll finished: a fatal failure kills the session for
    /// good; success and a retryable failure leave it as it was.
    pub fn poll_finished(&mut self, outcome: Result<(), PollFailure>)
        requires
            old(self).wf(),
        ensures
            final(self).wf(),
            !final(self).polling(),
            final(self).interval() == old(self).interval(),
            final(self).last_poll() == old(self).last_poll(),
            final(self).dead() == (old(self).dead() || outcome == Err::<(), PollFailure>(
                PollFailure::Fatal,
            )),
    {
        self.in_progress = false;
        match outcome {
            Err(PollFailure::Fatal) => {
                self.dead = true;
            },
            _ => {},
        }
    }

    /// A diff was applied: the interval falls back to its base value.
    pub fn reset_interval(&mut self)
        ensures
            final(self).wf(),
            final(self).interval() == BASE_POLL_INTERVAL_MS,
            final(self).last_poll() == old(self).last_poll(),
            final(self).polling() == old(self).polling(),
            final(self).dead() == old(self).dead(),
    {
        self.interval_ms = BASE_POLL_INTERVAL_MS;
    }

    /// The current interval between polls, in milliseconds.
    pub fn interval_ms(&self) -> (r: u64)
        ensures
            r == self.interval(),
    {
        self.interval_ms
    }

    /// Whether a fatal poll failure ended the session.
    pub fn is_dead(&self) -> (r: bool)
        ensures
            r == self.dead(),
    {
        self.dead
    }

    /// Whether a poll is outstanding.
    pub fn is_polling(&self) -> (r: bool)
        ensures
            r == self.polling(),
    {
        self.in_progress
    }
}

} // verus!
