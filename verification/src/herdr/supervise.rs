//! The reconnect policy, as a value that takes the clock as an argument.
//!
//! Times and durations are nanoseconds on a clock that never runs backwards.
use vstd::prelude::*;

verus! {

/// First retry delay, and what a healthy connection resets to.
pub const INITIAL_BACKOFF: u128 = 500_000_000;

/// Slowest retry.
pub const MAX_BACKOFF: u128 = 30_000_000_000;

/// How long a connection has to last before it counts as having worked. A
/// subscription that is acknowledged and closed at once still opened, and must
/// not earn a fast retry.
pub const MIN_HEALTHY: u128 = 30_000_000_000;

/// How long the socket has to stay missing before the session counts as ended.
pub const GONE_AFTER: u128 = 60_000_000_000;

/// What to do after one connection attempt ended.
#[derive(Debug, Clone, Copy, PartialEq, Eq, Structural)]
pub enum Next {
    /// Wait this long, then try again.
    Retry(u128),
    /// The session really has gone.
    Stop,
}

#[derive(Debug)]
pub struct Supervisor {
    delay: u128,
    /// When the socket was first noticed missing, while it still is.
    missing_since: Option<u128>,
}

pub struct SupervisorModel {
    pub delay: u128,
    pub missing_since: Option<u128>,
}

impl View for Supervisor {
    type V = SupervisorModel;

    closed spec fn view(&self) -> SupervisorModel {
        SupervisorModel { delay: self.delay, missing_since: self.missing_since }
    }
}

impl SupervisorModel {
    pub open spec fn wf(self) -> bool {
        INITIAL_BACKOFF <= self.delay <= MAX_BACKOFF
    }

    /// Whether the clock has not run backwards.
    pub open spec fn in_time(self, now: u128) -> bool {
        self.missing_since matches Some(since) ==> since <= now
    }

    /// The delay after a connection that lasted `uptime`.
    pub open spec fn delay_after(self, uptime: u128) -> u128 {
        if uptime >= MIN_HEALTHY {
            INITIAL_BACKOFF
        } else if self.delay * 2 <= MAX_BACKOFF {
            (self.delay * 2) as u128
        } else {
            MAX_BACKOFF
        }
    }

    /// Since when the socket has been missing, if it is.
    pub open spec fn missing_at(self, now: u128, present: bool) -> Option<u128> {
        if present {
            None
        } else if self.missing_since is Some {
            self.missing_since
        } else {
            Some(now)
        }
    }

    pub open spec fn after(self, now: u128, uptime: u128, present: bool) -> SupervisorModel {
        SupervisorModel {
            delay: self.delay_after(uptime),
            missing_since: self.missing_at(now, present),
        }
    }

    /// What is done after an attempt.
    pub open spec fn next(self, now: u128, uptime: u128, present: bool) -> Next {
        match self.missing_at(now, present) {
            Some(since) if now - since >= GONE_AFTER => Next::Stop,
            _ => Next::Retry(self.delay_after(uptime)),
        }
    }
}

impl Default for Supervisor {
    fn default() -> (r: Self)
        ensures
            r@ == (SupervisorModel { delay: INITIAL_BACKOFF, missing_since: None }),
    {
        Supervisor::new()
    }
}

impl Supervisor {
    pub fn new() -> (r: Self)
        ensures
            r@ == (SupervisorModel { delay: INITIAL_BACKOFF, missing_since: None }),
            r@.wf(),
    {
        Supervisor { delay: INITIAL_BACKOFF, missing_since: None }
    }

    /// Record how one attempt went and say what to do next. `uptime` is how
    /// long the connection lasted, zero if it never opened.
    pub fn after(&mut self, now: u128, uptime: u128, socket_present: bool) -> (r: Next)
        requires
            old(self)@.wf(),
            old(self)@.in_time(now),
        ensures
            final(self)@ == old(self)@.after(now, uptime, socket_present),
            final(self)@.wf(),
            r == old(self)@.next(now, uptime, socket_present),
    {
        if uptime >= MIN_HEALTHY {
            self.delay = INITIAL_BACKOFF;
        } else if self.delay * 2 <= MAX_BACKOFF {
            self.delay = self.delay * 2;
        } else {
            self.delay = MAX_BACKOFF;
        }
        if socket_present {
            self.missing_since = None;
            return Next::Retry(self.delay);
        }
        let since: u128 = match self.missing_since {
            Some(since) => since,
            None => now,
        };
        self.missing_since = Some(since);
        if now - since >= GONE_AFTER {
            Next::Stop
        } else {
            Next::Retry(self.delay)
        }
    }

    /// The delay the next retry would use.
    pub fn backoff(&self) -> (r: u128)
        ensures
            r == self@.delay,
    {
        self.delay
    }
}

/// A session whose socket is there is never given up.
pub proof fn law_a_present_socket_never_ends_the_watch(
    s: SupervisorModel,
    now: u128,
    uptime: u128,
)
    ensures
        s.next(now, uptime, true) is Retry,
        s.after(now, uptime, true).missing_since is None,
{
}

/// A session is given up only after its socket was missing for the whole time,
/// at every attempt in between: a socket that was seen starts the clock over.
pub proof fn law_only_a_lasting_absence_ends_the_watch(
    s: SupervisorModel,
    now: u128,
    uptime: u128,
    present: bool,
)
    requires
        s.in_time(now),
    ensures
        s.next(now, uptime, present) == Next::Stop <==> !present && (
        s.missing_since matches Some(since) && now - since >= GONE_AFTER),
{
}

/// Connections that die at once are tried more and more slowly, up to a
/// ceiling, and only one that lasted earns a fast retry again.
pub proof fn law_instant_deaths_back_off(s: SupervisorModel, uptime: u128)
    requires
        s.wf(),
    ensures
        s.delay_after(uptime) == INITIAL_BACKOFF || s.delay_after(uptime) >= s.delay,
        uptime < MIN_HEALTHY && s.delay < MAX_BACKOFF ==> s.delay_after(uptime) > s.delay,
        s.delay_after(uptime) <= MAX_BACKOFF,
{
}

} // verus!
