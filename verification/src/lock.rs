//! One writer at a time for each worktree's history.
//!
//! The lock is a file that only one process can create. Its holder stamps it
//! again and again, so a file nobody has stamped for a while was left behind by
//! a process that is gone, and is broken by whoever notices. Nobody ever waits
//! for it for ever.
use crate::paths::{join, joined};
use crate::strings::{dec, opt_text, owned, push_dec, same, trim, trim_str};
use vstd::prelude::*;
use vstd::string::*;

verus! {

/// How long a lock file may go without a stamp before it counts as debris, in
/// nanoseconds.
pub const STALE_AFTER: u128 = 30_000_000_000;

/// How often a holder stamps its lock file, in nanoseconds.
pub const BEAT: u128 = 5_000_000_000;

/// How often a waiter tries again, in nanoseconds.
pub const POLL: u128 = 15_000_000;

/// The lock is held by someone else and did not come free in time.
#[derive(Debug)]
pub struct Busy {
    pub path: String,
    /// Whatever the holder wrote about itself.
    pub holder: String,
    /// How long the lock was waited for, in nanoseconds.
    pub waited: u128,
}

impl Busy {
    /// What to tell the user, with the time waited as `seconds`.
    pub fn text(&self, seconds: &str) -> (r: String)
        ensures
            r@ == "another Sheep process is writing this worktree's history ("@ + self.holder@
                + ") and did not finish within "@ + seconds@ + "s. Nothing was changed; try again."@,
    {
        let mut s: String = owned("another Sheep process is writing this worktree's history (");
        s.append(self.holder.as_str());
        s.append(") and did not finish within ");
        s.append(seconds);
        s.append("s. Nothing was changed; try again.");
        s
    }
}

/// How far apart two points in time are.
pub open spec fn apart(a: u128, b: u128) -> int {
    if a >= b {
        a - b
    } else {
        b - a
    }
}

/// Whether a lock file stamped at `modified` is debris at `now`. A stamp too
/// far ahead counts as well: no holder could ever catch up with it.
pub fn is_stale(now: u128, modified: u128) -> (r: bool)
    ensures
        r == (apart(now, modified) > STALE_AFTER),
{
    if now >= modified {
        now - modified > STALE_AFTER
    } else {
        modified - now > STALE_AFTER
    }
}

/// What a lock file says about its holder, if anything.
pub open spec fn holder_of(body: Seq<char>) -> Option<Seq<char>> {
    if trim(body).len() > 0 {
        Some(trim(body))
    } else {
        None
    }
}

/// What a lock file says about its holder, if anything.
pub fn holder(body: &str) -> (r: Option<String>)
    ensures
        opt_text(r) == holder_of(body@),
{
    let s: String = trim_str(body);
    if s.as_str().is_empty() {
        None
    } else {
        Some(s)
    }
}

/// Whether a lock file that can be read as `body` is still the one written with
/// `token`. One that is not is left alone: neither stamped nor removed.
pub fn still_ours(body: &Option<String>, token: &str) -> (r: bool)
    ensures
        r == (body matches Some(b) && holder_of(b@) == Some(token@)),
{
    match body {
        Some(b) => match holder(b.as_str()) {
            Some(h) => same(h.as_str(), token),
            None => false,
        },
        None => false,
    }
}

/// What identifies one holder: the process, the time, and a count that keeps
/// two holders in one process apart.
pub fn token(pid: u64, nanos: u64, count: u64) -> (r: String)
    ensures
        r@ == "pid "@ + dec(pid as nat) + " · "@ + dec(nanos as nat) + "·"@ + dec(count as nat),
{
    let mut s: String = owned("pid ");
    push_dec(&mut s, pid);
    s.append(" · ");
    push_dec(&mut s, nanos);
    s.append("·");
    push_dec(&mut s, count);
    s
}

/// The lock file of a worktree.
pub open spec fn lock_path(state: Seq<char>, worktree: Seq<char>) -> Seq<char> {
    joined(joined(state, "locks"@), worktree + ".lock"@)
}

/// How trying to create the lock file went.
#[derive(Debug)]
pub enum Attempt {
    /// It was created, and the token is in it.
    Created,
    /// It is there already.
    Taken,
    /// It could not be created for another reason.
    Failed(String),
}

/// What has happened while the lock is waited for.
#[derive(Debug)]
pub enum HoldEvent {
    Tried(Attempt),
    /// The present and the file's last stamp, unless the file is gone.
    Looked(Option<(u128, u128)>),
    /// Whether the file could be moved out of the way.
    Broke(bool),
    /// How long the lock has been waited for, and what its file says.
    Waited(u128, Option<String>),
}

/// What is to be done next to get the lock.
#[derive(Debug)]
pub enum HoldAction {
    /// Try to create the lock file.
    Create,
    /// See when it was stamped.
    Look,
    /// Move it to this path and delete it there.
    Break(String),
    /// See how long the wait has been.
    Clock,
    /// Wait this many nanoseconds, then try to create the lock file.
    SleepThenCreate(u128),
    /// The lock is held.
    Held,
    /// The lock is busy.
    GiveUp(Busy),
    /// The lock cannot be had at all.
    Fail(String),
}

#[derive(Debug, Clone, Copy, PartialEq, Eq, Structural)]
pub enum HoldStage {
    Creating,
    Looking,
    Breaking,
    Deciding { freed: bool },
    Over,
}

/// Waiting for the lock of one worktree.
#[derive(Debug)]
pub struct Hold {
    pub path: String,
    /// Where debris is moved before it is deleted.
    pub debris: String,
    /// How long the lock is waited for.
    pub wait: u128,
    pub stage: HoldStage,
}

/// Which event a stage waits for.
pub open spec fn hold_expects(stage: HoldStage, event: HoldEvent) -> bool {
    match stage {
        HoldStage::Creating => event is Tried,
        HoldStage::Looking => event is Looked,
        HoldStage::Breaking => event is Broke,
        HoldStage::Deciding { .. } => event is Waited,
        HoldStage::Over => false,
    }
}

/// How waiting for the lock goes from one stage to the next.
pub open spec fn hold_goes(s: Hold, event: HoldEvent, t: HoldStage, action: HoldAction) -> bool {
    match (s.stage, event) {
        (HoldStage::Creating, HoldEvent::Tried(Attempt::Created)) => t == HoldStage::Over
            && action is Held,
        (HoldStage::Creating, HoldEvent::Tried(Attempt::Taken)) => t == HoldStage::Looking
            && action is Look,
        (HoldStage::Creating, HoldEvent::Tried(Attempt::Failed(cause))) => t == HoldStage::Over && (
        match action {
            HoldAction::Fail(e) => e@ == "cannot create "@ + s.path@ + ": "@ + cause@,
            _ => false,
        }),
        (HoldStage::Looking, HoldEvent::Looked(stamp)) => match stamp {
            Some((now, modified)) if apart(now, modified) > STALE_AFTER => t == HoldStage::Breaking
                && (match action {
                HoldAction::Break(to) => to@ == s.debris@,
                _ => false,
            }),
            _ => t == (HoldStage::Deciding { freed: false }) && action is Clock,
        },
        (HoldStage::Breaking, HoldEvent::Broke(freed)) => t == (HoldStage::Deciding { freed })
            && action is Clock,
        (HoldStage::Deciding { freed }, HoldEvent::Waited(waited, body)) => if waited >= s.wait {
            t == HoldStage::Over && (match action {
                HoldAction::GiveUp(busy) => busy.path@ == s.path@ && busy.waited == waited
                    && busy.holder@ == named_holder(opt_text(body)),
                _ => false,
            })
        } else if freed {
            t == HoldStage::Creating && action is Create
        } else {
            t == HoldStage::Creating && (match action {
                HoldAction::SleepThenCreate(n) => n == if POLL <= s.wait - waited {
                    POLL as int
                } else {
                    s.wait - waited
                },
                _ => false,
            })
        },
        _ => false,
    }
}

/// The holder a message names.
pub open spec fn named_holder(body: Option<Seq<char>>) -> Seq<char> {
    match body {
        Some(b) => match holder_of(b) {
            Some(h) => h,
            None => "unidentified"@,
        },
        None => "unidentified"@,
    }
}

impl Hold {
    /// Start waiting for a worktree's lock. The first thing to do is to try to
    /// create its file.
    pub fn new(state: &str, worktree_id: &str, wait: u128, token: &str) -> (r: Self)
        ensures
            r.path@ == lock_path(state@, worktree_id@),
            r.debris@ == joined(
                joined(state@, "locks"@),
                worktree_id@ + ".stale-"@ + token@,
            ),
            r.wait == wait,
            r.stage == HoldStage::Creating,
    {
        let dir: String = join(state, "locks");
        let mut name: String = owned(worktree_id);
        name.append(".lock");
        let mut old: String = owned(worktree_id);
        old.append(".stale-");
        old.append(token);
        Hold {
            path: join(dir.as_str(), name.as_str()),
            debris: join(dir.as_str(), old.as_str()),
            wait,
            stage: HoldStage::Creating,
        }
    }

    /// Take note of what happened, and say what is to be done next.
    pub fn step(&mut self, event: HoldEvent) -> (r: HoldAction)
        requires
            hold_expects(old(self).stage, event),
        ensures
            hold_goes(*old(self), event, final(self).stage, r),
            final(self).path == old(self).path,
            final(self).debris == old(self).debris,
            final(self).wait == old(self).wait,
    {
        match event {
            HoldEvent::Tried(Attempt::Created) => {
                self.stage = HoldStage::Over;
                HoldAction::Held
            },
            HoldEvent::Tried(Attempt::Taken) => {
                self.stage = HoldStage::Looking;
                HoldAction::Look
            },
            HoldEvent::Tried(Attempt::Failed(cause)) => {
                self.stage = HoldStage::Over;
                let mut e: String = owned("cannot create ");
                e.append(self.path.as_str());
                e.append(": ");
                e.append(cause.as_str());
                HoldAction::Fail(e)
            },
            HoldEvent::Looked(stamp) => {
                if let Some((now, modified)) = stamp {
                    if is_stale(now, modified) {
                        self.stage = HoldStage::Breaking;
                        return HoldAction::Break(self.debris.clone());
                    }
                }
                self.stage = HoldStage::Deciding { freed: false };
                HoldAction::Clock
            },
            HoldEvent::Broke(freed) => {
                self.stage = HoldStage::Deciding { freed };
                HoldAction::Clock
            },
            HoldEvent::Waited(waited, body) => {
                let freed: bool = match self.stage {
                    HoldStage::Deciding { freed } => freed,
                    _ => false,
                };
                if waited >= self.wait {
                    self.stage = HoldStage::Over;
                    let who: Option<String> = match &body {
                        Some(b) => holder(b.as_str()),
                        None => None,
                    };
                    let named: String = match who {
                        Some(h) => h,
                        None => owned("unidentified"),
                    };
                    return HoldAction::GiveUp(
                        Busy { path: self.path.clone(), holder: named, waited },
                    );
                }
                self.stage = HoldStage::Creating;
                if freed {
                    HoldAction::Create
                } else {
                    let left: u128 = self.wait - waited;
                    if POLL <= left {
                        HoldAction::SleepThenCreate(POLL)
                    } else {
                        HoldAction::SleepThenCreate(left)
                    }
                }
            },
        }
    }
}

// --------------------------------------------------------------------- laws

/// The lock is tried again only after the clock was read and the time to wait
/// was not yet over, whatever was found on the way.
pub proof fn law_every_round_honours_the_deadline(
    s: Hold,
    event: HoldEvent,
    t: HoldStage,
    action: HoldAction,
)
    requires
        hold_expects(s.stage, event),
        hold_goes(s, event, t, action),
        action is Create || action is SleepThenCreate || t == HoldStage::Creating,
    ensures
        match event {
            HoldEvent::Waited(waited, _) => waited < s.wait,
            _ => false,
        },
{
}

/// Breaking debris that could not be broken never leads straight back to
/// another try: there is a sleep in between, and it is never longer than what
/// is left of the wait.
pub proof fn law_a_failed_break_does_not_spin(
    s: Hold,
    event: HoldEvent,
    t: HoldStage,
    action: HoldAction,
)
    requires
        s.stage == (HoldStage::Deciding { freed: false }),
        hold_expects(s.stage, event),
        hold_goes(s, event, t, action),
    ensures
        match event {
            HoldEvent::Waited(waited, _) => match action {
                HoldAction::SleepThenCreate(n) => 0 < n <= POLL && waited + n <= s.wait,
                HoldAction::GiveUp(_) => waited >= s.wait,
                _ => false,
            },
            _ => false,
        },
{
}

/// A holder that stamps its file at every beat is never taken for debris, even
/// by a clock that differs from its own by as much as the rest of the time a
/// file may go without a stamp.
pub proof fn law_a_beating_holder_keeps_its_lock(stamped: u128, now: u128, skew: u128)
    requires
        apart(now, stamped) <= BEAT + skew,
        skew <= STALE_AFTER - BEAT,
    ensures
        !(apart(now, stamped) > STALE_AFTER),
{
}

/// A lock is taken only by creating its file, and broken only when it was last
/// stamped more than half a minute away from the present, before it or after it:
/// a younger one is waited for, until the wait is over, in steps of at most
/// fifteen milliseconds. What is broken is moved aside, never deleted in place.
pub proof fn law_a_lock_is_taken_broken_and_waited_for(
    s: Hold,
    event: HoldEvent,
    t: HoldStage,
    action: HoldAction,
)
    requires
        hold_expects(s.stage, event),
        hold_goes(s, event, t, action),
    ensures
        action is Held <==> (event matches HoldEvent::Tried(a) && a is Created),
        action is Held || action is Fail || action is GiveUp <==> t is Over,
        action is Create || action is SleepThenCreate <==> t is Creating,
        action is Look <==> t is Looking,
        action is Break <==> t is Breaking,
        event matches HoldEvent::Broke(freed) ==> t == (HoldStage::Deciding { freed }),
        action is Break <==> (event matches HoldEvent::Looked(stamp) && (stamp matches Some((
            now,
            at,
        )) && (now - at > 30_000_000_000 || at - now > 30_000_000_000))),
        action matches HoldAction::Break(to) ==> to@ == s.debris@,
        action is Look <==> (event matches HoldEvent::Tried(a) && a is Taken),
        action is Fail <==> (event matches HoldEvent::Tried(a) && a is Failed),
        action is GiveUp <==> (event matches HoldEvent::Waited(waited, _) && waited >= s.wait),
        action is Create <==> (event matches HoldEvent::Waited(waited, _) && waited < s.wait) && (
        s.stage matches HoldStage::Deciding { freed } && freed),
        action matches HoldAction::SleepThenCreate(n) ==> {
            &&& event matches HoldEvent::Waited(waited, _)
            &&& s.wait - waited >= 15_000_000 ==> n == 15_000_000
            &&& s.wait - waited < 15_000_000 ==> n == s.wait - waited
        },
        action matches HoldAction::GiveUp(busy) ==> {
            &&& event matches HoldEvent::Waited(waited, body)
            &&& busy.waited == waited
            &&& busy.path@ == s.path@
            &&& body matches Some(b) ==> (trim(b@).len() > 0 ==> busy.holder@ == trim(b@))
        },
{
}

/// A worktree has one lock, under the state directory, whatever its timelines.
pub proof fn law_a_worktree_has_one_lock(state: Seq<char>, a: Seq<char>, b: Seq<char>)
    requires
        state.len() > 0,
        state.last() != '/',
        a.len() > 0 && a[0] != '/',
        b.len() > 0 && b[0] != '/',
    ensures
        lock_path(state, a) == lock_path(state, b) <==> a == b,
        lock_path(state, a) == state + "/locks/"@ + a + ".lock"@,
{
    reveal_strlit("/");
    reveal_strlit("locks");
    reveal_strlit("/locks/");
    let dir = joined(state, "locks"@);
    assert(dir.last() == 's');
    assert((a + ".lock"@)[0] == a[0]);
    assert((b + ".lock"@)[0] == b[0]);
    assert(lock_path(state, a) =~= state + "/locks/"@ + a + ".lock"@);
    assert(lock_path(state, b) =~= state + "/locks/"@ + b + ".lock"@);
    let n = (state + "/locks/"@).len() as int;
    if lock_path(state, a) == lock_path(state, b) {
        let x = lock_path(state, a);
        let k = ".lock"@.len() as int;
        assert(x.subrange(n, x.len() - k) =~= a);
        assert(x.subrange(n, x.len() - k) =~= b);
    }
}

} // verus!
