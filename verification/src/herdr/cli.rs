//! `sheep watch`: a supervisor that holds a subscription open, and puts it back
//! together when herdr takes it away.
use crate::herdr::detect::Tuning;
use crate::herdr::log::{remarks, Level, Remark};
use crate::herdr::recorder::{Config, Ended, LineBy};
use crate::herdr::supervise::{Next, Supervisor};
use crate::strings::{dec, opt_text, owned, push_dec};
use vstd::prelude::*;
use vstd::string::*;

verus! {

/// How often herdr's own view of every agent is read again, in nanoseconds.
pub const RECONCILE_EVERY: u128 = 30_000_000_000;

#[derive(Debug)]
pub struct WatchArgs {
    /// Print detected boundaries instead of recording them.
    pub dry_run: bool,
    /// How long a pane must sit still before a boundary is believed, in
    /// nanoseconds.
    pub settle: u128,
    /// How many seconds the quiet window may be extended.
    pub patience: u64,
    /// How a pane's timeline is named.
    pub line_by: LineBy,
    /// Refuse to record a worktree with more tracked files than this.
    pub file_budget: usize,
    /// Mirror the log to the terminal.
    pub verbose: bool,
}

impl WatchArgs {
    pub fn tuning(&self) -> (r: Tuning)
        ensures
            r.settle == self.settle,
            r.patience == self.patience * 1_000_000_000,
    {
        Tuning { settle: self.settle, patience: self.patience as u128 * 1_000_000_000 }
    }

    /// The recorder's configuration.
    pub fn config(&self, state: String) -> (r: Config)
        ensures
            r.dry_run == self.dry_run,
            r.tuning.settle == self.settle,
            r.tuning.patience == self.patience * 1_000_000_000,
            r.line_by == self.line_by,
            r.file_budget == self.file_budget,
            r.state == state,
            r.reconcile_every == RECONCILE_EVERY,
    {
        Config {
            dry_run: self.dry_run,
            tuning: self.tuning(),
            line_by: self.line_by,
            file_budget: self.file_budget,
            state,
            reconcile_every: RECONCILE_EVERY,
        }
    }
}

/// Whether the watch can start: only inside a herdr session.
pub fn admitted(inside: bool) -> (r: Result<(), String>)
    ensures
        match r {
            Ok(_) => inside,
            Err(e) => !inside && e@
                == "`sheep watch` records what herdr sees, so it has to run inside a herdr session.\nStart it from a herdr pane, or use `sheep snap` to record a turn by hand."@,
        },
{
    if inside {
        Ok(())
    } else {
        Err(
            owned(
                "`sheep watch` records what herdr sees, so it has to run inside a herdr session.\nStart it from a herdr pane, or use `sheep snap` to record a turn by hand.",
            ),
        )
    }
}

/// What the watch says when it starts.
pub open spec fn banner_text(
    dry_run: bool,
    settle: Seq<char>,
    patience: nat,
    line_by: LineBy,
    log: Option<Seq<char>>,
) -> Seq<char> {
    "watching"@ + (if dry_run {
        " (dry run — nothing will be written)"@
    } else {
        ""@
    }) + ": settle "@ + settle + "s, patience "@ + dec(patience) + "s, timelines by "@
        + line_by.name() + (match log {
        Some(path) => ", log "@ + path,
        None => ""@,
    })
}

/// What the watch says when it starts, with the quiet window as `settle`
/// seconds.
pub fn banner(args: &WatchArgs, settle: &str, log: &Option<String>) -> (r: Remark)
    ensures
        r.level == Level::Info,
        r.text@ == banner_text(
            args.dry_run,
            settle@,
            args.patience as nat,
            args.line_by,
            opt_text(*log),
        ),
{
    let mut t: String = owned("watching");
    if args.dry_run {
        t.append(" (dry run — nothing will be written)");
    } else {
        t.append("");
    }
    t.append(": settle ");
    t.append(settle);
    t.append("s, patience ");
    push_dec(&mut t, args.patience);
    t.append("s, timelines by ");
    t.append(args.line_by.as_str());
    let tail: String = match log {
        Some(path) => {
            let mut s: String = owned(", log ");
            s.append(path.as_str());
            s
        },
        None => owned(""),
    };
    t.append(tail.as_str());
    Remark { level: Level::Info, text: t }
}

/// How one connection went.
#[derive(Debug)]
pub enum Connection {
    /// The subscription could not be opened.
    Refused(String),
    /// The subscription was opened, and ended like this.
    Ended(Ended),
}

/// What is said of a connection that is over.
pub open spec fn connection_remark(c: Connection) -> (Level, Seq<char>) {
    match c {
        Connection::Refused(e) => (Level::Warn, "cannot subscribe to herdr: "@ + e@),
        Connection::Ended(Ended::Disconnected) => (Level::Info, "herdr closed the event stream"@),
        Connection::Ended(Ended::Failed(why)) => (
            Level::Warn,
            "the event stream failed: "@ + why@,
        ),
    }
}

/// What is said of a session that is over.
pub open spec fn gone_text(recorded: nat) -> Seq<char> {
    "the herdr session is gone; "@ + dec(recorded) + " turn(s) recorded"@
}

/// What follows a connection that is over: what is said of it, what is done
/// next, and what is said if that is the end. `uptime` is how long the
/// connection lasted, and `present` whether the socket is there.
pub fn run(
    supervisor: &mut Supervisor,
    connection: Connection,
    recorded: u64,
    now: u128,
    uptime: u128,
    present: bool,
) -> (r: (Remark, Next, Option<Remark>))
    requires
        old(supervisor)@.wf(),
        old(supervisor)@.in_time(now),
    ensures
        (r.0.level, r.0.text@) == connection_remark(connection),
        final(supervisor)@ == old(supervisor)@.after(now, uptime, present),
        final(supervisor)@.wf(),
        r.1 == old(supervisor)@.next(now, uptime, present),
        match r.1 {
            Next::Stop => remarks(r.2, Level::Info, gone_text(recorded as nat)),
            Next::Retry(_) => r.2 is None,
        },
{
    let first: Remark = match connection {
        Connection::Refused(e) => {
            let mut text: String = owned("cannot subscribe to herdr: ");
            text.append(e.as_str());
            Remark { level: Level::Warn, text }
        },
        Connection::Ended(Ended::Disconnected) => Remark {
            level: Level::Info,
            text: owned("herdr closed the event stream"),
        },
        Connection::Ended(Ended::Failed(why)) => {
            let mut text: String = owned("the event stream failed: ");
            text.append(why.as_str());
            Remark { level: Level::Warn, text }
        },
    };
    let next: Next = supervisor.after(now, uptime, present);
    let last: Option<Remark> = match next {
        Next::Stop => {
            let mut text: String = owned("the herdr session is gone; ");
            push_dec(&mut text, recorded);
            text.append(" turn(s) recorded");
            Some(Remark { level: Level::Info, text })
        },
        Next::Retry(_) => None,
    };
    (first, next, last)
}

} // verus!
