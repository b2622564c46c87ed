//! One run of the recorder over an event stream, from the first look at the
//! session until the stream ends.
//!
//! What is known of the panes outlives the run: a stream that comes back goes
//! on where the last one ended, so that a blip does not lose a turn in flight.
use crate::herdr::detect::Sighting;
use crate::herdr::log::{remarks, Level, Remark};
use crate::herdr::recorder::{
    earliest, listed, on_event, tells, wait_until, Ended, Pump, Recorder, Told,
};
use crate::herdr::session::sightings;
use crate::strings::{owned, texts};
use vstd::prelude::*;
use vstd::string::*;

verus! {

/// How far a turn of the loop is.
#[derive(Debug, Clone, Copy, PartialEq, Eq, Structural)]
pub enum PumpStage {
    /// Herdr's own view is being read: at the start, or because it was due at
    /// this time.
    Reconciling { due: Option<u128> },
    /// The next event is being waited for.
    Waiting,
    /// An event is being dealt with.
    Handling,
    /// The clock is being read.
    Timing,
    /// The windows that closed by this time are being dealt with.
    Firing { now: u128 },
    Over,
}

/// What came of a step. Times are nanoseconds on a clock that never runs
/// backwards.
#[derive(Debug)]
pub enum PumpEvent {
    /// Herdr's view was read, and it is now this time.
    Reconciled(u128),
    Polled(Pump),
    Handled,
    Now(u128),
    /// The closed windows were dealt with, and it is now this time.
    Fired(u128),
}

/// What is to be done next.
#[derive(Debug)]
pub enum PumpAction {
    /// Read herdr's own view of every agent.
    Reconcile,
    /// Wait this long for the next event.
    Poll(u128),
    /// Deal with what an event told.
    Handle(Told),
    /// Read the clock.
    Clock,
    /// Deal with the windows that have closed by this time.
    Fire(u128),
    Done(Ended),
}

/// One run over an event stream.
#[derive(Debug)]
pub struct Pumping {
    /// When herdr's own view was last read.
    pub last: u128,
    pub stage: PumpStage,
}

impl Pumping {
    /// Time does not run backwards.
    pub open spec fn wf(self) -> bool {
        self.stage matches PumpStage::Firing { now } ==> self.last <= now
    }
}

/// Which event a stage waits for.
pub open spec fn pump_expects(s: Pumping, event: PumpEvent) -> bool {
    match s.stage {
        PumpStage::Reconciling { .. } => event is Reconciled,
        PumpStage::Waiting => event is Polled,
        PumpStage::Handling => event is Handled,
        PumpStage::Timing => event matches PumpEvent::Now(now) && s.last <= now,
        PumpStage::Firing { .. } => event is Fired,
        PumpStage::Over => false,
    }
}

/// Whether the next event is waited for: no longer than until the next window
/// closes.
pub open spec fn pump_waits(r: Recorder, now: u128, t: Pumping, action: PumpAction) -> bool {
    &&& t.stage is Waiting
    &&& match action {
        PumpAction::Poll(n) => exists|due: Option<u128>| #[trigger]
            earliest(r.detector@.panes, due) && n == wait_until(due, now),
        _ => false,
    }
}

/// How the loop goes from one stage to the next.
pub open spec fn pump_goes(
    r: Recorder,
    s: Pumping,
    event: PumpEvent,
    t: Pumping,
    action: PumpAction,
) -> bool {
    match (s.stage, event) {
        (PumpStage::Reconciling { due }, PumpEvent::Reconciled(now)) => {
            &&& t.last == match due {
                Some(at) => at,
                None => now,
            }
            &&& pump_waits(r, now, t, action)
        },
        (PumpStage::Waiting, PumpEvent::Polled(polled)) => t.last == s.last && match polled {
            Pump::Event(event) => t.stage is Handling && (match action {
                PumpAction::Handle(told) => tells(event, told@),
                _ => false,
            }),
            Pump::Idle => t.stage is Timing && action is Clock,
            Pump::Closed => t.stage is Over && action == PumpAction::Done(Ended::Disconnected),
            Pump::Failed(why) => t.stage is Over && action == PumpAction::Done(Ended::Failed(why)),
        },
        (PumpStage::Handling, PumpEvent::Handled) => t.last == s.last && t.stage is Timing
            && action is Clock,
        (PumpStage::Timing, PumpEvent::Now(now)) => t.last == s.last && t.stage
            == (PumpStage::Firing { now }) && action == PumpAction::Fire(now),
        (PumpStage::Firing { now }, PumpEvent::Fired(later)) => t.last == s.last && if now - s.last
            >= r.config.reconcile_every {
            t.stage == (PumpStage::Reconciling { due: Some(now) }) && action is Reconcile
        } else {
            pump_waits(r, later, t, action)
        },
        _ => false,
    }
}

impl Pumping {
    /// A run begins with a look at the whole session.
    pub fn new() -> (r: (Self, PumpAction))
        ensures
            r.0.wf(),
            r.0.stage == (PumpStage::Reconciling { due: None }),
            r.1 is Reconcile,
    {
        (Pumping { last: 0, stage: PumpStage::Reconciling { due: None } }, PumpAction::Reconcile)
    }
}

impl Recorder {
    /// Take note of what came of a step, and say what is to be done next.
    pub fn pump(&self, at: &mut Pumping, event: PumpEvent) -> (r: PumpAction)
        requires
            old(at).wf(),
            pump_expects(*old(at), event),
        ensures
            final(at).wf(),
            pump_goes(*self, *old(at), event, *final(at), r),
    {
        match event {
            PumpEvent::Reconciled(now) => {
                if let PumpStage::Reconciling { due } = at.stage {
                    at.last = match due {
                        Some(seen) => seen,
                        None => now,
                    };
                }
                at.stage = PumpStage::Waiting;
                PumpAction::Poll(self.poll_timeout(now))
            },
            PumpEvent::Polled(polled) => match polled {
                Pump::Event(event) => {
                    at.stage = PumpStage::Handling;
                    PumpAction::Handle(on_event(&event))
                },
                Pump::Idle => {
                    at.stage = PumpStage::Timing;
                    PumpAction::Clock
                },
                Pump::Closed => {
                    at.stage = PumpStage::Over;
                    PumpAction::Done(Ended::Disconnected)
                },
                Pump::Failed(why) => {
                    at.stage = PumpStage::Over;
                    PumpAction::Done(Ended::Failed(why))
                },
            },
            PumpEvent::Handled => {
                at.stage = PumpStage::Timing;
                PumpAction::Clock
            },
            PumpEvent::Now(now) => {
                at.stage = PumpStage::Firing { now };
                PumpAction::Fire(now)
            },
            PumpEvent::Fired(later) => {
                let now: u128 = match at.stage {
                    PumpStage::Firing { now } => now,
                    _ => at.last,
                };
                if now - at.last >= self.config.reconcile_every {
                    at.stage = PumpStage::Reconciling { due: Some(now) };
                    PumpAction::Reconcile
                } else {
                    at.stage = PumpStage::Waiting;
                    PumpAction::Poll(self.poll_timeout(later))
                }
            },
        }
    }

    /// What herdr's own view of every agent amounts to: the panes that are
    /// followed and that it no longer lists, which are forgotten, and the
    /// agents, which are looked at. A view that could not be read changes
    /// nothing: no pane is forgotten for it.
    pub fn reconcile(&self, answer: Result<Vec<Sighting>, String>) -> (r: (
        Vec<String>,
        Vec<Sighting>,
        Option<Remark>,
    ))
        ensures
            match answer {
                Ok(agents) => texts(r.0@) == self.detector@.ids().filter(
                    |id: Seq<char>| !listed(sightings(agents@), id),
                ) && r.1 == agents && r.2 is None,
                Err(why) => r.0@.len() == 0 && r.1@.len() == 0 && remarks(
                    r.2,
                    Level::Warn,
                    "cannot list agents: "@ + why@,
                ),
            },
    {
        match answer {
            Ok(agents) => {
                let gone: Vec<String> = self.absent(&agents);
                (gone, agents, None)
            },
            Err(why) => {
                let mut text: String = owned("cannot list agents: ");
                text.append(why.as_str());
                (Vec::new(), Vec::new(), Some(Remark { level: Level::Warn, text }))
            },
        }
    }
}

/// Nothing but the end of the stream ends a run.
pub proof fn law_only_the_stream_ends_a_run(
    r: Recorder,
    s: Pumping,
    event: PumpEvent,
    t: Pumping,
    action: PumpAction,
)
    requires
        pump_expects(s, event),
        pump_goes(r, s, event, t, action),
    ensures
        action is Done <==> (event matches PumpEvent::Polled(p) && (p is Closed || p is Failed)),
{
}

/// Between two waits for an event the closed windows are always dealt with, so
/// a session that never falls silent cannot hold a boundary up.
pub proof fn law_windows_are_seen_to_before_the_next_wait(
    r: Recorder,
    s: Pumping,
    event: PumpEvent,
    t: Pumping,
    action: PumpAction,
)
    requires
        pump_expects(s, event),
        pump_goes(r, s, event, t, action),
    ensures
        action is Poll ==> event is Fired || event is Reconciled,
        action is Reconcile ==> event is Fired,
        action is Fire <==> event is Now,
        event is Handled || (event matches PumpEvent::Polled(p) && p is Idle) ==> action is Clock,
{
}

/// Herdr's own view is read again no later than it is due, at the first chance
/// after the closed windows are dealt with, and never before.
pub proof fn law_the_session_is_looked_at_when_due(
    r: Recorder,
    s: Pumping,
    now: u128,
    later: u128,
    t: Pumping,
    action: PumpAction,
)
    requires
        s.stage == (PumpStage::Firing { now }),
        pump_goes(r, s, PumpEvent::Fired(later), t, action),
    ensures
        action is Reconcile <==> now - s.last >= r.config.reconcile_every,
{
}

/// What the stream brings is handled as what it tells; the wait for it is never
/// longer than a second, nor past the moment at which the next window closes;
/// and a look at the session counts from when it was due.
pub proof fn law_a_round_of_the_watch(
    r: Recorder,
    s: Pumping,
    event: PumpEvent,
    t: Pumping,
    action: PumpAction,
)
    requires
        pump_expects(s, event),
        pump_goes(r, s, event, t, action),
    ensures
        event matches PumpEvent::Polled(Pump::Event(e)) ==> (action matches PumpAction::Handle(told)
            && tells(e, told@)),
        event matches PumpEvent::Polled(Pump::Failed(why)) ==> action == PumpAction::Done(
            Ended::Failed(why),
        ),
        event matches PumpEvent::Now(now) ==> action == PumpAction::Fire(now) && t.stage == (
        PumpStage::Firing { now }),
        action is Poll <==> t.stage is Waiting,
        action is Handle <==> t.stage is Handling,
        action is Clock <==> t.stage is Timing,
        action is Done <==> t.stage is Over,
        action matches PumpAction::Poll(n) ==> n <= 1_000_000_000,
        event is Reconciled || t.last == s.last,
        s.stage matches PumpStage::Reconciling { due } ==> (event matches PumpEvent::Reconciled(now)
            ==> (due matches Some(at) ==> t.last == at) && (due is None ==> t.last == now)),
        s.stage matches PumpStage::Firing { now } ==> (action is Reconcile ==> t.stage == (
        PumpStage::Reconciling { due: Some(now) })),
{
}

} // verus!
