//! Working out what a restore would do. Touches nothing.
use crate::repo::Health;
use crate::shadow::plan::RestorePlan;
use crate::store::{turn_with, turns_view, Store, Turn, TurnModel};
use crate::strings::{dec, number, number_of, owned, push_dec, strip_hash, without_hash};
use vstd::prelude::*;
use vstd::string::*;

verus! {

/// What a restore would do.
#[derive(Debug)]
pub struct Planned {
    /// The commit that is the target.
    pub commit: String,
    pub plan: RestorePlan,
}

/// What the user's name for a target stands for.
#[derive(Debug)]
pub enum Target {
    /// The turn with this number.
    Turn(u64),
    /// A name git has to resolve.
    Name(String),
}

pub enum TargetModel {
    Turn(u64),
    Name(Seq<char>),
}

impl View for Target {
    type V = TargetModel;

    open spec fn view(&self) -> TargetModel {
        match *self {
            Target::Turn(seq) => TargetModel::Turn(seq),
            Target::Name(name) => TargetModel::Name(name@),
        }
    }
}

/// What `#7`, `7` or the id of a snapshot stands for.
pub open spec fn target_of(target: Seq<char>) -> TargetModel {
    match number(without_hash(target), u64::MAX as nat) {
        Some(seq) => TargetModel::Turn(seq as u64),
        None => TargetModel::Name(target),
    }
}

/// What `#7`, `7` or the id of a snapshot stands for.
pub fn resolve_target(target: &str) -> (r: Target)
    ensures
        r@ == target_of(target@),
{
    match number_of(strip_hash(target).as_str(), u64::MAX) {
        Some(seq) => Target::Turn(seq),
        None => Target::Name(owned(target)),
    }
}

/// How far the planning is.
#[derive(Debug)]
#[allow(inconsistent_fields)]
pub enum PlanningStage {
    Inspecting,
    /// The target is the turn with this number.
    Finding { seq: u64 },
    /// The target is a name git has to resolve.
    Resolving,
    Reading { commit: String },
    Comparing { commit: String },
    Over,
}

/// What came of a step.
#[derive(Debug)]
pub enum PlanningEvent {
    Inspected(Result<Health, String>),
    Turns(Result<Vec<Turn>, String>),
    Resolved(Result<String, String>),
    Tree(Result<String, String>),
    Planned(Result<RestorePlan, String>),
}

/// What is to be done next.
#[derive(Debug)]
pub enum PlanningAction {
    /// Look whether the worktree is safe to touch.
    Inspect,
    /// Read the turns of the timeline.
    Turns,
    /// Have git resolve a name.
    Resolve(String),
    /// Read the tree of a commit.
    TreeOf(String),
    /// Compare the working tree with a tree.
    PlanTo(String),
    /// What a restore would do.
    Done(Result<Planned, String>),
}

/// The planning of one restore.
#[derive(Debug)]
pub struct Planning {
    pub line: String,
    /// `#7`, `7`, or the name of a commit.
    pub target: String,
    pub stage: PlanningStage,
}

/// Which event a stage waits for.
pub open spec fn planning_expects(stage: PlanningStage, event: PlanningEvent) -> bool {
    match stage {
        PlanningStage::Inspecting => event is Inspected,
        PlanningStage::Finding { .. } => event is Turns,
        PlanningStage::Resolving => event is Resolved,
        PlanningStage::Reading { .. } => event is Tree,
        PlanningStage::Comparing { .. } => event is Planned,
        PlanningStage::Over => false,
    }
}

/// Whether the planning is over because a step failed.
pub open spec fn planning_fails(t: PlanningStage, action: PlanningAction, why: Seq<char>) -> bool {
    &&& t is Over
    &&& match action {
        PlanningAction::Done(Err(e)) => e@ == why,
        _ => false,
    }
}

/// Whether the planning goes on with a commit.
pub open spec fn planning_at(t: PlanningStage, action: PlanningAction, commit: Seq<char>) -> bool {
    match (t, action) {
        (PlanningStage::Reading { commit: a }, PlanningAction::TreeOf(b)) => a@ == commit && b@
            == commit,
        _ => false,
    }
}

/// How planning a restore goes from one stage to the next.
pub open spec fn planning_goes(
    s: Planning,
    event: PlanningEvent,
    t: PlanningStage,
    action: PlanningAction,
) -> bool {
    match (s.stage, event) {
        (PlanningStage::Inspecting, PlanningEvent::Inspected(Err(e))) => planning_fails(t, action, e@),
        (PlanningStage::Inspecting, PlanningEvent::Inspected(Ok(health))) => if health@.blockers.len()
            > 0 {
            planning_fails(t, action, "refusing to continue: "@ + health@.blockers[0].text())
        } else {
            match target_of(s.target@) {
                TargetModel::Turn(seq) => t == (PlanningStage::Finding { seq }) && action is Turns,
                TargetModel::Name(wanted) => t is Resolving && (match action {
                    PlanningAction::Resolve(name) => name@ == wanted,
                    _ => false,
                }),
            }
        },
        (PlanningStage::Finding { seq }, PlanningEvent::Turns(Err(e))) => planning_fails(t, action, e@),
        (PlanningStage::Finding { seq }, PlanningEvent::Turns(Ok(turns))) => match turn_with(
            turns_view(turns@),
            seq,
        ) {
            Some(turn) => planning_at(t, action, turn.commit),
            None => planning_fails(
                t,
                action,
                "no turn #"@ + dec(seq as nat) + " on timeline `"@ + s.line@ + "`"@,
            ),
        },
        (PlanningStage::Resolving, PlanningEvent::Resolved(Err(e))) => planning_fails(t, action, e@),
        (PlanningStage::Resolving, PlanningEvent::Resolved(Ok(commit))) => planning_at(
            t,
            action,
            commit@,
        ),
        (PlanningStage::Reading { commit }, PlanningEvent::Tree(Err(e))) => planning_fails(t, action, e@),
        (PlanningStage::Reading { commit }, PlanningEvent::Tree(Ok(tree))) => t == (
        PlanningStage::Comparing { commit }) && action == PlanningAction::PlanTo(tree),
        (PlanningStage::Comparing { commit }, PlanningEvent::Planned(Err(e))) => planning_fails(
            t,
            action,
            e@,
        ),
        (PlanningStage::Comparing { commit }, PlanningEvent::Planned(Ok(plan))) => t is Over && action
            == PlanningAction::Done(Ok(Planned { commit, plan })),
        _ => false,
    }
}

impl Planning {
    /// Start planning a restore of `target` on a timeline.
    pub fn new(line: &str, target: &str) -> (r: (Self, PlanningAction))
        ensures
            r.0.line@ == line@,
            r.0.target@ == target@,
            r.0.stage is Inspecting,
            r.1 is Inspect,
    {
        (
            Planning { line: owned(line), target: owned(target), stage: PlanningStage::Inspecting },
            PlanningAction::Inspect,
        )
    }

    /// Take note of what came of a step, and say what is to be done next.
    pub fn step(self, event: PlanningEvent) -> (r: (Self, PlanningAction))
        requires
            planning_expects(self.stage, event),
        ensures
            planning_goes(self, event, r.0.stage, r.1),
            r.0.line == self.line,
            r.0.target == self.target,
    {
        let Planning { line, target, stage } = self;
        let (next, action): (PlanningStage, PlanningAction) = match event {
            PlanningEvent::Inspected(Ok(health)) => match health.bail_if_unsafe() {
                Err(e) => (PlanningStage::Over, PlanningAction::Done(Err(e))),
                Ok(_) => match resolve_target(target.as_str()) {
                    Target::Turn(seq) => (PlanningStage::Finding { seq }, PlanningAction::Turns),
                    Target::Name(name) => (PlanningStage::Resolving, PlanningAction::Resolve(name)),
                },
            },
            PlanningEvent::Turns(Ok(turns)) => {
                let seq: u64 = match stage {
                    PlanningStage::Finding { seq } => seq,
                    _ => 0,
                };
                match Store::find(&turns, seq) {
                    Some(turn) => (
                        PlanningStage::Reading { commit: turn.commit.clone() },
                        PlanningAction::TreeOf(turn.commit),
                    ),
                    None => {
                        let mut e: String = owned("no turn #");
                        push_dec(&mut e, seq);
                        e.append(" on timeline `");
                        e.append(line.as_str());
                        e.append("`");
                        (PlanningStage::Over, PlanningAction::Done(Err(e)))
                    },
                }
            },
            PlanningEvent::Resolved(Ok(commit)) => (
                PlanningStage::Reading { commit: commit.clone() },
                PlanningAction::TreeOf(commit),
            ),
            PlanningEvent::Tree(Ok(tree)) => match stage {
                PlanningStage::Reading { commit } => (
                    PlanningStage::Comparing { commit },
                    PlanningAction::PlanTo(tree),
                ),
                _ => (PlanningStage::Over, PlanningAction::Inspect),
            },
            PlanningEvent::Planned(Ok(plan)) => match stage {
                PlanningStage::Comparing { commit } => (
                    PlanningStage::Over,
                    PlanningAction::Done(Ok(Planned { commit, plan })),
                ),
                _ => (PlanningStage::Over, PlanningAction::Inspect),
            },
            PlanningEvent::Inspected(Err(e)) => (PlanningStage::Over, PlanningAction::Done(Err(e))),
            PlanningEvent::Turns(Err(e)) => (PlanningStage::Over, PlanningAction::Done(Err(e))),
            PlanningEvent::Resolved(Err(e)) => (PlanningStage::Over, PlanningAction::Done(Err(e))),
            PlanningEvent::Tree(Err(e)) => (PlanningStage::Over, PlanningAction::Done(Err(e))),
            PlanningEvent::Planned(Err(e)) => (PlanningStage::Over, PlanningAction::Done(Err(e))),
        };
        (Planning { line, target, stage: next }, action)
    }
}

/// A turn is found by its number whether or not the user writes the `#`.
pub proof fn law_a_turn_is_named_with_or_without_a_hash(target: Seq<char>)
    ensures
        without_hash(seq!['#'] + target) == without_hash(target),
        target_of(target) is Turn ==> target_of(seq!['#'] + target) == target_of(target),
{
    assert((seq!['#'] + target).drop_first() =~= target);
}

/// A run of planning: stage by stage, from the beginning.
pub open spec fn planning_run(
    states: Seq<Planning>,
    events: Seq<PlanningEvent>,
    actions: Seq<PlanningAction>,
) -> bool {
    &&& states.len() == events.len() + 1
    &&& actions.len() == events.len()
    &&& states[0].stage is Inspecting
    &&& forall|i: int|
        0 <= i < events.len() ==> #[trigger] planning_goes(
            states[i],
            events[i],
            states[i + 1].stage,
            actions[i],
        )
    &&& forall|i: int|
        0 <= i < events.len() ==> (#[trigger] states[i + 1]).target == states[i].target
}

/// Whether every reading of the timeline gives these turns.
pub open spec fn reads(events: Seq<PlanningEvent>, log: Seq<TurnModel>) -> bool {
    forall|i: int|
        0 <= i < events.len() ==> match #[trigger] events[i] {
            PlanningEvent::Turns(Ok(turns)) => turns_view(turns@) == log,
            _ => true,
        }
}

/// Whether no answer is a failure, and the worktree is safe to touch.
pub open spec fn planning_unhindered(events: Seq<PlanningEvent>) -> bool {
    forall|i: int|
        0 <= i < events.len() ==> match #[trigger] events[i] {
            PlanningEvent::Inspected(r) => r matches Ok(health) && health@.blockers.len() == 0,
            PlanningEvent::Turns(r) => r is Ok,
            PlanningEvent::Resolved(r) => r is Ok,
            PlanningEvent::Tree(r) => r is Ok,
            PlanningEvent::Planned(r) => r is Ok,
        }
}

/// Whether the planning is on its way to a turn.
pub open spec fn heads_for(stage: PlanningStage, turn: TurnModel) -> bool {
    match stage {
        PlanningStage::Inspecting => true,
        PlanningStage::Finding { seq } => seq == turn.seq,
        PlanningStage::Resolving => false,
        PlanningStage::Reading { commit } => commit@ == turn.commit,
        PlanningStage::Comparing { commit } => commit@ == turn.commit,
        PlanningStage::Over => true,
    }
}

proof fn lemma_heads_for(
    states: Seq<Planning>,
    events: Seq<PlanningEvent>,
    actions: Seq<PlanningAction>,
    log: Seq<TurnModel>,
    turn: TurnModel,
    n: int,
)
    requires
        planning_run(states, events, actions),
        reads(events, log),
        turn_with(log, turn.seq) == Some(turn),
        target_of(states[0].target@) == TargetModel::Turn(turn.seq),
        0 <= n < states.len(),
    ensures
        heads_for(states[n].stage, turn),
        states[n].target == states[0].target,
    decreases n,
{
    if n > 0 {
        let i = n - 1;
        lemma_heads_for(states, events, actions, log, turn, i);
        assert(planning_goes(states[i], events[i], states[i + 1].stage, actions[i]));
        assert(states[i + 1].target == states[i].target);
        assert(match events[i] {
            PlanningEvent::Turns(Ok(turns)) => turns_view(turns@) == log,
            _ => true,
        });
    }
}

/// Planning a restore to the number of a turn that the timeline holds ends at
/// that turn's commit, and fails only if a step of it does.
pub proof fn law_a_number_leads_to_its_turn(
    states: Seq<Planning>,
    events: Seq<PlanningEvent>,
    actions: Seq<PlanningAction>,
    log: Seq<TurnModel>,
    turn: TurnModel,
    n: int,
)
    requires
        planning_run(states, events, actions),
        reads(events, log),
        turn_with(log, turn.seq) == Some(turn),
        target_of(states[0].target@) == TargetModel::Turn(turn.seq),
        0 <= n < actions.len(),
    ensures
        actions[n] matches PlanningAction::Done(Ok(planned)) ==> planned.commit@ == turn.commit,
        planning_unhindered(events) ==> !(actions[n] matches PlanningAction::Done(Err(_))),
{
    lemma_heads_for(states, events, actions, log, turn, n);
    assert(planning_goes(states[n], events[n], states[n + 1].stage, actions[n]));
    assert(match events[n] {
        PlanningEvent::Turns(Ok(turns)) => turns_view(turns@) == log,
        _ => true,
    });
}

/// Planning goes through its steps in order: the inspection, the turn or the
/// name, the tree of its commit, and the comparison with that very tree. A
/// number that the timeline does not hold is an error, and so is a worktree that
/// is not safe to touch; nothing is compared then.
pub proof fn law_planning_goes_step_by_step(
    s: Planning,
    event: PlanningEvent,
    t: PlanningStage,
    action: PlanningAction,
)
    requires
        planning_goes(s, event, t, action),
    ensures
        event matches PlanningEvent::Inspected(Ok(h)) ==> (h@.blockers.len() > 0 <==> (
        action matches PlanningAction::Done(d) && d is Err)),
        event matches PlanningEvent::Inspected(Ok(h)) ==> (h@.blockers.len() == 0 ==> action is Turns
            || action is Resolve),
        event matches PlanningEvent::Turns(Ok(turns)) ==> (s.stage matches PlanningStage::Finding {
            seq,
        } && match turn_with(turns_view(turns@), seq) {
            Some(turn) => action matches PlanningAction::TreeOf(c) && c@ == turn.commit,
            None => action matches PlanningAction::Done(d) && d is Err,
        }),
        event matches PlanningEvent::Resolved(Ok(commit)) ==> (action matches PlanningAction::TreeOf(
            c,
        ) && c@ == commit@),
        event matches PlanningEvent::Tree(Ok(tree)) ==> action == PlanningAction::PlanTo(tree),
        event matches PlanningEvent::Planned(Ok(plan)) ==> (action matches PlanningAction::Done(Ok(
            made,
        )) && made.plan == plan && (s.stage matches PlanningStage::Comparing { commit }
            && made.commit == commit)),
{
}

/// What is no number is a name: a target that holds anything but digits behind
/// its `#` is left to git, as it was written.
pub proof fn law_what_is_no_number_is_a_name(target: Seq<char>, i: int)
    requires
        0 < i < without_hash(target).len(),
        !('0' <= without_hash(target)[i] <= '9'),
    ensures
        target_of(target) == TargetModel::Name(target),
{
    let s = without_hash(target);
    let body = if s.len() > 0 && s[0] == '+' {
        s.drop_first()
    } else {
        s
    };
    let k = if s[0] == '+' {
        i - 1
    } else {
        i
    };
    assert(body[k] == s[i]);
    assert(!crate::strings::is_digit(body[k]));
}

/// What stops a plan is handed on in its own words: the failure of a step as it
/// is, the first thing in the way, and the number that the timeline does not
/// hold, with the timeline.
pub proof fn law_what_stops_a_plan_is_told(
    s: Planning,
    event: PlanningEvent,
    t: PlanningStage,
    action: PlanningAction,
)
    requires
        planning_goes(s, event, t, action),
    ensures
        action is Done <==> t is Over,
        (match event {
            PlanningEvent::Inspected(Err(e)) => Some(e@),
            PlanningEvent::Turns(Err(e)) => Some(e@),
            PlanningEvent::Resolved(Err(e)) => Some(e@),
            PlanningEvent::Tree(Err(e)) => Some(e@),
            PlanningEvent::Planned(Err(e)) => Some(e@),
            _ => None,
        }) matches Some(why) ==> (action matches PlanningAction::Done(Err(e)) && e@ == why),
        event matches PlanningEvent::Inspected(Ok(h)) ==> (h@.blockers.len() > 0 ==> (
        action matches PlanningAction::Done(Err(e)) && h@.blockers[0].text().is_suffix_of(e@))),
        event matches PlanningEvent::Turns(Ok(turns)) ==> (action matches PlanningAction::Done(Err(
            e,
        )) ==> (s.stage matches PlanningStage::Finding { seq } && (crate::strings::says(
            e@,
            "#"@ + dec(seq as nat) + " "@,
        ) && crate::strings::says(e@, "`"@ + s.line@ + "`"@)))),
{
    if let PlanningEvent::Inspected(Ok(h)) = event {
        if h@.blockers.len() > 0 {
            let tail = h@.blockers[0].text();
            let e = "refusing to continue: "@ + tail;
            assert(e.subrange(e.len() - tail.len(), e.len() as int) =~= tail);
        }
    }
    if let PlanningStage::Finding { seq } = s.stage {
        let n = dec(seq as nat);
        let text = "no turn #"@ + n + " on timeline `"@ + s.line@ + "`"@;
        reveal_strlit("no turn #");
        reveal_strlit("no turn ");
        reveal_strlit("#");
        reveal_strlit(" on timeline `");
        reveal_strlit(" ");
        reveal_strlit("on timeline ");
        reveal_strlit("`");
        assert("no turn #"@ =~= "no turn "@ + "#"@);
        assert(" on timeline `"@ =~= " "@ + "on timeline "@ + "`"@);
        let first = "#"@ + n + " "@;
        let second = "`"@ + s.line@ + "`"@;
        assert(text =~= "no turn "@ + first + ("on timeline "@ + second));
        crate::strings::lemma_says(text, "no turn "@, first, "on timeline "@ + second);
        let before = "no turn "@ + first + "on timeline "@;
        assert(text =~= before + second + Seq::<char>::empty());
        crate::strings::lemma_says(text, before, second, Seq::empty());
    }
}

} // verus!
