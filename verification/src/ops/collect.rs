//! Shortening a timeline to what a policy allows.
//!
//! Dropping turns from the log alone frees nothing: every old commit stays
//! reachable through the chain of parents. So the kept turns are rebuilt as a
//! fresh chain of the same trees, and only then can the rest be collected.
use crate::shadow::{links, Link, LinkModel};
use crate::store::{turns_view, Turn, TurnModel};
use crate::strings::{owned, texts};
use super::{Failure, USER_WAIT};
use vstd::prelude::*;
use vstd::string::*;

verus! {

/// How much history a timeline keeps.
#[derive(Debug, Clone, Copy)]
pub struct Retention {
    /// Newest turns to keep. The newest turn is always kept.
    pub keep: usize,
    /// Drop turns older than this many days, subject to `keep`.
    pub max_age_days: Option<u64>,
}

impl Default for Retention {
    fn default() -> (r: Self)
        ensures
            r.keep == 500,
            r.max_age_days == Some(30u64),
    {
        Retention { keep: 500, max_age_days: Some(30) }
    }
}

/// What shortening a timeline did.
#[derive(Debug)]
pub struct Collected {
    pub line: String,
    pub kept: usize,
    pub dropped: usize,
    pub bytes_before: u64,
    pub bytes_after: u64,
}

/// Before when a turn is too old, in Unix seconds.
pub open spec fn cutoff(now: u64, days: Option<u64>) -> int {
    match days {
        None => 0,
        Some(d) => {
            let age = if d * 86_400 <= u64::MAX {
                d * 86_400
            } else {
                u64::MAX as int
            };
            if age <= now {
                now - age
            } else {
                0
            }
        },
    }
}

/// Whether the turn at an index of a timeline is kept: it is the newest, or it
/// is among the newest and young enough.
pub open spec fn keeps(policy: Retention, now: u64, turns: Seq<TurnModel>, i: int) -> bool {
    ||| i == turns.len() - 1
    ||| {
        &&& i >= turns.len() - (if policy.keep >= 1 {
            policy.keep as int
        } else {
            1
        })
        &&& turns[i].at >= cutoff(now, policy.max_age_days)
    }
}

/// The first `n` turns of a timeline without those that are dropped.
pub open spec fn kept_of(policy: Retention, now: u64, turns: Seq<TurnModel>, n: nat) -> Seq<TurnModel>
    decreases n,
{
    if n == 0 {
        Seq::empty()
    } else {
        let before = kept_of(policy, now, turns, (n - 1) as nat);
        if keeps(policy, now, turns, n - 1) {
            before.push(turns[n - 1])
        } else {
            before
        }
    }
}

/// The turns of a timeline that a policy keeps, in order.
pub fn kept(turns: &Vec<Turn>, policy: Retention, now: u64) -> (r: Vec<Turn>)
    ensures
        turns_view(r@) == kept_of(policy, now, turns_view(turns@), turns@.len()),
        r@.len() <= turns@.len(),
{
    let from: u64 = match policy.max_age_days {
        None => 0,
        Some(days) => {
            let age: u64 = match days.checked_mul(86_400) {
                Some(age) => age,
                None => u64::MAX,
            };
            now.saturating_sub(age)
        },
    };
    let count: usize = turns.len();
    let keep: usize = if policy.keep >= 1 {
        policy.keep
    } else {
        1
    };
    let floor: usize = count.saturating_sub(keep);
    let mut out: Vec<Turn> = Vec::new();
    let mut i: usize = 0;
    proof {
        assert(turns_view(out@) =~= Seq::<TurnModel>::empty());
    }
    while i < count
        invariant
            i <= count,
            count == turns@.len(),
            out@.len() <= i,
            from == cutoff(now, policy.max_age_days),
            keep == if policy.keep >= 1 {
                policy.keep as int
            } else {
                1
            },
            floor == if count >= keep {
                count - keep
            } else {
                0
            },
            turns_view(out@) == kept_of(policy, now, turns_view(turns@), i as nat),
        decreases count - i,
    {
        let ghost was = out@;
        proof {
            assert(turns_view(turns@)[i as int] == turns@[i as int]@);
        }
        if i == count - 1 || (i >= floor && turns[i].at >= from) {
            out.push(turns[i].clone());
            proof {
                assert(turns_view(out@) =~= turns_view(was).push(turns@[i as int]@));
            }
        }
        i += 1;
    }
    out
}

/// The links of the chain that kept turns are rebuilt as.
pub open spec fn links_of(kept: Seq<TurnModel>) -> Seq<LinkModel> {
    kept.map_values(|t: TurnModel| LinkModel { tree: t.tree, message: t.subject(), at: t.at })
}

fn chain(kept: &Vec<Turn>) -> (r: Vec<Link>)
    ensures
        links(r@) == links_of(turns_view(kept@)),
{
    let mut out: Vec<Link> = Vec::new();
    let mut i: usize = 0;
    while i < kept.len()
        invariant
            i <= kept@.len(),
            out@.len() == i,
            forall|k: int|
                0 <= k < i ==> (#[trigger] out@[k])@ == (LinkModel {
                    tree: kept@[k]@.tree,
                    message: kept@[k]@.subject(),
                    at: kept@[k]@.at,
                }),
        decreases kept@.len() - i,
    {
        out.push(
            Link { tree: kept[i].tree.clone(), message: kept[i].subject(), at: kept[i].at },
        );
        i += 1;
    }
    proof {
        assert(links(out@) =~= links_of(turns_view(kept@)));
    }
    out
}

/// The turns of a timeline whose commits were written anew: everything but the
/// commits is as it was, and each turn's parent is the turn before it.
pub open spec fn relinked(kept: Seq<TurnModel>, commits: Seq<Seq<char>>) -> Seq<TurnModel> {
    Seq::new(
        kept.len(),
        |i: int|
            TurnModel {
                commit: commits[i],
                parent: if i > 0 {
                    Some(commits[i - 1])
                } else {
                    None
                },
                ..kept[i]
            },
    )
}

/// Give kept turns the commits that were written for them.
pub fn relink(kept: Vec<Turn>, commits: &Vec<String>) -> (r: Vec<Turn>)
    requires
        commits@.len() == kept@.len(),
    ensures
        turns_view(r@) == relinked(turns_view(kept@), texts(commits@)),
{
    let mut out: Vec<Turn> = Vec::new();
    let mut i: usize = 0;
    while i < kept.len()
        invariant
            i <= kept@.len(),
            commits@.len() == kept@.len(),
            out@.len() == i,
            forall|k: int|
                0 <= k < i ==> (#[trigger] out@[k])@ == relinked(
                    turns_view(kept@),
                    texts(commits@),
                )[k],
        decreases kept@.len() - i,
    {
        let mut turn: Turn = kept[i].clone();
        turn.commit = commits[i].clone();
        turn.parent = if i > 0 {
            Some(commits[i - 1].clone())
        } else {
            None
        };
        proof {
            assert(texts(commits@)[i as int] == commits@[i as int]@);
            if i > 0 {
                assert(texts(commits@)[i - 1] == commits@[i - 1]@);
            }
            assert(turn@ =~= relinked(turns_view(kept@), texts(commits@))[i as int]);
        }
        out.push(turn);
        i += 1;
    }
    proof {
        assert(turns_view(out@) =~= relinked(turns_view(kept@), texts(commits@)));
    }
    out
}

// --------------------------------------------------------------- the machine

/// How far the collection is.
#[derive(Debug)]
#[allow(inconsistent_fields)]
pub enum CollectStage {
    Locking,
    Heading,
    /// The timeline's head was this when its log was read.
    Reading { head: Option<String> },
    Sizing { head: Option<String>, turns: Vec<Turn> },
    Dating { head: Option<String>, turns: Vec<Turn>, bytes: u64 },
    Rebuilding { kept: Vec<Turn>, dropped: usize, bytes: u64 },
    Rewriting { kept: usize, dropped: usize, bytes: u64 },
    Pruning { kept: usize, dropped: usize, bytes: u64 },
    Measuring { kept: usize, dropped: usize, bytes: u64 },
    Over,
}

/// What came of a step.
#[derive(Debug)]
pub enum CollectEvent {
    Locked(Result<(), Failure>),
    Head(Result<Option<String>, String>),
    Turns(Result<Vec<Turn>, String>),
    /// How many bytes the shadow repository takes.
    Size(u64),
    /// The present, in Unix seconds.
    Now(u64),
    /// The commits of the rebuilt chain, oldest first.
    Rebuilt(Result<Vec<String>, String>),
    Rewrote(Result<(), String>),
    Pruned(Result<(), String>),
}

/// What is to be done next.
#[derive(Debug)]
pub enum CollectAction {
    /// Take the worktree's lock, waiting this many nanoseconds for it.
    Lock(u128),
    /// Read the head of the timeline.
    Head,
    /// Read the turns of the timeline.
    Turns,
    /// Measure the shadow repository.
    Size,
    /// Read the clock.
    Now,
    /// Rebuild the timeline as a chain of these links, and move its head from
    /// where it was.
    Rebuild { chain: Vec<Link>, expected: Option<String> },
    /// Replace the log by these turns.
    Rewrite(Vec<Turn>),
    /// Drop every object no ref reaches.
    Prune,
    Done(Result<Collected, Failure>),
}

/// The shortening of one timeline.
#[derive(Debug)]
pub struct Collect {
    pub line: String,
    pub policy: Retention,
    /// Change something, rather than only say what would change.
    pub apply: bool,
    pub stage: CollectStage,
}

/// Which event a stage waits for.
pub open spec fn collect_expects(stage: CollectStage, event: CollectEvent) -> bool {
    match stage {
        CollectStage::Locking => event is Locked,
        CollectStage::Heading => event is Head,
        CollectStage::Reading { .. } => event is Turns,
        CollectStage::Sizing { .. } => event is Size,
        CollectStage::Dating { .. } => event is Now,
        CollectStage::Rebuilding { kept, .. } => match event {
            CollectEvent::Rebuilt(Ok(commits)) => commits@.len() == kept@.len(),
            CollectEvent::Rebuilt(Err(_)) => true,
            _ => false,
        },
        CollectStage::Rewriting { .. } => event is Rewrote,
        CollectStage::Pruning { .. } => event is Pruned,
        CollectStage::Measuring { .. } => event is Size,
        CollectStage::Over => false,
    }
}

pub open spec fn collect_fails(t: CollectStage, action: CollectAction, why: Seq<char>) -> bool {
    &&& t is Over
    &&& match action {
        CollectAction::Done(Err(Failure::Other(e))) => e@ == why,
        _ => false,
    }
}

/// Whether the collection is over with this report.
pub open spec fn collect_reports(
    t: CollectStage,
    action: CollectAction,
    line: Seq<char>,
    kept: int,
    dropped: int,
    before: u64,
    after: u64,
) -> bool {
    &&& t is Over
    &&& match action {
        CollectAction::Done(Ok(c)) => c.line@ == line && c.kept == kept && c.dropped == dropped
            && c.bytes_before == before && c.bytes_after == after,
        _ => false,
    }
}

/// How a collection goes from one stage to the next. The timeline's head is
/// read before its log: the other way round, a turn recorded between the two
/// reads would be in the head and not in the log, and the rebuilt chain would
/// drop it.
pub open spec fn collect_goes(
    s: Collect,
    event: CollectEvent,
    t: CollectStage,
    action: CollectAction,
) -> bool {
    match (s.stage, event) {
        (CollectStage::Locking, CollectEvent::Locked(Ok(_))) => t is Heading && action is Head,
        (CollectStage::Locking, CollectEvent::Locked(Err(f))) => t is Over && action
            == CollectAction::Done(Err(f)),
        (CollectStage::Heading, CollectEvent::Head(Err(e))) => collect_fails(t, action, e@),
        (CollectStage::Heading, CollectEvent::Head(Ok(head))) => t == (CollectStage::Reading { head })
            && action is Turns,
        (CollectStage::Reading { head }, CollectEvent::Turns(Err(e))) => collect_fails(t, action, e@),
        (CollectStage::Reading { head }, CollectEvent::Turns(Ok(turns))) => t == (
        CollectStage::Sizing { head, turns }) && action is Size,
        (CollectStage::Sizing { head, turns }, CollectEvent::Size(bytes)) => if turns@.len() == 0 {
            collect_reports(t, action, s.line@, 0, 0, bytes, bytes)
        } else {
            t == (CollectStage::Dating { head, turns, bytes }) && action is Now
        },
        (CollectStage::Dating { head, turns, bytes }, CollectEvent::Now(now)) => {
            let all = turns_view(turns@);
            let keep = kept_of(s.policy, now, all, all.len());
            let dropped = all.len() - keep.len();
            if dropped == 0 || !s.apply {
                collect_reports(t, action, s.line@, keep.len() as int, dropped, bytes, bytes)
            } else {
                match (t, action) {
                    (
                        CollectStage::Rebuilding { kept: k, dropped: d, bytes: b },
                        CollectAction::Rebuild { chain, expected },
                    ) => turns_view(k@) == keep && d == dropped && b == bytes && links(chain@)
                        == links_of(keep) && expected == head,
                    _ => false,
                }
            }
        },
        (CollectStage::Rebuilding { .. }, CollectEvent::Rebuilt(Err(e))) => collect_fails(
            t,
            action,
            e@,
        ),
        (
            CollectStage::Rebuilding { kept: k, dropped, bytes },
            CollectEvent::Rebuilt(Ok(commits)),
        ) => t == (CollectStage::Rewriting { kept: k@.len() as usize, dropped, bytes }) && (
        match action {
            CollectAction::Rewrite(turns) => turns_view(turns@) == relinked(
                turns_view(k@),
                texts(commits@),
            ),
            _ => false,
        }),
        (CollectStage::Rewriting { .. }, CollectEvent::Rewrote(Err(e))) => collect_fails(t, action, e@),
        (CollectStage::Rewriting { kept: k, dropped, bytes }, CollectEvent::Rewrote(Ok(_))) => t == (
        CollectStage::Pruning { kept: k, dropped, bytes }) && action is Prune,
        (CollectStage::Pruning { .. }, CollectEvent::Pruned(Err(e))) => collect_fails(t, action, e@),
        (CollectStage::Pruning { kept: k, dropped, bytes }, CollectEvent::Pruned(Ok(_))) => t == (
        CollectStage::Measuring { kept: k, dropped, bytes }) && action is Size,
        (CollectStage::Measuring { kept: k, dropped, bytes }, CollectEvent::Size(after)) =>
            collect_reports(t, action, s.line@, k as int, dropped as int, bytes, after),
        _ => false,
    }
}

fn report(line: &str, kept: usize, dropped: usize, before: u64, after: u64) -> (r: (
    CollectStage,
    CollectAction,
))
    ensures
        collect_reports(r.0, r.1, line@, kept as int, dropped as int, before, after),
{
    (
        CollectStage::Over,
        CollectAction::Done(
            Ok(
                Collected {
                    line: owned(line),
                    kept,
                    dropped,
                    bytes_before: before,
                    bytes_after: after,
                },
            ),
        ),
    )
}

fn failed(e: String) -> (r: (CollectStage, CollectAction))
    ensures
        collect_fails(r.0, r.1, e@),
{
    (CollectStage::Over, CollectAction::Done(Err(Failure::Other(e))))
}

impl Collect {
    /// Start shortening a timeline, by taking the lock.
    pub fn new(line: &str, policy: Retention, apply: bool) -> (r: (Self, CollectAction))
        ensures
            r.0.line@ == line@,
            r.0.policy == policy,
            r.0.apply == apply,
            r.0.stage is Locking,
            r.1 == CollectAction::Lock(USER_WAIT),
    {
        (
            Collect { line: owned(line), policy, apply, stage: CollectStage::Locking },
            CollectAction::Lock(USER_WAIT),
        )
    }

    /// Take note of what came of a step, and say what is to be done next.
    pub fn step(self, event: CollectEvent) -> (r: (Self, CollectAction))
        requires
            collect_expects(self.stage, event),
        ensures
            collect_goes(self, event, r.0.stage, r.1),
            r.0.line == self.line,
            r.0.policy == self.policy,
            r.0.apply == self.apply,
    {
        let Collect { line, policy, apply, stage } = self;
        let (next, action): (CollectStage, CollectAction) = match stage {
            CollectStage::Locking => match event {
                CollectEvent::Locked(Ok(_)) => (CollectStage::Heading, CollectAction::Head),
                CollectEvent::Locked(Err(f)) => (CollectStage::Over, CollectAction::Done(Err(f))),
                _ => (CollectStage::Over, CollectAction::Head),
            },
            CollectStage::Heading => match event {
                CollectEvent::Head(Ok(head)) => (
                    CollectStage::Reading { head },
                    CollectAction::Turns,
                ),
                CollectEvent::Head(Err(e)) => failed(e),
                _ => (CollectStage::Over, CollectAction::Head),
            },
            CollectStage::Reading { head } => match event {
                CollectEvent::Turns(Ok(turns)) => (
                    CollectStage::Sizing { head, turns },
                    CollectAction::Size,
                ),
                CollectEvent::Turns(Err(e)) => failed(e),
                _ => (CollectStage::Over, CollectAction::Head),
            },
            CollectStage::Sizing { head, turns } => match event {
                CollectEvent::Size(bytes) => {
                    if turns.is_empty() {
                        report(line.as_str(), 0, 0, bytes, bytes)
                    } else {
                        (CollectStage::Dating { head, turns, bytes }, CollectAction::Now)
                    }
                },
                _ => (CollectStage::Over, CollectAction::Head),
            },
            CollectStage::Dating { head, turns, bytes } => match event {
                CollectEvent::Now(now) => {
                    let keep: Vec<Turn> = kept(&turns, policy, now);
                    let dropped: usize = turns.len() - keep.len();
                    proof {
                        assert(turns_view(keep@).len() == keep@.len());
                    }
                    if dropped == 0 || !apply {
                        report(line.as_str(), keep.len(), dropped, bytes, bytes)
                    } else {
                        let links: Vec<Link> = chain(&keep);
                        (
                            CollectStage::Rebuilding { kept: keep, dropped, bytes },
                            CollectAction::Rebuild { chain: links, expected: head },
                        )
                    }
                },
                _ => (CollectStage::Over, CollectAction::Head),
            },
            CollectStage::Rebuilding { kept: keep, dropped, bytes } => match event {
                CollectEvent::Rebuilt(Ok(commits)) => {
                    let count: usize = keep.len();
                    let turns: Vec<Turn> = relink(keep, &commits);
                    (
                        CollectStage::Rewriting { kept: count, dropped, bytes },
                        CollectAction::Rewrite(turns),
                    )
                },
                CollectEvent::Rebuilt(Err(e)) => failed(e),
                _ => (CollectStage::Over, CollectAction::Head),
            },
            CollectStage::Rewriting { kept: keep, dropped, bytes } => match event {
                CollectEvent::Rewrote(Ok(_)) => (
                    CollectStage::Pruning { kept: keep, dropped, bytes },
                    CollectAction::Prune,
                ),
                CollectEvent::Rewrote(Err(e)) => failed(e),
                _ => (CollectStage::Over, CollectAction::Head),
            },
            CollectStage::Pruning { kept: keep, dropped, bytes } => match event {
                CollectEvent::Pruned(Ok(_)) => (
                    CollectStage::Measuring { kept: keep, dropped, bytes },
                    CollectAction::Size,
                ),
                CollectEvent::Pruned(Err(e)) => failed(e),
                _ => (CollectStage::Over, CollectAction::Head),
            },
            CollectStage::Measuring { kept: keep, dropped, bytes } => match event {
                CollectEvent::Size(after) => report(line.as_str(), keep, dropped, bytes, after),
                _ => (CollectStage::Over, CollectAction::Head),
            },
            CollectStage::Over => (CollectStage::Over, CollectAction::Head),
        };
        (Collect { line, policy, apply, stage: next }, action)
    }
}

// --------------------------------------------------------------------- laws

/// A timeline is never left empty, and its newest turn is always kept.
pub proof fn law_the_newest_turn_is_kept(policy: Retention, now: u64, turns: Seq<TurnModel>)
    requires
        turns.len() > 0,
    ensures
        kept_of(policy, now, turns, turns.len()).len() > 0,
        kept_of(policy, now, turns, turns.len()).last() == turns.last(),
{
    assert(keeps(policy, now, turns, turns.len() - 1));
}

/// No more turns are kept than the policy says, where it keeps any at all.
pub proof fn law_no_more_is_kept_than_allowed(
    policy: Retention,
    now: u64,
    turns: Seq<TurnModel>,
    n: nat,
)
    requires
        n <= turns.len(),
    ensures
        ({
            let keep = if policy.keep >= 1 {
                policy.keep as int
            } else {
                1
            };
            let floor = if turns.len() >= keep {
                turns.len() - keep
            } else {
                0
            };
            kept_of(policy, now, turns, n).len() <= (if n as int >= floor {
                n - floor
            } else {
                0
            })
        }),
    decreases n,
{
    if n > 0 {
        law_no_more_is_kept_than_allowed(policy, now, turns, (n - 1) as nat);
    }
}

/// Every kept turn is one of the timeline's, and the kept turns stand in the
/// timeline's order.
pub proof fn law_kept_turns_keep_their_order(
    policy: Retention,
    now: u64,
    turns: Seq<TurnModel>,
    n: nat,
)
    requires
        n <= turns.len(),
    ensures
        exists|at: Seq<int>| #[trigger]
            picks(at, n) && kept_of(policy, now, turns, n) == at.map_values(|i: int| turns[i]),
    decreases n,
{
    if n == 0 {
        let at = Seq::<int>::empty();
        assert(picks(at, n));
        assert(kept_of(policy, now, turns, n) =~= at.map_values(|i: int| turns[i]));
    } else {
        let m = (n - 1) as nat;
        law_kept_turns_keep_their_order(policy, now, turns, m);
        let at = choose|at: Seq<int>| #[trigger]
            picks(at, m) && kept_of(policy, now, turns, m) == at.map_values(|i: int| turns[i]);
        if keeps(policy, now, turns, n - 1) {
            let more = at.push(n - 1);
            assert(picks(more, n));
            assert(kept_of(policy, now, turns, n) =~= more.map_values(|i: int| turns[i]));
        } else {
            assert(picks(at, n));
        }
    }
}

/// Ascending indices below `n`.
pub open spec fn picks(at: Seq<int>, n: nat) -> bool {
    &&& forall|i: int| 0 <= i < at.len() ==> 0 <= #[trigger] at[i] < n
    &&& forall|i: int, j: int| 0 <= i < j < at.len() ==> #[trigger] at[i] < #[trigger] at[j]
}

/// A turn that is kept still restores to the same files: it has the same
/// number, the same tree and everything else it had but its commit and parent,
/// and the chain is rebuilt of those very trees.
pub proof fn law_a_kept_turn_restores_to_the_same_files(
    kept: Seq<TurnModel>,
    commits: Seq<Seq<char>>,
    i: int,
)
    requires
        commits.len() == kept.len(),
        0 <= i < kept.len(),
    ensures
        relinked(kept, commits).len() == kept.len(),
        relinked(kept, commits)[i].tree == kept[i].tree,
        relinked(kept, commits)[i].seq == kept[i].seq,
        relinked(kept, commits)[i].at == kept[i].at,
        relinked(kept, commits)[i].subject() == kept[i].subject(),
        relinked(kept, commits)[i].commit == commits[i],
        relinked(kept, commits)[i].parent == (if i > 0 {
            Some(relinked(kept, commits)[i - 1].commit)
        } else {
            None
        }),
        links_of(kept)[i].tree == kept[i].tree,
        links_of(relinked(kept, commits)) == links_of(kept),
{
    assert(links_of(relinked(kept, commits)) =~= links_of(kept));
}

/// Turn numbers go on from where they were: after a collection the last number
/// is what it was before.
pub proof fn law_numbering_continues(
    policy: Retention,
    now: u64,
    turns: Seq<TurnModel>,
    commits: Seq<Seq<char>>,
)
    requires
        turns.len() > 0,
        commits.len() == kept_of(policy, now, turns, turns.len()).len(),
    ensures
        relinked(kept_of(policy, now, turns, turns.len()), commits).last().seq == turns.last().seq,
{
    law_the_newest_turn_is_kept(policy, now, turns);
}

/// A dry run changes nothing: it neither rebuilds nor rewrites nor prunes.
pub proof fn law_a_dry_run_changes_nothing(
    s: Collect,
    event: CollectEvent,
    t: CollectStage,
    action: CollectAction,
)
    requires
        !s.apply,
        collect_goes(s, event, t, action),
        !(s.stage is Rebuilding || s.stage is Rewriting || s.stage is Pruning || s.stage is Measuring),
    ensures
        !(action is Rebuild || action is Rewrite || action is Prune),
        !(t is Rebuilding || t is Rewriting || t is Pruning || t is Measuring),
{
}

/// Objects are pruned only after the log was rewritten, the log is rewritten
/// only after the chain was rebuilt, and the chain is moved only from the head
/// that was read before the log.
pub proof fn law_collection_goes_in_order(
    s: Collect,
    event: CollectEvent,
    t: CollectStage,
    action: CollectAction,
)
    requires
        collect_goes(s, event, t, action),
    ensures
        action is Turns ==> event is Head,
        action is Rewrite ==> (event matches CollectEvent::Rebuilt(r) && r is Ok),
        action is Prune ==> (event matches CollectEvent::Rewrote(r) && r is Ok),
        match (s.stage, action) {
            (CollectStage::Dating { head, .. }, CollectAction::Rebuild { expected, .. }) => expected
                == head,
            (_, CollectAction::Rebuild { .. }) => false,
            _ => true,
        },
{
}

proof fn lemma_kept_has(
    policy: Retention,
    now: u64,
    turns: Seq<TurnModel>,
    n: nat,
    i: int,
)
    requires
        n <= turns.len(),
        0 <= i < turns.len(),
        forall|j: int, k: int|
            0 <= j < k < turns.len() ==> (#[trigger] turns[j]).seq < (#[trigger] turns[k]).seq,
    ensures
        kept_of(policy, now, turns, n).contains(turns[i]) <==> i < n && keeps(policy, now, turns, i),
    decreases n,
{
    if n > 0 {
        let m = (n - 1) as nat;
        let before = kept_of(policy, now, turns, m);
        lemma_kept_has(policy, now, turns, m, i);
        if keeps(policy, now, turns, n - 1) {
            let all = before.push(turns[n - 1]);
            if before.contains(turns[i]) {
                let k = choose|k: int| 0 <= k < before.len() && before[k] == turns[i];
                assert(all[k] == turns[i]);
            }
            if i == n - 1 {
                assert(all[before.len() as int] == turns[i]);
            }
            if all.contains(turns[i]) && !before.contains(turns[i]) {
                let k = choose|k: int| 0 <= k < all.len() && all[k] == turns[i];
                if k < before.len() {
                    assert(before[k] == turns[i]);
                }
                assert(turns[i] == turns[n - 1]);
                if i < n - 1 {
                    assert(turns[i].seq < turns[n - 1].seq);
                } else if i > n - 1 {
                    assert(turns[n - 1].seq < turns[i].seq);
                }
            }
        }
    }
}

/// Which turns of a timeline a policy keeps: the newest always; of the others
/// those among the newest `keep`, where a limit of none counts as one, that are
/// at most so many days old, a day being twenty-four hours of sixty minutes of
/// sixty seconds. Without a limit of days, age does not matter.
pub proof fn law_a_turn_is_kept_for_its_days(
    policy: Retention,
    now: u64,
    turns: Seq<TurnModel>,
    i: int,
)
    requires
        0 <= i < turns.len(),
        forall|j: int, k: int|
            0 <= j < k < turns.len() ==> (#[trigger] turns[j]).seq < (#[trigger] turns[k]).seq,
    ensures
        kept_of(policy, now, turns, turns.len()).contains(turns[i]) <==> {
            ||| i == turns.len() - 1
            ||| {
                &&& turns.len() - i <= policy.keep
                &&& policy.max_age_days matches Some(days) ==> now - turns[i].at <= days * 24 * 60
                    * 60
            }
        },
{
    lemma_kept_has(policy, now, turns, turns.len(), i);
}

/// What shortening a timeline asks for: the chain is rebuilt of the kept turns'
/// own trees, subjects and times, oldest first, and the report counts what was
/// kept and what was dropped of the turns that were read.
pub proof fn law_a_collection_rebuilds_what_it_keeps(
    s: Collect,
    now: u64,
    t: CollectStage,
    action: CollectAction,
    head: Option<String>,
    turns: Vec<Turn>,
    bytes: u64,
)
    requires
        s.stage == (CollectStage::Dating { head, turns, bytes }),
        collect_goes(s, CollectEvent::Now(now), t, action),
    ensures
        ({
            let all = turns_view(turns@);
            let keep = kept_of(s.policy, now, all, all.len());
            match action {
                CollectAction::Rebuild { chain, expected } => {
                    &&& s.apply
                    &&& keep.len() < all.len()
                    &&& expected == head
                    &&& chain@.len() == keep.len()
                    &&& forall|i: int|
                        0 <= i < keep.len() ==> (#[trigger] chain@[i])@.tree == keep[i].tree
                            && chain@[i]@.at == keep[i].at && chain@[i]@.message
                            == keep[i].subject()
                },
                CollectAction::Done(Ok(done)) => {
                    &&& !s.apply || keep.len() == all.len()
                    &&& done.kept == keep.len()
                    &&& done.dropped == all.len() - keep.len()
                    &&& done.bytes_before == bytes
                    &&& done.bytes_after == bytes
                    &&& done.line@ == s.line@
                },
                _ => false,
            }
        }),
{
    let all = turns_view(turns@);
    let keep = kept_of(s.policy, now, all, all.len());
    law_no_more_is_kept_than_allowed(s.policy, now, all, all.len());
    if let CollectAction::Rebuild { chain, expected } = action {
        assert(links(chain@).len() == chain@.len());
        assert forall|i: int| 0 <= i < keep.len() implies (#[trigger] chain@[i])@.tree
            == keep[i].tree && chain@[i]@.at == keep[i].at && chain@[i]@.message
            == keep[i].subject() by {
            assert(links(chain@)[i] == chain@[i]@);
            assert(links_of(keep)[i].tree == keep[i].tree);
        }
    }
}

/// A collection that was carried out reports what it measured: the size before
/// it, and the size after it, with what it kept and dropped.
pub proof fn law_a_collection_reports_what_it_did(
    s: Collect,
    after: u64,
    t: CollectStage,
    action: CollectAction,
    keep: usize,
    gone: usize,
    bytes: u64,
)
    requires
        s.stage == (CollectStage::Measuring { kept: keep, dropped: gone, bytes }),
        collect_goes(s, CollectEvent::Size(after), t, action),
    ensures
        action matches CollectAction::Done(Ok(done)) && done.kept == keep && done.dropped == gone
            && done.bytes_before == bytes && done.bytes_after == after && done.line@ == s.line@,
{
}

/// What stops a collection is handed on as it is. A timeline without turns is
/// done at once, and reports that nothing was kept and nothing dropped.
pub proof fn law_what_stops_a_collection_is_told(
    s: Collect,
    event: CollectEvent,
    t: CollectStage,
    action: CollectAction,
)
    requires
        collect_goes(s, event, t, action),
    ensures
        action is Done <==> t is Over,
        event matches CollectEvent::Locked(Err(f)) ==> action == CollectAction::Done(Err(f)),
        (match event {
            CollectEvent::Head(Err(e)) => Some(e@),
            CollectEvent::Turns(Err(e)) => Some(e@),
            CollectEvent::Rebuilt(Err(e)) => Some(e@),
            CollectEvent::Rewrote(Err(e)) => Some(e@),
            CollectEvent::Pruned(Err(e)) => Some(e@),
            _ => None,
        }) matches Some(why) ==> (action matches CollectAction::Done(Err(Failure::Other(e))) && e@
            == why),
        s.stage matches CollectStage::Sizing { turns, .. } ==> (event matches CollectEvent::Size(
            bytes,
        ) ==> (turns@.len() == 0 <==> action is Done) && (action matches CollectAction::Done(Ok(c))
            ==> c.kept == 0 && c.dropped == 0 && c.bytes_before == bytes && c.bytes_after == bytes)),
{
}

} // verus!
