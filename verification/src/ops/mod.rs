//! The operations on a worktree's history: recording a turn, planning a
//! restore, restoring, and shortening a timeline.
//!
//! Each of them takes many steps outside: commands to git, files to read and
//! write. What is done next is decided here, from what came of the step before;
//! whoever runs an operation performs the step it asks for and hands back what
//! came of it.
use crate::lock::Busy;
use crate::shadow::plan::RestorePlan;
use crate::store::Turn;
use crate::strings::{dec, head_of, opt_text, owned, push_dec, within};
use vstd::prelude::*;
use vstd::string::*;

pub mod collect;
pub mod numbering;
pub mod planning;
pub mod restore;
pub mod snap;
pub mod undo;

verus! {

/// How long a snapshot waits for the lock, in nanoseconds: a recorder must not
/// stall a session, and the next turn records the same tree.
pub const SNAP_WAIT: u128 = 5_000_000_000;

/// How long a restore or a collection waits for the lock, in nanoseconds: a
/// person asked for it.
pub const USER_WAIT: u128 = 60_000_000_000;

/// What is known about a turn besides what is in the tree.
#[derive(Debug)]
pub struct SnapMeta {
    pub agent: Option<String>,
    pub pane_id: Option<String>,
    pub note: Option<String>,
    pub prompt: Option<String>,
}

impl Default for SnapMeta {
    fn default() -> (r: Self)
        ensures
            r.agent is None,
            r.pane_id is None,
            r.note is None,
            r.prompt is None,
    {
        SnapMeta { agent: None, pane_id: None, note: None, prompt: None }
    }
}

/// The first twelve bytes of an object id, which name it to a reader.
pub fn short(oid: &str) -> (r: String)
    ensures
        r@ == within(oid@, 12),
{
    head_of(oid, 12)
}

/// The working tree moved between the moment a plan was made and the moment it
/// was going to be carried out.
#[derive(Debug)]
pub struct StaleTree {
    pub expected: String,
    pub actual: String,
    /// The plan as it stands now.
    pub plan: RestorePlan,
}

impl StaleTree {
    pub open spec fn message(&self) -> Seq<char> {
        "the working tree changed since this plan was made ("@ + within(self.expected@, 12)
            + " is now "@ + within(self.actual@, 12) + "); nothing was restored"@
    }

    pub fn text(&self) -> (r: String)
        ensures
            r@ == self.message(),
    {
        let mut s: String = owned("the working tree changed since this plan was made (");
        s.append(short(self.expected.as_str()).as_str());
        s.append(" is now ");
        s.append(short(self.actual.as_str()).as_str());
        s.append("); nothing was restored");
        s
    }
}

/// A restore failed partway through.
///
/// A path that changes between a file and a directory cannot be written while
/// the old shape is there, so removals come first, and a failure in the middle
/// leaves a tree that is neither state.
#[derive(Debug)]
pub struct RestoreFailed {
    /// Whether the files were put back as they were.
    pub recovered: bool,
    /// The turn that holds the state from before the attempt.
    pub checkpoint_seq: Option<u64>,
    pub cause: String,
    /// Why putting the files back failed as well.
    pub recovery_error: Option<String>,
}

impl RestoreFailed {
    pub open spec fn message(&self) -> Seq<char> {
        "the restore failed: "@ + self.cause@ + (if self.recovered {
            ". Your files were put back as they were."@
        } else {
            ". Your working tree is between two states"@ + (match opt_text(self.recovery_error) {
                Some(err) => ", and putting it back failed too ("@ + err + ")"@,
                None => Seq::empty(),
            }) + (match self.checkpoint_seq {
                Some(seq) => " — `sheep restore #"@ + dec(seq as nat)
                    + " --yes` returns it to how it was."@,
                None => "."@,
            })
        })
    }

    pub fn text(&self) -> (r: String)
        ensures
            r@ == self.message(),
    {
        let mut s: String = owned("the restore failed: ");
        s.append(self.cause.as_str());
        let mut t: String = String::new();
        if self.recovered {
            t.append(". Your files were put back as they were.");
            proof {
                assert(t@ =~= ". Your files were put back as they were."@);
            }
        } else {
            t.append(". Your working tree is between two states");
            proof {
                assert(t@ =~= ". Your working tree is between two states"@);
            }
            let mut u: String = String::new();
            if let Some(err) = &self.recovery_error {
                u.append(", and putting it back failed too (");
                u.append(err.as_str());
                u.append(")");
                proof {
                    assert(u@ =~= ", and putting it back failed too ("@ + err@ + ")"@);
                }
            } else {
                proof {
                    assert(u@ =~= Seq::<char>::empty());
                }
            }
            t.append(u.as_str());
            let mut v: String = String::new();
            match self.checkpoint_seq {
                Some(seq) => {
                    v.append(" — `sheep restore #");
                    push_dec(&mut v, seq);
                    v.append(" --yes` returns it to how it was.");
                    proof {
                        assert(v@ =~= " — `sheep restore #"@ + dec(seq as nat)
                            + " --yes` returns it to how it was."@);
                    }
                },
                None => {
                    v.append(".");
                    proof {
                        assert(v@ =~= "."@);
                    }
                },
            }
            t.append(v.as_str());
        }
        s.append(t.as_str());
        s
    }
}

/// Why an operation did not happen, or did not finish.
#[derive(Debug)]
pub enum Failure {
    /// Somebody else is writing: try again.
    Busy(Busy),
    /// The plan that was agreed to is no longer the plan.
    Stale(StaleTree),
    /// A restore failed after it had begun.
    Restore(RestoreFailed),
    /// Anything else, which happened before anything was changed.
    Other(String),
}

/// Whether an operation only has to be tried again.
pub fn is_busy(failure: &Failure) -> (r: bool)
    ensures
        r == (failure is Busy),
{
    match failure {
        Failure::Busy(_) => true,
        _ => false,
    }
}

/// What a restore did.
#[derive(Debug)]
pub struct Restored {
    pub plan: RestorePlan,
    pub commit: String,
    /// The turn that holds the state that was replaced. Restoring it undoes
    /// this.
    pub checkpoint: Option<Turn>,
    /// The files were restored, but recording where that landed did not work.
    pub bookkeeping_error: Option<String>,
}

} // verus!
