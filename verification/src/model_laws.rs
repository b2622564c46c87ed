//! What stands for a value is that value, field by field.
use vstd::prelude::*;

use crate::herdr::detect::Sighting;
use crate::repo::{Blocker, BlockerModel, Health, Worktree};
use crate::shadow::plan::RestorePlan;
use crate::shadow::{Link, Shadow, Snapshot};
use crate::store::Turn;
use crate::strings::opt_text;
use crate::tui::engine::{Outcome, PlanView};

verus! {

/// What stands for a turn has each of its fields.
pub proof fn law_a_turn_is_its_fields(t: Turn)
    ensures
        t@.seq == t.seq,
        t@.kind == t.kind,
        t@.commit == t.commit@,
        t@.tree == t.tree@,
        t@.parent == opt_text(t.parent),
        t@.at == t.at,
        t@.files == t.files,
        t@.insertions == t.insertions,
        t@.deletions == t.deletions,
        t@.pane_id == opt_text(t.pane_id),
        t@.agent == opt_text(t.agent),
        t@.prompt == opt_text(t.prompt),
        t@.note == opt_text(t.note),
{
}

/// What stands for a plan has the paths to be written, the paths to be removed
/// and the two trees, each in its place.
pub proof fn law_a_plan_is_its_fields(p: RestorePlan, i: int)
    ensures
        p@.write.len() == p.write@.len(),
        0 <= i < p.write@.len() ==> p@.write[i] == p.write@[i]@,
        p@.remove.len() == p.remove@.len(),
        0 <= i < p.remove@.len() ==> p@.remove[i] == p.remove@[i]@,
        p@.target_tree == p.target_tree@,
        p@.current_tree == p.current_tree@,
{
}

/// What stands for a worktree, for where its snapshots are kept, and for one of
/// them has each of their fields.
pub proof fn law_a_worktree_is_its_fields(w: Worktree, s: Shadow, t: Snapshot, l: Link)
    ensures
        w@.root == w.root@,
        w@.git_dir == w.git_dir@,
        w@.common_dir == w.common_dir@,
        w@.id == w.id@,
        s@.git_dir == s.git_dir@,
        s@.worktree == s.worktree@,
        s@.tmp_dir == s.tmp_dir@,
        t@.commit == t.commit@,
        t@.tree == t.tree@,
        t@.parent == opt_text(t.parent),
        t@.at == t.at,
        l@.tree == l.tree@,
        l@.message == l.message@,
        l@.at == l.at,
{
}

/// What stands for a sighting has each of its fields.
pub proof fn law_a_sighting_is_its_fields(s: Sighting)
    ensures
        s@.pane_id == s.pane_id@,
        s@.agent == opt_text(s.agent),
        s@.cwd == opt_text(s.cwd),
        s@.status == s.status,
        s@.revision == s.revision,
{
}

/// What stands for the state of a worktree has each thing in the way and each
/// warning, in order, and each thing in the way is of its kind.
pub proof fn law_a_health_is_its_fields(h: Health, b: Blocker, i: int)
    ensures
        h@.blockers.len() == h.blockers@.len(),
        0 <= i < h.blockers@.len() ==> h@.blockers[i] == h.blockers@[i]@,
        h@.warnings.len() == h.warnings@.len(),
        0 <= i < h.warnings@.len() ==> h@.warnings[i] == h.warnings@[i]@,
        h@.tracked_files == h.tracked_files,
        b is OperationInProgress <==> b@ is OperationInProgress,
        b is UnmergedPaths <==> b@ is UnmergedPaths,
        b is UnbornRepositories <==> b@ is UnbornRepositories,
        b matches Blocker::TooLarge { files, limit } ==> b@ == (BlockerModel::TooLarge {
            files,
            limit,
        }),
{
}

/// What stands for a plan on screen, and for what came of a restore, has each of
/// their fields.
pub proof fn law_what_is_on_screen_is_its_fields(p: PlanView, o: Outcome, i: int)
    ensures
        p@.seq == p.seq,
        p@.commit == p.commit@,
        p@.target_tree == p.target_tree@,
        p@.current_tree == p.current_tree@,
        p@.files.len() == p.files@.len(),
        0 <= i < p.files@.len() ==> p@.files[i] == (p.files@[i].0, p.files@[i].1@),
        p@.written == p.written,
        p@.removed == p.removed,
        o@.seq == o.seq,
        o@.commit == o.commit@,
        o@.written == o.written,
        o@.removed == o.removed,
        o@.checkpoint == o.checkpoint,
        o@.notice == o.notice@,
{
}

} // verus!
