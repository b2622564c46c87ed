//! What the commands print.
use crate::ops::collect::Collected;
use crate::ops::short;
use crate::repo::{BlockerModel, Health, HealthModel, WarningModel, Worktree, WorktreeModel};
use crate::shadow::plan::{RestoreModel, RestorePlan};
use crate::store::{turns_view, Turn, TurnModel};
use crate::strings::{
    dec, dec_of, lemma_texts_empty, lemma_texts_push, owned, push_dec, texts, within,
};
use crate::tui::scene::less;
use crate::tui::text::{repeat, repeated, width};
use vstd::prelude::*;
use vstd::string::*;

verus! {

/// `s` with blanks behind it, where it is shorter than `to`.
pub open spec fn left(s: Seq<char>, to: nat) -> Seq<char> {
    s + repeated(' ', less(to as int, s.len() as int) as nat)
}

/// `s` with blanks before it, where it is shorter than `to`.
pub open spec fn right(s: Seq<char>, to: nat) -> Seq<char> {
    repeated(' ', less(to as int, s.len() as int) as nat) + s
}

fn push_left(out: &mut String, s: &str, to: usize)
    ensures
        final(out)@ == old(out)@ + left(s@, to as nat),
{
    let gap: String = repeat(' ', to.saturating_sub(width(s)));
    let mut t: String = owned(s);
    t.append(gap.as_str());
    out.append(t.as_str());
}

fn push_right(out: &mut String, s: &str, to: usize)
    ensures
        final(out)@ == old(out)@ + right(s@, to as nat),
{
    let mut t: String = repeat(' ', to.saturating_sub(width(s)));
    t.append(s);
    out.append(t.as_str());
}

// ---------------------------------------------------------------------- the log

/// One turn of the log.
pub open spec fn log_row(t: TurnModel) -> Seq<char> {
    "#"@ + left(dec(t.seq as nat), 4) + " "@ + within(t.commit, 12) + "  "@ + left(
        t.kind.name(),
        10,
    ) + " "@ + right(dec(t.files as nat), 4) + " files  +"@ + left(dec(t.insertions as nat), 6)
        + " -"@ + left(dec(t.deletions as nat), 6) + " "@ + (match t.note {
        Some(n) => n,
        None => Seq::empty(),
    })
}

/// One turn of the log.
pub fn log_line(turn: &Turn) -> (r: String)
    ensures
        r@ == log_row(turn@),
{
    let mut t: String = owned("#");
    push_left(&mut t, dec_of(turn.seq).as_str(), 4);
    t.append(" ");
    t.append(short(turn.commit.as_str()).as_str());
    t.append("  ");
    push_left(&mut t, turn.kind.label(), 10);
    t.append(" ");
    push_right(&mut t, dec_of(turn.files as u64).as_str(), 4);
    t.append(" files  +");
    push_left(&mut t, dec_of(turn.insertions).as_str(), 6);
    t.append(" -");
    push_left(&mut t, dec_of(turn.deletions).as_str(), 6);
    t.append(" ");
    match &turn.note {
        Some(n) => {
            t.append(n.as_str());
        },
        None => {
            proof {
                assert(t@ + Seq::<char>::empty() =~= t@);
            }
        },
    }
    t
}

/// The log of a timeline, newest first, no more than `limit` turns of it.
pub open spec fn log_rows(turns: Seq<TurnModel>, line: Seq<char>, limit: nat) -> Seq<Seq<char>> {
    if turns.len() == 0 {
        seq!["no turns recorded on `"@ + line + "` yet"@]
    } else {
        Seq::new(
            if limit < turns.len() {
                limit
            } else {
                turns.len()
            },
            |i: int| log_row(turns[turns.len() - 1 - i]),
        )
    }
}

/// The log of a timeline, newest first, no more than `limit` turns of it.
pub fn log_lines(turns: &Vec<Turn>, line: &str, limit: usize) -> (r: Vec<String>)
    ensures
        texts(r@) == log_rows(turns_view(turns@), line@, limit as nat),
{
    broadcast use lemma_texts_push;

    let mut out: Vec<String> = Vec::new();
    let ghost all = turns_view(turns@);
    proof {
        lemma_texts_empty(out@);
    }
    if turns.len() == 0 {
        let mut t: String = owned("no turns recorded on `");
        t.append(line);
        t.append("` yet");
        out.push(t);
        return out;
    }
    let ghost want = log_rows(all, line@, limit as nat);
    let mut i: usize = 0;
    proof {
        assert(texts(out@) =~= want.take(0));
    }
    while i < turns.len() && i < limit
        invariant
            turns@.len() > 0,
            all == turns_view(turns@),
            want == log_rows(all, line@, limit as nat),
            i <= turns@.len(),
            i <= limit,
            texts(out@) == want.take(i as int),
        decreases turns@.len() - i,
    {
        broadcast use lemma_texts_push;

        proof {
            assert(want.take(i + 1) =~= want.take(i as int).push(want[i as int]));
            assert(all[all.len() - 1 - i] == turns@[all.len() - 1 - i]@);
        }
        out.push(log_line(&turns[turns.len() - 1 - i]));
        i += 1;
    }
    proof {
        assert(want.take(i as int) =~= want);
    }
    out
}

// ------------------------------------------------------------------- a snapshot

/// What `snap` prints.
pub open spec fn snapped_text(turn: Option<TurnModel>) -> Seq<char> {
    match turn {
        Some(t) => within(t.commit, 12) + "  "@ + t.subject(),
        None => "nothing changed since the last turn"@,
    }
}

/// What `snap` prints.
pub fn snapped(turn: &Option<Turn>) -> (r: String)
    ensures
        r@ == snapped_text(
            match *turn {
                Some(t) => Some(t@),
                None => None,
            },
        ),
{
    match turn {
        Some(t) => {
            let mut s: String = short(t.commit.as_str());
            s.append("  ");
            s.append(t.subject().as_str());
            s
        },
        None => owned("nothing changed since the last turn"),
    }
}

// ----------------------------------------------------------------------- a plan

/// A plan, one path on each line behind what would happen to it.
pub open spec fn plan_rows(plan: RestoreModel, commit: Seq<char>) -> Seq<Seq<char>> {
    if plan.write.len() == 0 && plan.remove.len() == 0 {
        seq!["already at "@ + within(commit, 12) + ": nothing to restore"@]
    } else {
        seq![
            "restore to "@ + within(commit, 12) + "  ·  "@ + dec(plan.write.len())
                + " file(s) written, "@ + dec(plan.remove.len()) + " removed"@,
        ] + marked("  write   "@, plan.write) + marked("  remove  "@, plan.remove)
    }
}

/// Lines behind a mark.
pub open spec fn marked(mark: Seq<char>, lines: Seq<Seq<char>>) -> Seq<Seq<char>> {
    lines.map_values(|l: Seq<char>| mark + l)
}

fn push_marked(out: &mut Vec<String>, mark: &str, lines: &Vec<String>)
    ensures
        texts(final(out)@) == texts(old(out)@) + marked(mark@, texts(lines@)),
{
    broadcast use lemma_texts_push;

    let ghost was = texts(out@);
    let ghost want = marked(mark@, texts(lines@));
    let mut i: usize = 0;
    proof {
        assert(was + want.take(0) =~= was);
    }
    while i < lines.len()
        invariant
            i <= lines@.len(),
            want == marked(mark@, texts(lines@)),
            texts(out@) == was + want.take(i as int),
        decreases lines@.len() - i,
    {
        broadcast use lemma_texts_push;

        let mut t: String = owned(mark);
        t.append(lines[i].as_str());
        proof {
            assert(want[i as int] == mark@ + lines@[i as int]@);
            assert(was + want.take(i + 1) =~= (was + want.take(i as int)).push(want[i as int]));
        }
        out.push(t);
        i += 1;
    }
    proof {
        assert(want.take(i as int) =~= want);
    }
}

/// A plan, one path on each line behind what would happen to it.
pub fn plan_lines(plan: &RestorePlan, commit: &str) -> (r: Vec<String>)
    ensures
        texts(r@) == plan_rows(plan@, commit@),
{
    broadcast use lemma_texts_push;

    let mut out: Vec<String> = Vec::new();
    proof {
        lemma_texts_empty(out@);
        assert(plan@.write.len() == plan.write@.len());
        assert(plan@.remove.len() == plan.remove@.len());
    }
    if plan.write.len() == 0 && plan.remove.len() == 0 {
        let mut t: String = owned("already at ");
        t.append(short(commit).as_str());
        t.append(": nothing to restore");
        out.push(t);
        return out;
    }
    let mut t: String = owned("restore to ");
    t.append(short(commit).as_str());
    t.append("  ·  ");
    push_dec(&mut t, plan.write.len() as u64);
    t.append(" file(s) written, ");
    push_dec(&mut t, plan.remove.len() as u64);
    t.append(" removed");
    out.push(t);
    push_marked(&mut out, "  write   ", &plan.write);
    push_marked(&mut out, "  remove  ", &plan.remove);
    out
}

/// What a plan that is not applied ends with.
pub fn dry_run() -> (r: &'static str)
    ensures
        r@ == "dry run. re-run with --yes to apply."@,
{
    "dry run. re-run with --yes to apply."
}

/// What a restore that landed prints.
pub open spec fn restored_rows(touched: nat, checkpoint: Option<u64>) -> Seq<Seq<char>> {
    let first = seq!["restored "@ + dec(touched) + " path(s)."@];
    match checkpoint {
        Some(seq) => first.push(
            "previous state kept as turn #"@ + dec(seq as nat) + " — `sheep restore #"@ + dec(
                seq as nat,
            ) + "` puts it back."@,
        ),
        None => first,
    }
}

/// What a restore that landed prints.
pub fn restored(touched: usize, checkpoint: Option<u64>) -> (r: Vec<String>)
    ensures
        texts(r@) == restored_rows(touched as nat, checkpoint),
{
    broadcast use lemma_texts_push;

    let mut out: Vec<String> = Vec::new();
    proof {
        lemma_texts_empty(out@);
    }
    let mut t: String = owned("restored ");
    push_dec(&mut t, touched as u64);
    t.append(" path(s).");
    out.push(t);
    if let Some(seq) = checkpoint {
        let mut t: String = owned("previous state kept as turn #");
        push_dec(&mut t, seq);
        t.append(" — `sheep restore #");
        push_dec(&mut t, seq);
        t.append("` puts it back.");
        out.push(t);
    }
    out
}

/// What a shortened timeline prints.
pub open spec fn collected_row(
    line: Seq<char>,
    kept: nat,
    dropped: nat,
    before: nat,
    after: nat,
) -> Seq<char> {
    line + "  ·  "@ + dec(kept) + " turn(s) kept, "@ + dec(dropped) + " dropped  ·  "@ + dec(before)
        + " → "@ + dec(after) + " bytes"@
}

/// What a shortened timeline prints.
pub fn collected(done: &Collected) -> (r: String)
    ensures
        r@ == collected_row(
            done.line@,
            done.kept as nat,
            done.dropped as nat,
            done.bytes_before as nat,
            done.bytes_after as nat,
        ),
{
    let mut t: String = done.line.clone();
    t.append("  ·  ");
    push_dec(&mut t, done.kept as u64);
    t.append(" turn(s) kept, ");
    push_dec(&mut t, done.dropped as u64);
    t.append(" dropped  ·  ");
    push_dec(&mut t, done.bytes_before);
    t.append(" → ");
    push_dec(&mut t, done.bytes_after);
    t.append(" bytes");
    t
}

// ------------------------------------------------------------------- the doctor

/// What `doctor` prints, and whether the worktree can be used.
pub open spec fn doctor_rows(wt: WorktreeModel, state: Seq<char>, health: HealthModel) -> Seq<
    Seq<char>,
> {
    let facts = seq![
        "worktree   "@ + wt.root,
        "id         "@ + wt.id,
        "kind       "@ + (if wt.git_dir != wt.common_dir {
            "linked worktree"@
        } else {
            "main checkout"@
        }),
        "objects    "@ + crate::paths::joined(wt.common_dir, "objects"@),
        "state      "@ + state,
        "tracked    "@ + dec(health.tracked_files as nat) + " files"@,
    ] + marked("note       "@, health.warnings.map_values(|w: WarningModel| w.text()));
    if health.blockers.len() == 0 {
        facts.push("status     ready"@)
    } else {
        facts + marked("blocked    "@, health.blockers.map_values(|b: BlockerModel| b.text()))
    }
}

/// What `doctor` prints.
pub fn doctor(wt: &Worktree, state: &str, health: &Health) -> (r: Vec<String>)
    ensures
        texts(r@) == doctor_rows(wt@, state@, health@),
{
    broadcast use lemma_texts_push;

    let mut out: Vec<String> = Vec::new();
    proof {
        lemma_texts_empty(out@);
        assert(health@.blockers.len() == health.blockers@.len());
    }
    let mut root: String = owned("worktree   ");
    root.append(wt.root.as_str());
    out.push(root);
    let mut id: String = owned("id         ");
    id.append(wt.id.as_str());
    out.push(id);
    let mut kind: String = owned("kind       ");
    kind.append(
        if wt.is_linked() {
            "linked worktree"
        } else {
            "main checkout"
        },
    );
    out.push(kind);
    let mut objects: String = owned("objects    ");
    objects.append(wt.objects_dir().as_str());
    out.push(objects);
    let mut kept: String = owned("state      ");
    kept.append(state);
    out.push(kept);
    let mut files: String = owned("tracked    ");
    push_dec(&mut files, health.tracked_files as u64);
    files.append(" files");
    out.push(files);
    push_marked(&mut out, "note       ", &health.warning_texts());
    if health.blockers.len() == 0 {
        out.push(owned("status     ready"));
    } else {
        push_marked(&mut out, "blocked    ", &health.blocker_texts());
    }
    out
}

/// What `doctor` fails with where the worktree cannot be used.
pub fn unsafe_worktree() -> (r: &'static str)
    ensures
        r@ == "this worktree is not safe to record right now"@,
{
    "this worktree is not safe to record right now"
}

} // verus!
