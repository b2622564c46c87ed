//! What is kept of a turn, where it is kept, and what is told of it.
use crate::digest::hex;
use crate::paths::{components, file_name, joined, names_something};
use crate::repo::{
    given, id_with, nested_in, no_worktree, state_dir_for, unmerged_paths, warnings_of,
    BlockerModel, HealthModel, WarningModel, WorktreeModel,
};
use crate::report::{
    collected_row, doctor_rows, left, log_row, log_rows, plan_rows, restored_rows, right,
};
use crate::shadow::plan::RestoreModel;
use crate::shadow::read::lemma_whole;
use crate::store::{
    log_path, readable, sanitized, slug_of, slug_with, timeline_of, turn_with, TurnKind, TurnModel,
};
use crate::strings::{
    dec, lemma_cut_at, lemma_says, lemma_split_around, says, split, within,
};
use vstd::prelude::*;

verus! {

// ---------------------------------------------------------------------- paths

/// A path below a directory is the directory, a slash and the path; a path that
/// begins with a slash stands for itself.
pub proof fn law_a_path_below_a_directory(base: Seq<char>, rel: Seq<char>)
    ensures
        rel.len() > 0 && rel[0] == '/' ==> joined(base, rel) == rel,
        !(rel.len() > 0 && rel[0] == '/') && base.len() > 0 && base.last() != '/' ==> joined(
            base,
            rel,
        ) == base + seq!['/'] + rel,
        !(rel.len() > 0 && rel[0] == '/') && (base.len() == 0 || base.last() == '/') ==> joined(
            base,
            rel,
        ) == base + rel,
{
    reveal_strlit("/");
    assert("/"@ =~= seq!['/']);
}

/// The name of a file is what stands behind the last slash.
pub proof fn law_a_file_is_named_by_its_last_part(dir: Seq<char>, name: Seq<char>)
    requires
        name.len() > 0,
        !name.contains('/'),
        name != seq!['.'],
        name != seq!['.', '.'],
    ensures
        file_name(dir.push('/') + name) == Some(name),
{
    let named = |part: Seq<char>| names_something(part);
    lemma_split_around(dir, '/', name);
    lemma_whole(name, '/');
    Seq::filter_distributes_over_add(split(dir, '/'), split(name, '/'), named);
    assert(names_something(name)) by {
        if name.len() == 1 && name[0] == '.' {
            assert(name =~= seq!['.']);
        }
    }
    reveal(Seq::filter);
    assert(seq![name].drop_last() =~= Seq::<Seq<char>>::empty());
    assert(seq![name].filter(named) =~= seq![name]);
    let all = components(dir.push('/') + name);
    assert(all.last() == name);
    if name.len() == 2 && name[0] == '.' && name[1] == '.' {
        assert(name =~= seq!['.', '.']);
    }
}

/// The id of a worktree begins with what its directory is called, as far as a
/// file name may hold it, and ends with the digest of its path.
pub proof fn law_an_id_is_a_name_and_a_digest(dir: Seq<char>, name: Seq<char>, digest: Seq<u8>)
    requires
        name.len() > 0,
        name.len() <= 24,
        !name.contains('/'),
        name != seq!['.'],
        name != seq!['.', '.'],
        digest.len() >= 8,
    ensures
        id_with(dir.push('/') + name, digest) == sanitized(name) + "-"@ + hex(digest.take(8)),
        sanitized(name).len() == name.len(),
        forall|i: int|
            0 <= i < name.len() ==> #[trigger] sanitized(name)[i] == (if ('a' <= name[i] <= 'z')
                || ('A' <= name[i] <= 'Z') || ('0' <= name[i] <= '9') || name[i] == '-' || name[i]
                == '_' {
                name[i]
            } else {
                '-'
            }),
{
    law_a_file_is_named_by_its_last_part(dir, name);
}

/// A directory has a worktree to record unless git says that it is in none, or
/// in a bare repository; and whichever it is, the message names the directory.
pub proof fn law_only_a_worktree_can_be_recorded(start: Seq<char>, inside: bool, bare: Seq<char>)
    ensures
        no_worktree(start, inside, bare) is None <==> inside && bare != "true"@,
        no_worktree(start, inside, bare) matches Some(e) ==> start.is_prefix_of(e),
{
    if let Some(e) = no_worktree(start, inside, bare) {
        assert(e.take(start.len() as int) =~= start);
    }
}

/// State is kept where the session says, else where the user says, else under
/// the machine's directory for state, else under the user's home; a variable that
/// is empty says nothing.
pub proof fn law_state_is_kept_where_it_is_said(
    herdr: Seq<char>,
    own: Seq<char>,
    xdg: Seq<char>,
    home: Seq<char>,
    a: Option<Seq<char>>,
    b: Option<Seq<char>>,
    c: Option<Seq<char>>,
)
    requires
        xdg.len() > 0 && xdg.last() != '/',
        home.len() > 0 && home.last() != '/',
    ensures
        state_dir_for(Some(herdr), a, b, c) == Some(herdr),
        state_dir_for(None, Some(own), b, c) == Some(own),
        state_dir_for(None, None, Some(xdg), c) == Some(xdg + "/sheep"@),
        state_dir_for(None, None, None, Some(home)) == Some(home + "/.local/state/sheep"@),
        state_dir_for(None, None, None, None) is None,
        given(None) is None,
        forall|v: String| (#[trigger] v@).len() == 0 ==> given(Some(v)) is None,
        forall|v: String| (#[trigger] v@).len() > 0 ==> given(Some(v)) == Some(v@),
{
    reveal_strlit("/");
    reveal_strlit("sheep");
    reveal_strlit(".local");
    reveal_strlit("state");
    reveal_strlit("/sheep");
    reveal_strlit("/.local/state/sheep");
    assert(joined(xdg, "sheep"@) =~= xdg + "/sheep"@);
    let one = joined(home, ".local"@);
    assert(one.last() == 'l');
    let two = joined(one, "state"@);
    assert(two.last() == 'e');
    assert(joined(two, "sheep"@) =~= home + "/.local/state/sheep"@);
}

/// An entry that git ends with a slash is a repository, named without it; every
/// other entry is a file.
pub proof fn law_a_nested_repository_ends_with_a_slash(name: Seq<char>)
    ensures
        nested_in(name.push('/')) == Some(name),
        name.len() > 0 && name.last() != '/' ==> nested_in(name) is None,
        nested_in(Seq::empty()) is None,
{
    assert(name.push('/').drop_last() =~= name);
}

/// A path in conflict is what stands behind the first tab of its record.
pub proof fn law_a_conflict_is_named_by_its_path(head: Seq<char>, path: Seq<char>)
    requires
        !head.contains('\t'),
    ensures
        unmerged_paths(seq![head.push('\t') + path]) == seq![path],
{
    let s = head.push('\t') + path;
    let k = head.len() as int;
    assert forall|j: int| 0 <= j < k implies s[j] != '\t' by {
        if s[j] == '\t' {
            assert(head[j] == '\t');
            assert(head.contains('\t'));
        }
    }
    lemma_cut_at(s, '\t', k);
    assert(s.skip(k + 1) =~= path);
    reveal(Seq::filter_map);
    let one = seq![s];
    assert(one.drop_last() =~= Seq::<Seq<char>>::empty());
    assert(one.last() == s);
    assert(unmerged_paths(one.drop_last()) =~= Seq::<Seq<char>>::empty());
    assert(unmerged_paths(one) =~= unmerged_paths(one.drop_last()).push(path));
    assert(unmerged_paths(one) =~= seq![path]);
}

/// Each thing worth knowing is told if and only if it is so.
pub proof fn law_a_warning_is_given_for_what_is_there(
    links: nat,
    nested: Seq<Seq<char>>,
    ignored: bool,
)
    requires
        links <= usize::MAX,
    ensures
        warnings_of(links, nested, ignored).contains(WarningModel::Submodules(links as usize))
            <==> links > 0,
        warnings_of(links, nested, ignored).contains(WarningModel::NestedRepositories(nested))
            <==> nested.len() > 0,
        warnings_of(links, nested, ignored).contains(WarningModel::IgnoredFilesPresent) <==> ignored,
{
    let all = warnings_of(links, nested, ignored);
    let a: int = if links > 0 {
        1
    } else {
        0
    };
    let b: int = if nested.len() > 0 {
        1
    } else {
        0
    };
    if links > 0 {
        assert(all[0] == WarningModel::Submodules(links as usize));
    }
    if nested.len() > 0 {
        assert(all[a] == WarningModel::NestedRepositories(nested));
    }
    if ignored {
        assert(all[a + b] == WarningModel::IgnoredFilesPresent);
    }
}

// ---------------------------------------------------------------------- turns

/// What a turn is called in one line tells its number, what kind it is, who made
/// it, and how much changed: the lines added behind a plus, the lines deleted
/// behind a minus.
pub proof fn law_a_subject_tells_what_changed(t: TurnModel)
    ensures
        ("#"@ + dec(t.seq as nat) + " "@).is_prefix_of(t.subject()),
        says(
            t.subject(),
            dec(t.files as nat) + " files +"@ + dec(t.insertions as nat) + " -"@ + dec(
                t.deletions as nat,
            ),
        ),
        t.agent matches Some(a) ==> says(t.subject(), a),
        t.kind == TurnKind::Turn ==> says(t.subject(), " turn "@),
        t.kind == TurnKind::Checkpoint ==> says(t.subject(), " checkpoint "@),
        t.kind == TurnKind::Manual ==> says(t.subject(), " manual "@),
{
    let who = match t.agent {
        Some(a) => a,
        None => "-"@,
    };
    let head = "#"@ + dec(t.seq as nat) + " "@;
    let kind = t.kind.name();
    let counts = dec(t.files as nat) + " files +"@ + dec(t.insertions as nat) + " -"@ + dec(
        t.deletions as nat,
    );
    let s = t.subject();
    assert(s =~= head + kind + " "@ + who + " · "@ + counts);
    assert(s.take(head.len() as int) =~= head);
    lemma_says(s, head + kind + " "@ + who + " · "@, counts, Seq::empty());
    lemma_says(s, head + kind + " "@, who, " · "@ + counts);
    reveal_strlit(" ");
    reveal_strlit("turn");
    reveal_strlit(" turn ");
    reveal_strlit("checkpoint");
    reveal_strlit(" checkpoint ");
    reveal_strlit("manual");
    reveal_strlit(" manual ");
    let mark = " "@ + kind + " "@;
    lemma_says(s, "#"@ + dec(t.seq as nat), mark, who + " · "@ + counts);
    assert(t.kind == TurnKind::Turn ==> mark =~= " turn "@);
    assert(t.kind == TurnKind::Checkpoint ==> mark =~= " checkpoint "@);
    assert(t.kind == TurnKind::Manual ==> mark =~= " manual "@);
}

/// Every worktree and timeline has a log of its own under the state directory,
/// and the timeline is read back from the name of its file.
pub proof fn law_a_timeline_is_read_back_from_its_file(
    state: Seq<char>,
    worktree: Seq<char>,
    line: Seq<char>,
)
    ensures
        log_path(state, worktree, line) == joined(
            joined(joined(state, "turns"@), worktree),
            slug_of(line) + ".ndjson"@,
        ),
        timeline_of(slug_of(line) + ".ndjson"@) == Some(slug_of(line)),
        !".ndjson"@.is_suffix_of(line) ==> timeline_of(line) is None,
{
    let file = slug_of(line) + ".ndjson"@;
    let n = ".ndjson"@.len();
    assert(file.subrange(file.len() - n, file.len() as int) =~= ".ndjson"@);
    assert(file.take(file.len() - n) =~= slug_of(line));
}

/// A line that cannot be read is passed over, and every other one is a turn, in
/// its place: what is read of two parts of a log is what is read of each.
pub proof fn law_a_broken_line_costs_nothing_else(
    a: Seq<Option<TurnModel>>,
    b: Seq<Option<TurnModel>>,
    t: TurnModel,
)
    ensures
        readable(a + b) == readable(a) + readable(b),
        readable(seq![Some(t)]) == seq![t],
        readable(seq![None]) == Seq::<TurnModel>::empty(),
    decreases b.len(),
{
    let one = seq![Some(t)];
    assert(one.drop_last() =~= Seq::<Option<TurnModel>>::empty());
    assert(readable(one.drop_last()) =~= Seq::<TurnModel>::empty());
    assert(readable(one) =~= seq![t]);
    let none = seq![None::<TurnModel>];
    assert(none.drop_last() =~= Seq::<Option<TurnModel>>::empty());
    assert(readable(none) =~= Seq::<TurnModel>::empty());
    if b.len() == 0 {
        assert(a + b =~= a);
        assert(readable(a) + readable(b) =~= readable(a));
    } else {
        let rest = b.drop_last();
        law_a_broken_line_costs_nothing_else(a, rest, t);
        assert((a + b).drop_last() =~= a + rest);
        assert(readable(a + b) =~= readable(a) + readable(b));
    }
}

/// A turn is found by its number, and what is found has that number and stands
/// in the log; where none is found, none has it.
pub proof fn law_a_found_turn_has_the_number(turns: Seq<TurnModel>, seq: u64)
    ensures
        turn_with(turns, seq) matches Some(t) ==> t.seq == seq && turns.contains(t),
        turn_with(turns, seq) is None ==> forall|i: int|
            0 <= i < turns.len() ==> (#[trigger] turns[i]).seq != seq,
    decreases turns.len(),
{
    if turns.len() > 0 {
        let rest = turns.drop_first();
        law_a_found_turn_has_the_number(rest, seq);
        if turns[0].seq != seq {
            if let Some(t) = turn_with(rest, seq) {
                let i = choose|i: int| 0 <= i < rest.len() && rest[i] == t;
                assert(turns[i + 1] == t);
            } else {
                assert forall|i: int| 0 <= i < turns.len() implies (#[trigger] turns[i]).seq
                    != seq by {
                    if i > 0 {
                        assert(rest[i - 1] == turns[i]);
                    }
                }
            }
        } else {
            assert(turns.contains(turns[0]));
        }
    }
}

/// A name that is no file name is rewritten to one: every character that a file
/// name may not hold is a dash, and the digest tells names apart that would be
/// rewritten to the same.
pub proof fn law_a_rewritten_name_keeps_its_letters(line: Seq<char>, digest: Seq<u8>, i: int)
    requires
        0 <= i < line.len(),
        digest.len() >= 3,
        !(('a' <= line[i] <= 'z') || ('A' <= line[i] <= 'Z') || ('0' <= line[i] <= '9') || line[i]
            == '-' || line[i] == '_'),
    ensures
        slug_with(line, digest) == sanitized(line) + "-"@ + hex(digest.take(3)),
        slug_with(line, digest)[i] == '-',
        forall|j: int|
            0 <= j < line.len() && ('a' <= line[j] <= 'z' || 'A' <= line[j] <= 'Z' || '0' <= line[j]
                <= '9') ==> #[trigger] slug_with(line, digest)[j] == line[j],
        slug_with(Seq::empty(), digest) == "default"@,
{
}

// -------------------------------------------------------------------- reports

/// The log lists the newest turn first, one row to each, and no more than was
/// asked for; a timeline without turns says so.
pub proof fn law_the_log_lists_the_newest_first(
    turns: Seq<TurnModel>,
    line: Seq<char>,
    limit: nat,
    i: int,
)
    ensures
        turns.len() > 0 ==> log_rows(turns, line, limit).len() == (if limit <= turns.len() {
            limit
        } else {
            turns.len()
        }),
        turns.len() > 0 && 0 <= i < limit && i < turns.len() ==> log_rows(turns, line, limit)[i]
            == log_row(turns[turns.len() - 1 - i]),
        turns.len() == 0 ==> log_rows(turns, line, limit).len() == 1 && says(
            log_rows(turns, line, limit)[0],
            line,
        ),
{
    if turns.len() == 0 {
        lemma_says(
            log_rows(turns, line, limit)[0],
            "no turns recorded on `"@,
            line,
            "` yet"@,
        );
    }
}

proof fn lemma_nested(
    text: Seq<char>,
    before: Seq<char>,
    part: Seq<char>,
    after: Seq<char>,
    piece: Seq<char>,
)
    requires
        text =~= before + part + after,
        says(part, piece),
    ensures
        says(text, piece),
{
    let (a, b) = choose|a: Seq<char>, b: Seq<char>| #[trigger]
        crate::strings::is_made_of(part, a, piece, b);
    assert(before + (a + piece + b) + after =~= (before + a) + piece + (b + after));
    lemma_says(text, before + a, piece, b + after);
}

/// The number of a row, what stands behind it, and how both are padded.
proof fn lemma_padded(s: Seq<char>, to: nat)
    ensures
        says(left(s, to), s),
        s.is_prefix_of(left(s, to)),
        says(right(s, to), s),
        s.is_suffix_of(right(s, to)),
{
    let l = left(s, to);
    let r = right(s, to);
    assert(l.take(s.len() as int) =~= s);
    lemma_says(l, Seq::empty(), s, l.skip(s.len() as int));
    assert(r.skip(r.len() - s.len()) =~= s);
    assert(r.subrange(r.len() - s.len(), r.len() as int) =~= s);
    lemma_says(r, r.take(r.len() - s.len()), s, Seq::empty());
}

/// A row of the log tells a turn's number, its commit, its kind, and how much
/// changed, what was added before what was deleted.
pub proof fn law_a_log_row_tells_what_changed(t: TurnModel)
    ensures
        exists|before: Seq<char>, after: Seq<char>|
            log_row(t) == #[trigger] row_of(
                before,
                right(dec(t.files as nat), 4) + " files  +"@ + left(dec(t.insertions as nat), 6)
                    + " -"@ + left(dec(t.deletions as nat), 6) + " "@,
                after,
            ) && ("#"@ + left(dec(t.seq as nat), 4) + " "@).is_prefix_of(before) && says(
                before,
                within(t.commit, 12),
            ) && says(before, t.kind.name()) && (t.note matches Some(n) ==> after == n),
        says(left(dec(t.insertions as nat), 6), dec(t.insertions as nat)),
        says(left(dec(t.deletions as nat), 6), dec(t.deletions as nat)),
        says(right(dec(t.files as nat), 4), dec(t.files as nat)),
        says(left(dec(t.seq as nat), 4), dec(t.seq as nat)),
{
    let n = dec(t.seq as nat);
    lemma_padded(n, 4);
    lemma_padded(t.kind.name(), 10);
    lemma_padded(dec(t.files as nat), 4);
    lemma_padded(dec(t.insertions as nat), 6);
    lemma_padded(dec(t.deletions as nat), 6);
    let after = match t.note {
        Some(n) => n,
        None => Seq::empty(),
    };
    let head = "#"@ + left(n, 4) + " "@;
    let id = within(t.commit, 12);
    let kind = left(t.kind.name(), 10);
    let before = head + id + "  "@ + kind + " "@;
    let counts = right(dec(t.files as nat), 4) + " files  +"@ + left(dec(t.insertions as nat), 6)
        + " -"@ + left(dec(t.deletions as nat), 6) + " "@;
    lemma_same_row(
        head,
        id,
        kind,
        right(dec(t.files as nat), 4),
        left(dec(t.insertions as nat), 6),
        left(dec(t.deletions as nat), 6),
        after,
    );
    assert(log_row(t) == row_of(before, counts, after));
    assert(before.take(head.len() as int) =~= head);
    lemma_says(before, head, id, "  "@ + kind + " "@);
    lemma_nested(before, head + id + "  "@, kind, " "@, t.kind.name());
}

/// A row that is made of three parts.
pub open spec fn row_of(before: Seq<char>, counts: Seq<char>, after: Seq<char>) -> Seq<char> {
    before + counts + after
}

proof fn lemma_same_row(
    head: Seq<char>,
    id: Seq<char>,
    kind: Seq<char>,
    files: Seq<char>,
    added: Seq<char>,
    deleted: Seq<char>,
    note: Seq<char>,
)
    ensures
        head + id + "  "@ + kind + " "@ + files + " files  +"@ + added + " -"@ + deleted + " "@
            + note == (head + id + "  "@ + kind + " "@) + (files + " files  +"@ + added + " -"@
            + deleted + " "@) + note,
{
    let a = head + id + "  "@ + kind + " "@;
    assert(a + files + " files  +"@ + added + " -"@ + deleted + " "@ =~= a + (files + " files  +"@
        + added + " -"@ + deleted + " "@));
}

/// A plan is shown whole: how many files are written and how many removed, then
/// every path that is written, marked as such, then every path that is removed.
/// A plan that changes nothing says so in one line.
pub proof fn law_a_plan_is_shown_whole(plan: RestoreModel, commit: Seq<char>, i: int)
    ensures
        plan.write.len() + plan.remove.len() > 0 ==> {
            let rows = plan_rows(plan, commit);
            &&& rows.len() == 1 + plan.write.len() + plan.remove.len()
            &&& says(
                rows[0],
                dec(plan.write.len()) + " file(s) written, "@ + dec(plan.remove.len()) + " removed"@,
            )
            &&& says(rows[0], within(commit, 12))
            &&& 0 <= i < plan.write.len() ==> rows[1 + i] == "  write   "@ + plan.write[i]
            &&& 0 <= i < plan.remove.len() ==> rows[1 + plan.write.len() + i] == "  remove  "@
                + plan.remove[i]
        },
        plan.write.len() + plan.remove.len() == 0 ==> plan_rows(plan, commit).len() == 1 && says(
            plan_rows(plan, commit)[0],
            "nothing to restore"@,
        ),
{
    let rows = plan_rows(plan, commit);
    let id = within(commit, 12);
    if plan.write.len() + plan.remove.len() > 0 {
        let counts = dec(plan.write.len()) + " file(s) written, "@ + dec(plan.remove.len())
            + " removed"@;
        lemma_says(rows[0], "restore to "@ + id + "  ·  "@, counts, Seq::empty());
        lemma_says(rows[0], "restore to "@, id, "  ·  "@ + counts);
    } else {
        reveal_strlit(": nothing to restore");
        reveal_strlit("nothing to restore");
        assert(": nothing to restore"@ =~= ": nothing to restore"@.take(2) + "nothing to restore"@);
        lemma_says(
            rows[0],
            "already at "@ + id + ": nothing to restore"@.take(2),
            "nothing to restore"@,
            Seq::empty(),
        );
    }
}

/// What a restore did is told with how many paths it touched, and with the
/// number that takes it back, where there is one.
pub proof fn law_a_restore_tells_the_way_back(touched: nat, checkpoint: Option<u64>)
    ensures
        says(restored_rows(touched, checkpoint)[0], dec(touched) + " path(s)"@),
        checkpoint is None ==> restored_rows(touched, checkpoint).len() == 1,
        checkpoint matches Some(seq) ==> restored_rows(touched, checkpoint).len() == 2 && says(
            restored_rows(touched, checkpoint)[1],
            "sheep restore #"@ + dec(seq as nat),
        ),
{
    let rows = restored_rows(touched, checkpoint);
    reveal_strlit(" path(s).");
    reveal_strlit(" path(s)");
    assert(" path(s)."@ =~= " path(s)"@ + " path(s)."@.skip(8));
    lemma_says(rows[0], "restored "@, dec(touched) + " path(s)"@, " path(s)."@.skip(8));
    if let Some(seq) = checkpoint {
        reveal_strlit(" — `sheep restore #");
        reveal_strlit("sheep restore #");
        assert(" — `sheep restore #"@ =~= " — `sheep restore #"@.take(4) + "sheep restore #"@);
        lemma_says(
            rows[1],
            "previous state kept as turn #"@ + dec(seq as nat) + " — `sheep restore #"@.take(4),
            "sheep restore #"@ + dec(seq as nat),
            "` puts it back."@,
        );
    }
}

/// What a collection did is told in its order: kept before dropped, and the size
/// before it ahead of the size after it.
pub proof fn law_a_collection_is_told_in_order(
    line: Seq<char>,
    kept: nat,
    dropped: nat,
    before: nat,
    after: nat,
)
    ensures
        line.is_prefix_of(collected_row(line, kept, dropped, before, after)),
        says(
            collected_row(line, kept, dropped, before, after),
            dec(kept) + " turn(s) kept, "@ + dec(dropped) + " dropped"@,
        ),
        says(
            collected_row(line, kept, dropped, before, after),
            dec(before) + " → "@ + dec(after) + " bytes"@,
        ),
{
    let s = collected_row(line, kept, dropped, before, after);
    assert(s.take(line.len() as int) =~= line);
    reveal_strlit(" dropped  ·  ");
    reveal_strlit(" dropped");
    assert(" dropped  ·  "@ =~= " dropped"@ + " dropped  ·  "@.skip(8));
    let first = dec(kept) + " turn(s) kept, "@ + dec(dropped) + " dropped"@;
    let last = dec(before) + " → "@ + dec(after) + " bytes"@;
    lemma_says(s, line + "  ·  "@, first, " dropped  ·  "@.skip(8) + last);
    lemma_says(
        s,
        line + "  ·  "@ + dec(kept) + " turn(s) kept, "@ + dec(dropped) + " dropped  ·  "@,
        last,
        Seq::empty(),
    );
}

/// The doctor says `ready` if and only if nothing is in the way, and lists
/// everything that is; it says whether the worktree is a linked one, and where
/// everything is.
pub proof fn law_the_doctor_is_ready_only_if_nothing_is_in_the_way(
    wt: WorktreeModel,
    state: Seq<char>,
    health: HealthModel,
    i: int,
)
    ensures
        ({
            let rows = doctor_rows(wt, state, health);
            &&& rows.len() >= 7 || health.blockers.len() == 0
            &&& health.blockers.len() == 0 ==> rows.last() == "status     ready"@
            &&& 0 <= i < health.blockers.len() ==> rows[6 + health.warnings.len() + i]
                == "blocked    "@ + health.blockers[i].text()
            &&& 0 <= i < health.warnings.len() ==> rows[6 + i] == "note       "@
                + health.warnings[i].text()
            &&& health.blockers.len() > 0 ==> rows.len() == 6 + health.warnings.len()
                + health.blockers.len()
            &&& rows[0] == "worktree   "@ + wt.root
            &&& rows[1] == "id         "@ + wt.id
            &&& wt.git_dir != wt.common_dir ==> says(rows[2], "linked worktree"@)
            &&& wt.git_dir == wt.common_dir ==> says(rows[2], "main checkout"@)
            &&& says(rows[4], state)
            &&& says(rows[5], dec(health.tracked_files as nat))
        }),
{
    let rows = doctor_rows(wt, state, health);
    if wt.git_dir != wt.common_dir {
        lemma_says(rows[2], "kind       "@, "linked worktree"@, Seq::empty());
    } else {
        lemma_says(rows[2], "kind       "@, "main checkout"@, Seq::empty());
    }
    lemma_says(rows[4], "state      "@, state, Seq::empty());
    lemma_says(rows[5], "tracked    "@, dec(health.tracked_files as nat), " files"@);
}

/// Each blocker's words name what it is about.
pub proof fn law_a_blocker_is_told_in_words(
    paths: Seq<Seq<char>>,
    op: Seq<char>,
    files: usize,
    limit: usize,
)
    ensures
        paths.len() > 0 ==> says(BlockerModel::UnmergedPaths(paths).text(), paths[0]),
        says(BlockerModel::UnmergedPaths(paths).text(), dec(paths.len())),
        says(BlockerModel::OperationInProgress(op).text(), "a "@ + op + " is in progress"@),
        says((BlockerModel::TooLarge { files, limit }).text(), dec(limit as nat)),
        dec(files as nat).is_prefix_of((BlockerModel::TooLarge { files, limit }).text()),
        paths.len() > 0 ==> says(BlockerModel::UnbornRepositories(paths).text(), paths[0]),
{
    let a = BlockerModel::UnmergedPaths(paths).text();
    let first = crate::repo::first_of(paths);
    let tail = "). Resolve them before Sheep records or restores this tree."@;
    lemma_says(
        a,
        "unresolved merge conflicts in "@,
        dec(paths.len()),
        " file(s) (first: "@ + first + tail,
    );
    lemma_says(
        a,
        "unresolved merge conflicts in "@ + dec(paths.len()) + " file(s) (first: "@,
        first,
        tail,
    );
    let b = BlockerModel::OperationInProgress(op).text();
    let end = " is in progress. Sheep will not touch a tree mid-operation."@;
    reveal_strlit(" is in progress. Sheep will not touch a tree mid-operation.");
    reveal_strlit(" is in progress");
    assert(end =~= " is in progress"@ + end.skip(15));
    lemma_says(b, Seq::empty(), "a "@ + op + " is in progress"@, end.skip(15));
    let c = (BlockerModel::TooLarge { files, limit }).text();
    assert(c.take(dec(files as nat).len() as int) =~= dec(files as nat));
    lemma_says(
        c,
        dec(files as nat) + " tracked files exceeds the "@,
        dec(limit as nat),
        "-file budget. Raise it with --max-files if you mean it."@,
    );
    let d = BlockerModel::UnbornRepositories(paths).text();
    lemma_says(
        d,
        dec(paths.len()) + " nested repository(ies) with no commit (first: "@,
        first,
        "). Git cannot record one; commit inside it, or remove it."@,
    );
}

} // verus!
