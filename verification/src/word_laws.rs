//! What is said of what happened, what is counted, and in which order things
//! stand.
use vstd::prelude::*;

use crate::digest::{hex, sha256_digest};
use crate::herdr::cli::{banner_text, connection_remark, gone_text, Connection};
use crate::herdr::detect::SightingModel;
use crate::herdr::log::Level;
use crate::herdr::recorder::{listed, Ended, LineBy};
use crate::herdr::session::{lacks, malformed_text};
use crate::herdr::wire::Fault;
use crate::ops::{RestoreFailed, StaleTree};
use crate::order::{sorted, strictly_sorted, text_le, text_lt};
use crate::repo::{gitlink_count, id_of, id_with};
use crate::report::snapped_text;
use crate::shadow::moved_away;
use crate::shadow::read::{capped, check_input};
use crate::store::{not_past_the_end, TurnModel};
use crate::strings::{dec, join, lemma_says, lines, says, within};

verus! {

/// A watch says at its start how long it waits and by what it tells timelines
/// apart, and that it writes nothing where it does not.
pub proof fn law_a_watch_says_how_it_watches(
    dry_run: bool,
    settle: Seq<char>,
    patience: nat,
    line_by: LineBy,
    log: Option<Seq<char>>,
)
    ensures
        ({
            let text = banner_text(dry_run, settle, patience, line_by, log);
            &&& says(text, "settle "@ + settle + "s, patience "@ + dec(patience) + "s, "@)
            &&& dry_run ==> says(text, "(dry run — nothing will be written)"@)
            &&& line_by == LineBy::Agent ==> says(text, "timelines by Agent"@)
            &&& line_by == LineBy::Pane ==> says(text, "timelines by Pane"@)
            &&& log matches Some(path) ==> says(text, ", log "@ + path)
        }),
{
    let first = if dry_run {
        " (dry run — nothing will be written)"@
    } else {
        ""@
    };
    let last = match log {
        Some(path) => ", log "@ + path,
        None => ""@,
    };
    lemma_banner(first, settle, dec(patience), line_by.name(), last);
    let text = banner_text(dry_run, settle, patience, line_by, log);
    if dry_run {
        reveal_strlit(" (dry run — nothing will be written)");
        reveal_strlit("(dry run — nothing will be written)");
        reveal_strlit(" ");
        let piece = "(dry run — nothing will be written)"@;
        assert(" (dry run — nothing will be written)"@ =~= " "@ + piece);
        let rest = ": settle "@ + settle + "s, patience "@ + dec(patience) + "s, timelines by "@
            + line_by.name() + last;
        assert(text =~= ("watching"@ + " "@) + piece + rest);
        lemma_says(text, "watching"@ + " "@, piece, rest);
    }
    reveal_strlit("timelines by ");
    reveal_strlit("timelines by Agent");
    reveal_strlit("timelines by Pane");
    reveal_strlit("Agent");
    reveal_strlit("Pane");
    assert("timelines by Agent"@ =~= "timelines by "@ + "Agent"@);
    assert("timelines by Pane"@ =~= "timelines by "@ + "Pane"@);
    if let Some(path) = log {
        let before = "watching"@ + first + ": settle "@ + settle + "s, patience "@ + dec(patience)
            + "s, timelines by "@ + line_by.name();
        assert(text =~= before + last + Seq::<char>::empty());
        lemma_says(text, before, last, Seq::empty());
    }
}

proof fn lemma_banner(
    first: Seq<char>,
    settle: Seq<char>,
    patience: Seq<char>,
    by: Seq<char>,
    last: Seq<char>,
)
    ensures
        ({
            let text = "watching"@ + first + ": settle "@ + settle + "s, patience "@ + patience
                + "s, timelines by "@ + by + last;
            &&& says(text, "settle "@ + settle + "s, patience "@ + patience + "s, "@)
            &&& says(text, "timelines by "@ + by)
        }),
{
    reveal_strlit(": settle ");
    reveal_strlit(": ");
    reveal_strlit("settle ");
    reveal_strlit("s, timelines by ");
    reveal_strlit("s, ");
    reveal_strlit("timelines by ");
    assert(": settle "@ =~= ": "@ + "settle "@);
    assert("s, timelines by "@ =~= "s, "@ + "timelines by "@);
    let text = "watching"@ + first + ": settle "@ + settle + "s, patience "@ + patience
        + "s, timelines by "@ + by + last;
    let a = "settle "@ + settle + "s, patience "@ + patience + "s, "@;
    let b = "timelines by "@ + by;
    assert(text =~= ("watching"@ + first + ": "@) + a + (b + last));
    lemma_says(text, "watching"@ + first + ": "@, a, b + last);
    assert(text =~= ("watching"@ + first + ": "@ + a) + b + last);
    lemma_says(text, "watching"@ + first + ": "@ + a, b, last);
}

/// The end of a connection is a warning where it failed, with the cause, and
/// only news where herdr closed it. The end of a watch counts what it recorded.
pub proof fn law_the_end_of_a_connection_says_why(why: String, recorded: nat)
    ensures
        connection_remark(Connection::Refused(why)).0 == Level::Warn,
        why@.is_suffix_of(connection_remark(Connection::Refused(why)).1),
        connection_remark(Connection::Ended(Ended::Failed(why))).0 == Level::Warn,
        why@.is_suffix_of(connection_remark(Connection::Ended(Ended::Failed(why))).1),
        connection_remark(Connection::Ended(Ended::Disconnected)).0 == Level::Info,
        says(gone_text(recorded), dec(recorded) + " turn(s) recorded"@),
{
    let a = connection_remark(Connection::Refused(why)).1;
    let b = connection_remark(Connection::Ended(Ended::Failed(why))).1;
    assert(a.subrange(a.len() - why@.len(), a.len() as int) =~= why@);
    assert(b.subrange(b.len() - why@.len(), b.len() as int) =~= why@);
    let piece = dec(recorded) + " turn(s) recorded"@;
    let none = Seq::<char>::empty();
    assert(gone_text(recorded) =~= "the herdr session is gone; "@ + piece + none);
    lemma_says(gone_text(recorded), "the herdr session is gone; "@, piece, none);
}

/// An answer without what was asked for names the method and the member that is
/// missing, and shows the answer, cut to two hundred bytes.
pub proof fn law_a_malformed_answer_says_what_is_missing(
    f: Fault,
    method: Seq<char>,
    wanted: Seq<char>,
    got: Seq<char>,
)
    requires
        lacks(f, method, wanted, got),
    ensures
        f matches Fault::Other(s) && says(s@, method + " without `"@ + wanted + "`"@) && within(
            got,
            200,
        ).is_suffix_of(s@),
{
    reveal_strlit("`: ");
    reveal_strlit("`");
    reveal_strlit(": ");
    assert("`: "@ =~= "`"@ + ": "@);
    let text = malformed_text(method, wanted, got);
    let piece = method + " without `"@ + wanted + "`"@;
    let rest = ": "@ + within(got, 200);
    assert(text =~= "herdr answered "@ + piece + rest);
    lemma_says(text, "herdr answered "@, piece, rest);
    let tail = within(got, 200);
    assert(text.subrange(text.len() - tail.len(), text.len() as int) =~= tail);
}

/// A pane is still there if herdr lists it, and only then.
pub proof fn law_a_pane_is_there_if_it_is_listed(agents: Seq<SightingModel>, id: Seq<char>)
    ensures
        listed(agents, id) <==> agents.map_values(|a: SightingModel| a.pane_id).contains(id),
{
    let ids = agents.map_values(|a: SightingModel| a.pane_id);
    if listed(agents, id) {
        let i = choose|i: int| 0 <= i < agents.len() && (#[trigger] agents[i]).pane_id == id;
        assert(ids[i] == id);
    }
    if ids.contains(id) {
        let i = choose|i: int| 0 <= i < ids.len() && ids[i] == id;
        assert(agents[i].pane_id == id);
    }
}

/// A plan that no longer holds says which tree it was made against and which is
/// there, in this order, and that nothing was restored.
pub proof fn law_a_stale_plan_says_what_moved(s: StaleTree)
    ensures
        says(
            s.message(),
            within(s.expected@, 12) + " is now "@ + within(s.actual@, 12) + ")"@,
        ),
        "nothing was restored"@.is_suffix_of(s.message()),
{
    reveal_strlit("); nothing was restored");
    reveal_strlit(")");
    reveal_strlit("; nothing was restored");
    reveal_strlit("nothing was restored");
    assert("); nothing was restored"@ =~= ")"@ + "; nothing was restored"@);
    let head = "the working tree changed since this plan was made ("@;
    let piece = within(s.expected@, 12) + " is now "@ + within(s.actual@, 12) + ")"@;
    let text = s.message();
    assert(text =~= head + piece + "; nothing was restored"@);
    lemma_says(text, head, piece, "; nothing was restored"@);
    let tail = "nothing was restored"@;
    assert(text.subrange(text.len() - tail.len(), text.len() as int) =~= tail);
}

/// A restore that failed says why. Where the files were put back it says so;
/// where they were not, it says that they are between two states and names the
/// turn that holds the state from before.
pub proof fn law_a_failed_restore_says_where_the_files_are(f: RestoreFailed)
    ensures
        ("the restore failed: "@ + f.cause@ + "."@).is_prefix_of(f.message()),
        f.recovered ==> says(f.message(), "put back as they were"@),
        !f.recovered ==> says(f.message(), "between two states"@),
        !f.recovered ==> (f.checkpoint_seq matches Some(seq) ==> says(
            f.message(),
            "`sheep restore #"@ + dec(seq as nat) + " --yes` returns it to how it was"@,
        )),
{
    reveal_strlit(".");
    reveal_strlit(". Your files were put back as they were.");
    reveal_strlit(" Your files were ");
    reveal_strlit("put back as they were");
    reveal_strlit(". Your working tree is between two states");
    reveal_strlit(" Your working tree is ");
    reveal_strlit("between two states");
    assert(". Your files were put back as they were."@ =~= "."@ + " Your files were "@
        + "put back as they were"@ + "."@);
    assert(". Your working tree is between two states"@ =~= "."@ + " Your working tree is "@
        + "between two states"@);
    let head = "the restore failed: "@ + f.cause@ + "."@;
    let text = f.message();
    if f.recovered {
        assert(text =~= (head + " Your files were "@) + "put back as they were"@ + "."@);
        lemma_says(text, head + " Your files were "@, "put back as they were"@, "."@);
        assert(text.take(head.len() as int) =~= head);
    } else {
        let too = match crate::strings::opt_text(f.recovery_error) {
            Some(err) => ", and putting it back failed too ("@ + err + ")"@,
            None => Seq::empty(),
        };
        let way = match f.checkpoint_seq {
            Some(seq) => " — `sheep restore #"@ + dec(seq as nat)
                + " --yes` returns it to how it was."@,
            None => "."@,
        };
        let before = head + " Your working tree is "@;
        assert(text =~= before + "between two states"@ + (too + way));
        lemma_says(text, before, "between two states"@, too + way);
        assert(text.take(head.len() as int) =~= head);
        if let Some(seq) = f.checkpoint_seq {
            lemma_way_back(before + "between two states"@ + too, dec(seq as nat));
            assert(text =~= (before + "between two states"@ + too) + way);
        }
    }
}

proof fn lemma_way_back(before: Seq<char>, n: Seq<char>)
    ensures
        says(
            before + (" — `sheep restore #"@ + n + " --yes` returns it to how it was."@),
            "`sheep restore #"@ + n + " --yes` returns it to how it was"@,
        ),
{
    reveal_strlit(" — `sheep restore #");
    reveal_strlit(" — ");
    reveal_strlit("`sheep restore #");
    reveal_strlit(" --yes` returns it to how it was.");
    reveal_strlit(" --yes` returns it to how it was");
    reveal_strlit(".");
    assert(" — `sheep restore #"@ =~= " — "@ + "`sheep restore #"@);
    assert(" --yes` returns it to how it was."@ =~= " --yes` returns it to how it was"@ + "."@);
    let text = before + (" — `sheep restore #"@ + n + " --yes` returns it to how it was."@);
    let piece = "`sheep restore #"@ + n + " --yes` returns it to how it was"@;
    assert(text =~= (before + " — "@) + piece + "."@);
    lemma_says(text, before + " — "@, piece, "."@);
}

/// A recorded turn is told by its commit and what is said of it; where nothing
/// changed, that is said.
pub proof fn law_a_recording_is_told(t: TurnModel)
    ensures
        within(t.commit, 12).is_prefix_of(snapped_text(Some(t))),
        t.subject().is_suffix_of(snapped_text(Some(t))),
        snapped_text(None) == "nothing changed since the last turn"@,
{
    let text = snapped_text(Some(t));
    assert(text.take(within(t.commit, 12).len() as int) =~= within(t.commit, 12));
    assert(text.subrange(text.len() - t.subject().len(), text.len() as int) =~= t.subject());
}

/// A timeline that moved is named with what git said, and a turn that is not
/// past the end of its log with its number and the last one.
pub proof fn law_a_refused_write_is_named(
    line: Seq<char>,
    cause: Seq<char>,
    seq: u64,
    last: u64,
)
    ensures
        says(moved_away(line, cause), "`"@ + line + "` moved"@),
        cause.is_suffix_of(moved_away(line, cause)),
        ("turn #"@ + dec(seq as nat) + " is not past the end"@).is_prefix_of(
            not_past_the_end(seq, last),
        ),
        ("#"@ + dec(last as nat)).is_suffix_of(not_past_the_end(seq, last)),
{
    reveal_strlit("timeline `");
    reveal_strlit("timeline ");
    reveal_strlit("`");
    reveal_strlit("` moved while Sheep was writing to it: ");
    reveal_strlit("` moved");
    reveal_strlit(" while Sheep was writing to it: ");
    assert("timeline `"@ =~= "timeline "@ + "`"@);
    assert("` moved while Sheep was writing to it: "@ =~= "` moved"@
        + " while Sheep was writing to it: "@);
    let text = moved_away(line, cause);
    let piece = "`"@ + line + "` moved"@;
    let rest = " while Sheep was writing to it: "@ + cause;
    assert(text =~= "timeline "@ + piece + rest);
    lemma_says(text, "timeline "@, piece, rest);
    assert(text.subrange(text.len() - cause.len(), text.len() as int) =~= cause);
    reveal_strlit(" is not past the end of this timeline, which is at #");
    reveal_strlit(" is not past the end");
    reveal_strlit("#");
    reveal_strlit(" of this timeline, which is at ");
    assert(" is not past the end of this timeline, which is at #"@ =~= " is not past the end"@
        + " of this timeline, which is at "@ + "#"@);
    let refused = not_past_the_end(seq, last);
    let head = "turn #"@ + dec(seq as nat) + " is not past the end"@;
    let tail = "#"@ + dec(last as nat);
    assert(refused =~= head + " of this timeline, which is at "@ + tail);
    assert(refused.take(head.len() as int) =~= head);
    assert(refused.subrange(refused.len() - tail.len(), refused.len() as int) =~= tail);
}

/// What is counted past the largest number is that number.
pub proof fn law_a_count_stops_at_the_largest_number(n: nat)
    ensures
        n <= u64::MAX ==> capped(n) == n,
        n > u64::MAX ==> capped(n) == u64::MAX,
{
}

/// Each object that is asked about stands on a line of its own.
pub proof fn law_objects_are_asked_about_line_by_line(a: Seq<char>, b: Seq<char>)
    ensures
        check_input(seq![a]) == a.push('\n'),
        check_input(seq![a, b]) == a.push('\n') + b.push('\n'),
{
    reveal_strlit("\n");
    assert("\n"@ =~= seq!['\n']);
    assert(join(seq![a], "\n"@) == a);
    assert(seq![a, b].drop_last() =~= seq![a]);
    assert(check_input(seq![a]) =~= a.push('\n'));
    assert(check_input(seq![a, b]) =~= a.push('\n') + b.push('\n'));
}

/// Submodules are counted by their mode in the listing: every line that begins
/// with it is one more.
pub proof fn law_submodules_are_counted_by_their_mode(line: Seq<char>, rest: Seq<char>)
    requires
        !line.contains('\n'),
        !line.contains('\r'),
    ensures
        gitlink_count(line.push('\n') + rest) == gitlink_count(rest) + (if "160000"@.is_prefix_of(
            line,
        ) {
            1nat
        } else {
            0nat
        }),
{
    crate::text_laws::law_ended_lines_are_read_back(line, rest);
    let keep = |l: Seq<char>| "160000"@.is_prefix_of(l);
    assert(!(line.len() > 0 && line.last() == '\r')) by {
        if line.len() > 0 && line.last() == '\r' {
            assert(line[line.len() - 1] == '\r');
            assert(line.contains('\r'));
        }
    }
    let all = lines(line.push('\n') + rest);
    assert(all == seq![line] + lines(rest));
    Seq::filter_distributes_over_add(seq![line], lines(rest), keep);
    assert(seq![line].filter(keep).len() == if keep(line) {
        1nat
    } else {
        0nat
    }) by {
        reveal(Seq::filter);
        assert(seq![line].drop_last() =~= Seq::<Seq<char>>::empty());
        assert(Seq::<Seq<char>>::empty().filter(keep).len() == 0);
    }
}

/// The id of a worktree ends with the first eight bytes of the digest of its
/// whole path, so that two of the same name are told apart.
pub proof fn law_an_id_ends_with_the_digest_of_the_path(root: Seq<char>)
    requires
        sha256_digest(vstd::utf8::encode_utf8(root)).len() >= 8,
    ensures
        hex(sha256_digest(vstd::utf8::encode_utf8(root)).take(8)).is_suffix_of(id_of(root)),
        id_of(root) == id_with(root, sha256_digest(vstd::utf8::encode_utf8(root))),
{
    let tail = hex(sha256_digest(vstd::utf8::encode_utf8(root)).take(8));
    let id = id_of(root);
    assert(id.subrange(id.len() - tail.len(), id.len() as int) =~= tail);
}

/// Texts are in order by the first character that differs, and one that is the
/// beginning of another comes first.
pub proof fn law_texts_are_in_order_by_the_first_difference(
    same: Seq<char>,
    a: char,
    b: char,
    x: Seq<char>,
    y: Seq<char>,
)
    ensures
        a < b ==> text_lt(same.push(a) + x, same.push(b) + y) && !text_le(
            same.push(b) + y,
            same.push(a) + x,
        ),
        text_le(same, same + x),
        x.len() > 0 ==> text_lt(same, same + x) && !text_le(same + x, same),
    decreases same.len(),
{
    let p = same.push(a) + x;
    let q = same.push(b) + y;
    if same.len() == 0 {
        assert(p[0] == a && q[0] == b);
        assert(same + x =~= x);
    } else {
        let rest = same.drop_first();
        law_texts_are_in_order_by_the_first_difference(rest, a, b, x, y);
        assert(p[0] == same[0] && q[0] == same[0]);
        assert(p.drop_first() =~= rest.push(a) + x);
        assert(q.drop_first() =~= rest.push(b) + y);
        assert((same + x).drop_first() =~= rest + x);
        assert((same + x)[0] == same[0]);
    }
    if x.len() > 0 {
        assert((same + x).len() > same.len());
    }
    if a < b {
        assert(p[same.len() as int] == a && q[same.len() as int] == b);
    }
}

/// A sorted list never has a text in front of one that comes before it, and one
/// that is strictly sorted has none twice.
pub proof fn law_a_sorted_list_is_in_order(v: Seq<Seq<char>>, i: int, j: int)
    requires
        0 <= i < j < v.len(),
    ensures
        sorted(v) ==> text_le(v[i], v[j]),
        strictly_sorted(v) ==> text_le(v[i], v[j]) && v[i] != v[j],
{
}

} // verus!
