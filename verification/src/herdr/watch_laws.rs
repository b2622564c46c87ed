//! What the watch makes of what herdr says, word by word.
use crate::herdr::detect::{
    status_named, SightingModel, SignalModel, Status, Verdict,
};
use crate::herdr::json::{items_member, json_flag, json_member, number_member, text_member};
use crate::herdr::log::{stamp_of, Remark};
use crate::herdr::prompt::{last_prompt, lowercased, marked, prompt_in};
use crate::herdr::recorder::{
    acts, tells, told_of, under, wait_until, Errand, Recorder, ToldModel,
};
use crate::herdr::session::{
    names_shell, process_in, processes_of, sighted, ttl_millis, without_dashes, without_exe,
};
use crate::herdr::settle::SettleAction;
use crate::herdr::supervise::{Next, SupervisorModel};
use crate::herdr::wire::Event;
use crate::strings::{dec_wide, is_space, join, opt_text, trim, words};
use vstd::prelude::*;

verus! {

// ------------------------------------------------------------------- statuses

/// A status is known by herdr's own word for it, and by no other; every other
/// word is a status nobody knows.
pub proof fn law_a_status_is_herdrs_word(raw: Seq<char>)
    ensures
        status_named(raw) == Status::Idle <==> raw == "idle"@,
        status_named(raw) == Status::Working <==> raw == "working"@,
        status_named(raw) == Status::Blocked <==> raw == "blocked"@,
        status_named(raw) == Status::Done <==> raw == "done"@,
        Status::Idle.at_rest(),
        Status::Done.at_rest(),
        !Status::Working.at_rest(),
        !Status::Blocked.at_rest(),
        !Status::Unknown.at_rest(),
{
    reveal_strlit("idle");
    reveal_strlit("working");
    reveal_strlit("blocked");
    reveal_strlit("done");
    assert("idle"@[0] != "done"@[0]);
    assert("blocked"@[0] != "working"@[0]);
}

// ------------------------------------------------------------------ sightings

/// A sighting is of the pane that it names, with the agent, status and revision
/// that herdr gives; its directory is the pane's own where it has one, and that
/// of what runs in front otherwise. What names no pane is no sighting.
pub proof fn law_a_sighting_is_what_herdr_says_of_a_pane(pane: Seq<char>)
    ensures
        sighted(pane) is Some <==> text_member(pane, "pane_id"@) is Some,
        sighted(pane) matches Some(s) ==> {
            &&& Some(s.pane_id) == text_member(pane, "pane_id"@)
            &&& s.agent == text_member(pane, "agent"@)
            &&& text_member(pane, "cwd"@) is Some ==> s.cwd == text_member(pane, "cwd"@)
            &&& text_member(pane, "cwd"@) is None ==> s.cwd == text_member(
                pane,
                "foreground_cwd"@,
            )
            &&& s.status == Status::Working <==> text_member(pane, "agent_status"@) == Some(
                "working"@,
            )
            &&& s.status == Status::Idle <==> text_member(pane, "agent_status"@) == Some("idle"@)
            &&& s.status == Status::Done <==> text_member(pane, "agent_status"@) == Some("done"@)
            &&& s.status == Status::Blocked <==> text_member(pane, "agent_status"@) == Some(
                "blocked"@,
            )
            &&& number_member(pane, "revision"@) matches Some(n) ==> s.revision == n
            &&& number_member(pane, "revision"@) is None ==> s.revision == 0
        },
{
    if let Some(word) = text_member(pane, "agent_status"@) {
        law_a_status_is_herdrs_word(word);
    }
}

/// What runs in a pane is read from the members that herdr documents: the
/// shell's pid, the pid that leads the foreground, and the processes in it, each
/// with its pid and its name, or what it was started as, or a question mark.
pub proof fn law_processes_are_what_herdr_lists(info: Seq<char>, json: Seq<char>)
    ensures
        number_member(info, "shell_pid"@) matches Some(n) ==> (n <= u32::MAX ==> processes_of(
            info,
        ).shell_pid == n),
        number_member(info, "foreground_process_group_id"@) matches Some(n) ==> (n <= u32::MAX
            ==> processes_of(info).leader == n),
        items_member(info, "foreground_processes"@) is None ==> processes_of(info).running.len()
            == 0,
        items_member(info, "foreground_processes"@) matches Some(items) ==> processes_of(
            info,
        ).running == items.filter_map(|p: Seq<char>| process_in(p)),
        process_in(json) is Some <==> number_member(json, "pid"@) is Some,
        process_in(json) matches Some(p) ==> {
            &&& number_member(json, "pid"@) matches Some(n) && (n <= u32::MAX ==> p.0 == n)
            &&& text_member(json, "name"@) matches Some(name) ==> p.1 == name
            &&& text_member(json, "name"@) is None && text_member(json, "argv0"@) is Some
                ==> Some(p.1) == text_member(json, "argv0"@)
            &&& text_member(json, "name"@) is None && text_member(json, "argv0"@) is None ==> p.1
                == "?"@
        },
{
}

proof fn lemma_bare_name(name: Seq<char>)
    requires
        name.len() > 0,
        name[0] != '-',
        name.len() >= 4 ==> name[name.len() - 4] != '.',
    ensures
        without_exe(without_dashes(name)) == name,
{
    reveal_strlit(".exe");
    if ".exe"@.is_suffix_of(name) {
        assert(name.subrange(name.len() - 4, name.len() as int)[0] == name[name.len() - 4]);
    }
}

/// A shell is a shell however it was started: with a dash before its name, as a
/// login shell is, or with `.exe` behind it.
pub proof fn law_a_shell_is_a_shell_however_started(name: Seq<char>)
    ensures
        names_shell(seq!['-'] + name) == names_shell(name),
        names_shell("sh"@),
        names_shell("bash"@),
        names_shell("zsh"@),
        names_shell("fish"@),
        names_shell("dash"@),
        names_shell("ksh"@),
        names_shell("tcsh"@),
        names_shell("csh"@),
        names_shell("nu"@),
        names_shell("pwsh"@),
        names_shell("elvish"@),
        names_shell("login"@),
        name.len() > 0 && name[0] != '-' && !".exe"@.is_suffix_of(name) && names_shell(name)
            ==> name == "sh"@ || name == "bash"@ || name == "zsh"@ || name == "fish"@ || name
            == "dash"@ || name == "ksh"@ || name == "tcsh"@ || name == "csh"@ || name == "nu"@
            || name == "pwsh"@ || name == "elvish"@ || name == "login"@,
        name.len() > 0 && name[0] != '-' && !".exe"@.is_suffix_of(name) ==> names_shell(
            name + ".exe"@,
        ) == names_shell(name),
{
    assert((seq!['-'] + name).drop_first() =~= name);
    reveal_strlit("sh");
    lemma_bare_name("sh"@);
    reveal_strlit("bash");
    lemma_bare_name("bash"@);
    reveal_strlit("zsh");
    lemma_bare_name("zsh"@);
    reveal_strlit("fish");
    lemma_bare_name("fish"@);
    reveal_strlit("dash");
    lemma_bare_name("dash"@);
    reveal_strlit("ksh");
    lemma_bare_name("ksh"@);
    reveal_strlit("tcsh");
    lemma_bare_name("tcsh"@);
    reveal_strlit("csh");
    lemma_bare_name("csh"@);
    reveal_strlit("nu");
    lemma_bare_name("nu"@);
    reveal_strlit("pwsh");
    lemma_bare_name("pwsh"@);
    reveal_strlit("elvish");
    lemma_bare_name("elvish"@);
    reveal_strlit("login");
    lemma_bare_name("login"@);
    reveal_strlit(".exe");
    if name.len() > 0 && name[0] != '-' {
        let exe = name + ".exe"@;
        assert(exe[0] == name[0]);
        assert(exe.take(exe.len() - 4) =~= name);
        assert(".exe"@.is_suffix_of(exe)) by {
            assert(exe.subrange(exe.len() - 4, exe.len() as int) =~= ".exe"@);
        }
    }
}

// --------------------------------------------------------------------- events

/// What an event tells: an update or a new pane is a look at it, a pane that
/// closed or exited is gone, an agent that was released is gone, one that was
/// detected is asked about, and nothing else tells anything.
pub proof fn law_an_event_tells_what_its_kind_says(
    kind: Seq<char>,
    s: SightingModel,
    id: Seq<char>,
    pane: Option<SightingModel>,
    pane_id: Option<Seq<char>>,
    released: bool,
)
    ensures
        told_of("pane_updated"@, Some(s), pane_id, released) == ToldModel::Sighted(s),
        told_of("pane_created"@, Some(s), pane_id, released) == ToldModel::Sighted(s),
        told_of("pane_closed"@, pane, Some(id), released) == ToldModel::Gone(id),
        told_of("pane_exited"@, pane, Some(id), released) == ToldModel::Gone(id),
        told_of("pane_agent_detected"@, pane, Some(id), true) == ToldModel::Gone(id),
        told_of("pane_agent_detected"@, pane, Some(id), false) == ToldModel::Ask(id),
        told_of(kind, None, None, released) is Nothing,
        kind != "pane_updated"@ && kind != "pane_created"@ && kind != "pane_closed"@ && kind
            != "pane_exited"@ && kind != "pane_agent_detected"@ ==> told_of(
            kind,
            pane,
            pane_id,
            released,
        ) is Nothing,
{
    reveal_strlit("pane_updated");
    reveal_strlit("pane_created");
    reveal_strlit("pane_closed");
    reveal_strlit("pane_exited");
    reveal_strlit("pane_agent_detected");
    assert("pane_updated"@.len() == 12 && "pane_created"@.len() == 12);
    assert("pane_closed"@.len() == 11 && "pane_exited"@.len() == 11);
    assert("pane_agent_detected"@.len() == 19);
    assert("pane_updated"@[5] != "pane_created"@[5]);
    assert("pane_closed"@[5] != "pane_exited"@[5]);
}

/// An event's pane, its id and whether it was released are read from the
/// members of those names.
pub proof fn law_an_event_is_read_by_its_members(event: Event, told: ToldModel, id: Seq<char>)
    requires
        tells(event, told),
    ensures
        event.kind@ == "pane_updated"@ && (json_member(event.data@, "pane"@) matches Some(pane)
            && sighted(pane) is Some) ==> told == ToldModel::Sighted(
            sighted(json_member(event.data@, "pane"@)->0)->0,
        ),
        event.kind@ == "pane_closed"@ && text_member(event.data@, "pane_id"@) == Some(id) ==> told
            == ToldModel::Gone(id),
        event.kind@ == "pane_agent_detected"@ && text_member(event.data@, "pane_id"@) == Some(id)
            && (json_member(event.data@, "released"@) matches Some(flag) && json_flag(flag)
            == Some(true)) ==> told == ToldModel::Gone(id),
        event.kind@ == "pane_agent_detected"@ && text_member(event.data@, "pane_id"@) == Some(id)
            && json_member(event.data@, "released"@) is None ==> told == ToldModel::Ask(id),
{
    let s = SightingModel {
        pane_id: id,
        agent: None,
        cwd: None,
        status: Status::Idle,
        revision: 0,
    };
    law_an_event_tells_what_its_kind_says(event.kind@, s, id, None, None, false);
    reveal_strlit("pane_updated");
    reveal_strlit("pane_created");
    reveal_strlit("pane_closed");
    reveal_strlit("pane_exited");
    reveal_strlit("pane_agent_detected");
    assert("pane_updated"@.len() == 12 && "pane_created"@.len() == 12);
    assert("pane_closed"@.len() == 11 && "pane_exited"@.len() == 11);
    assert("pane_agent_detected"@.len() == 19);
    assert("pane_closed"@[5] != "pane_exited"@[5]);
}

// -------------------------------------------------------------------- errands

/// Each signal has its errand: a turn that began is looked at where it began, a
/// candidate has its processes taken down, a boundary that was taken back is
/// told and nothing more, and a ripe one is corroborated, herdr being asked
/// first, with what was taken down about that very pane.
pub proof fn law_each_signal_has_its_errand(
    r: Recorder,
    signal: SignalModel,
    errand: Errand,
    remark: Option<Remark>,
)
    requires
        acts(r, signal, errand, remark),
    ensures
        match signal {
            SignalModel::Started { pane_id, cwd, .. } => errand matches Errand::Begin {
                pane_id: p,
                cwd: d,
            } && p@ == pane_id && opt_text(d) == cwd,
            SignalModel::Candidate { pane_id } => errand matches Errand::Fingerprint(p) && p@
                == pane_id,
            SignalModel::Withdrawn { pane_id, .. } => errand is Nothing && (remark matches Some(m)
                && pane_id.is_prefix_of(m.text@)),
            SignalModel::Ripe { pane_id, agent, cwd, noisy } => {
                &&& errand matches Errand::Settle(s, first)
                &&& s.pane_id@ == pane_id
                &&& opt_text(s.agent) == agent
                &&& opt_text(s.cwd) == cwd
                &&& s.noisy == noisy
                &&& s.dry_run == r.config.dry_run
                &&& cwd is Some ==> first is Pane
                &&& cwd is None ==> first == SettleAction::Done(Verdict::Drop)
                &&& r.config.line_by is Agent && (agent matches Some(a) && a.len() > 0) ==> Some(
                    s.line@,
                ) == agent
                &&& r.config.line_by is Pane && pane_id.len() > 0 ==> s.line@ == pane_id
                &&& r.config.line_by is Agent && agent is None ==> s.line@ == "agent"@
                &&& under(r.fingerprints@, pane_id) matches Some(p) ==> (s.before matches Some(b)
                    && b@ == p@)
                &&& under(r.fingerprints@, pane_id) is None ==> s.before is None
                &&& under(r.began@, pane_id) matches Some(root) ==> (s.began matches Some(b) && b@
                    == root@)
                &&& under(r.began@, pane_id) is None ==> s.began is None
            },
        },
{
    reveal_strlit("agent");
    if let SignalModel::Withdrawn { pane_id, why } = signal {
        let text = (remark->0).text@;
        assert(text.take(pane_id.len() as int) =~= pane_id);
    }
}

/// The loop sleeps at most a second, and no longer than the first window.
pub proof fn law_the_loop_sleeps_at_most_a_second(due: Option<u128>, now: u128)
    ensures
        0 <= wait_until(due, now) <= 1_000_000_000,
        due is None ==> wait_until(due, now) == 1_000_000_000,
        due matches Some(at) && at <= now ==> wait_until(due, now) == 0,
        due matches Some(at) ==> (now < at && at - now <= 1_000_000_000 ==> now + wait_until(
            due,
            now,
        ) == at),
{
}

/// A turn number is shown for as long as is asked, in milliseconds, but for at
/// least one and at most a day.
pub proof fn law_a_turn_number_is_shown_for_a_while(nanos: u128)
    ensures
        1 <= ttl_millis(nanos) <= 24 * 60 * 60 * 1000,
        nanos < 1_000_000 ==> ttl_millis(nanos) == 1,
        1_000_000 <= nanos <= 24 * 60 * 60 * 1_000_000_000 ==> ttl_millis(nanos) == nanos
            / 1_000_000,
        nanos > 24 * 60 * 60 * 1_000_000_000 ==> ttl_millis(nanos) == 24 * 60 * 60 * 1000,
{
}

// -------------------------------------------------------------------- prompts

/// The prompt is that of the last line on the screen that holds one.
pub proof fn law_the_newest_prompt_is_the_one(lines: Seq<Seq<char>>, k: int)
    ensures
        0 <= k < lines.len() && prompt_in(lines[k]) is Some && (forall|j: int|
            k < j < lines.len() ==> prompt_in(#[trigger] lines[j]) is None) ==> last_prompt(lines)
            == prompt_in(lines[k]),
        (forall|j: int| 0 <= j < lines.len() ==> prompt_in(#[trigger] lines[j]) is None)
            ==> last_prompt(lines) is None,
    decreases lines.len(),
{
    if lines.len() > 0 {
        let rest = lines.drop_last();
        law_the_newest_prompt_is_the_one(rest, k);
        assert(lines.last() == lines[lines.len() - 1]);
        assert forall|j: int| 0 <= j < rest.len() implies rest[j] == lines[j] by {}
    }
}

/// A prompt is what stands behind one of the four marks and a space: its words
/// with one space between each two, the whole of it up to a hundred and sixty
/// characters. What says nothing is no prompt, and neither is what agents show
/// in an empty box.
pub proof fn law_a_prompt_is_what_stands_behind_a_mark(line: Seq<char>)
    ensures
        ({
            let t = trim(line);
            let body = join(words(t.skip(1)), " "@);
            let low = lowercased(body);
            let is_marked = t.len() >= 2 && (t[0] == '>' || t[0] == '❯' || t[0] == '›' || t[0]
                == '»') && is_space(t[1]);
            let spoken = exists|i: int| 0 <= i < body.len() && #[trigger] crate::herdr::prompt::is_alphanumeric(body[i]);
            let shown = "build anything"@.is_prefix_of(low) || "ask anything"@.is_prefix_of(low)
                || "try \""@.is_prefix_of(low) || "type a message"@.is_prefix_of(low)
                || "how can i help"@.is_prefix_of(low) || "what would you like"@.is_prefix_of(low);
            &&& marked(line) == if is_marked {
                Some(body)
            } else {
                None
            }
            &&& prompt_in(line) is Some <==> is_marked && spoken && !shown
            &&& prompt_in(line) matches Some(p) ==> {
                &&& body.len() <= 160 ==> p == body
                &&& body.len() > 160 ==> p.len() == 161 && p.take(160) == body.take(160) && p[160]
                    == '…'
            }
        }),
{
    let body = join(words(trim(line).skip(1)), " "@);
    if body.len() > 160 {
        assert(body.take(160).push('…').take(160) =~= body.take(160));
    }
}

// ---------------------------------------------------------------- the watch

/// The watch ends only when the socket has been missing for a minute. Until then
/// it tries again: at first after half a second, after twice as long each time a
/// run ends within half a minute, and after half a minute at most; a run that
/// lasted half a minute starts over.
pub proof fn law_the_watch_waits_and_gives_up_in_time(
    s: SupervisorModel,
    now: u128,
    uptime: u128,
    present: bool,
)
    requires
        s.delay >= 500_000_000,
        s.delay <= 30_000_000_000,
        s.in_time(now),
    ensures
        s.next(now, uptime, present) == Next::Stop <==> !present && (s.missing_since matches Some(
            since,
        ) && now - since >= 60_000_000_000),
        s.next(now, uptime, present) matches Next::Retry(n) ==> n == (if uptime >= 30_000_000_000 {
            500_000_000
        } else if 2 * s.delay <= 30_000_000_000 {
            2 * s.delay
        } else {
            30_000_000_000
        }),
        s.next(now, uptime, present) matches Next::Retry(n) ==> s.after(now, uptime, present).delay
            == n,
        present ==> s.after(now, uptime, present).missing_since is None,
        !present && s.missing_since is None ==> s.after(now, uptime, present).missing_since == Some(
            now,
        ),
        !present && s.missing_since is Some ==> s.after(now, uptime, present).missing_since
            == s.missing_since,
{
}

/// The time of day in the log is that of the seconds: hours of sixty minutes of
/// sixty seconds, behind the date of the day.
pub proof fn law_the_log_tells_the_time_of_day(day: u64, h: u64, m: u64, s: u64)
    requires
        h < 24,
        m < 60,
        s < 60,
        day < 0x8000_0000_0000,
    ensures
        ({
            let text = stamp_of((((day * 24 + h) * 60 + m) * 60 + s) as u64);
            let time = " "@ + dec_wide(h as nat, 2) + ":"@ + dec_wide(m as nat, 2) + ":"@ + dec_wide(
                s as nat,
                2,
            ) + "Z"@;
            text.len() >= time.len() && text.skip(text.len() - time.len()) == time
        }),
{
    let unix = ((day * 24 + h) * 60 + m) * 60 + s;
    assert(unix / 86_400 == day && unix % 86_400 == (h * 60 + m) * 60 + s) by (nonlinear_arith)
        requires
            unix == ((day * 24 + h) * 60 + m) * 60 + s,
            h < 24,
            m < 60,
            s < 60,
    ;
    let secs = (h * 60 + m) * 60 + s;
    assert(secs / 3_600 == h);
    assert((secs / 60) % 60 == m);
    assert(secs % 60 == s);
    let text = stamp_of(unix as u64);
    let time = " "@ + dec_wide(h as nat, 2) + ":"@ + dec_wide(m as nat, 2) + ":"@ + dec_wide(
        s as nat,
        2,
    ) + "Z"@;
    let (y, mo, d) = crate::calendar::date_at(day as nat);
    let date = dec_wide(y, 4) + "-"@ + dec_wide(mo, 2) + "-"@ + dec_wide(d, 2);
    assert(text =~= date + time);
    assert(text.skip(text.len() - time.len()) =~= time);
}

} // verus!
