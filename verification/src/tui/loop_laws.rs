//! What the loop around the interface does at each of its steps, and what the
//! words on its command line mean.
use vstd::prelude::*;

use crate::shadow::read::{lemma_digits_only, lemma_whole};
use crate::strings::{
    dec, law_decimal_round_trip, lemma_dec_digits, lemma_split_around, number, split, trim,
    without_hash,
};
use crate::tui::app::{position, AppModel, Key};
use crate::tui::cli::{
    lower_x, meaning, pressed_down, presses, script, scripted, selecting, size_of_spec,
    Code, StepModel, UiArgs,
};
use crate::tui::engine::{is_preamble, shown_lines};
use crate::tui::runtime::{run_expects, run_step, ActionModel, EventModel, RunModel};

verus! {

/// One round of the loop is a frame, a key, the answers, the jobs, and the
/// clock, in that order; while leaving, no key is read.
pub proof fn law_a_round_goes_in_order(s: RunModel, a: AppModel, e: EventModel)
    requires
        run_expects(s, a, e),
    ensures
        ({
            let (t, b, action) = run_step(s, a, e);
            &&& e is Drawn ==> t.stage is Reading && b == a && (action is Wait <==> !a.quit
                && t.failure is None) && (action is Pause || action is Wait)
            &&& e is Read || e is Paused ==> action is Poll
            &&& e is Answered ==> action is Poll && t == s
            &&& e is Idle || e is Gone ==> action is Send
            &&& e is Sent ==> b == a && (action is Drain || action is Clock)
            &&& e is Drained ==> action is Clock && b == a
            &&& e is Now ==> action is Draw || action is Wait || action is Pause || action is Done
        }),
{
}

/// A key that was read is pressed once, and an answer that came is taken once;
/// a round without either changes nothing on screen.
pub proof fn law_what_is_read_is_acted_on(s: RunModel, a: AppModel, e: EventModel)
    requires
        run_expects(s, a, e),
    ensures
        ({
            let b = run_step(s, a, e).1;
            &&& e matches EventModel::Read(Ok(Some(key))) ==> b == a.on_key(key)
            &&& e matches EventModel::Answered(reply) ==> b == a.apply(reply)
            &&& e is Read && !(e matches EventModel::Read(Ok(Some(_)))) ==> b == a
            &&& e is Paused ==> b == a
            &&& e matches EventModel::Now(now) ==> b.now == now && b.outbox == a.outbox && b.turns
                == a.turns && b.plan == a.plan && b.quit == a.quit
        }),
{
}

/// Every job goes to the worker once, in the order in which it was asked for,
/// and none is left behind; a worker that is gone gets none.
pub proof fn law_every_job_is_sent_once(s: RunModel, a: AppModel, e: EventModel)
    requires
        run_expects(s, a, e),
        e is Idle || e is Gone,
    ensures
        ({
            let (t, b, action) = run_step(s, a, e);
            &&& b.outbox.len() == 0
            &&& e is Idle && s.lost is None ==> action == ActionModel::Send(a.outbox)
            &&& e is Gone || s.lost is Some ==> action == ActionModel::Send(Seq::empty())
            &&& e is Gone ==> t.lost is Some
            &&& e is Gone && s.lost is None ==> !b.restoring && t.lost == Some(a.lost_text())
            &&& e is Idle ==> t.lost == s.lost && b == (AppModel { outbox: Seq::empty(), ..a })
        }),
{
}

/// What the terminal did wrong is remembered, the first time that it does, and
/// is what the loop ends with.
pub proof fn law_a_broken_terminal_ends_the_loop(s: RunModel, a: AppModel, e: EventModel)
    requires
        run_expects(s, a, e),
    ensures
        ({
            let (t, b, action) = run_step(s, a, e);
            &&& e matches EventModel::Drawn(Some(bad)) ==> (s.failure is None ==> t.failure == Some(
                bad,
            ))
            &&& e matches EventModel::Read(Err(bad)) ==> t.failure == Some(bad)
            &&& e matches EventModel::Drained(Some(bad)) ==> (s.failure is None ==> t.failure
                == Some(bad))
            &&& s.failure is Some ==> t.failure is Some
            &&& !(e is Drawn || e is Read || e is Drained) ==> t.failure == s.failure
            &&& e is Now && (a.quit || s.failure is Some) && !a.restoring ==> action
                == ActionModel::Done(
                if s.failure is Some {
                    s.failure
                } else {
                    s.lost
                },
            )
            &&& e is Now && !a.quit && s.failure is None ==> action is Draw
        }),
{
}

/// Leaving in the middle of a restore waits for it for a minute from when
/// leaving began, and no longer.
pub proof fn law_leaving_waits_a_minute_for_a_restore(s: RunModel, a: AppModel, now: u64)
    requires
        s.stage is Ticking,
        a.restoring,
        a.quit || s.failure is Some,
    ensures
        ({
            let (t, b, action) = run_step(s, a, EventModel::Now(now));
            &&& s.leaving_since is None ==> t.leaving_since == Some(now) && !(action is Done)
            &&& s.leaving_since matches Some(since) ==> {
                &&& t.leaving_since == s.leaving_since
                &&& action is Done <==> now - since > 60
            }
        }),
{
}

/// The words of a script become keys one by one: a line end is enter, the escape
/// character is escape, anything else is itself. Shift-R alone cannot be
/// scripted.
pub proof fn law_scripted_keys_are_pressed_in_order(keys: Seq<char>, ch: char)
    ensures
        scripted('\n') == Some(Key::Enter),
        scripted('\r') == Some(Key::Enter),
        scripted('\x1b') == Some(Key::Esc),
        scripted('R') is None,
        ch != 'R' && ch != '\n' && ch != '\r' && ch != '\x1b' ==> scripted(ch) == Some(
            Key::Char(ch),
        ),
        ch == 'R' ==> presses(keys.push(ch)) == presses(keys),
        ch != 'R' && ch != '\n' && ch != '\r' && ch != '\x1b' ==> presses(keys.push(ch)) == presses(
            keys,
        ).push(StepModel::Press(Key::Char(ch))),
        presses(Seq::empty()).len() == 0,
{
    assert(keys.push(ch).drop_last() =~= keys);
}

/// A scripted start loads first; it selects, then opens the plan, then presses
/// keys, each only where it was asked to.
pub proof fn law_a_scripted_start_goes_in_order(args: UiArgs)
    ensures
        script(args).len() > 0,
        script(args)[0] == StepModel::Reload,
        args.select matches Some(target) ==> script(args).len() > 1 && script(args)[1]
            == StepModel::Select(target@),
        args.select is None && args.rewind ==> script(args).len() > 1 && script(args)[1]
            == StepModel::Rewind,
        args.select is Some && args.rewind ==> script(args).len() > 2 && script(args)[2]
            == StepModel::Rewind,
        args.keys is None ==> script(args).len() == 1 + (if args.select is Some {
            1int
        } else {
            0
        }) + (if args.rewind {
            1int
        } else {
            0
        }),
        args.keys matches Some(keys) ==> script(args).skip(
            script(args).len() - presses(keys@).len(),
        ) == presses(keys@),
{
    if let Some(keys) = args.keys {
        let all = script(args);
        let tail = presses(keys@);
        assert(all.skip(all.len() - tail.len()) =~= tail);
    }
}

/// With control held down, only `c` and `d` mean anything, and both mean quit;
/// without it every key means itself, and an unknown one nothing.
pub proof fn law_a_key_means_itself(code: Code, c: char)
    ensures
        meaning(true, Code::Char('c')) == Some(Key::Char('q')),
        meaning(true, Code::Char('d')) == Some(Key::Char('q')),
        code != Code::Char('c') && code != Code::Char('d') ==> meaning(true, code) is None,
        meaning(false, Code::Char(c)) == Some(Key::Char(c)),
        meaning(false, Code::Up) == Some(Key::Up),
        meaning(false, Code::Down) == Some(Key::Down),
        meaning(false, Code::Left) == Some(Key::Left),
        meaning(false, Code::Right) == Some(Key::Right),
        meaning(false, Code::PageUp) == Some(Key::PageUp),
        meaning(false, Code::PageDown) == Some(Key::PageDown),
        meaning(false, Code::Home) == Some(Key::Home),
        meaning(false, Code::End) == Some(Key::End),
        meaning(false, Code::Enter) == Some(Key::Enter),
        meaning(false, Code::Esc) == Some(Key::Esc),
        meaning(false, Code::Other) is None,
{
}

proof fn lemma_trimmed_digits(n: nat)
    ensures
        trim(dec(n)) == dec(n),
{
    lemma_dec_digits(n);
    lemma_digits_only(n, ' ');
    let s = dec(n);
    assert(crate::strings::is_digit(s[0]));
    assert(crate::strings::is_digit(s.last()));
}

/// A size is columns, an `x` of either case, and rows: a width from 20 to 400
/// and a height from 8 to 200, the nearest that can be had.
pub proof fn law_a_size_is_columns_by_rows(w: u16, h: u16, by: char)
    requires
        by == 'x' || by == 'X',
    ensures
        size_of_spec(dec(w as nat).push(by) + dec(h as nat)) == (
            (if w < 20 {
                20
            } else if w > 400 {
                400
            } else {
                w as int
            }) as nat,
            (if h < 8 {
                8
            } else if h > 200 {
                200
            } else {
                h as int
            }) as nat,
        ),
        size_of_spec(dec(w as nat)).1 == 34,
        size_of_spec(Seq::empty()) == (100nat, 34nat),
{
    let a = dec(w as nat);
    let b = dec(h as nat);
    lemma_digits_only(w as nat, 'x');
    lemma_digits_only(w as nat, 'X');
    lemma_digits_only(h as nat, 'x');
    lemma_digits_only(h as nat, 'X');
    lemma_trimmed_digits(w as nat);
    lemma_trimmed_digits(h as nat);
    law_decimal_round_trip(w as nat, u16::MAX as nat);
    law_decimal_round_trip(h as nat, u16::MAX as nat);
    assert(lower_x(a.push(by) + b) =~= a.push('x') + b) by {
        let t = a.push(by) + b;
        assert forall|i: int| 0 <= i < t.len() implies lower_x(t)[i] == (a.push('x') + b)[i] by {
            if i < a.len() {
                assert(a.contains(a[i]));
            } else if i > a.len() {
                assert(b.contains(b[i - a.len() - 1]));
            }
        }
    }
    lemma_split_around(a, 'x', b);
    lemma_whole(a, 'x');
    lemma_whole(b, 'x');
    let parts = split(a.push('x') + b, 'x');
    assert(parts =~= seq![a, b]);
    assert(lower_x(a) =~= a) by {
        assert forall|i: int| 0 <= i < a.len() implies lower_x(a)[i] == a[i] by {
            assert(a.contains(a[i]));
        }
    }
    let none = Seq::<char>::empty();
    assert(lower_x(none) =~= none);
    assert(split(none, 'x') == seq![none]);
    assert(trim(none) == none);
    assert(number(none, u16::MAX as nat) is None);
}

proof fn lemma_position(turns: Seq<crate::store::TurnModel>, seq: u64)
    ensures
        0 <= position(turns, seq) <= turns.len(),
        position(turns, seq) < turns.len() ==> turns[position(turns, seq)].seq == seq,
    decreases turns.len(),
{
    if turns.len() > 0 && turns[0].seq != seq {
        lemma_position(turns.drop_first(), seq);
    }
}

proof fn lemma_pressed_down(a: AppModel, n: nat)
    requires
        a.fatal is None,
        !a.restoring,
        a.mode == crate::tui::app::Mode::Dock,
        a.sel == 0,
        0 < a.turns.len() <= usize::MAX,
        n < a.turns.len(),
        a.sel_seq == Some(a.turns[0].seq),
    ensures
        pressed_down(a, n) == (AppModel { sel: n as usize, sel_seq: Some(a.turns[n as int].seq), ..a }),
    decreases n,
{
    if n > 0 {
        lemma_pressed_down(a, (n - 1) as nat);
    }
}

/// Starting with a turn selected puts the cursor on the turn of that number,
/// with or without its hash; a number that no turn has moves nothing.
pub proof fn law_a_start_selects_the_turn_it_names(a: AppModel, seq: u64, i: int)
    requires
        a.fatal is None,
        !a.restoring,
        a.mode == crate::tui::app::Mode::Dock,
        a.sel == 0,
        0 < a.turns.len() <= usize::MAX,
        a.sel_seq == Some(a.turns[0].seq),
    ensures
        0 <= i < a.turns.len() && a.turns[i].seq == seq ==> {
            &&& selecting(a, dec(seq as nat)).selected() matches Some(t) && t.seq == seq
            &&& selecting(a, seq!['#'] + dec(seq as nat)).selected() matches Some(t) && t.seq == seq
        },
        (forall|k: int| 0 <= k < a.turns.len() ==> (#[trigger] a.turns[k]).seq != seq) ==> selecting(
            a,
            dec(seq as nat),
        ) == a,
{
    lemma_digits_only(seq as nat, '#');
    let n = dec(seq as nat);
    assert(n[0] != '#') by {
        if n[0] == '#' {
            assert(n.contains('#'));
        }
    }
    let hashed = seq!['#'] + n;
    assert(hashed.drop_first() =~= n);
    assert(without_hash(n) == n);
    assert(without_hash(hashed) =~= n);
    law_decimal_round_trip(seq as nat, u64::MAX as nat);
    lemma_position(a.turns, seq);
    if 0 <= i < a.turns.len() && a.turns[i].seq == seq {
        lemma_position_of(a.turns, seq, i);
        lemma_pressed_down(a, position(a.turns, seq) as nat);
    }
}

proof fn lemma_position_of(turns: Seq<crate::store::TurnModel>, seq: u64, i: int)
    requires
        0 <= i < turns.len(),
        turns[i].seq == seq,
    ensures
        0 <= position(turns, seq) <= i,
    decreases turns.len(),
{
    if turns[0].seq != seq {
        assert(turns.drop_first()[i - 1] == turns[i]);
        lemma_position_of(turns.drop_first(), seq, i - 1);
    }
}

/// A preview leaves out what git says of a file before its hunks, and nothing
/// else: a line that was added or removed is always shown, up to six hundred
/// lines. Past those it says that it stops.
pub proof fn law_a_preview_shows_the_change(body: Seq<char>, i: int)
    ensures
        ({
            let all = crate::strings::lines(body);
            let kept = all.filter(|l: Seq<char>| !is_preamble(l));
            &&& kept.len() <= 600 ==> (0 <= i < all.len() && !is_preamble(all[i])
                ==> shown_lines(body).contains(all[i]))
            &&& kept.len() > 600 ==> shown_lines(body).len() == 602 && shown_lines(body)[601]
                == "(preview stops at 600 lines)"@
            &&& kept.len() > 600 && 0 <= i < 600 ==> shown_lines(body)[i] == kept[i]
        }),
{
    let all = crate::strings::lines(body);
    let keep = |l: Seq<char>| !is_preamble(l);
    let kept = all.filter(keep);
    if kept.len() <= 600 && 0 <= i < all.len() && !is_preamble(all[i]) {
        all.lemma_filter_contains(keep, i);
        assert(keep(all[i]));
        assert(kept.contains(all[i]));
    }
}

/// Only these lines are git's own: what stands in front of the hunks. A line of
/// the change itself begins with one character for what happened to it.
pub proof fn law_a_line_of_the_change_is_no_preamble(line: Seq<char>)
    requires
        line.len() > 1,
    ensures
        line[0] == ' ' || line[0] == '@' ==> !is_preamble(line),
        line[0] == '+' && line[1] != '+' ==> !is_preamble(line),
        line[0] == '-' && line[1] != '-' ==> !is_preamble(line),
        "diff --git"@.is_prefix_of(line) || "index "@.is_prefix_of(line) || "--- "@.is_prefix_of(line)
            || "+++ "@.is_prefix_of(line) || "old mode"@.is_prefix_of(line)
            || "new mode"@.is_prefix_of(line) ==> is_preamble(line),
{
    reveal_strlit("diff --git");
    reveal_strlit("index ");
    reveal_strlit("--- ");
    reveal_strlit("+++ ");
    reveal_strlit("old mode");
    reveal_strlit("new mode");
    assert("diff --git"@[0] == 'd' && "index "@[0] == 'i' && "old mode"@[0] == 'o'
        && "new mode"@[0] == 'n');
    assert("--- "@[0] == '-' && "--- "@[1] == '-' && "+++ "@[0] == '+' && "+++ "@[1] == '+');
}

/// Keys are thrown away only right after a restore has ended, and always then.
pub proof fn law_keys_are_dropped_only_after_a_restore(
    s: RunModel,
    a: AppModel,
    e: EventModel,
    was_restoring: bool,
)
    requires
        s.stage == (crate::tui::runtime::RunStage::Pumping { was_restoring }),
        e is Idle || e is Gone,
    ensures
        ({
            let (t, b, action) = run_step(s, a, e);
            &&& t.stage matches crate::tui::runtime::RunStage::Sending { drain } && (drain
                <==> was_restoring && !b.restoring)
            &&& run_step(t, b, EventModel::Sent).2 is Drain <==> was_restoring && !b.restoring
        }),
{
}

} // verus!
