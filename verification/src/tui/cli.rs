//! The flags of `sheep ui`, and what they make the interface do before the
//! first frame.
use crate::strings::{
    chars_of, number, number_of, owned, strip_hash, without_hash, split, split_on, texts, trim,
    trim_str,
};
use crate::tui::app::{position, App, AppModel, Fatal, FatalModel, Key};
use vstd::prelude::*;

verus! {

#[derive(Debug)]
pub struct UiArgs {
    /// Open straight into the rewind picker rather than the timeline dock.
    pub rewind: bool,
    /// Do not tell the agent what a restore took back.
    pub no_notify: bool,
    /// Start with this turn selected.
    pub select: Option<String>,
    /// Feed these keys to the interface before drawing.
    pub keys: Option<String>,
    /// Render one frame as plain text and exit.
    pub snapshot: Option<String>,
}

/// The key one character of a script stands for. `R` is the only key that
/// writes, and a string on a command line is not somebody who read a plan.
pub open spec fn scripted(ch: char) -> Option<Key> {
    if ch == 'R' {
        None
    } else if ch == '\n' || ch == '\r' {
        Some(Key::Enter)
    } else if ch == '\x1b' {
        Some(Key::Esc)
    } else {
        Some(Key::Char(ch))
    }
}

/// Translate one character of a script, or refuse it.
pub fn scripted_key(ch: char) -> (r: Option<Key>)
    ensures
        r == scripted(ch),
{
    match ch {
        'R' => None,
        '\n' | '\r' => Some(Key::Enter),
        '\x1b' => Some(Key::Esc),
        other => Some(Key::Char(other)),
    }
}

/// One thing to do to the interface before the first frame. The work it queues
/// is done before the next step.
#[derive(Debug)]
pub enum Step {
    Reload,
    Select(String),
    Rewind,
    Press(Key),
}

pub enum StepModel {
    Reload,
    Select(Seq<char>),
    Rewind,
    Press(Key),
}

impl View for Step {
    type V = StepModel;

    open spec fn view(&self) -> StepModel {
        match *self {
            Step::Reload => StepModel::Reload,
            Step::Select(s) => StepModel::Select(s@),
            Step::Rewind => StepModel::Rewind,
            Step::Press(k) => StepModel::Press(k),
        }
    }
}

pub open spec fn steps_view(v: Seq<Step>) -> Seq<StepModel> {
    v.map_values(|s: Step| s@)
}

broadcast proof fn lemma_steps_push(v: Seq<Step>, s: Step)
    ensures
        #[trigger] steps_view(v.push(s)) == steps_view(v).push(s@),
{
    assert(steps_view(v.push(s)) =~= steps_view(v).push(s@));
}

/// The keys of a script that are let through, one step each.
pub open spec fn presses(keys: Seq<char>) -> Seq<StepModel>
    decreases keys.len(),
{
    if keys.len() == 0 {
        Seq::empty()
    } else {
        match scripted(keys.last()) {
            Some(key) => presses(keys.drop_last()).push(StepModel::Press(key)),
            None => presses(keys.drop_last()),
        }
    }
}

/// Everything the flags ask for, in order.
pub open spec fn script(args: UiArgs) -> Seq<StepModel> {
    let load = seq![StepModel::Reload];
    let select = match args.select {
        Some(target) => load.push(StepModel::Select(target@)),
        None => load,
    };
    let rewind = if args.rewind {
        select.push(StepModel::Rewind)
    } else {
        select
    };
    match args.keys {
        Some(keys) => rewind + presses(keys@),
        None => rewind,
    }
}

/// Everything the flags ask for before the first frame, in order.
pub fn settle(args: &UiArgs) -> (r: Vec<Step>)
    ensures
        steps_view(r@) == script(*args),
{
    broadcast use lemma_steps_push;

    let mut out: Vec<Step> = Vec::new();
    out.push(Step::Reload);
    proof {
        assert(steps_view(out@) =~= seq![StepModel::Reload]);
    }
    if let Some(target) = &args.select {
        out.push(Step::Select(target.clone()));
    }
    if args.rewind {
        out.push(Step::Rewind);
    }
    if let Some(keys) = &args.keys {
        let cs: Vec<char> = chars_of(keys.as_str());
        let mut i: usize = 0;
        let ghost before = steps_view(out@);
        proof {
            assert(before + presses(cs@.take(0)) =~= before);
        }
        while i < cs.len()
            invariant
                i <= cs@.len(),
                steps_view(out@) == before + presses(cs@.take(i as int)),
            decreases cs@.len() - i,
        {
            broadcast use lemma_steps_push;

            proof {
                assert(cs@.take(i + 1).drop_last() =~= cs@.take(i as int));
                assert(cs@.take(i + 1).last() == cs@[i as int]);
            }
            if let Some(key) = scripted_key(cs[i]) {
                out.push(Step::Press(key));
                proof {
                    assert(steps_view(out@) =~= before + presses(cs@.take(i + 1)));
                }
            }
            i += 1;
        }
        proof {
            assert(cs@.take(cs@.len() as int) =~= cs@);
        }
    }
    out
}

/// No flag can press the key that writes.
pub proof fn law_a_script_never_restores(args: UiArgs, i: int)
    requires
        0 <= i < script(args).len(),
    ensures
        script(args)[i] != StepModel::Press(Key::Char('R')),
{
    if let Some(keys) = args.keys {
        lemma_presses(keys@);
        let n = script(args).len() - presses(keys@).len();
        if i >= n {
            assert(script(args)[i] == presses(keys@)[i - n]);
        }
    }
}

proof fn lemma_presses(keys: Seq<char>)
    ensures
        forall|i: int|
            0 <= i < presses(keys).len() ==> #[trigger] presses(keys)[i] != StepModel::Press(
                Key::Char('R'),
            ),
    decreases keys.len(),
{
    if keys.len() > 0 {
        lemma_presses(keys.drop_last());
    }
}

/// How often the worker reads the turn log on its own, in nanoseconds.
pub const POLL: u128 = 900_000_000;

/// How many times queued jobs are run before the first frame. A guard against
/// a job that keeps asking for another.
pub const PUMP_ROUNDS: usize = 8;

/// Whether the interface can run: only in a terminal somebody sits at.
pub fn seated(terminal: bool) -> (r: Result<(), String>)
    ensures
        match r {
            Ok(_) => terminal,
            Err(e) => !terminal && e@
                == "`sheep ui` needs an interactive terminal.\nUse `sheep log` to list the turns, or `sheep ui --snapshot 100x34` to print one frame."@,
        },
{
    if terminal {
        Ok(())
    } else {
        Err(
            owned(
                "`sheep ui` needs an interactive terminal.\nUse `sheep log` to list the turns, or `sheep ui --snapshot 100x34` to print one frame.",
            ),
        )
    }
}

/// What is shown where there is no worktree.
pub fn no_worktree(detail: String) -> (r: Fatal)
    ensures
        r@ == (FatalModel {
            headline: "not a git worktree"@,
            detail: detail@,
            remedy: seq![
                "cd into a checkout, or run `git init` here."@,
                "`sheep doctor` reports whether a worktree is safe to record."@,
            ],
        }),
{
    let mut remedy: Vec<String> = Vec::new();
    remedy.push(owned("cd into a checkout, or run `git init` here."));
    remedy.push(owned("`sheep doctor` reports whether a worktree is safe to record."));
    proof {
        assert(texts(remedy@) =~= seq![
            "cd into a checkout, or run `git init` here."@,
            "`sheep doctor` reports whether a worktree is safe to record."@,
        ]);
    }
    Fatal { headline: owned("not a git worktree"), detail, remedy }
}

/// What is shown where there is nowhere to keep state.
pub fn no_state(detail: String) -> (r: Fatal)
    ensures
        r@ == (FatalModel {
            headline: "no state directory"@,
            detail: detail@,
            remedy: seq!["set SHEEP_STATE_DIR to a directory Sheep may write to."@],
        }),
{
    let mut remedy: Vec<String> = Vec::new();
    remedy.push(owned("set SHEEP_STATE_DIR to a directory Sheep may write to."));
    proof {
        assert(texts(remedy@) =~= seq!["set SHEEP_STATE_DIR to a directory Sheep may write to."@]);
    }
    Fatal { headline: owned("no state directory"), detail, remedy }
}

/// The app after `n` presses of the down key.
pub open spec fn pressed_down(a: AppModel, n: nat) -> AppModel
    decreases n,
{
    if n == 0 {
        a
    } else {
        pressed_down(a, (n - 1) as nat).on_key(Key::Down)
    }
}

/// The app with the turn a target names selected, as the down key selects it.
pub open spec fn selecting(a: AppModel, target: Seq<char>) -> AppModel {
    match number(without_hash(target), u64::MAX as nat) {
        Some(seq) if position(a.turns, seq as u64) < a.turns.len() => pressed_down(
            a,
            position(a.turns, seq as u64) as nat,
        ),
        _ => a,
    }
}

/// Select the turn that a target such as `#7` names.
pub fn select_turn(app: &mut App, target: &str)
    ensures
        final(app)@ == selecting(old(app)@, target@),
{
    if let Some(seq) = number_of(strip_hash(target).as_str(), u64::MAX) {
        let mut index: usize = 0;
        proof {
            crate::tui::app::lemma_position(app@.turns, seq);
        }
        while index < app.turns.len() && app.turns[index].seq != seq
            invariant
                index <= app.turns@.len(),
                forall|j: int| 0 <= j < index ==> (#[trigger] app@.turns[j]).seq != seq,
            decreases app.turns@.len() - index,
        {
            index += 1;
        }
        proof {
            let p = position(app@.turns, seq);
            if p < index {
                assert(app@.turns[p].seq == seq);
            }
            if index < p {
                assert(app@.turns[index as int].seq == seq);
            }
        }
        if index < app.turns.len() {
            let mut i: usize = 0;
            let ghost a = app@;
            while i < index
                invariant
                    i <= index,
                    app@ == pressed_down(a, i as nat),
                decreases index - i,
            {
                app.on_key(Key::Down);
                i += 1;
            }
        }
    }
}

/// A number between two bounds, or what stands for it when there is none.
pub open spec fn bounded(s: Option<Seq<char>>, otherwise: nat, low: nat, high: nat) -> nat {
    let n = match s {
        Some(s) => match number(trim(s), u16::MAX as nat) {
            Some(n) => n,
            None => otherwise,
        },
        None => otherwise,
    };
    if n < low {
        low
    } else if n > high {
        high
    } else {
        n
    }
}

/// `s` with every `X` written `x`.
pub open spec fn lower_x(s: Seq<char>) -> Seq<char> {
    s.map_values(
        |c: char|
            if c == 'X' {
                'x'
            } else {
                c
            },
    )
}

/// The columns and rows `COLSxROWS` asks for, within what can be drawn.
pub open spec fn size_of_spec(spec: Seq<char>) -> (nat, nat) {
    let parts = split(lower_x(spec), 'x');
    (
        bounded(Some(parts[0]), 100, 20, 400),
        bounded(
            if parts.len() > 1 {
                Some(parts[1])
            } else {
                None
            },
            34,
            8,
            200,
        ),
    )
}

fn clamped(s: Option<&str>, otherwise: u16, low: u16, high: u16) -> (r: u16)
    requires
        low <= high,
    ensures
        r == bounded(
            crate::strings::opt_str(s),
            otherwise as nat,
            low as nat,
            high as nat,
        ),
{
    let n: u16 = match s {
        Some(s) => match number_of(trim_str(s).as_str(), u16::MAX as u64) {
            Some(n) => n as u16,
            None => otherwise,
        },
        None => otherwise,
    };
    if n < low {
        low
    } else if n > high {
        high
    } else {
        n
    }
}

/// The columns and rows `COLSxROWS` asks for.
pub fn parse_size(spec: &str) -> (r: (u16, u16))
    ensures
        (r.0 as nat, r.1 as nat) == size_of_spec(spec@),
{
    let cs: Vec<char> = chars_of(spec);
    let mut lowered: String = String::new();
    let mut i: usize = 0;
    while i < cs.len()
        invariant
            i <= cs@.len(),
            lowered@ =~= lower_x(cs@.take(i as int)),
        decreases cs@.len() - i,
    {
        let c: char = cs[i];
        lowered.push(
            if c == 'X' {
                'x'
            } else {
                c
            },
        );
        i += 1;
    }
    proof {
        assert(cs@.take(cs@.len() as int) =~= cs@);
        crate::strings::lemma_split_nonempty(lower_x(spec@), 'x');
    }
    let parts: Vec<String> = split_on(lowered.as_str(), 'x');
    proof {
        assert(texts(parts@).len() == parts@.len());
        assert(texts(parts@)[0] == parts@[0]@);
        if parts@.len() > 1 {
            assert(texts(parts@)[1] == parts@[1]@);
        }
    }
    let w: u16 = clamped(Some(parts[0].as_str()), 100, 20, 400);
    let h: u16 = clamped(
        if parts.len() > 1 {
            Some(parts[1].as_str())
        } else {
            None
        },
        34,
        8,
        200,
    );
    (w, h)
}

/// A key as the terminal reports it.
#[derive(Debug, Clone, Copy, PartialEq, Eq, Structural)]
pub enum Code {
    Up,
    Down,
    Left,
    Right,
    PageUp,
    PageDown,
    Home,
    End,
    Enter,
    Esc,
    Char(char),
    /// A key the interface has no meaning for.
    Other,
}

/// What a reported key means. With control held, only the two ways to leave a
/// terminal program mean anything.
pub open spec fn meaning(control: bool, code: Code) -> Option<Key> {
    if control {
        if code == Code::Char('c') || code == Code::Char('d') {
            Some(Key::Char('q'))
        } else {
            None
        }
    } else {
        match code {
            Code::Up => Some(Key::Up),
            Code::Down => Some(Key::Down),
            Code::Left => Some(Key::Left),
            Code::Right => Some(Key::Right),
            Code::PageUp => Some(Key::PageUp),
            Code::PageDown => Some(Key::PageDown),
            Code::Home => Some(Key::Home),
            Code::End => Some(Key::End),
            Code::Enter => Some(Key::Enter),
            Code::Esc => Some(Key::Esc),
            Code::Char(c) => Some(Key::Char(c)),
            Code::Other => None,
        }
    }
}

/// What a reported key means.
pub fn translate(control: bool, code: Code) -> (r: Option<Key>)
    ensures
        r == meaning(control, code),
{
    if control {
        return if code == Code::Char('c') || code == Code::Char('d') {
            Some(Key::Char('q'))
        } else {
            None
        };
    }
    match code {
        Code::Up => Some(Key::Up),
        Code::Down => Some(Key::Down),
        Code::Left => Some(Key::Left),
        Code::Right => Some(Key::Right),
        Code::PageUp => Some(Key::PageUp),
        Code::PageDown => Some(Key::PageDown),
        Code::Home => Some(Key::Home),
        Code::End => Some(Key::End),
        Code::Enter => Some(Key::Enter),
        Code::Esc => Some(Key::Esc),
        Code::Char(c) => Some(Key::Char(c)),
        Code::Other => None,
    }
}

} // verus!
