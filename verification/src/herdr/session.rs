//! What the recorder asks of a herdr session, and how the answers are read.
//!
//! Absence has one meaning: herdr said that the thing is not there. Every other
//! error, and every answer without what it promises, is a fault, so that the
//! recorder waits and says so rather than deciding there was no turn.
use crate::git::pairs;
use crate::herdr::detect::{status_named, Sighting, SightingModel, Status};
use crate::herdr::json::{
    items_at, items_member, json_member, json_object, json_quoted, member, number_at,
    number_member, object, quoted, text_at, text_member,
};
use crate::herdr::wire::Fault;
use crate::order::{ascending, sort_numbers};
use crate::strings::{
    chars_of, dec, dec_of, ends_with, head_of, opt_text, owned, push_dec, same, string_of, texts,
    within,
};
use vstd::prelude::*;
use vstd::string::*;

verus! {

// ---------------------------------------------------------------- processes

/// A pane's foreground process group, as herdr sees it.
#[derive(Debug)]
pub struct Processes {
    pub shell_pid: u32,
    pub leader: u32,
    /// Pids and names, in whatever order herdr reported them.
    pub running: Vec<(u32, String)>,
}

#[verifier::ext_equal]
pub struct ProcessesModel {
    pub shell_pid: u32,
    pub leader: u32,
    pub running: Seq<(u32, Seq<char>)>,
}

pub open spec fn running_view(v: Seq<(u32, String)>) -> Seq<(u32, Seq<char>)> {
    v.map_values(|p: (u32, String)| (p.0, p.1@))
}

impl View for Processes {
    type V = ProcessesModel;

    open spec fn view(&self) -> ProcessesModel {
        ProcessesModel {
            shell_pid: self.shell_pid,
            leader: self.leader,
            running: running_view(self.running@),
        }
    }
}

/// The shells whose holding the foreground means that no agent runs.
pub open spec fn is_shell_stem(stem: Seq<char>) -> bool {
    ||| stem == "sh"@
    ||| stem == "bash"@
    ||| stem == "zsh"@
    ||| stem == "fish"@
    ||| stem == "dash"@
    ||| stem == "ksh"@
    ||| stem == "tcsh"@
    ||| stem == "csh"@
    ||| stem == "nu"@
    ||| stem == "pwsh"@
    ||| stem == "login"@
    ||| stem == "elvish"@
}

/// `s` without any leading dash.
pub open spec fn without_dashes(s: Seq<char>) -> Seq<char>
    decreases s.len(),
{
    if s.len() > 0 && s[0] == '-' {
        without_dashes(s.drop_first())
    } else {
        s
    }
}

/// `s` without an `.exe` at its end.
pub open spec fn without_exe(s: Seq<char>) -> Seq<char> {
    if ".exe"@.is_suffix_of(s) {
        s.take(s.len() - ".exe"@.len())
    } else {
        s
    }
}

/// Whether a process is a shell, by its name: a login shell has a dash before
/// it.
pub open spec fn names_shell(name: Seq<char>) -> bool {
    is_shell_stem(without_exe(without_dashes(name)))
}

/// Whether a process is a shell, by its name.
pub fn is_shell(name: &str) -> (r: bool)
    ensures
        r == names_shell(name@),
{
    let cs: Vec<char> = chars_of(name);
    let mut i: usize = 0;
    proof {
        assert(cs@.skip(0) =~= cs@);
    }
    while i < cs.len() && cs[i] == '-'
        invariant
            i <= cs@.len(),
            without_dashes(cs@) == without_dashes(cs@.skip(i as int)),
        decreases cs@.len() - i,
    {
        proof {
            assert(cs@.skip(i as int)[0] == cs@[i as int]);
            assert(cs@.skip(i as int).drop_first() =~= cs@.skip(i + 1));
        }
        i += 1;
    }
    proof {
        if i < cs@.len() {
            assert(cs@.skip(i as int)[0] == cs@[i as int]);
        }
        assert(cs@.subrange(i as int, cs@.len() as int) =~= cs@.skip(i as int));
        reveal_strlit(".exe");
    }
    let bare: String = string_of(&cs, i, cs.len());
    let stem: String = if ends_with(bare.as_str(), ".exe") {
        let bs: Vec<char> = chars_of(bare.as_str());
        let to: usize = bs.len() - 4;
        proof {
            assert(bs@.subrange(0, to as int) =~= bs@.take(to as int));
        }
        string_of(&bs, 0, to)
    } else {
        bare
    };
    let s: &str = stem.as_str();
    same(s, "sh") || same(s, "bash") || same(s, "zsh") || same(s, "fish") || same(s, "dash") || same(
        s,
        "ksh",
    ) || same(s, "tcsh") || same(s, "csh") || same(s, "nu") || same(s, "pwsh") || same(s, "login")
        || same(s, "elvish")
}

impl ProcessesModel {
    /// Whether something other than the pane's shell holds the foreground.
    pub open spec fn agent_runs(self) -> bool {
        self.leader != self.shell_pid && exists|i: int|
            0 <= i < self.running.len() && !#[trigger] names_shell(self.running[i].1)
    }

    /// The pids, as reported.
    pub open spec fn pid_list(self) -> Seq<u32> {
        self.running.map_values(|p: (u32, Seq<char>)| p.0)
    }

    /// The name of the first process with the leader's pid.
    pub open spec fn leading(self, from: int) -> Seq<char>
        decreases self.running.len() - from,
    {
        if from < 0 || from >= self.running.len() {
            "?"@
        } else if self.running[from].0 == self.leader {
            self.running[from].1
        } else {
            self.leading(from + 1)
        }
    }
}

impl Processes {
    /// True when something other than the pane's shell holds the foreground. A
    /// pane whose foreground process group is its shell has no agent in it.
    pub fn agent_is_running(&self) -> (r: bool)
        ensures
            r == self@.agent_runs(),
    {
        if self.leader == self.shell_pid {
            return false;
        }
        let mut i: usize = 0;
        while i < self.running.len()
            invariant
                i <= self.running@.len(),
                self.leader != self.shell_pid,
                forall|k: int| 0 <= k < i ==> #[trigger] names_shell(self@.running[k].1),
            decreases self.running@.len() - i,
        {
            if !is_shell(self.running[i].1.as_str()) {
                proof {
                    assert(!names_shell(self@.running[i as int].1));
                }
                return true;
            }
            proof {
                assert(self@.running[i as int].1 == self.running@[i as int].1@);
            }
            i += 1;
        }
        false
    }

    /// The pids in order, for comparing one look at the pane with another.
    pub fn pids(&self) -> (r: Vec<u32>)
        ensures
            ascending(r@),
            r@.to_multiset() == self@.pid_list().to_multiset(),
    {
        let mut all: Vec<u32> = Vec::new();
        let mut i: usize = 0;
        while i < self.running.len()
            invariant
                i <= self.running@.len(),
                all@ == self@.pid_list().take(i as int),
            decreases self.running@.len() - i,
        {
            proof {
                assert(self@.pid_list().take(i + 1) =~= self@.pid_list().take(i as int).push(
                    self.running@[i as int].0,
                ));
            }
            all.push(self.running[i].0);
            i += 1;
        }
        proof {
            assert(self@.pid_list().take(i as int) =~= self@.pid_list());
        }
        sort_numbers(&all)
    }

    /// The name of whatever leads the foreground process group.
    pub fn leader_name(&self) -> (r: String)
        ensures
            r@ == self@.leading(0),
    {
        let mut i: usize = 0;
        while i < self.running.len()
            invariant
                i <= self.running@.len(),
                self@.leading(0) == self@.leading(i as int),
            decreases self.running@.len() - i,
        {
            if self.running[i].0 == self.leader {
                return self.running[i].1.clone();
            }
            i += 1;
        }
        owned("?")
    }
}

// ---------------------------------------------------------------- sightings

/// A pane with these parts, read as a sighting. Without an id it is no pane; a
/// pane without an agent still is one.
pub open spec fn sighting_from(
    pane_id: Option<Seq<char>>,
    agent: Option<Seq<char>>,
    cwd: Option<Seq<char>>,
    foreground_cwd: Option<Seq<char>>,
    status: Option<Seq<char>>,
    revision: Option<u64>,
) -> Option<SightingModel> {
    match pane_id {
        None => None,
        Some(pane_id) => Some(
            SightingModel {
                pane_id,
                agent,
                cwd: if cwd is Some {
                    cwd
                } else {
                    foreground_cwd
                },
                status: match status {
                    Some(s) => status_named(s),
                    None => Status::Unknown,
                },
                revision: match revision {
                    Some(n) => n,
                    None => 0,
                },
            },
        ),
    }
}

/// A pane with these parts, read as a sighting.
pub fn sighting_of(
    pane_id: Option<String>,
    agent: Option<String>,
    cwd: Option<String>,
    foreground_cwd: Option<String>,
    status: Option<String>,
    revision: Option<u64>,
) -> (r: Option<Sighting>)
    ensures
        sighting_view(r) == sighting_from(
            opt_text(pane_id),
            opt_text(agent),
            opt_text(cwd),
            opt_text(foreground_cwd),
            opt_text(status),
            revision,
        ),
{
    match pane_id {
        None => None,
        Some(pane_id) => Some(
            Sighting {
                pane_id,
                agent,
                cwd: match cwd {
                    Some(dir) => Some(dir),
                    None => foreground_cwd,
                },
                status: match status {
                    Some(s) => Status::parse(s.as_str()),
                    None => Status::Unknown,
                },
                revision: match revision {
                    Some(n) => n,
                    None => 0,
                },
            },
        ),
    }
}

pub open spec fn sighting_view(s: Option<Sighting>) -> Option<SightingModel> {
    match s {
        Some(s) => Some(s@),
        None => None,
    }
}

/// The sighting a pane's JSON holds.
pub open spec fn sighted(pane: Seq<char>) -> Option<SightingModel> {
    sighting_from(
        text_member(pane, "pane_id"@),
        text_member(pane, "agent"@),
        text_member(pane, "cwd"@),
        text_member(pane, "foreground_cwd"@),
        text_member(pane, "agent_status"@),
        number_member(pane, "revision"@),
    )
}

/// Read a pane's JSON into a sighting.
pub fn sighting(pane: &str) -> (r: Option<Sighting>)
    ensures
        sighting_view(r) == sighted(pane@),
{
    sighting_of(
        text_at(pane, "pane_id"),
        text_at(pane, "agent"),
        text_at(pane, "cwd"),
        text_at(pane, "foreground_cwd"),
        text_at(pane, "agent_status"),
        number_at(pane, "revision"),
    )
}

// ------------------------------------------------------------------- answers

/// The codes that mean that the thing asked about is not there.
pub open spec fn means_absent(code: Seq<char>) -> bool {
    code == "pane_not_found"@ || code == "agent_not_found"@
}

/// An answer, with absence told apart from faults.
pub open spec fn or_absent(result: Result<String, Fault>) -> Result<Option<String>, Fault> {
    match result {
        Ok(json) => Ok(Some(json)),
        Err(Fault::Api(e)) if means_absent(e.code@) => Ok(None),
        Err(f) => Err(f),
    }
}

/// Nothing when herdr says that the thing does not exist; the fault otherwise.
pub fn optional(result: Result<String, Fault>) -> (r: Result<Option<String>, Fault>)
    ensures
        r == or_absent(result),
{
    match result {
        Ok(json) => Ok(Some(json)),
        Err(Fault::Api(e)) => {
            if same(e.code.as_str(), "pane_not_found") || same(e.code.as_str(), "agent_not_found") {
                Ok(None)
            } else {
                Err(Fault::Api(e))
            }
        },
        Err(f) => Err(f),
    }
}

/// What is said of an answer without what it promises.
pub open spec fn malformed_text(method: Seq<char>, wanted: Seq<char>, got: Seq<char>) -> Seq<char> {
    "herdr answered "@ + method + " without `"@ + wanted + "`: "@ + within(got, 200)
}

/// A fault: an answer without what it promises.
pub fn malformed(method: &str, wanted: &str, got: &str) -> (r: Fault)
    ensures
        r matches Fault::Other(s) && s@ == malformed_text(method@, wanted@, got@),
{
    let mut s: String = owned("herdr answered ");
    s.append(method);
    s.append(" without `");
    s.append(wanted);
    s.append("`: ");
    s.append(head_of(got, 200).as_str());
    Fault::Other(s)
}

/// Whether a fault says that an answer lacked something.
pub open spec fn lacks(f: Fault, method: Seq<char>, wanted: Seq<char>, got: Seq<char>) -> bool {
    match f {
        Fault::Other(s) => s@ == malformed_text(method, wanted, got),
        _ => false,
    }
}

/// What a list of sightings holds.
pub open spec fn sightings(v: Seq<Sighting>) -> Seq<SightingModel> {
    v.map_values(|s: Sighting| s@)
}

/// The panes that have an agent, from the answer to `agent.list`. An answer
/// without a list is a fault, and not an empty list.
pub fn agents_in(result: &str) -> (r: Result<Vec<Sighting>, Fault>)
    ensures
        match items_member(result@, "agents"@) {
            None => r matches Err(f) && lacks(f, "agent.list"@, "agents"@, result@),
            Some(items) => r matches Ok(v) && sightings(v@) == items.filter_map(
                |pane: Seq<char>| sighted(pane),
            ),
        },
{
    let items: Vec<String> = match items_at(result, "agents") {
        Some(items) => items,
        None => {
            return Err(malformed("agent.list", "agents", result));
        },
    };
    let ghost f = |pane: Seq<char>| sighted(pane);
    let mut out: Vec<Sighting> = Vec::new();
    let mut i: usize = 0;
    proof {
        reveal(Seq::filter_map);
        assert(texts(items@).take(0) =~= Seq::<Seq<char>>::empty());
        assert(sightings(out@) =~= texts(items@).take(0).filter_map(f));
    }
    while i < items.len()
        invariant
            i <= items@.len(),
            f == (|pane: Seq<char>| sighted(pane)),
            sightings(out@) == texts(items@).take(i as int).filter_map(f),
        decreases items@.len() - i,
    {
        proof {
            reveal(Seq::filter_map);
            let now = texts(items@).take(i + 1);
            assert(now.drop_last() =~= texts(items@).take(i as int));
            assert(now.last() == items@[i as int]@);
        }
        let ghost was = out@;
        if let Some(s) = sighting(items[i].as_str()) {
            out.push(s);
            proof {
                assert(sightings(out@) =~= sightings(was).push(s@));
            }
        }
        i += 1;
        proof {
            assert(sightings(out@) =~= texts(items@).take(i as int).filter_map(f));
        }
    }
    proof {
        assert(texts(items@).take(items@.len() as int) =~= texts(items@));
    }
    Ok(out)
}

/// One pane, from the answer to `pane.get`. A pane without an agent is nothing
/// the recorder follows.
pub fn pane_in(result: &str) -> (r: Result<Option<Sighting>, Fault>)
    ensures
        match json_member(result@, "pane"@) {
            None => r matches Err(f) && lacks(f, "pane.get"@, "pane"@, result@),
            Some(pane) => match sighted(pane) {
                None => r matches Err(f) && lacks(f, "pane.get"@, "pane_id"@, pane),
                Some(s) => r matches Ok(o) && sighting_view(o) == if s.agent is Some {
                    Some(s)
                } else {
                    None
                },
            },
        },
{
    match member(result, "pane") {
        None => Err(malformed("pane.get", "pane", result)),
        Some(pane) => match sighting(pane.as_str()) {
            None => Err(malformed("pane.get", "pane_id", pane.as_str())),
            Some(s) => {
                if s.agent.is_some() {
                    Ok(Some(s))
                } else {
                    Ok(None)
                }
            },
        },
    }
}

/// A number as a pid: its lowest 32 bits.
pub open spec fn as_pid(n: Option<u64>) -> u32 {
    match n {
        Some(n) => n as u32,
        None => 0,
    }
}

fn pid_of(n: Option<u64>) -> (r: u32)
    ensures
        r == as_pid(n),
{
    match n {
        Some(n) => #[verifier::truncate]
        (n as u32),
        None => 0,
    }
}

/// One process, from its parts. Without a pid it is none.
pub open spec fn process_from(pid: Option<u64>, name: Option<Seq<char>>, argv0: Option<Seq<char>>) -> Option<
    (u32, Seq<char>),
> {
    match pid {
        None => None,
        Some(_) => Some(
            (
                as_pid(pid),
                if name is Some {
                    name->0
                } else if argv0 is Some {
                    argv0->0
                } else {
                    "?"@
                },
            ),
        ),
    }
}

/// The process a value holds.
pub open spec fn process_in(json: Seq<char>) -> Option<(u32, Seq<char>)> {
    process_from(
        number_member(json, "pid"@),
        text_member(json, "name"@),
        text_member(json, "argv0"@),
    )
}

/// One process, from its parts.
pub fn process_of(pid: Option<u64>, name: Option<String>, argv0: Option<String>) -> (r: Option<
    (u32, String),
>)
    ensures
        match r {
            Some(p) => process_from(pid, opt_text(name), opt_text(argv0)) == Some((p.0, p.1@)),
            None => process_from(pid, opt_text(name), opt_text(argv0)) is None,
        },
{
    if pid.is_none() {
        return None;
    }
    let named: String = match name {
        Some(n) => n,
        None => match argv0 {
            Some(a) => a,
            None => owned("?"),
        },
    };
    Some((pid_of(pid), named))
}

/// The process group that a process report holds.
pub open spec fn processes_of(info: Seq<char>) -> ProcessesModel {
    ProcessesModel {
        shell_pid: as_pid(number_member(info, "shell_pid"@)),
        leader: as_pid(number_member(info, "foreground_process_group_id"@)),
        running: match items_member(info, "foreground_processes"@) {
            Some(items) => items.filter_map(|p: Seq<char>| process_in(p)),
            None => Seq::empty(),
        },
    }
}

fn running_in(items: &Vec<String>) -> (r: Vec<(u32, String)>)
    ensures
        running_view(r@) == texts(items@).filter_map(|p: Seq<char>| process_in(p)),
{
    let ghost f = |p: Seq<char>| process_in(p);
    let mut out: Vec<(u32, String)> = Vec::new();
    let mut i: usize = 0;
    proof {
        reveal(Seq::filter_map);
        assert(texts(items@).take(0) =~= Seq::<Seq<char>>::empty());
        assert(running_view(out@) =~= texts(items@).take(0).filter_map(f));
    }
    while i < items.len()
        invariant
            i <= items@.len(),
            f == (|p: Seq<char>| process_in(p)),
            running_view(out@) == texts(items@).take(i as int).filter_map(f),
        decreases items@.len() - i,
    {
        proof {
            reveal(Seq::filter_map);
            let now = texts(items@).take(i + 1);
            assert(now.drop_last() =~= texts(items@).take(i as int));
            assert(now.last() == items@[i as int]@);
        }
        let ghost was = out@;
        let json: &str = items[i].as_str();
        let found: Option<(u32, String)> = process_of(
            number_at(json, "pid"),
            text_at(json, "name"),
            text_at(json, "argv0"),
        );
        if let Some(p) = found {
            out.push(p);
            proof {
                assert(running_view(out@) =~= running_view(was).push((p.0, p.1@)));
            }
        }
        i += 1;
        proof {
            assert(running_view(out@) =~= texts(items@).take(i as int).filter_map(f));
        }
    }
    proof {
        assert(texts(items@).take(items@.len() as int) =~= texts(items@));
    }
    out
}

/// A pane's foreground process group, from the answer to `pane.process_info`.
pub fn processes_in(result: &str) -> (r: Result<Processes, Fault>)
    ensures
        match json_member(result@, "process_info"@) {
            None => r matches Err(f) && lacks(f, "pane.process_info"@, "process_info"@, result@),
            Some(info) => r matches Ok(p) && p@ == processes_of(info),
        },
{
    match member(result, "process_info") {
        None => Err(malformed("pane.process_info", "process_info", result)),
        Some(info) => {
            let running: Vec<(u32, String)> = match items_at(info.as_str(), "foreground_processes") {
                Some(items) => running_in(&items),
                None => Vec::new(),
            };
            let p = Processes {
                shell_pid: pid_of(number_at(info.as_str(), "shell_pid")),
                leader: pid_of(number_at(info.as_str(), "foreground_process_group_id")),
                running,
            };
            proof {
                if items_member(info@, "foreground_processes"@) is None {
                    assert(running_view(running@) =~= Seq::<(u32, Seq<char>)>::empty());
                }
            }
            Ok(p)
        },
    }
}

/// The text on a pane's screen, from the answer to `pane.read`.
pub fn screen_in(result: &str) -> (r: Result<String, Fault>)
    ensures
        match json_member(result@, "read"@) {
            Some(read) => match text_member(read, "text"@) {
                Some(text) => r matches Ok(s) && s@ == text,
                None => r matches Err(f) && lacks(f, "pane.read"@, "read.text"@, result@),
            },
            None => r matches Err(f) && lacks(f, "pane.read"@, "read.text"@, result@),
        },
{
    let text: Option<String> = match member(result, "read") {
        Some(read) => text_at(read.as_str(), "text"),
        None => None,
    };
    match text {
        Some(s) => Ok(s),
        None => Err(malformed("pane.read", "read.text", result)),
    }
}

// ----------------------------------------------------------------- questions

/// The parameters of a question about one pane.
pub fn pane_params(pane_id: &str) -> (r: String)
    ensures
        r@ == json_object(seq![("pane_id"@, json_quoted(pane_id@))]),
{
    let mut fields: Vec<(String, String)> = Vec::new();
    fields.push((owned("pane_id"), quoted(pane_id)));
    proof {
        assert(pairs(fields@) =~= seq![("pane_id"@, json_quoted(pane_id@))]);
    }
    object(&fields)
}

/// The parameters that ask for the visible screen of a pane, as plain text.
pub fn screen_params(pane_id: &str, lines: u32) -> (r: String)
    ensures
        r@ == json_object(
            seq![
                ("pane_id"@, json_quoted(pane_id@)),
                ("source"@, json_quoted("visible"@)),
                ("lines"@, dec(lines as nat)),
                ("strip_ansi"@, "true"@),
            ],
        ),
{
    let mut fields: Vec<(String, String)> = Vec::new();
    fields.push((owned("pane_id"), quoted(pane_id)));
    fields.push((owned("source"), quoted("visible")));
    fields.push((owned("lines"), dec_of(lines as u64)));
    fields.push((owned("strip_ansi"), owned("true")));
    proof {
        assert(pairs(fields@) =~= seq![
            ("pane_id"@, json_quoted(pane_id@)),
            ("source"@, json_quoted("visible"@)),
            ("lines"@, dec(lines as nat)),
            ("strip_ansi"@, "true"@),
        ]);
    }
    object(&fields)
}

/// How long herdr is told to show a turn number, in milliseconds: at least one,
/// and at most a day.
pub open spec fn ttl_millis(nanos: u128) -> nat {
    let ms = (nanos / 1_000_000) as nat;
    if ms < 1 {
        1
    } else if ms > 86_400_000 {
        86_400_000
    } else {
        ms
    }
}

/// The parameters that tell herdr which turn a pane is on.
pub fn report_params(pane_id: &str, seq: u64, ttl: u128) -> (r: String)
    ensures
        r@ == json_object(
            seq![
                ("pane_id"@, json_quoted(pane_id@)),
                ("source"@, json_quoted("sheep"@)),
                ("tokens"@, json_object(seq![("turn"@, json_quoted("#"@ + dec(seq as nat)))])),
                ("ttl_ms"@, dec(ttl_millis(ttl))),
            ],
        ),
{
    let mut turn: String = owned("#");
    push_dec(&mut turn, seq);
    let mut tokens: Vec<(String, String)> = Vec::new();
    tokens.push((owned("turn"), quoted(turn.as_str())));
    proof {
        assert(pairs(tokens@) =~= seq![("turn"@, json_quoted("#"@ + dec(seq as nat)))]);
    }
    let ms: u128 = ttl / 1_000_000;
    let shown: u64 = if ms < 1 {
        1
    } else if ms > 86_400_000 {
        86_400_000
    } else {
        ms as u64
    };
    let mut fields: Vec<(String, String)> = Vec::new();
    fields.push((owned("pane_id"), quoted(pane_id)));
    fields.push((owned("source"), quoted("sheep")));
    fields.push((owned("tokens"), object(&tokens)));
    fields.push((owned("ttl_ms"), dec_of(shown)));
    proof {
        assert(pairs(fields@) =~= seq![
            ("pane_id"@, json_quoted(pane_id@)),
            ("source"@, json_quoted("sheep"@)),
            ("tokens"@, json_object(seq![("turn"@, json_quoted("#"@ + dec(seq as nat)))])),
            ("ttl_ms"@, dec(ttl_millis(ttl))),
        ]);
    }
    object(&fields)
}

/// The parameters that tell the agent in a pane something.
pub fn tell_params(pane: &str, text: &str) -> (r: String)
    ensures
        r@ == json_object(
            seq![("target"@, json_quoted(pane@)), ("text"@, json_quoted(text@))],
        ),
{
    let mut fields: Vec<(String, String)> = Vec::new();
    fields.push((owned("target"), quoted(pane)));
    fields.push((owned("text"), quoted(text)));
    proof {
        assert(pairs(fields@) =~= seq![
            ("target"@, json_quoted(pane@)),
            ("text"@, json_quoted(text@)),
        ]);
    }
    object(&fields)
}

// --------------------------------------------------------------------- laws

/// Only the two codes that mean absence are read as absence: every other fault
/// reaches the caller as it is.
pub proof fn law_only_not_found_is_absence(result: Result<String, Fault>)
    ensures
        or_absent(result) == Ok::<Option<String>, Fault>(None) <==> (result matches Err(
            Fault::Api(e),
        ) && (e.code@ == "pane_not_found"@ || e.code@ == "agent_not_found"@)),
        or_absent(result) is Err ==> or_absent(result)->Err_0 == result->Err_0,
{
}

/// A pane whose foreground process group is its shell has no agent running,
/// whatever runs in the group.
pub proof fn law_a_pane_at_its_shell_has_no_agent(p: ProcessesModel)
    requires
        p.leader == p.shell_pid,
    ensures
        !p.agent_runs(),
{
}

} // verus!
