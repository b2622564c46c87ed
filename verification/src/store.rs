//! The turn log.
//!
//! One append-only file per timeline, one turn per line. A line nobody can
//! read is passed over rather than fatal: a write that was cut short costs one
//! turn, not the history.
use crate::digest::{hex, hex_of, lemma_hex, sha256, sha256_digest};
use crate::paths::{join, joined};
use crate::strings::{
    chars_of, clone_opt, cut, dec, ends_with, is_name_char, lemma_texts_empty, lemma_texts_push,
    lines, lines_of, name_char, opt_text, owned, push_dec, split, string_of, texts, trim, trim_str,
};
use vstd::prelude::*;
use vstd::string::*;

verus! {

#[derive(Debug, Clone, Copy, PartialEq, Eq, Structural)]
pub enum TurnKind {
    /// An agent finished a turn.
    Turn,
    /// Taken just before a restore, so that undo is undoable.
    Checkpoint,
    /// The user asked for it.
    Manual,
}

impl TurnKind {
    pub open spec fn name(self) -> Seq<char> {
        match self {
            TurnKind::Turn => "turn"@,
            TurnKind::Checkpoint => "checkpoint"@,
            TurnKind::Manual => "manual"@,
        }
    }

    pub fn label(&self) -> (r: &'static str)
        ensures
            r@ == self.name(),
    {
        match self {
            TurnKind::Turn => "turn",
            TurnKind::Checkpoint => "checkpoint",
            TurnKind::Manual => "manual",
        }
    }
}

/// One recorded turn.
#[derive(Debug)]
pub struct Turn {
    /// Grows along a timeline. This is the `#7` a user types.
    pub seq: u64,
    pub kind: TurnKind,
    pub commit: String,
    pub tree: String,
    pub parent: Option<String>,
    /// Unix seconds.
    pub at: u64,
    pub files: usize,
    pub insertions: u64,
    pub deletions: u64,
    /// Which herdr pane produced it.
    pub pane_id: Option<String>,
    /// Which agent produced it.
    pub agent: Option<String>,
    /// Read off the pane, so not authoritative.
    pub prompt: Option<String>,
    pub note: Option<String>,
}

#[verifier::ext_equal]
pub struct TurnModel {
    pub seq: u64,
    pub kind: TurnKind,
    pub commit: Seq<char>,
    pub tree: Seq<char>,
    pub parent: Option<Seq<char>>,
    pub at: u64,
    pub files: usize,
    pub insertions: u64,
    pub deletions: u64,
    pub pane_id: Option<Seq<char>>,
    pub agent: Option<Seq<char>>,
    pub prompt: Option<Seq<char>>,
    pub note: Option<Seq<char>>,
}

impl View for Turn {
    type V = TurnModel;

    open spec fn view(&self) -> TurnModel {
        TurnModel {
            seq: self.seq,
            kind: self.kind,
            commit: self.commit@,
            tree: self.tree@,
            parent: opt_text(self.parent),
            at: self.at,
            files: self.files,
            insertions: self.insertions,
            deletions: self.deletions,
            pane_id: opt_text(self.pane_id),
            agent: opt_text(self.agent),
            prompt: opt_text(self.prompt),
            note: opt_text(self.note),
        }
    }
}

impl Clone for Turn {
    fn clone(&self) -> (r: Self)
        ensures
            r == *self,
    {
        Turn {
            seq: self.seq,
            kind: self.kind,
            commit: self.commit.clone(),
            tree: self.tree.clone(),
            parent: clone_opt(&self.parent),
            at: self.at,
            files: self.files,
            insertions: self.insertions,
            deletions: self.deletions,
            pane_id: clone_opt(&self.pane_id),
            agent: clone_opt(&self.agent),
            prompt: clone_opt(&self.prompt),
            note: clone_opt(&self.note),
        }
    }
}

/// What a list of turns holds.
pub open spec fn turns_view(v: Seq<Turn>) -> Seq<TurnModel> {
    v.map_values(|t: Turn| t@)
}

impl TurnModel {
    /// One line about the turn.
    pub open spec fn subject(self) -> Seq<char> {
        let who = match self.agent {
            Some(a) => a,
            None => "-"@,
        };
        "#"@ + dec(self.seq as nat) + " "@ + self.kind.name() + " "@ + who + " · "@ + dec(
            self.files as nat,
        ) + " files +"@ + dec(self.insertions as nat) + " -"@ + dec(self.deletions as nat)
    }
}

impl Turn {
    /// One-line summary, used as the subject of the turn's commit.
    pub fn subject(&self) -> (r: String)
        ensures
            r@ == self@.subject(),
    {
        let mut out: String = owned("#");
        push_dec(&mut out, self.seq);
        out.append(" ");
        out.append(self.kind.label());
        out.append(" ");
        match &self.agent {
            Some(a) => {
                out.append(a.as_str());
            },
            None => {
                out.append("-");
            },
        }
        out.append(" · ");
        push_dec(&mut out, self.files as u64);
        out.append(" files +");
        push_dec(&mut out, self.insertions);
        out.append(" -");
        push_dec(&mut out, self.deletions);
        out
    }
}

// ----------------------------------------------------------------- the name

/// A name that can stand as a file name and in a git ref as it is.
pub open spec fn is_legal(line: Seq<char>) -> bool {
    line.len() > 0 && forall|i: int| 0 <= i < line.len() ==> is_name_char(#[trigger] line[i])
}

/// `line` with every character that a name may not hold replaced by a dash.
pub open spec fn sanitized(line: Seq<char>) -> Seq<char> {
    line.map_values(
        |c: char|
            if is_name_char(c) {
                c
            } else {
                '-'
            },
    )
}

/// The name under which a timeline is kept, when `digest` is the digest of the
/// timeline's name.
pub open spec fn slug_with(line: Seq<char>, digest: Seq<u8>) -> Seq<char> {
    if line.len() == 0 {
        "default"@
    } else if is_legal(line) {
        line
    } else {
        sanitized(line) + "-"@ + hex(digest.take(3))
    }
}

/// The name under which a timeline is kept.
pub open spec fn slug_of(line: Seq<char>) -> Seq<char> {
    slug_with(line, sha256_digest(vstd::utf8::encode_utf8(line)))
}

/// `s` with every character that a name may not hold replaced by a dash, cut
/// to at most `max` characters.
pub fn sanitize(s: &str, max: usize) -> (r: String)
    ensures
        r@ == sanitized(
            if s@.len() <= max {
                s@
            } else {
                s@.take(max as int)
            },
        ),
{
    let cs: Vec<char> = chars_of(s);
    let end: usize = if cs.len() <= max {
        cs.len()
    } else {
        max
    };
    let mut out: String = String::new();
    let mut i: usize = 0;
    while i < end
        invariant
            i <= end <= cs@.len(),
            out@ == sanitized(cs@.take(i as int)),
        decreases end - i,
    {
        let c: char = cs[i];
        out.push(
            if name_char(c) {
                c
            } else {
                '-'
            },
        );
        i += 1;
        proof {
            assert(out@ =~= sanitized(cs@.take(i as int)));
        }
    }
    proof {
        if cs@.len() <= max {
            assert(cs@.take(end as int) =~= s@);
        }
    }
    out
}

fn legal(line: &str) -> (r: bool)
    ensures
        r == is_legal(line@),
{
    let cs: Vec<char> = chars_of(line);
    let mut i: usize = 0;
    while i < cs.len()
        invariant
            i <= cs@.len(),
            cs@ == line@,
            forall|j: int| 0 <= j < i ==> is_name_char(#[trigger] cs@[j]),
        decreases cs@.len() - i,
    {
        if !name_char(cs[i]) {
            return false;
        }
        i += 1;
    }
    cs.len() > 0
}

/// The name under which a timeline is kept, given the digest of the
/// timeline's name.
pub fn slug_from(line: &str, digest: &Vec<u8>) -> (r: String)
    requires
        digest@.len() >= 3,
    ensures
        r@ == slug_with(line@, digest@),
{
    if line.is_empty() {
        return owned("default");
    }
    if legal(line) {
        return owned(line);
    }
    let mut out: String = sanitize(line, line.unicode_len());
    out.append("-");
    out.append(hex_of(digest, 3).as_str());
    out
}

/// The name under which a timeline is kept: both its file and its ref. A legal
/// name stays as it is; any other is rewritten and told apart by a digest.
pub fn slug(line: &str) -> (r: String)
    ensures
        r@ == slug_of(line@),
{
    let digest: Vec<u8> = sha256(line.as_bytes());
    slug_from(line, &digest)
}

/// The name of a timeline is always one a file and a ref can carry, and a
/// legal name is kept as it is.
pub proof fn law_slug_is_legal(line: Seq<char>, digest: Seq<u8>)
    requires
        digest.len() >= 3,
    ensures
        is_legal(slug_with(line, digest)),
        is_legal(line) ==> slug_with(line, digest) == line,
{
    if line.len() == 0 {
        reveal_strlit("default");
    } else if !is_legal(line) {
        reveal_strlit("-");
        lemma_hex(digest.take(3));
        let s = slug_with(line, digest);
        let h = hex(digest.take(3));
        assert forall|i: int| 0 <= i < s.len() implies is_name_char(#[trigger] s[i]) by {
            if i > line.len() {
                assert(s[i] == h[i - line.len() - 1]);
            }
        }
    }
}

/// Naming a timeline twice is naming it once: a name as kept is kept.
pub proof fn law_slug_is_stable(line: Seq<char>, digest: Seq<u8>, other: Seq<u8>)
    requires
        digest.len() >= 3,
    ensures
        slug_with(slug_with(line, digest), other) == slug_with(line, digest),
{
    law_slug_is_legal(line, digest);
}

/// Two names that are rewritten are told apart when their digests differ in the
/// first three bytes, whatever they are rewritten to.
pub proof fn law_slugs_differ_with_their_digests(
    a: Seq<char>,
    b: Seq<char>,
    da: Seq<u8>,
    db: Seq<u8>,
)
    requires
        a.len() > 0,
        b.len() > 0,
        !is_legal(a),
        !is_legal(b),
        da.len() >= 3,
        db.len() >= 3,
        hex(da.take(3)) != hex(db.take(3)),
    ensures
        slug_with(a, da) != slug_with(b, db),
{
    reveal_strlit("-");
    lemma_hex(da.take(3));
    lemma_hex(db.take(3));
    let x = slug_with(a, da);
    let y = slug_with(b, db);
    assert(x.skip(x.len() - 6) =~= hex(da.take(3)));
    assert(y.skip(y.len() - 6) =~= hex(db.take(3)));
}

// ---------------------------------------------------------------- the store

/// Where the turn log of one timeline of one worktree is kept.
#[derive(Debug)]
pub struct Store {
    path: String,
}

/// `<state>/turns/<worktree>/<timeline>.ndjson`.
pub open spec fn log_path(state: Seq<char>, worktree: Seq<char>, line: Seq<char>) -> Seq<char> {
    joined(joined(joined(state, "turns"@), worktree), slug_of(line) + ".ndjson"@)
}

/// The lines of a log that hold anything.
pub open spec fn records(body: Seq<char>) -> Seq<Seq<char>> {
    lines(body).filter(|l: Seq<char>| trim(l).len() > 0)
}

pub open spec fn opt_turn(t: Option<Turn>) -> Option<TurnModel> {
    match t {
        Some(t) => Some(t@),
        None => None,
    }
}

/// What every line of a log was read as, `None` where it could not be.
pub open spec fn parsed_view(v: Seq<Option<Turn>>) -> Seq<Option<TurnModel>> {
    v.map_values(|t: Option<Turn>| opt_turn(t))
}

/// The turns among the lines, in order.
pub open spec fn readable(v: Seq<Option<TurnModel>>) -> Seq<TurnModel>
    decreases v.len(),
{
    if v.len() == 0 {
        Seq::empty()
    } else {
        match v.last() {
            Some(t) => readable(v.drop_last()).push(t),
            None => readable(v.drop_last()),
        }
    }
}

/// The first turn with this number.
pub open spec fn turn_with(turns: Seq<TurnModel>, seq: u64) -> Option<TurnModel>
    decreases turns.len(),
{
    if turns.len() == 0 {
        None
    } else if turns[0].seq == seq {
        Some(turns[0])
    } else {
        turn_with(turns.drop_first(), seq)
    }
}

/// The timeline a file in a log directory belongs to.
pub open spec fn timeline_of(file: Seq<char>) -> Option<Seq<char>> {
    if ".ndjson"@.is_suffix_of(file) {
        Some(file.take(file.len() - ".ndjson"@.len()))
    } else {
        None
    }
}

pub open spec fn timelines(files: Seq<Seq<char>>) -> Seq<Seq<char>> {
    files.filter_map(|f: Seq<char>| timeline_of(f))
}

/// Why a turn may not be appended.
pub open spec fn not_past_the_end(seq: u64, last: u64) -> Seq<char> {
    "turn #"@ + dec(seq as nat) + " is not past the end of this timeline, which is at #"@ + dec(
        last as nat,
    )
}

impl Store {
    /// The path of the log.
    pub closed spec fn location(&self) -> Seq<char> {
        self.path@
    }

    /// The log of one timeline of one worktree.
    pub fn open(state_dir: &str, worktree_id: &str, line: &str) -> (r: Self)
        ensures
            r.location() == log_path(state_dir@, worktree_id@, line@),
    {
        let dir: String = join(join(state_dir, "turns").as_str(), worktree_id);
        let mut name: String = slug(line);
        name.append(".ndjson");
        Store { path: join(dir.as_str(), name.as_str()) }
    }

    pub fn path(&self) -> (r: &str)
        ensures
            r@ == self.location(),
    {
        self.path.as_str()
    }

    /// The lines of a log that hold anything, oldest first.
    pub fn records(body: &str) -> (r: Vec<String>)
        ensures
            texts(r@) == records(body@),
    {
        broadcast use lemma_texts_push;

        let all: Vec<String> = lines_of(body);
        let mut out: Vec<String> = Vec::new();
        let mut i: usize = 0;
        let ghost keep = |l: Seq<char>| trim(l).len() > 0;
        proof {
            reveal(Seq::filter);
            lemma_texts_empty(out@);
            assert(texts(all@).take(0) =~= Seq::<Seq<char>>::empty());
            assert(texts(out@) =~= texts(all@).take(0).filter(keep));
        }
        while i < all.len()
            invariant
                i <= all@.len(),
                keep == (|l: Seq<char>| trim(l).len() > 0),
                texts(out@) == texts(all@).take(i as int).filter(keep),
            decreases all@.len() - i,
        {
            broadcast use lemma_texts_push;

            proof {
                reveal(Seq::filter);
                let now = texts(all@).take(i + 1);
                assert(now.drop_last() =~= texts(all@).take(i as int));
                assert(now.last() == all@[i as int]@);
            }
            if !trim_str(all[i].as_str()).as_str().is_empty() {
                out.push(all[i].clone());
            }
            i += 1;
        }
        proof {
            assert(texts(all@).take(all@.len() as int) =~= texts(all@));
        }
        out
    }

    /// The lines of a block read from the end of a log: all of them when the
    /// block reaches back to the start, and those behind its first line feed
    /// when it may begin in the middle of a line.
    pub fn tail_records(block: &str, from_start: bool) -> (r: Vec<String>)
        ensures
            texts(r@) == if from_start {
                records(block@)
            } else {
                match cut(block@, '\n') {
                    Some((_, rest)) => records(rest),
                    None => Seq::empty(),
                }
            },
    {
        if from_start {
            return Store::records(block);
        }
        match crate::strings::cut_at(block, '\n') {
            Some((_, rest)) => Store::records(rest.as_str()),
            None => {
                let r: Vec<String> = Vec::new();
                proof {
                    lemma_texts_empty(r@);
                }
                r
            },
        }
    }

    /// Every turn, oldest first. A line that could not be read is passed over.
    pub fn all(parsed: Vec<Option<Turn>>) -> (r: Vec<Turn>)
        ensures
            turns_view(r@) == readable(parsed_view(parsed@)),
    {
        let mut out: Vec<Turn> = Vec::new();
        let mut i: usize = 0;
        proof {
            assert(turns_view(out@) =~= readable(parsed_view(parsed@).take(0)));
        }
        while i < parsed.len()
            invariant
                i <= parsed@.len(),
                turns_view(out@) == readable(parsed_view(parsed@).take(i as int)),
            decreases parsed@.len() - i,
        {
            proof {
                let now = parsed_view(parsed@).take(i + 1);
                assert(now.drop_last() =~= parsed_view(parsed@).take(i as int));
                assert(now.last() == opt_turn(parsed@[i as int]));
            }
            match &parsed[i] {
                Some(t) => {
                    let ghost was = out@;
                    out.push(t.clone());
                    proof {
                        assert(turns_view(out@) =~= turns_view(was).push(t@));
                    }
                },
                None => {},
            }
            i += 1;
        }
        proof {
            assert(parsed_view(parsed@).take(parsed@.len() as int) =~= parsed_view(parsed@));
        }
        out
    }

    /// The newest turn, found from the end without reading the rest.
    pub fn last(parsed: &Vec<Option<Turn>>) -> (r: Option<Turn>)
        ensures
            opt_turn(r) == ({
                let all = readable(parsed_view(parsed@));
                if all.len() == 0 {
                    None
                } else {
                    Some(all.last())
                }
            }),
    {
        let mut i: usize = parsed.len();
        proof {
            assert(parsed_view(parsed@).take(parsed@.len() as int) =~= parsed_view(parsed@));
        }
        while i > 0
            invariant
                i <= parsed@.len(),
                readable(parsed_view(parsed@)) == readable(parsed_view(parsed@).take(i as int)),
            decreases i,
        {
            proof {
                let now = parsed_view(parsed@).take(i as int);
                assert(now.drop_last() =~= parsed_view(parsed@).take(i - 1));
                assert(now.last() == opt_turn(parsed@[i - 1]));
            }
            i -= 1;
            if let Some(t) = &parsed[i] {
                return Some(t.clone());
            }
        }
        None
    }

    /// The number the next turn gets: one past the last, or one.
    pub fn next_seq(last: &Option<Turn>) -> (r: u64)
        requires
            last matches Some(t) ==> t.seq < u64::MAX,
        ensures
            r == match *last {
                Some(t) => t.seq + 1,
                None => 1,
            },
    {
        match last {
            Some(t) => t.seq + 1,
            None => 1,
        }
    }

    /// Whether `turn` may be appended behind a log that ends with `last`. A
    /// number that is not past the end of the log is refused.
    pub fn append(last: &Option<Turn>, turn: &Turn) -> (r: Result<(), String>)
        ensures
            match r {
                Ok(_) => last matches Some(t) ==> t.seq < turn.seq,
                Err(why) => last matches Some(t) && t.seq >= turn.seq && why@ == not_past_the_end(
                    turn.seq,
                    t.seq,
                ),
            },
    {
        match last {
            Some(t) => {
                if t.seq < turn.seq {
                    Ok(())
                } else {
                    let mut why: String = owned("turn #");
                    push_dec(&mut why, turn.seq);
                    why.append(" is not past the end of this timeline, which is at #");
                    push_dec(&mut why, t.seq);
                    Err(why)
                }
            },
            None => Ok(()),
        }
    }

    /// The turn with this number.
    pub fn find(turns: &Vec<Turn>, seq: u64) -> (r: Option<Turn>)
        ensures
            opt_turn(r) == turn_with(turns_view(turns@), seq),
    {
        let mut i: usize = 0;
        proof {
            assert(turns_view(turns@).skip(0) =~= turns_view(turns@));
        }
        while i < turns.len()
            invariant
                i <= turns@.len(),
                turn_with(turns_view(turns@), seq) == turn_with(
                    turns_view(turns@).skip(i as int),
                    seq,
                ),
            decreases turns@.len() - i,
        {
            proof {
                let rest = turns_view(turns@).skip(i as int);
                assert(rest[0] == turns@[i as int]@);
                assert(rest.drop_first() =~= turns_view(turns@).skip(i + 1));
            }
            if turns[i].seq == seq {
                return Some(turns[i].clone());
            }
            i += 1;
        }
        None
    }

    /// The timelines recorded for a worktree, in order, from the names of the
    /// files in its log directory.
    pub fn lines_for(files: Vec<String>) -> (r: Vec<String>)
        ensures
            crate::order::sorted(texts(r@)),
            texts(r@).to_multiset() == timelines(texts(files@)).to_multiset(),
    {
        broadcast use lemma_texts_push;

        let mut out: Vec<String> = Vec::new();
        let mut i: usize = 0;
        let ghost f = |f: Seq<char>| timeline_of(f);
        proof {
            lemma_texts_empty(out@);
            reveal(Seq::filter_map);
            assert(texts(files@).take(0) =~= Seq::<Seq<char>>::empty());
        }
        while i < files.len()
            invariant
                i <= files@.len(),
                f == (|f: Seq<char>| timeline_of(f)),
                texts(out@) == texts(files@).take(i as int).filter_map(f),
            decreases files@.len() - i,
        {
            broadcast use lemma_texts_push;

            proof {
                reveal(Seq::filter_map);
                let now = texts(files@).take(i + 1);
                assert(now.drop_last() =~= texts(files@).take(i as int));
                assert(now.last() == files@[i as int]@);
                reveal_strlit(".ndjson");
            }
            if ends_with(files[i].as_str(), ".ndjson") {
                let cs: Vec<char> = chars_of(files[i].as_str());
                let end: usize = cs.len() - 7;
                proof {
                    assert(cs@.subrange(0, end as int) =~= cs@.take(end as int));
                }
                out.push(string_of(&cs, 0, end));
            }
            proof {
                assert(texts(out@) =~= texts(files@).take(i + 1).filter_map(f));
            }
            i += 1;
        }
        proof {
            assert(texts(files@).take(files@.len() as int) =~= texts(files@));
        }
        crate::order::sort_texts(out)
    }
}

/// The records found in the tail of a log are the last records of the whole
/// log, whatever stands before the tail.
pub proof fn law_the_tail_agrees_with_the_log(head: Seq<char>, block: Seq<char>)
    ensures
        cut(block, '\n') matches Some((_, rest)) ==> records(rest).is_suffix_of(
            records(head + block),
        ),
{
    lemma_cut_is_around(block);
    if let Some((first, rest)) = cut(block, '\n') {
        let keep = |l: Seq<char>| trim(l).len() > 0;
        assert(head + block =~= (head + first).push('\n') + rest);
        crate::strings::lemma_lines_after(head + first, rest);
        let before = split(head + first, '\n').map_values(
            |l: Seq<char>| crate::strings::chop_cr(l),
        );
        Seq::filter_distributes_over_add(before, lines(rest), keep);
        let all = records(head + block);
        let tail = records(rest);
        assert(all == before.filter(keep) + tail);
        assert(tail =~= all.subrange(all.len() - tail.len(), all.len() as int));
    }
}

/// A string is what stands before its first separator, the separator, and
/// what stands behind it.
proof fn lemma_cut_is_around(s: Seq<char>)
    ensures
        cut(s, '\n') matches Some((a, b)) ==> s == a.push('\n') + b,
    decreases s.len(),
{
    if s.len() > 0 {
        lemma_cut_is_around(s.drop_first());
        if s[0] == '\n' {
            assert(s =~= Seq::<char>::empty().push('\n') + s.drop_first());
        } else if let Some((a, b)) = cut(s.drop_first(), '\n') {
            assert(s =~= seq![s[0]] + s.drop_first());
            assert(seq![s[0]] + (a.push('\n') + b) =~= (seq![s[0]] + a).push('\n') + b);
        }
    }
}

/// Every turn has a larger number than those before it.
pub open spec fn numbered(turns: Seq<TurnModel>) -> bool {
    forall|i: int, j: int|
        0 <= i < j < turns.len() ==> (#[trigger] turns[i]).seq < (#[trigger] turns[j]).seq
}

/// Appending a turn whose number is past the end keeps the numbers growing,
/// and afterwards every number still finds its turn.
pub proof fn law_appending_keeps_every_turn(turns: Seq<TurnModel>, t: TurnModel, seq: u64)
    requires
        numbered(turns),
        turns.len() > 0 ==> turns.last().seq < t.seq,
    ensures
        numbered(turns.push(t)),
        turn_with(turns.push(t), t.seq) == Some(t),
        seq != t.seq ==> turn_with(turns.push(t), seq) == turn_with(turns, seq),
{
    lemma_find_pushed(turns, t, seq);
    lemma_find_pushed(turns, t, t.seq);
    assert forall|i: int| 0 <= i < turns.len() implies (#[trigger] turns[i]).seq != t.seq by {
        if i < turns.len() - 1 {
            assert(turns[i].seq < turns[turns.len() - 1].seq);
        }
    }
    lemma_not_found(turns, t.seq);
}

proof fn lemma_not_found(turns: Seq<TurnModel>, seq: u64)
    requires
        forall|i: int| 0 <= i < turns.len() ==> (#[trigger] turns[i]).seq != seq,
    ensures
        turn_with(turns, seq) is None,
    decreases turns.len(),
{
    if turns.len() > 0 {
        let rest = turns.drop_first();
        assert forall|i: int| 0 <= i < rest.len() implies (#[trigger] rest[i]).seq != seq by {
            assert(rest[i] == turns[i + 1]);
        }
        lemma_not_found(rest, seq);
    }
}

proof fn lemma_find_pushed(turns: Seq<TurnModel>, t: TurnModel, seq: u64)
    ensures
        turn_with(turns.push(t), seq) == match turn_with(turns, seq) {
            Some(found) => Some(found),
            None => if t.seq == seq {
                Some(t)
            } else {
                None
            },
        },
    decreases turns.len(),
{
    if turns.len() == 0 {
        assert(turns.push(t).drop_first() =~= Seq::<TurnModel>::empty());
        assert(turn_with(turns.push(t).drop_first(), seq) is None);
        assert(turns.push(t)[0] == t);
    } else {
        assert(turns.push(t)[0] == turns[0]);
        assert(turns.push(t).drop_first() =~= turns.drop_first().push(t));
        lemma_find_pushed(turns.drop_first(), t, seq);
    }
}

} // verus!
