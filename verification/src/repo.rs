//! The user's worktree, and whether it is safe to touch.
//!
//! The cost of being wrong is someone's uncommitted work, so wherever the state
//! is ambiguous the checks are refusals, not warnings.
use crate::digest::{hex, hex_of, sha256, sha256_digest};
use crate::git::{Git, GitModel};
use crate::order::{sort_unique, strictly_sorted};
use crate::paths::{file_name, file_name_of, join, joined};
use crate::store::{sanitize, sanitized};
use crate::strings::{
    chars_of, clone_texts, cut, cut_at, dec, lemma_texts_empty, lemma_texts_push, lines, lines_of,
    opt_text, owned, push_dec, same, starts_with, string_of, texts,
};
use vstd::prelude::*;
use vstd::string::*;

verus! {

/// A git worktree Sheep is willing to record.
#[derive(Debug)]
pub struct Worktree {
    /// Top level of the working tree: the directory whose files are recorded.
    pub root: String,
    /// This worktree's own git dir.
    pub git_dir: String,
    /// The shared git dir, where the object database lives.
    pub common_dir: String,
    /// Stable id derived from `root`. Names the shadow repository and the turn
    /// log.
    pub id: String,
}

#[verifier::ext_equal]
pub struct WorktreeModel {
    pub root: Seq<char>,
    pub git_dir: Seq<char>,
    pub common_dir: Seq<char>,
    pub id: Seq<char>,
}

impl View for Worktree {
    type V = WorktreeModel;

    open spec fn view(&self) -> WorktreeModel {
        WorktreeModel {
            root: self.root@,
            git_dir: self.git_dir@,
            common_dir: self.common_dir@,
            id: self.id@,
        }
    }
}

impl Clone for Worktree {
    fn clone(&self) -> (r: Self)
        ensures
            r == *self,
    {
        Worktree {
            root: self.root.clone(),
            git_dir: self.git_dir.clone(),
            common_dir: self.common_dir.clone(),
            id: self.id.clone(),
        }
    }
}

/// What git says about a directory. The paths are absolute and resolved, and
/// empty where an earlier answer settles the matter.
#[derive(Debug)]
pub struct Place {
    pub inside: bool,
    /// What `rev-parse --is-bare-repository` printed.
    pub bare: String,
    pub root: String,
    pub git_dir: String,
    pub common_dir: String,
}

/// The id of a worktree, when `digest` is the digest of its path.
pub open spec fn id_with(root: Seq<char>, digest: Seq<u8>) -> Seq<char> {
    let name = match file_name(root) {
        Some(name) => name,
        None => "repo"@,
    };
    sanitized(
        if name.len() <= 24 {
            name
        } else {
            name.take(24)
        },
    ) + "-"@ + hex(digest.take(8))
}

/// The id of a worktree: its directory's name and a digest of its whole path.
pub open spec fn id_of(root: Seq<char>) -> Seq<char> {
    id_with(root, sha256_digest(vstd::utf8::encode_utf8(root)))
}

/// The id of a worktree, given the digest of its path.
pub fn worktree_id_from(root: &str, digest: &Vec<u8>) -> (r: String)
    requires
        digest@.len() >= 8,
    ensures
        r@ == id_with(root@, digest@),
{
    let name: String = match file_name_of(root) {
        Some(name) => name,
        None => owned("repo"),
    };
    let mut out: String = sanitize(name.as_str(), 24);
    out.append("-");
    out.append(hex_of(digest, 8).as_str());
    out
}

/// A short, stable, filesystem-safe id for a worktree path.
pub fn worktree_id(root: &str) -> (r: String)
    ensures
        r@ == id_of(root@),
{
    let digest: Vec<u8> = sha256(root.as_bytes());
    worktree_id_from(root, &digest)
}

/// Two checkouts have different ids when their digests differ in the first
/// eight bytes, whatever their directories are called.
pub proof fn law_ids_differ_with_their_digests(
    a: Seq<char>,
    b: Seq<char>,
    da: Seq<u8>,
    db: Seq<u8>,
)
    requires
        hex(da.take(8)) != hex(db.take(8)),
        da.len() >= 8,
        db.len() >= 8,
    ensures
        id_with(a, da) != id_with(b, db),
{
    reveal_strlit("-");
    let x = id_with(a, da);
    let y = id_with(b, db);
    crate::digest::lemma_hex(da.take(8));
    crate::digest::lemma_hex(db.take(8));
    assert(x.skip(x.len() - 16) =~= hex(da.take(8)));
    assert(y.skip(y.len() - 16) =~= hex(db.take(8)));
}

/// Why a directory has no worktree to record.
pub open spec fn no_worktree(start: Seq<char>, inside: bool, bare: Seq<char>) -> Option<Seq<char>> {
    if !inside {
        Some(
            start
                + " is not inside a git worktree.\nSheep records turns as git trees, so it needs a repository to record them against."@,
        )
    } else if bare == "true"@ {
        Some(start + " is a bare repository: there is no working tree to restore."@)
    } else {
        None
    }
}

impl Worktree {
    /// The worktree that `start` is in, from what git says about it.
    pub fn discover(start: &str, place: Place) -> (r: Result<Self, String>)
        ensures
            match r {
                Ok(wt) => no_worktree(start@, place.inside, place.bare@) is None && wt@ == (
                WorktreeModel {
                    root: place.root@,
                    git_dir: place.git_dir@,
                    common_dir: place.common_dir@,
                    id: id_of(place.root@),
                }),
                Err(e) => no_worktree(start@, place.inside, place.bare@) == Some(e@),
            },
    {
        if !place.inside {
            let mut e: String = owned(start);
            e.append(
                " is not inside a git worktree.\nSheep records turns as git trees, so it needs a repository to record them against.",
            );
            return Err(e);
        }
        if same(place.bare.as_str(), "true") {
            let mut e: String = owned(start);
            e.append(" is a bare repository: there is no working tree to restore.");
            return Err(e);
        }
        let id: String = worktree_id(place.root.as_str());
        Ok(
            Worktree {
                root: place.root,
                git_dir: place.git_dir,
                common_dir: place.common_dir,
                id,
            },
        )
    }

    pub fn git(&self) -> (r: Git)
        ensures
            r@ == (GitModel {
                git_dir: None,
                work_tree: None,
                index_file: None,
                cwd: self@.root,
                envs: Seq::empty(),
            }),
    {
        Git::discover(self.root.as_str())
    }

    /// The object database every snapshot borrows from.
    pub fn objects_dir(&self) -> (r: String)
        ensures
            r@ == joined(self@.common_dir, "objects"@),
    {
        join(self.common_dir.as_str(), "objects")
    }

    /// True when this is a linked worktree rather than the main checkout.
    pub fn is_linked(&self) -> (r: bool)
        ensures
            r == (self@.git_dir != self@.common_dir),
    {
        !same(self.git_dir.as_str(), self.common_dir.as_str())
    }
}

/// Something that makes a snapshot or a restore unsafe.
#[derive(Debug)]
pub enum Blocker {
    /// A merge or rebase left conflict stages in the index.
    UnmergedPaths(Vec<String>),
    /// A rebase, merge, cherry-pick, revert or bisect is mid-flight.
    OperationInProgress(String),
    /// The worktree holds more tracked files than the budget allows.
    TooLarge { files: usize, limit: usize },
    /// Nested repositories without a commit, which git cannot record at all.
    UnbornRepositories(Vec<String>),
}

pub enum BlockerModel {
    UnmergedPaths(Seq<Seq<char>>),
    OperationInProgress(Seq<char>),
    TooLarge { files: usize, limit: usize },
    UnbornRepositories(Seq<Seq<char>>),
}

impl View for Blocker {
    type V = BlockerModel;

    open spec fn view(&self) -> BlockerModel {
        match *self {
            Blocker::UnmergedPaths(v) => BlockerModel::UnmergedPaths(texts(v@)),
            Blocker::OperationInProgress(s) => BlockerModel::OperationInProgress(s@),
            Blocker::TooLarge { files, limit } => BlockerModel::TooLarge { files, limit },
            Blocker::UnbornRepositories(v) => BlockerModel::UnbornRepositories(texts(v@)),
        }
    }
}

/// The first of a list, or a question mark.
pub open spec fn first_of(v: Seq<Seq<char>>) -> Seq<char> {
    if v.len() > 0 {
        v[0]
    } else {
        "?"@
    }
}

fn first_text(v: &Vec<String>) -> (r: String)
    ensures
        r@ == first_of(texts(v@)),
{
    if v.len() > 0 {
        v[0].clone()
    } else {
        owned("?")
    }
}

impl BlockerModel {
    pub open spec fn text(self) -> Seq<char> {
        match self {
            BlockerModel::UnmergedPaths(paths) => "unresolved merge conflicts in "@ + dec(
                paths.len(),
            ) + " file(s) (first: "@ + first_of(paths)
                + "). Resolve them before Sheep records or restores this tree."@,
            BlockerModel::OperationInProgress(op) => "a "@ + op
                + " is in progress. Sheep will not touch a tree mid-operation."@,
            BlockerModel::TooLarge { files, limit } => dec(files as nat)
                + " tracked files exceeds the "@ + dec(limit as nat)
                + "-file budget. Raise it with --max-files if you mean it."@,
            BlockerModel::UnbornRepositories(paths) => dec(paths.len())
                + " nested repository(ies) with no commit (first: "@ + first_of(paths)
                + "). Git cannot record one; commit inside it, or remove it."@,
        }
    }
}

impl Blocker {
    /// The sentence that says what is in the way.
    pub fn text(&self) -> (r: String)
        ensures
            r@ == self@.text(),
    {
        match self {
            Blocker::UnmergedPaths(paths) => {
                let mut s: String = owned("unresolved merge conflicts in ");
                push_dec(&mut s, paths.len() as u64);
                s.append(" file(s) (first: ");
                s.append(first_text(paths).as_str());
                s.append("). Resolve them before Sheep records or restores this tree.");
                s
            },
            Blocker::OperationInProgress(op) => {
                let mut s: String = owned("a ");
                s.append(op.as_str());
                s.append(" is in progress. Sheep will not touch a tree mid-operation.");
                s
            },
            Blocker::TooLarge { files, limit } => {
                let mut s: String = crate::strings::dec_of(*files as u64);
                s.append(" tracked files exceeds the ");
                push_dec(&mut s, *limit as u64);
                s.append("-file budget. Raise it with --max-files if you mean it.");
                s
            },
            Blocker::UnbornRepositories(paths) => {
                let mut s: String = crate::strings::dec_of(paths.len() as u64);
                s.append(" nested repository(ies) with no commit (first: ");
                s.append(first_text(paths).as_str());
                s.append("). Git cannot record one; commit inside it, or remove it.");
                s
            },
        }
    }
}

/// Something worth telling the user about that does not stop the operation.
#[derive(Debug)]
pub enum Warning {
    /// Submodules are recorded as pointers: their own contents are not.
    Submodules(usize),
    /// Repositories inside the worktree, recorded as a pointer each.
    NestedRepositories(Vec<String>),
    /// Ignored files are never captured, so they are never restored either.
    IgnoredFilesPresent,
}

pub enum WarningModel {
    Submodules(usize),
    NestedRepositories(Seq<Seq<char>>),
    IgnoredFilesPresent,
}

impl View for Warning {
    type V = WarningModel;

    open spec fn view(&self) -> WarningModel {
        match *self {
            Warning::Submodules(n) => WarningModel::Submodules(n),
            Warning::NestedRepositories(v) => WarningModel::NestedRepositories(texts(v@)),
            Warning::IgnoredFilesPresent => WarningModel::IgnoredFilesPresent,
        }
    }
}

impl WarningModel {
    pub open spec fn text(self) -> Seq<char> {
        match self {
            WarningModel::Submodules(n) => dec(n as nat)
                + " submodule(s): Sheep records the commit pointer, not the submodule's working tree."@,
            WarningModel::NestedRepositories(paths) => dec(paths.len())
                + " nested repository(ies) (first: "@ + first_of(paths)
                + "): Sheep captures nothing inside, and refuses a restore that would remove or overwrite one."@,
            WarningModel::IgnoredFilesPresent =>
                "gitignored files present: Sheep never captures or overwrites them."@,
        }
    }
}

impl Warning {
    /// The sentence that says what to know.
    pub fn text(&self) -> (r: String)
        ensures
            r@ == self@.text(),
    {
        match self {
            Warning::Submodules(n) => {
                let mut s: String = crate::strings::dec_of(*n as u64);
                s.append(
                    " submodule(s): Sheep records the commit pointer, not the submodule's working tree.",
                );
                s
            },
            Warning::NestedRepositories(paths) => {
                let mut s: String = crate::strings::dec_of(paths.len() as u64);
                s.append(" nested repository(ies) (first: ");
                s.append(first_text(paths).as_str());
                s.append(
                    "): Sheep captures nothing inside, and refuses a restore that would remove or overwrite one.",
                );
                s
            },
            Warning::IgnoredFilesPresent => owned(
                "gitignored files present: Sheep never captures or overwrites them.",
            ),
        }
    }
}

/// The most tracked files a worktree may hold, unless the user says otherwise.
pub const DEFAULT_MAX_FILES: usize = 60_000;

#[derive(Debug)]
pub struct Health {
    pub blockers: Vec<Blocker>,
    pub warnings: Vec<Warning>,
    pub tracked_files: usize,
}

#[verifier::ext_equal]
pub struct HealthModel {
    pub blockers: Seq<BlockerModel>,
    pub warnings: Seq<WarningModel>,
    pub tracked_files: usize,
}

impl View for Health {
    type V = HealthModel;

    open spec fn view(&self) -> HealthModel {
        HealthModel {
            blockers: self.blockers@.map_values(|b: Blocker| b@),
            warnings: self.warnings@.map_values(|w: Warning| w@),
            tracked_files: self.tracked_files,
        }
    }
}

impl Health {
    /// What stands in the way, in words.
    pub fn blocker_texts(&self) -> (r: Vec<String>)
        ensures
            texts(r@) == self@.blockers.map_values(|b: BlockerModel| b.text()),
    {
        let mut out: Vec<String> = Vec::new();
        let mut i: usize = 0;
        while i < self.blockers.len()
            invariant
                i <= self.blockers@.len(),
                out@.len() == i,
                forall|k: int| 0 <= k < i ==> (#[trigger] out@[k])@ == self.blockers@[k]@.text(),
            decreases self.blockers@.len() - i,
        {
            out.push(self.blockers[i].text());
            i += 1;
        }
        proof {
            assert(texts(out@) =~= self@.blockers.map_values(|b: BlockerModel| b.text()));
        }
        out
    }

    /// What is worth knowing, in words.
    pub fn warning_texts(&self) -> (r: Vec<String>)
        ensures
            texts(r@) == self@.warnings.map_values(|w: WarningModel| w.text()),
    {
        let mut out: Vec<String> = Vec::new();
        let mut i: usize = 0;
        while i < self.warnings.len()
            invariant
                i <= self.warnings@.len(),
                out@.len() == i,
                forall|k: int| 0 <= k < i ==> (#[trigger] out@[k])@ == self.warnings@[k]@.text(),
            decreases self.warnings@.len() - i,
        {
            out.push(self.warnings[i].text());
            i += 1;
        }
        proof {
            assert(texts(out@) =~= self@.warnings.map_values(|w: WarningModel| w.text()));
        }
        out
    }

    pub fn is_safe(&self) -> (r: bool)
        ensures
            r == (self@.blockers.len() == 0),
    {
        self.blockers.is_empty()
    }

    pub fn bail_if_unsafe(&self) -> (r: Result<(), String>)
        ensures
            match r {
                Ok(_) => self@.blockers.len() == 0,
                Err(e) => self@.blockers.len() > 0 && e@ == "refusing to continue: "@
                    + self@.blockers[0].text(),
            },
    {
        if self.blockers.is_empty() {
            Ok(())
        } else {
            let mut e: String = owned("refusing to continue: ");
            e.append(self.blockers[0].text().as_str());
            Err(e)
        }
    }
}

// ------------------------------------------------------------------ inspect

/// What the checks need to know about a worktree.
#[derive(Debug)]
pub struct Facts {
    /// The records of `ls-files -u -z`: mode, id and stage, a tab, the path.
    pub unmerged: Vec<String>,
    /// Which of `operation_markers` exist in the git dir.
    pub markers: Vec<String>,
    /// How many files are tracked.
    pub tracked_files: usize,
    /// What `ls-files --stage` printed.
    pub stage: String,
    /// The repositories nested in the worktree.
    pub nested: Vec<String>,
    /// Those of them that have no commit.
    pub unborn: Vec<String>,
    /// Whether any ignored file is present.
    pub ignored: bool,
}

/// The paths of unmerged records: what stands behind the first tab.
pub open spec fn unmerged_paths(records: Seq<Seq<char>>) -> Seq<Seq<char>> {
    records.filter_map(
        |r: Seq<char>|
            match cut(r, '\t') {
                Some((_, path)) => Some(path),
                None => None,
            },
    )
}

/// The marker files git leaves while an operation is running, each with the
/// name of the operation.
pub open spec fn operations() -> Seq<(Seq<char>, Seq<char>)> {
    seq![
        ("rebase-merge"@, "rebase"@),
        ("rebase-apply"@, "rebase"@),
        ("MERGE_HEAD"@, "merge"@),
        ("CHERRY_PICK_HEAD"@, "cherry-pick"@),
        ("REVERT_HEAD"@, "revert"@),
        ("BISECT_LOG"@, "bisect"@),
    ]
}

/// The operation the first marker that exists stands for.
pub open spec fn operation_in(present: Seq<Seq<char>>, from: int) -> Option<Seq<char>>
    decreases operations().len() - from,
{
    if from < 0 || from >= operations().len() {
        None
    } else if present.contains(operations()[from].0) {
        Some(operations()[from].1)
    } else {
        operation_in(present, from + 1)
    }
}

/// How many lines of `ls-files --stage` are pointers to another repository.
pub open spec fn gitlink_count(stage: Seq<char>) -> nat {
    lines(stage).filter(|l: Seq<char>| "160000"@.is_prefix_of(l)).len()
}

/// The blockers that come of the facts, in the order they are reported.
pub open spec fn blockers_of(
    unmerged: Seq<Seq<char>>,
    paths: Seq<Seq<char>>,
    markers: Seq<Seq<char>>,
    tracked_files: usize,
    limit: usize,
    unborn: Seq<Seq<char>>,
) -> Seq<BlockerModel> {
    (if unmerged.len() > 0 {
        seq![BlockerModel::UnmergedPaths(paths)]
    } else {
        Seq::empty()
    }) + (match operation_in(markers, 0) {
        Some(op) => seq![BlockerModel::OperationInProgress(op)],
        None => Seq::empty(),
    }) + (if tracked_files > limit {
        seq![BlockerModel::TooLarge { files: tracked_files, limit }]
    } else {
        Seq::empty()
    }) + (if unborn.len() > 0 {
        seq![BlockerModel::UnbornRepositories(unborn)]
    } else {
        Seq::empty()
    })
}

/// The warnings that come of the facts.
pub open spec fn warnings_of(links: nat, nested: Seq<Seq<char>>, ignored: bool) -> Seq<
    WarningModel,
> {
    (if links > 0 {
        seq![WarningModel::Submodules(links as usize)]
    } else {
        Seq::empty()
    }) + (if nested.len() > 0 {
        seq![WarningModel::NestedRepositories(nested)]
    } else {
        Seq::empty()
    }) + (if ignored {
        seq![WarningModel::IgnoredFilesPresent]
    } else {
        Seq::empty()
    })
}

/// Whether a list holds a string.
pub fn holds(v: &Vec<String>, s: &str) -> (r: bool)
    ensures
        r == texts(v@).contains(s@),
{
    let mut i: usize = 0;
    while i < v.len()
        invariant
            i <= v@.len(),
            forall|j: int| 0 <= j < i ==> #[trigger] texts(v@)[j] != s@,
        decreases v@.len() - i,
    {
        if same(v[i].as_str(), s) {
            proof {
                assert(texts(v@)[i as int] == s@);
            }
            return true;
        }
        i += 1;
    }
    false
}

/// The files whose presence in a git dir means that an operation is running.
pub fn operation_markers() -> (r: Vec<String>)
    ensures
        texts(r@) == operations().map_values(|p: (Seq<char>, Seq<char>)| p.0),
{
    let mut v: Vec<String> = Vec::new();
    v.push(owned("rebase-merge"));
    v.push(owned("rebase-apply"));
    v.push(owned("MERGE_HEAD"));
    v.push(owned("CHERRY_PICK_HEAD"));
    v.push(owned("REVERT_HEAD"));
    v.push(owned("BISECT_LOG"));
    proof {
        assert(texts(v@) =~= operations().map_values(|p: (Seq<char>, Seq<char>)| p.0));
    }
    v
}

fn operation(present: &Vec<String>) -> (r: Option<String>)
    ensures
        opt_text(r) == operation_in(texts(present@), 0),
{
    proof {
        reveal_with_fuel(operation_in, 8);
    }
    if holds(present, "rebase-merge") || holds(present, "rebase-apply") {
        Some(owned("rebase"))
    } else if holds(present, "MERGE_HEAD") {
        Some(owned("merge"))
    } else if holds(present, "CHERRY_PICK_HEAD") {
        Some(owned("cherry-pick"))
    } else if holds(present, "REVERT_HEAD") {
        Some(owned("revert"))
    } else if holds(present, "BISECT_LOG") {
        Some(owned("bisect"))
    } else {
        None
    }
}

fn paths_behind_tabs(records: &Vec<String>) -> (r: Vec<String>)
    ensures
        texts(r@) == unmerged_paths(texts(records@)),
{
    broadcast use lemma_texts_push;

    let mut out: Vec<String> = Vec::new();
    let mut i: usize = 0;
    let ghost f = |r: Seq<char>|
        match cut(r, '\t') {
            Some((_, path)) => Some(path),
            None => None,
        };
    proof {
        lemma_texts_empty(out@);
        reveal(Seq::filter_map);
        assert(texts(records@).take(0) =~= Seq::<Seq<char>>::empty());
    }
    while i < records.len()
        invariant
            i <= records@.len(),
            f == (|r: Seq<char>|
                match cut(r, '\t') {
                    Some((_, path)) => Some(path),
                    None => None,
                }),
            texts(out@) == texts(records@).take(i as int).filter_map(f),
        decreases records@.len() - i,
    {
        broadcast use lemma_texts_push;

        proof {
            reveal(Seq::filter_map);
            let now = texts(records@).take(i + 1);
            assert(now.drop_last() =~= texts(records@).take(i as int));
            assert(now.last() == records@[i as int]@);
        }
        if let Some((_, path)) = cut_at(records[i].as_str(), '\t') {
            out.push(path);
        }
        proof {
            assert(texts(out@) =~= texts(records@).take(i + 1).filter_map(f));
        }
        i += 1;
    }
    proof {
        assert(texts(records@).take(records@.len() as int) =~= texts(records@));
    }
    out
}

fn count_gitlinks(stage: &str) -> (r: usize)
    ensures
        r == gitlink_count(stage@),
{
    let all: Vec<String> = lines_of(stage);
    let mut n: usize = 0;
    let mut i: usize = 0;
    let ghost keep = |l: Seq<char>| "160000"@.is_prefix_of(l);
    proof {
        reveal(Seq::filter);
        assert(texts(all@).take(0) =~= Seq::<Seq<char>>::empty());
    }
    while i < all.len()
        invariant
            n <= i <= all@.len(),
            keep == (|l: Seq<char>| "160000"@.is_prefix_of(l)),
            n == texts(all@).take(i as int).filter(keep).len(),
        decreases all@.len() - i,
    {
        proof {
            reveal(Seq::filter);
            let now = texts(all@).take(i + 1);
            assert(now.drop_last() =~= texts(all@).take(i as int));
            assert(now.last() == all@[i as int]@);
        }
        if starts_with(all[i].as_str(), "160000") {
            n += 1;
        }
        i += 1;
    }
    proof {
        assert(texts(all@).take(all@.len() as int) =~= texts(all@));
    }
    n
}

/// Whether a worktree is safe to record and restore, from the facts about it.
pub fn inspect(facts: &Facts, max_files: usize) -> (r: Health)
    ensures
        exists|paths: Seq<Seq<char>>|
            {
                &&& strictly_sorted(paths)
                &&& (forall|p: Seq<char>|
                    #[trigger] paths.contains(p) <==> unmerged_paths(
                        texts(facts.unmerged@),
                    ).contains(p))
                &&& r@ == (HealthModel {
                    blockers: #[trigger] blockers_of(
                        texts(facts.unmerged@),
                        paths,
                        texts(facts.markers@),
                        facts.tracked_files,
                        max_files,
                        texts(facts.unborn@),
                    ),
                    warnings: warnings_of(
                        gitlink_count(facts.stage@),
                        texts(facts.nested@),
                        facts.ignored,
                    ),
                    tracked_files: facts.tracked_files,
                })
            },
{
    let mut blockers: Vec<Blocker> = Vec::new();
    let paths: Vec<String> = sort_unique(paths_behind_tabs(&facts.unmerged));
    let ghost sorted_paths = texts(paths@);
    if !facts.unmerged.is_empty() {
        blockers.push(Blocker::UnmergedPaths(paths));
    }
    if let Some(op) = operation(&facts.markers) {
        blockers.push(Blocker::OperationInProgress(op));
    }
    if facts.tracked_files > max_files {
        blockers.push(Blocker::TooLarge { files: facts.tracked_files, limit: max_files });
    }
    if !facts.unborn.is_empty() {
        blockers.push(Blocker::UnbornRepositories(clone_texts(&facts.unborn)));
    }
    let mut warnings: Vec<Warning> = Vec::new();
    let links: usize = count_gitlinks(facts.stage.as_str());
    if links > 0 {
        warnings.push(Warning::Submodules(links));
    }
    if !facts.nested.is_empty() {
        warnings.push(Warning::NestedRepositories(clone_texts(&facts.nested)));
    }
    if facts.ignored {
        warnings.push(Warning::IgnoredFilesPresent);
    }
    let r = Health { blockers, warnings, tracked_files: facts.tracked_files };
    proof {
        assert(r@.blockers =~= blockers_of(
            texts(facts.unmerged@),
            sorted_paths,
            texts(facts.markers@),
            facts.tracked_files,
            max_files,
            texts(facts.unborn@),
        ));
        assert(r@.warnings =~= warnings_of(
            gitlink_count(facts.stage@),
            texts(facts.nested@),
            facts.ignored,
        ));
    }
    r
}

/// A worktree is safe exactly when nothing is unmerged, no operation is
/// running, the budget holds, and every nested repository has a commit.
pub proof fn law_safe_means_nothing_in_the_way(
    unmerged: Seq<Seq<char>>,
    paths: Seq<Seq<char>>,
    markers: Seq<Seq<char>>,
    tracked_files: usize,
    limit: usize,
    unborn: Seq<Seq<char>>,
)
    ensures
        blockers_of(unmerged, paths, markers, tracked_files, limit, unborn).len() == 0 <==> {
            &&& unmerged.len() == 0
            &&& forall|i: int|
                0 <= i < operations().len() ==> !markers.contains((#[trigger] operations()[i]).0)
            &&& tracked_files <= limit
            &&& unborn.len() == 0
        },
{
    lemma_no_operation(markers, 0);
}

proof fn lemma_no_operation(markers: Seq<Seq<char>>, from: int)
    requires
        0 <= from <= operations().len(),
    ensures
        operation_in(markers, from) is None <==> forall|i: int|
            from <= i < operations().len() ==> !markers.contains((#[trigger] operations()[i]).0),
    decreases operations().len() - from,
{
    if from < operations().len() {
        lemma_no_operation(markers, from + 1);
        if operation_in(markers, from) is None {
            assert forall|i: int| from <= i < operations().len() implies !markers.contains(
                (#[trigger] operations()[i]).0,
            ) by {
                if i > from {
                    assert(operation_in(markers, from + 1) is None);
                }
            }
        } else if markers.contains(operations()[from].0) {
            assert(markers.contains(operations()[from].0));
        }
    }
}

/// An operation in flight is in the way, whichever of git's marker files shows
/// it: each of the six is looked for, and any one of them is a blocker that names
/// the operation, the first of them where there are several.
pub proof fn law_an_operation_in_flight_is_in_the_way(
    unmerged: Seq<Seq<char>>,
    paths: Seq<Seq<char>>,
    markers: Seq<Seq<char>>,
    tracked_files: usize,
    limit: usize,
    unborn: Seq<Seq<char>>,
)
    ensures
        ({
            let blockers = blockers_of(unmerged, paths, markers, tracked_files, limit, unborn);
            let sought = operations().map_values(|p: (Seq<char>, Seq<char>)| p.0);
            let rebase = markers.contains("rebase-merge"@) || markers.contains("rebase-apply"@);
            let merge = markers.contains("MERGE_HEAD"@);
            let pick = markers.contains("CHERRY_PICK_HEAD"@);
            let revert = markers.contains("REVERT_HEAD"@);
            let bisect = markers.contains("BISECT_LOG"@);
            &&& sought.contains("rebase-merge"@)
            &&& sought.contains("rebase-apply"@)
            &&& sought.contains("MERGE_HEAD"@)
            &&& sought.contains("CHERRY_PICK_HEAD"@)
            &&& sought.contains("REVERT_HEAD"@)
            &&& sought.contains("BISECT_LOG"@)
            &&& rebase || merge || pick || revert || bisect ==> blockers.len() > 0
            &&& rebase ==> blockers.contains(BlockerModel::OperationInProgress("rebase"@))
            &&& merge && !rebase ==> blockers.contains(BlockerModel::OperationInProgress("merge"@))
            &&& pick && !merge && !rebase ==> blockers.contains(
                BlockerModel::OperationInProgress("cherry-pick"@),
            )
            &&& revert && !pick && !merge && !rebase ==> blockers.contains(
                BlockerModel::OperationInProgress("revert"@),
            )
            &&& bisect && !revert && !pick && !merge && !rebase ==> blockers.contains(
                BlockerModel::OperationInProgress("bisect"@),
            )
        }),
{
    let sought = operations().map_values(|p: (Seq<char>, Seq<char>)| p.0);
    let blockers = blockers_of(unmerged, paths, markers, tracked_files, limit, unborn);
    assert(sought[0] == "rebase-merge"@);
    assert(sought[1] == "rebase-apply"@);
    assert(sought[2] == "MERGE_HEAD"@);
    assert(sought[3] == "CHERRY_PICK_HEAD"@);
    assert(sought[4] == "REVERT_HEAD"@);
    assert(sought[5] == "BISECT_LOG"@);
    reveal_with_fuel(operation_in, 8);
    let at: int = if unmerged.len() > 0 {
        1
    } else {
        0
    };
    if let Some(op) = operation_in(markers, 0) {
        assert(blockers[at] == BlockerModel::OperationInProgress(op));
    }
}

/// Nothing else is in the way than what the facts show: conflicts stand first
/// and name their paths, a worktree is too large only above its budget, both
/// numbers being told, and repositories without a commit are named.
pub proof fn law_each_blocker_says_what_it_is(
    unmerged: Seq<Seq<char>>,
    paths: Seq<Seq<char>>,
    markers: Seq<Seq<char>>,
    tracked_files: usize,
    limit: usize,
    unborn: Seq<Seq<char>>,
    i: int,
)
    requires
        0 <= i < blockers_of(unmerged, paths, markers, tracked_files, limit, unborn).len(),
    ensures
        unmerged.len() > 0 ==> blockers_of(
            unmerged,
            paths,
            markers,
            tracked_files,
            limit,
            unborn,
        )[0] == BlockerModel::UnmergedPaths(paths),
        match blockers_of(unmerged, paths, markers, tracked_files, limit, unborn)[i] {
            BlockerModel::UnmergedPaths(named) => unmerged.len() > 0 && named == paths,
            BlockerModel::OperationInProgress(_) => markers.len() > 0,
            BlockerModel::TooLarge { files, limit: most } => files == tracked_files && most == limit
                && tracked_files > limit,
            BlockerModel::UnbornRepositories(named) => unborn.len() > 0 && named == unborn,
        },
{
    lemma_no_operation(markers, 0);
}

// ------------------------------------------------------- nested repositories

/// The repository an untracked entry stands for: git ends an entry with a slash
/// only at a repository boundary.
pub open spec fn nested_in(entry: Seq<char>) -> Option<Seq<char>> {
    if entry.len() > 0 && entry.last() == '/' {
        Some(entry.drop_last())
    } else {
        None
    }
}

/// The repositories nested in the worktree, from the records of
/// `ls-files -o -z`.
pub fn nested_repositories(untracked: &Vec<String>) -> (r: Vec<String>)
    ensures
        texts(r@) == texts(untracked@).filter_map(|e: Seq<char>| nested_in(e)),
{
    broadcast use lemma_texts_push;

    let mut out: Vec<String> = Vec::new();
    let mut i: usize = 0;
    let ghost f = |e: Seq<char>| nested_in(e);
    proof {
        lemma_texts_empty(out@);
        reveal(Seq::filter_map);
        assert(texts(untracked@).take(0) =~= Seq::<Seq<char>>::empty());
    }
    while i < untracked.len()
        invariant
            i <= untracked@.len(),
            f == (|e: Seq<char>| nested_in(e)),
            texts(out@) == texts(untracked@).take(i as int).filter_map(f),
        decreases untracked@.len() - i,
    {
        broadcast use lemma_texts_push;

        proof {
            reveal(Seq::filter_map);
            let now = texts(untracked@).take(i + 1);
            assert(now.drop_last() =~= texts(untracked@).take(i as int));
            assert(now.last() == untracked@[i as int]@);
        }
        let cs: Vec<char> = chars_of(untracked[i].as_str());
        if cs.len() > 0 && cs[cs.len() - 1] == '/' {
            proof {
                assert(cs@.subrange(0, cs@.len() - 1) =~= cs@.drop_last());
            }
            out.push(string_of(&cs, 0, cs.len() - 1));
        }
        proof {
            assert(texts(out@) =~= texts(untracked@).take(i + 1).filter_map(f));
        }
        i += 1;
    }
    proof {
        assert(texts(untracked@).take(untracked@.len() as int) =~= texts(untracked@));
    }
    out
}

// -------------------------------------------------------------------- state

/// A variable that is set to something.
pub open spec fn given(v: Option<String>) -> Option<Seq<char>> {
    match v {
        Some(s) if s@.len() > 0 => Some(s@),
        _ => None,
    }
}

/// Where state is kept: the first variable that is set decides.
pub open spec fn state_dir_for(
    herdr: Option<Seq<char>>,
    sheep: Option<Seq<char>>,
    xdg: Option<Seq<char>>,
    home: Option<Seq<char>>,
) -> Option<Seq<char>> {
    if herdr is Some {
        herdr
    } else if sheep is Some {
        sheep
    } else if xdg is Some {
        Some(joined(xdg->0, "sheep"@))
    } else if home is Some {
        Some(joined(joined(joined(home->0, ".local"@), "state"@), "sheep"@))
    } else {
        None
    }
}

fn some_text(v: &Option<String>) -> (r: Option<String>)
    ensures
        opt_text(r) == given(*v),
{
    match v {
        Some(s) => {
            if s.as_str().is_empty() {
                None
            } else {
                Some(s.clone())
            }
        },
        None => None,
    }
}

/// Where state is kept, from `HERDR_PLUGIN_STATE_DIR`, `SHEEP_STATE_DIR`,
/// `XDG_STATE_HOME` and `HOME`. An empty variable counts as unset.
pub fn state_dir_from(
    herdr: Option<String>,
    sheep: Option<String>,
    xdg: Option<String>,
    home: Option<String>,
) -> (r: Result<String, String>)
    ensures
        match r {
            Ok(dir) => state_dir_for(given(herdr), given(sheep), given(xdg), given(home)) == Some(
                dir@,
            ),
            Err(e) => state_dir_for(given(herdr), given(sheep), given(xdg), given(home)) is None
                && e@ == "neither HERDR_PLUGIN_STATE_DIR nor HOME is set"@,
        },
{
    if let Some(dir) = some_text(&herdr) {
        return Ok(dir);
    }
    if let Some(dir) = some_text(&sheep) {
        return Ok(dir);
    }
    if let Some(dir) = some_text(&xdg) {
        return Ok(join(dir.as_str(), "sheep"));
    }
    if let Some(dir) = some_text(&home) {
        let base: String = join(join(dir.as_str(), ".local").as_str(), "state");
        return Ok(join(base.as_str(), "sheep"));
    }
    Err(owned("neither HERDR_PLUGIN_STATE_DIR nor HOME is set"))
}

} // verus!
