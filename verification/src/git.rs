//! How `git` is invoked, and how its answers are read.
//!
//! Every invocation is scoped by an explicit `--git-dir` / `--work-tree` pair
//! or by the directory it runs in, and ambient git state is never inherited:
//! the variables that could redirect it are cleared for every child.
use crate::strings::{
    chars_of, join, join_with, lemma_texts_empty, lemma_texts_push, owned, split, split_on,
    string_of, texts, trim, trim_str,
};
use vstd::prelude::*;
use vstd::string::*;

verus! {

/// The variables that would silently redirect an invocation.
pub open spec fn hostile_env() -> Seq<Seq<char>> {
    seq![
        "GIT_DIR"@,
        "GIT_WORK_TREE"@,
        "GIT_INDEX_FILE"@,
        "GIT_OBJECT_DIRECTORY"@,
        "GIT_ALTERNATE_OBJECT_DIRECTORIES"@,
        "GIT_COMMON_DIR"@,
        "GIT_NAMESPACE"@,
        "GIT_CEILING_DIRECTORIES"@,
    ]
}

fn hostile() -> (r: Vec<String>)
    ensures
        texts(r@) == hostile_env(),
{
    let mut v: Vec<String> = Vec::new();
    v.push(owned("GIT_DIR"));
    v.push(owned("GIT_WORK_TREE"));
    v.push(owned("GIT_INDEX_FILE"));
    v.push(owned("GIT_OBJECT_DIRECTORY"));
    v.push(owned("GIT_ALTERNATE_OBJECT_DIRECTORIES"));
    v.push(owned("GIT_COMMON_DIR"));
    v.push(owned("GIT_NAMESPACE"));
    v.push(owned("GIT_CEILING_DIRECTORIES"));
    proof {
        assert(texts(v@) =~= hostile_env());
    }
    v
}

/// A way of calling git: where it runs and what it operates on.
#[derive(Debug)]
pub struct Git {
    git_dir: Option<String>,
    work_tree: Option<String>,
    index_file: Option<String>,
    cwd: String,
    envs: Vec<(String, String)>,
}

#[verifier::ext_equal]
pub struct GitModel {
    pub git_dir: Option<Seq<char>>,
    pub work_tree: Option<Seq<char>>,
    pub index_file: Option<Seq<char>>,
    pub cwd: Seq<char>,
    pub envs: Seq<(Seq<char>, Seq<char>)>,
}

pub open spec fn pairs(v: Seq<(String, String)>) -> Seq<(Seq<char>, Seq<char>)> {
    v.map_values(|p: (String, String)| (p.0@, p.1@))
}

impl View for Git {
    type V = GitModel;

    closed spec fn view(&self) -> GitModel {
        GitModel {
            git_dir: crate::strings::opt_text(self.git_dir),
            work_tree: crate::strings::opt_text(self.work_tree),
            index_file: crate::strings::opt_text(self.index_file),
            cwd: self.cwd@,
            envs: pairs(self.envs@),
        }
    }
}

/// One child process to start: `clear` is taken out of its environment first,
/// then `set` is put into it.
#[derive(Debug)]
pub struct Invocation {
    pub args: Vec<String>,
    pub clear: Vec<String>,
    pub set: Vec<(String, String)>,
    pub cwd: String,
}

impl GitModel {
    /// The arguments that pin the repository.
    pub open spec fn scope(self) -> Seq<Seq<char>> {
        (match self.git_dir {
            Some(dir) => seq!["--git-dir"@, dir],
            None => Seq::empty(),
        }) + (match self.work_tree {
            Some(tree) => seq!["--work-tree"@, tree],
            None => Seq::empty(),
        })
    }

    /// The variables that are set.
    pub open spec fn env(self) -> Seq<(Seq<char>, Seq<char>)> {
        (match self.index_file {
            Some(index) => seq![("GIT_INDEX_FILE"@, index)],
            None => Seq::empty(),
        }) + self.envs
    }
}

impl Git {
    /// Discovery mode: let git find the repository from `cwd`, the way the user
    /// would. Used to inspect the user's repository, never to write to it.
    pub fn discover(cwd: &str) -> (r: Self)
        ensures
            r@ == (GitModel {
                git_dir: None,
                work_tree: None,
                index_file: None,
                cwd: cwd@,
                envs: Seq::empty(),
            }),
    {
        let r = Git {
            git_dir: None,
            work_tree: None,
            index_file: None,
            cwd: owned(cwd),
            envs: Vec::new(),
        };
        proof {
            assert(r@.envs =~= Seq::<(Seq<char>, Seq<char>)>::empty());
        }
        r
    }

    /// Explicit mode: operate on `git_dir` with `work_tree` checked out.
    pub fn scoped(git_dir: &str, work_tree: &str) -> (r: Self)
        ensures
            r@ == (GitModel {
                git_dir: Some(git_dir@),
                work_tree: Some(work_tree@),
                index_file: None,
                cwd: work_tree@,
                envs: Seq::empty(),
            }),
    {
        let r = Git {
            git_dir: Some(owned(git_dir)),
            work_tree: Some(owned(work_tree)),
            index_file: None,
            cwd: owned(work_tree),
            envs: Vec::new(),
        };
        proof {
            assert(r@.envs =~= Seq::<(Seq<char>, Seq<char>)>::empty());
        }
        r
    }

    /// Bare mode: object-database operations with no working tree at all.
    pub fn bare(git_dir: &str) -> (r: Self)
        ensures
            r@ == (GitModel {
                git_dir: Some(git_dir@),
                work_tree: None,
                index_file: None,
                cwd: git_dir@,
                envs: Seq::empty(),
            }),
    {
        let r = Git {
            git_dir: Some(owned(git_dir)),
            work_tree: None,
            index_file: None,
            cwd: owned(git_dir),
            envs: Vec::new(),
        };
        proof {
            assert(r@.envs =~= Seq::<(Seq<char>, Seq<char>)>::empty());
        }
        r
    }

    /// Point invocations at a scratch index file.
    pub fn with_index(self, index: &str) -> (r: Self)
        ensures
            r@ == (GitModel { index_file: Some(index@), ..self@ }),
    {
        let mut git: Git = self;
        git.index_file = Some(owned(index));
        git
    }

    /// Set an environment variable for every invocation.
    pub fn with_env(self, key: &str, value: &str) -> (r: Self)
        ensures
            r@ == (GitModel { envs: self@.envs.push((key@, value@)), ..self@ }),
    {
        let mut git: Git = self;
        let ghost was = git.envs@;
        git.envs.push((owned(key), owned(value)));
        proof {
            assert(pairs(git.envs@) =~= pairs(was).push((key@, value@)));
        }
        git
    }

    /// The child process that runs `git` with `args`.
    pub fn command(&self, args: &Vec<String>) -> (r: Invocation)
        ensures
            texts(r.args@) == self@.scope() + texts(args@),
            texts(r.clear@) == hostile_env(),
            pairs(r.set@) == self@.env(),
            r.cwd@ == self@.cwd,
    {
        broadcast use lemma_texts_push;

        let mut out: Vec<String> = Vec::new();
        proof {
            lemma_texts_empty(out@);
        }
        if let Some(dir) = &self.git_dir {
            out.push(owned("--git-dir"));
            out.push(dir.clone());
        }
        if let Some(tree) = &self.work_tree {
            out.push(owned("--work-tree"));
            out.push(tree.clone());
        }
        proof {
            assert(texts(out@) =~= self@.scope());
            assert(self@.scope() + texts(args@).take(0) =~= self@.scope());
        }
        let mut i: usize = 0;
        while i < args.len()
            invariant
                i <= args@.len(),
                texts(out@) == self@.scope() + texts(args@).take(i as int),
            decreases args@.len() - i,
        {
            broadcast use lemma_texts_push;

            out.push(args[i].clone());
            i += 1;
            proof {
                assert(texts(out@) =~= self@.scope() + texts(args@).take(i as int));
            }
        }
        proof {
            assert(texts(args@).take(args@.len() as int) =~= texts(args@));
        }
        let mut set: Vec<(String, String)> = Vec::new();
        if let Some(index) = &self.index_file {
            set.push((owned("GIT_INDEX_FILE"), index.clone()));
        }
        let ghost pinned = match self@.index_file {
            Some(index) => seq![("GIT_INDEX_FILE"@, index)],
            None => Seq::empty(),
        };
        proof {
            assert(pairs(set@) =~= pinned);
            assert(pinned + self@.envs.take(0) =~= pinned);
        }
        let mut k: usize = 0;
        while k < self.envs.len()
            invariant
                k <= self.envs@.len(),
                pairs(set@) == pinned + self@.envs.take(k as int),
            decreases self.envs@.len() - k,
        {
            let ghost was = set@;
            set.push((self.envs[k].0.clone(), self.envs[k].1.clone()));
            proof {
                assert(pairs(set@) =~= pairs(was).push(self@.envs[k as int]));
                assert(self@.envs.take(k + 1) =~= self@.envs.take(k as int).push(
                    self@.envs[k as int],
                ));
            }
            k += 1;
            proof {
                assert(pairs(set@) =~= pinned + self@.envs.take(k as int));
            }
        }
        proof {
            assert(self@.envs.take(self.envs@.len() as int) =~= self@.envs);
        }
        Invocation { args: out, clear: hostile(), set, cwd: self.cwd.clone() }
    }
}

/// What a finished `git` left behind. Bytes that are no text are shown as the
/// replacement character.
#[derive(Debug)]
pub struct Output {
    pub success: bool,
    /// The exit status, in words.
    pub status: String,
    pub stdout: String,
    pub stderr: String,
}

/// `s` without the line feeds at its end.
pub open spec fn without_newlines(s: Seq<char>) -> Seq<char>
    decreases s.len(),
{
    if s.len() > 0 && s.last() == '\n' {
        without_newlines(s.drop_last())
    } else {
        s
    }
}

fn chomp(s: &str) -> (r: String)
    ensures
        r@ == without_newlines(s@),
{
    let cs: Vec<char> = chars_of(s);
    let mut to: usize = cs.len();
    proof {
        assert(cs@.take(to as int) =~= cs@);
    }
    while to > 0 && cs[to - 1] == '\n'
        invariant
            to <= cs@.len(),
            without_newlines(cs@) == without_newlines(cs@.take(to as int)),
        decreases to,
    {
        proof {
            assert(cs@.take(to as int).drop_last() =~= cs@.take(to - 1));
            assert(cs@.take(to as int).last() == cs@[to - 1]);
        }
        to -= 1;
    }
    proof {
        if to > 0 {
            assert(cs@.take(to as int).last() == cs@[to - 1]);
        }
        assert(cs@.subrange(0, to as int) =~= cs@.take(to as int));
    }
    string_of(&cs, 0, to)
}

/// Why git could not be started.
pub open spec fn spawn_failure(args: Seq<Seq<char>>, cause: Seq<char>) -> Seq<char> {
    "failed to spawn `git "@ + join(args, " "@) + "`: "@ + cause
}

fn spawn_failed(args: &Vec<String>, cause: &str) -> (r: String)
    ensures
        r@ == spawn_failure(texts(args@), cause@),
{
    let mut out: String = owned("failed to spawn `git ");
    out.append(join_with(args, " ").as_str());
    out.append("`: ");
    out.append(cause);
    out
}

/// The text a command printed, when it succeeded.
pub open spec fn answer(args: Seq<Seq<char>>, out: Result<Output, String>) -> Result<
    Seq<char>,
    Seq<char>,
> {
    match out {
        Err(cause) => Err(spawn_failure(args, cause@)),
        Ok(o) => if o.success {
            Ok(without_newlines(o.stdout@))
        } else {
            Err(
                "git "@ + join(args, " "@) + " failed ("@ + o.status@ + "): "@ + trim(o.stderr@),
            )
        },
    }
}

/// The pieces a command printed between NUL characters, when it succeeded.
pub open spec fn answer_z(args: Seq<Seq<char>>, out: Result<Output, String>) -> Result<
    Seq<Seq<char>>,
    Seq<char>,
> {
    match out {
        Err(cause) => Err(spawn_failure(args, cause@)),
        Ok(o) => if o.success {
            Ok(split(o.stdout@, '\0').filter(|s: Seq<char>| s.len() > 0))
        } else {
            Err("git "@ + join(args, " "@) + " failed: "@ + trim(o.stderr@))
        },
    }
}

/// What a text result says.
pub open spec fn text_result(r: Result<String, String>) -> Result<Seq<char>, Seq<char>> {
    match r {
        Ok(s) => Ok(s@),
        Err(e) => Err(e@),
    }
}

/// What a result that is a list of strings says.
pub open spec fn list_result(r: Result<Vec<String>, String>) -> Result<Seq<Seq<char>>, Seq<char>> {
    match r {
        Ok(v) => Ok(texts(v@)),
        Err(e) => Err(e@),
    }
}

impl Git {
    /// Require success, and return the text printed without its last line
    /// feeds. `out` is what came of running `command(args)`.
    pub fn run(args: &Vec<String>, out: Result<Output, String>) -> (r: Result<String, String>)
        ensures
            text_result(r) == answer(texts(args@), out),
    {
        match out {
            Err(cause) => Err(spawn_failed(args, cause.as_str())),
            Ok(o) => {
                if o.success {
                    Ok(chomp(o.stdout.as_str()))
                } else {
                    let mut e: String = owned("git ");
                    e.append(join_with(args, " ").as_str());
                    e.append(" failed (");
                    e.append(o.status.as_str());
                    e.append("): ");
                    e.append(trim_str(o.stderr.as_str()).as_str());
                    Err(e)
                }
            },
        }
    }

    /// Only whether it succeeded.
    pub fn ok(out: &Result<Output, String>) -> (r: bool)
        ensures
            r == (out matches Ok(o) && o.success),
    {
        match out {
            Ok(o) => o.success,
            Err(_) => false,
        }
    }

    /// Require success, and split what was printed on NUL, so that file names
    /// with line feeds in them cannot corrupt the reading.
    pub fn run_z(args: &Vec<String>, out: Result<Output, String>) -> (r: Result<Vec<String>, String>)
        ensures
            list_result(r) == answer_z(texts(args@), out),
    {
        match out {
            Err(cause) => Err(spawn_failed(args, cause.as_str())),
            Ok(o) => {
                if o.success {
                    Ok(nonempty(split_on(o.stdout.as_str(), '\0')))
                } else {
                    let mut e: String = owned("git ");
                    e.append(join_with(args, " ").as_str());
                    e.append(" failed: ");
                    e.append(trim_str(o.stderr.as_str()).as_str());
                    Err(e)
                }
            },
        }
    }
}

/// The strings that hold anything.
pub fn nonempty(v: Vec<String>) -> (r: Vec<String>)
    ensures
        texts(r@) == texts(v@).filter(|s: Seq<char>| s.len() > 0),
{
    broadcast use lemma_texts_push;

    let mut out: Vec<String> = Vec::new();
    let mut i: usize = 0;
    let ghost keep = |s: Seq<char>| s.len() > 0;
    proof {
        reveal(Seq::filter);
        lemma_texts_empty(out@);
        assert(texts(v@).take(0) =~= Seq::<Seq<char>>::empty());
        assert(texts(out@) =~= texts(v@).take(0).filter(keep));
    }
    while i < v.len()
        invariant
            i <= v@.len(),
            keep == (|s: Seq<char>| s.len() > 0),
            texts(out@) == texts(v@).take(i as int).filter(keep),
        decreases v@.len() - i,
    {
        broadcast use lemma_texts_push;

        proof {
            reveal(Seq::filter);
            let now = texts(v@).take(i + 1);
            assert(now.drop_last() =~= texts(v@).take(i as int));
            assert(now.last() == v@[i as int]@);
        }
        if !v[i].as_str().is_empty() {
            out.push(v[i].clone());
        }
        i += 1;
    }
    proof {
        assert(texts(v@).take(v@.len() as int) =~= texts(v@));
    }
    out
}

} // verus!
