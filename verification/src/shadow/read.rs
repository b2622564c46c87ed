//! Reading what git says about the shadow repository.
use crate::calls::Call;
use crate::git::Output;
use crate::strings::{
    cut, cut_at, dec, ends_with, join, join_with, keep_some, lemma_split_nonempty,
    lemma_texts_empty, lemma_texts_push, lines, lines_of, number, number_of, opt_text, owned, split,
    split_on, starts_with, string_of, texts, trim, trim_str, words, words_of, chars_of,
};
use super::{ref_of, Shadow};
use vstd::prelude::*;
use vstd::string::*;

verus! {

/// The object id a command printed, if it succeeded and printed one.
pub open spec fn oid_of(out: Output) -> Option<Seq<char>> {
    if out.success && trim(out.stdout@).len() > 0 {
        Some(trim(out.stdout@))
    } else {
        None
    }
}

/// The object id a command printed, if it succeeded and printed one.
pub fn oid_in(out: &Output) -> (r: Option<String>)
    ensures
        opt_text(r) == oid_of(*out),
{
    if !out.success {
        return None;
    }
    let oid: String = trim_str(out.stdout.as_str());
    if oid.as_str().is_empty() {
        None
    } else {
        Some(oid)
    }
}

/// The names a reference is tried as, in order: as it stands, as a timeline,
/// and as a number of turns back on the current one.
pub open spec fn names_for(line: Seq<char>, spec: Seq<char>) -> Seq<Seq<char>> {
    seq![
        spec + "^{commit}"@,
        ref_of(spec) + "^{commit}"@,
        ref_of(line) + "~"@ + spec + "^{commit}"@,
    ]
}

/// The first object id among the answers.
pub open spec fn first_oid(answers: Seq<Output>) -> Option<Seq<char>>
    decreases answers.len(),
{
    if answers.len() == 0 {
        None
    } else if oid_of(answers[0]) is Some {
        oid_of(answers[0])
    } else {
        first_oid(answers.drop_first())
    }
}

impl Shadow {
    /// The command that asks for the head of a timeline.
    pub fn head_call(line: &str) -> (r: Call)
        ensures
            r.words() == seq!["rev-parse"@, "--verify"@, "--quiet"@, ref_of(line@)],
    {
        Call::Resolve { name: Self::ref_name(line) }
    }

    /// The head of a timeline, from what that command left behind.
    pub fn head(out: &Output) -> (r: Option<String>)
        ensures
            opt_text(r) == oid_of(*out),
    {
        oid_in(out)
    }

    /// The names a user's reference is tried as, in order.
    pub fn candidates(line: &str, spec: &str) -> (r: Vec<String>)
        ensures
            texts(r@) == names_for(line@, spec@),
    {
        let mut plain: String = owned(spec);
        plain.append("^{commit}");
        let mut named: String = Self::ref_name(spec);
        named.append("^{commit}");
        let mut back: String = Self::ref_name(line);
        back.append("~");
        back.append(spec);
        back.append("^{commit}");
        let mut v: Vec<String> = Vec::new();
        v.push(plain);
        v.push(named);
        v.push(back);
        proof {
            assert(texts(v@) =~= names_for(line@, spec@));
        }
        v
    }

    /// The commit a user's reference stands for: the first of `answers`, one to
    /// each candidate in order, that holds one.
    pub fn resolve(spec: &str, answers: &Vec<Output>) -> (r: Result<String, String>)
        ensures
            match r {
                Ok(oid) => first_oid(answers@) == Some(oid@),
                Err(e) => first_oid(answers@) is None && e@ == "no snapshot matches `"@ + spec@ + "`"@,
            },
    {
        let mut i: usize = 0;
        proof {
            assert(answers@.skip(0) =~= answers@);
        }
        while i < answers.len()
            invariant
                i <= answers@.len(),
                first_oid(answers@) == first_oid(answers@.skip(i as int)),
            decreases answers@.len() - i,
        {
            proof {
                let rest = answers@.skip(i as int);
                assert(rest[0] == answers@[i as int]);
                assert(rest.drop_first() =~= answers@.skip(i + 1));
            }
            if let Some(oid) = oid_in(&answers[i]) {
                return Ok(oid);
            }
            i += 1;
        }
        let mut e: String = owned("no snapshot matches `");
        e.append(spec);
        e.append("`");
        Err(e)
    }

    /// The command that asks for the tree of a commit.
    pub fn tree_of(commit: &str) -> (r: Call)
        ensures
            r.words() == seq!["rev-parse"@, commit@ + "^{tree}"@],
    {
        Call::TreeOf { commit: owned(commit) }
    }
}

// ----------------------------------------------------------------- staging

/// The paths that are staged whether or not a rule ignores them: those the
/// user's repository knows and that still are files. To stage one that has
/// become a directory would take every ignored thing beneath it along.
pub open spec fn forced(known: Seq<(Seq<char>, bool)>) -> Seq<Seq<char>>
    decreases known.len(),
{
    if known.len() == 0 {
        Seq::empty()
    } else if known.last().1 {
        forced(known.drop_last()).push(known.last().0)
    } else {
        forced(known.drop_last())
    }
}

/// Strings one after another, each with a NUL character behind it.
pub open spec fn nul_ended(v: Seq<Seq<char>>) -> Seq<char>
    decreases v.len(),
{
    if v.len() == 0 {
        Seq::empty()
    } else {
        nul_ended(v.drop_last()) + v.last() + "\0"@
    }
}

/// Strings one after another, each with a NUL character behind it.
pub fn nul_ended_list(v: &Vec<String>) -> (r: String)
    ensures
        r@ == nul_ended(texts(v@)),
{
    let mut out: String = String::new();
    let mut i: usize = 0;
    proof {
        assert(texts(v@).take(0) =~= Seq::<Seq<char>>::empty());
    }
    while i < v.len()
        invariant
            i <= v@.len(),
            out@ == nul_ended(texts(v@).take(i as int)),
        decreases v@.len() - i,
    {
        proof {
            let now = texts(v@).take(i + 1);
            assert(now.drop_last() =~= texts(v@).take(i as int));
            assert(now.last() == v@[i as int]@);
        }
        out.append(v[i].as_str());
        out.append("\0");
        i += 1;
    }
    proof {
        assert(texts(v@).take(v@.len() as int) =~= texts(v@));
    }
    out
}

/// What is known of a list of paths: each with whether it is a file on disk.
pub open spec fn known_view(v: Seq<(String, bool)>) -> Seq<(Seq<char>, bool)> {
    v.map_values(|p: (String, bool)| (p.0@, p.1))
}

impl Shadow {
    /// The commands that turn the working tree into a tree object, in order.
    /// `known` lists the paths the user's repository tracks, each with whether
    /// it still is a file; the second command gets the paths it stages on
    /// standard input, and is left out when there are none.
    pub fn write_tree(known: &Vec<(String, bool)>) -> (r: Vec<(Call, Option<String>)>)
        ensures
            ({
                let list = forced(known_view(known@));
                if list.len() == 0 {
                    r@ == seq![(Call::Stage, None::<String>), (Call::WriteTree, None::<String>)]
                } else {
                    r@.len() == 3 && r@[0] == (Call::Stage, None::<String>) && r@[1].0
                        == Call::StageListed && opt_text(r@[1].1) == Some(nul_ended(list)) && r@[2]
                        == (Call::WriteTree, None::<String>)
                }
            }),
    {
        broadcast use lemma_texts_push;

        let mut list: Vec<String> = Vec::new();
        let mut i: usize = 0;
        proof {
            lemma_texts_empty(list@);
            assert(known_view(known@).take(0) =~= Seq::<(Seq<char>, bool)>::empty());
        }
        while i < known.len()
            invariant
                i <= known@.len(),
                texts(list@) == forced(known_view(known@).take(i as int)),
            decreases known@.len() - i,
        {
            broadcast use lemma_texts_push;

            proof {
                let now = known_view(known@).take(i + 1);
                assert(now.drop_last() =~= known_view(known@).take(i as int));
                assert(now.last() == (known@[i as int].0@, known@[i as int].1));
            }
            if known[i].1 {
                list.push(known[i].0.clone());
            }
            i += 1;
        }
        proof {
            assert(known_view(known@).take(known@.len() as int) =~= known_view(known@));
            assert(texts(list@).len() == list@.len());
        }
        let mut out: Vec<(Call, Option<String>)> = Vec::new();
        out.push((Call::Stage, None));
        if !list.is_empty() {
            out.push((Call::StageListed, Some(nul_ended_list(&list))));
        }
        out.push((Call::WriteTree, None));
        proof {
            if list@.len() == 0 {
                assert(out@ =~= seq![
                    (Call::Stage, None::<String>),
                    (Call::WriteTree, None::<String>),
                ]);
            }
        }
        out
    }
}

// ---------------------------------------------------------------- verifying

/// The object id of a file in a listing of a tree, an entry of which reads
/// `<mode> <type> <oid>`, a tab, and the path.
pub open spec fn blob_oid(entry: Seq<char>) -> Option<Seq<char>> {
    let fields = words(split(entry, '\t')[0]);
    if fields.len() >= 3 && fields[1] == "blob"@ {
        Some(fields[2])
    } else {
        None
    }
}

/// The path of a file in a listing of a tree.
pub open spec fn blob_path(entry: Seq<char>) -> Option<Seq<char>> {
    match cut(entry, '\t') {
        Some((head, path)) => if words(head).len() >= 2 && words(head)[1] == "blob"@ {
            Some(path)
        } else {
            None
        },
        None => None,
    }
}

/// The path of a repository that a tree records as a pointer.
pub open spec fn gitlink_path(entry: Seq<char>) -> Option<Seq<char>> {
    match cut(entry, '\t') {
        Some((_, path)) => if "160000"@.is_prefix_of(entry) {
            Some(path)
        } else {
            None
        },
        None => None,
    }
}

/// `s` without every ` missing` at its end.
pub open spec fn without_missing(s: Seq<char>) -> Seq<char>
    decreases s.len(),
{
    if " missing"@.is_suffix_of(s) && s.len() > 0 && " missing"@.len() > 0 {
        without_missing(s.take(s.len() - " missing"@.len()))
    } else {
        s
    }
}

/// The object that one line of `cat-file --batch-check` says is missing.
pub open spec fn missing_object(line: Seq<char>) -> Option<Seq<char>> {
    if " missing"@.is_suffix_of(line) {
        Some(without_missing(line))
    } else {
        None
    }
}

fn blob_oid_of(entry: &str) -> (r: Option<String>)
    ensures
        opt_text(r) == blob_oid(entry@),
{
    let parts: Vec<String> = split_on(entry, '\t');
    proof {
        lemma_split_nonempty(entry@, '\t');
        assert(texts(parts@).len() == parts@.len());
        assert(texts(parts@)[0] == parts@[0]@);
    }
    let fields: Vec<String> = words_of(parts[0].as_str());
    proof {
        assert(texts(fields@).len() == fields@.len());
        if fields@.len() >= 3 {
            assert(texts(fields@)[1] == fields@[1]@);
            assert(texts(fields@)[2] == fields@[2]@);
        }
    }
    if fields.len() >= 3 && crate::strings::same(fields[1].as_str(), "blob") {
        Some(fields[2].clone())
    } else {
        None
    }
}

fn blob_path_of(entry: &str) -> (r: Option<String>)
    ensures
        opt_text(r) == blob_path(entry@),
{
    match cut_at(entry, '\t') {
        Some((head, path)) => {
            let fields: Vec<String> = words_of(head.as_str());
            proof {
                assert(texts(fields@).len() == fields@.len());
                if fields@.len() >= 2 {
                    assert(texts(fields@)[1] == fields@[1]@);
                }
            }
            if fields.len() >= 2 && crate::strings::same(fields[1].as_str(), "blob") {
                Some(path)
            } else {
                None
            }
        },
        None => None,
    }
}

fn gitlink_path_of(entry: &str) -> (r: Option<String>)
    ensures
        opt_text(r) == gitlink_path(entry@),
{
    match cut_at(entry, '\t') {
        Some((_, path)) => {
            if starts_with(entry, "160000") {
                Some(path)
            } else {
                None
            }
        },
        None => None,
    }
}

fn missing_object_in(line: &str) -> (r: Option<String>)
    ensures
        opt_text(r) == missing_object(line@),
{
    if !ends_with(line, " missing") {
        return None;
    }
    let mut rest: String = owned(line);
    proof {
        reveal_strlit(" missing");
    }
    while ends_with(rest.as_str(), " missing")
        invariant
            " missing"@.len() == 8,
            without_missing(line@) == without_missing(rest@),
        decreases rest@.len(),
    {
        let cs: Vec<char> = chars_of(rest.as_str());
        let to: usize = cs.len() - 8;
        proof {
            assert(cs@.subrange(0, to as int) =~= cs@.take(to as int));
        }
        rest = string_of(&cs, 0, to);
    }
    Some(rest)
}

/// The lines given to `cat-file --batch-check`: one object to each.
pub open spec fn check_input(probes: Seq<Seq<char>>) -> Seq<char> {
    join(probes, "\n"@) + "\n"@
}

impl Shadow {
    /// The object of every file in a tree, from the entries of its listing.
    pub fn verify(entries: &Vec<String>) -> (r: Vec<String>)
        ensures
            texts(r@) == texts(entries@).filter_map(|e: Seq<char>| blob_oid(e)),
    {
        keep_some(entries, blob_oid_of, Ghost(|e: Seq<char>| blob_oid(e)))
    }

    /// The objects a restore of `paths` reads from a tree, by path.
    pub fn verify_paths(tree: &str, paths: &Vec<String>) -> (r: Vec<String>)
        ensures
            texts(r@) == texts(paths@).map_values(|p: Seq<char>| tree@ + ":"@ + p),
    {
        broadcast use lemma_texts_push;

        let ghost f = |p: Seq<char>| tree@ + ":"@ + p;
        let mut out: Vec<String> = Vec::new();
        let mut i: usize = 0;
        proof {
            lemma_texts_empty(out@);
            assert(texts(paths@).take(0).map_values(f) =~= Seq::<Seq<char>>::empty());
        }
        while i < paths.len()
            invariant
                i <= paths@.len(),
                f == (|p: Seq<char>| tree@ + ":"@ + p),
                texts(out@) == texts(paths@).take(i as int).map_values(f),
            decreases paths@.len() - i,
        {
            broadcast use lemma_texts_push;

            let mut probe: String = owned(tree);
            probe.append(":");
            probe.append(paths[i].as_str());
            out.push(probe);
            i += 1;
            proof {
                assert(texts(out@) =~= texts(paths@).take(i as int).map_values(f));
            }
        }
        proof {
            assert(texts(paths@).take(paths@.len() as int) =~= texts(paths@));
        }
        out
    }

    /// What is asked of git to find which of `probes` it cannot resolve:
    /// nothing, when there are none.
    pub fn batch_check(probes: &Vec<String>) -> (r: Option<(Call, String)>)
        ensures
            match r {
                None => probes@.len() == 0,
                Some((call, input)) => probes@.len() > 0 && call == Call::CheckObjects && input@
                    == check_input(texts(probes@)),
            },
    {
        if probes.is_empty() {
            return None;
        }
        let mut input: String = join_with(probes, "\n");
        input.append("\n");
        Some((Call::CheckObjects, input))
    }

    /// The objects git could not resolve, from what it printed.
    pub fn missing(stdout: &str) -> (r: Vec<String>)
        ensures
            texts(r@) == lines(stdout@).filter_map(|l: Seq<char>| missing_object(l)),
    {
        let all: Vec<String> = lines_of(stdout);
        keep_some(&all, missing_object_in, Ghost(|l: Seq<char>| missing_object(l)))
    }

    /// The paths a tree holds as files, from the entries of its listing.
    pub fn held(entries: &Vec<String>) -> (r: Vec<String>)
        ensures
            texts(r@) == texts(entries@).filter_map(|e: Seq<char>| blob_path(e)),
    {
        keep_some(entries, blob_path_of, Ghost(|e: Seq<char>| blob_path(e)))
    }

    /// The paths a tree records as pointers to another repository.
    pub fn gitlinks(entries: &Vec<String>) -> (r: Vec<String>)
        ensures
            texts(r@) == texts(entries@).filter_map(|e: Seq<char>| gitlink_path(e)),
    {
        keep_some(entries, gitlink_path_of, Ghost(|e: Seq<char>| gitlink_path(e)))
    }

    /// How many files a tree holds. Describes the first turn of a timeline,
    /// which has nothing before it to compare with.
    pub fn tree_size(entries: &Vec<String>) -> (r: usize)
        ensures
            r == entries@.len(),
    {
        entries.len()
    }
}

// ------------------------------------------------------------------- counts

/// The number in one column of a line, or zero.
pub open spec fn column(line: Seq<char>, index: int) -> nat {
    let cols = split(line, '\t');
    if index < cols.len() {
        match number(cols[index], u64::MAX as nat) {
            Some(n) => n,
            None => 0,
        }
    } else {
        0
    }
}

/// The largest number that is counted to.
pub open spec fn capped(n: nat) -> u64 {
    if n <= u64::MAX {
        n as u64
    } else {
        u64::MAX
    }
}

/// The sum of a column over the lines that hold anything.
pub open spec fn total(lines: Seq<Seq<char>>, index: int) -> nat
    decreases lines.len(),
{
    if lines.len() == 0 {
        0
    } else if lines.last().len() == 0 {
        total(lines.drop_last(), index)
    } else {
        total(lines.drop_last(), index) + column(lines.last(), index)
    }
}

/// What git prints of one file that changed: the lines that were added, the
/// lines that were deleted, and its path.
pub open spec fn numstat_line(added: u64, deleted: u64, path: Seq<char>) -> Seq<char> {
    (dec(added as nat).push('\t') + (dec(deleted as nat).push('\t') + path)).push('\n')
}

pub proof fn lemma_whole(s: Seq<char>, at: char)
    requires
        !s.contains(at),
    ensures
        split(s, at) == seq![s],
    decreases s.len(),
{
    if s.len() > 0 {
        assert(s[0] != at) by {
            if s[0] == at {
                assert(s.contains(at));
            }
        }
        let rest = s.drop_first();
        assert(!rest.contains(at)) by {
            if rest.contains(at) {
                let i = choose|i: int| 0 <= i < rest.len() && rest[i] == at;
                assert(s[i + 1] == at);
            }
        }
        lemma_whole(rest, at);
        assert(seq![s[0]] + rest =~= s);
        assert(split(s, at) =~= seq![s]);
    }
}

pub proof fn lemma_digits_only(n: nat, c: char)
    requires
        !('0' <= c <= '9'),
    ensures
        !dec(n).contains(c),
        dec(n).len() > 0,
{
    crate::strings::lemma_dec_digits(n);
    if dec(n).contains(c) {
        let i = choose|i: int| 0 <= i < dec(n).len() && dec(n)[i] == c;
        assert(crate::strings::is_digit(dec(n)[i]));
    }
}

proof fn lemma_numstat(added: u64, deleted: u64, path: Seq<char>)
    requires
        !path.contains('\n'),
        !path.contains('\r'),
    ensures
        lines(numstat_line(added, deleted, path)).filter(|l: Seq<char>| l.len() > 0).len() == 1,
        total(lines(numstat_line(added, deleted, path)), 0) == added,
        total(lines(numstat_line(added, deleted, path)), 1) == deleted,
{
    let a = dec(added as nat);
    let d = dec(deleted as nat);
    let tail = d.push('\t') + path;
    let line = a.push('\t') + tail;
    let raw = numstat_line(added, deleted, path);
    let keep = |l: Seq<char>| l.len() > 0;
    lemma_digits_only(added as nat, '\n');
    lemma_digits_only(added as nat, '\r');
    lemma_digits_only(added as nat, '\t');
    lemma_digits_only(deleted as nat, '\n');
    lemma_digits_only(deleted as nat, '\r');
    lemma_digits_only(deleted as nat, '\t');
    assert(!line.contains('\n') && !line.contains('\r')) by {
        if line.contains('\n') || line.contains('\r') {
            let i = choose|i: int| 0 <= i < line.len() && (line[i] == '\n' || line[i] == '\r');
            if i < a.len() {
                assert(a[i] == line[i]);
                assert(a.contains(line[i]));
            } else if i > a.len() {
                let j = i - a.len() - 1;
                if j < d.len() {
                    assert(d[j] == line[i]);
                    assert(d.contains(line[i]));
                } else if j > d.len() {
                    assert(path[j - d.len() - 1] == line[i]);
                    assert(path.contains(line[i]));
                }
            }
        }
    }
    crate::strings::lemma_split_around(line, '\n', Seq::empty());
    assert(raw =~= line.push('\n') + Seq::<char>::empty());
    lemma_whole(line, '\n');
    assert(split(Seq::<char>::empty(), '\n') =~= seq![Seq::<char>::empty()]);
    assert(split(raw, '\n') =~= seq![line, Seq::<char>::empty()]);
    assert(crate::strings::chop_cr(line) == line) by {
        if line.last() == '\r' {
            assert(line[line.len() - 1] == '\r');
            assert(line.contains('\r'));
        }
    }
    assert(lines(raw) =~= seq![line]);
    assert(seq![line].drop_last() =~= Seq::<Seq<char>>::empty());
    assert(seq![line].last() == line);
    reveal(Seq::filter);
    assert(seq![line].filter(keep) =~= Seq::<Seq<char>>::empty().filter(keep).push(line));
    assert(Seq::<Seq<char>>::empty().filter(keep).len() == 0);
    crate::strings::lemma_split_around(a, '\t', tail);
    crate::strings::lemma_split_around(d, '\t', path);
    lemma_whole(a, '\t');
    lemma_whole(d, '\t');
    lemma_split_nonempty(path, '\t');
    assert(split(line, '\t')[0] == a);
    assert(split(line, '\t')[1] == d);
    crate::strings::law_decimal_round_trip(added as nat, u64::MAX as nat);
    crate::strings::law_decimal_round_trip(deleted as nat, u64::MAX as nat);
    assert(total(Seq::<Seq<char>>::empty(), 0) == 0);
    assert(total(Seq::<Seq<char>>::empty(), 1) == 0);
    assert(total(seq![line], 0) == column(line, 0));
    assert(total(seq![line], 1) == column(line, 1));
}

/// Counts add up: what two parts of a comparison count is what each of them
/// counts, taken together.
pub proof fn law_counts_add_up(a: Seq<Seq<char>>, b: Seq<Seq<char>>, index: int)
    ensures
        total(a + b, index) == total(a, index) + total(b, index),
    decreases b.len(),
{
    if b.len() == 0 {
        assert(a + b =~= a);
    } else {
        assert((a + b).drop_last() =~= a + b.drop_last());
        law_counts_add_up(a, b.drop_last(), index);
    }
}

fn column_of(line: &str, index: usize) -> (r: u64)
    ensures
        r == column(line@, index as int),
{
    let cols: Vec<String> = split_on(line, '\t');
    proof {
        assert(texts(cols@).len() == cols@.len());
        if index < cols@.len() {
            assert(texts(cols@)[index as int] == cols@[index as int]@);
        }
    }
    if index < cols.len() {
        match number_of(cols[index].as_str(), u64::MAX) {
            Some(n) => n,
            None => 0,
        }
    } else {
        0
    }
}

impl Shadow {
    /// Files changed, lines added and lines deleted, from what
    /// `diff-tree --numstat` printed. A binary file counts as a file without
    /// lines.
    pub fn diffstat(raw: &str) -> (r: (usize, u64, u64))
        ensures
            r.0 == lines(raw@).filter(|l: Seq<char>| l.len() > 0).len(),
            r.1 == capped(total(lines(raw@), 0)),
            r.2 == capped(total(lines(raw@), 1)),
            forall|added: u64, deleted: u64, path: Seq<char>|
                raw@ == #[trigger] numstat_line(added, deleted, path) && !path.contains('\n')
                    && !path.contains('\r') ==> r == (1usize, added, deleted),
    {
        let all: Vec<String> = lines_of(raw);
        let ghost keep = |l: Seq<char>| l.len() > 0;
        proof {
            assert forall|added: u64, deleted: u64, path: Seq<char>|
                raw@ == #[trigger] numstat_line(added, deleted, path) && !path.contains('\n')
                    && !path.contains('\r') implies lines(raw@).filter(keep).len() == 1 && total(
                lines(raw@),
                0,
            ) == added && total(lines(raw@), 1) == deleted by {
                lemma_numstat(added, deleted, path);
            }
        }
        let mut files: usize = 0;
        let mut adds: u64 = 0;
        let mut dels: u64 = 0;
        let mut i: usize = 0;
        proof {
            reveal(Seq::filter);
            assert(texts(all@).take(0) =~= Seq::<Seq<char>>::empty());
        }
        while i < all.len()
            invariant
                files <= i <= all@.len(),
                keep == (|l: Seq<char>| l.len() > 0),
                files == texts(all@).take(i as int).filter(keep).len(),
                adds == capped(total(texts(all@).take(i as int), 0)),
                dels == capped(total(texts(all@).take(i as int), 1)),
            decreases all@.len() - i,
        {
            proof {
                reveal(Seq::filter);
                let now = texts(all@).take(i + 1);
                assert(now.drop_last() =~= texts(all@).take(i as int));
                assert(now.last() == all@[i as int]@);
            }
            if !all[i].as_str().is_empty() {
                files += 1;
                let a: u64 = column_of(all[i].as_str(), 0);
                let d: u64 = column_of(all[i].as_str(), 1);
                adds = adds.saturating_add(a);
                dels = dels.saturating_add(d);
            }
            i += 1;
        }
        proof {
            assert(texts(all@).take(all@.len() as int) =~= texts(all@));
        }
        (files, adds, dels)
    }
}

// --------------------------------------------------------------- the history

/// One line of a history: the commit, when it was made, and its subject.
pub open spec fn log_entry(line: Seq<char>) -> Option<(Seq<char>, u64, Seq<char>)> {
    let parts = split(line, '\u{1f}');
    if line.len() == 0 || parts.len() < 2 {
        None
    } else {
        match number(parts[1], u64::MAX as nat) {
            None => None,
            Some(at) => Some(
                (
                    parts[0],
                    at as u64,
                    if parts.len() > 2 {
                        parts[2]
                    } else {
                        Seq::empty()
                    },
                ),
            ),
        }
    }
}

/// What a history holds.
pub open spec fn log_view(v: Seq<(String, u64, String)>) -> Seq<(Seq<char>, u64, Seq<char>)> {
    v.map_values(|e: (String, u64, String)| (e.0@, e.1, e.2@))
}

fn log_entry_of(line: &str) -> (r: Option<(String, u64, String)>)
    ensures
        match r {
            Some(e) => log_entry(line@) == Some((e.0@, e.1, e.2@)),
            None => log_entry(line@) is None,
        },
{
    let parts: Vec<String> = split_on(line, '\u{1f}');
    proof {
        assert(texts(parts@).len() == parts@.len());
        assert forall|k: int| 0 <= k < parts@.len() implies #[trigger] texts(parts@)[k]
            == parts@[k]@ by {}
    }
    if line.is_empty() || parts.len() < 2 {
        return None;
    }
    match number_of(parts[1].as_str(), u64::MAX) {
        None => None,
        Some(at) => {
            let subject: String = if parts.len() > 2 {
                parts[2].clone()
            } else {
                String::new()
            };
            proof {
                if parts@.len() <= 2 {
                    assert(subject@ =~= Seq::<char>::empty());
                }
            }
            Some((parts[0].clone(), at, subject))
        },
    }
}

impl Shadow {
    /// The command that asks for the newest commits of a timeline.
    pub fn log_call(line: &str, limit: usize) -> (r: Call)
        ensures
            r.words() == seq![
                "log"@,
                "--format=%H%x1f%at%x1f%s"@,
                "-n"@ + dec(limit as nat),
                ref_of(line@),
            ],
    {
        Call::Log { name: Self::ref_name(line), limit }
    }

    /// The commits that command printed, newest first.
    pub fn log(raw: &str) -> (r: Vec<(String, u64, String)>)
        ensures
            log_view(r@) == lines(raw@).filter_map(|l: Seq<char>| log_entry(l)),
    {
        let all: Vec<String> = lines_of(raw);
        let ghost f = |l: Seq<char>| log_entry(l);
        let mut out: Vec<(String, u64, String)> = Vec::new();
        let mut i: usize = 0;
        proof {
            reveal(Seq::filter_map);
            assert(texts(all@).take(0) =~= Seq::<Seq<char>>::empty());
            assert(log_view(out@) =~= texts(all@).take(0).filter_map(f));
        }
        while i < all.len()
            invariant
                i <= all@.len(),
                f == (|l: Seq<char>| log_entry(l)),
                log_view(out@) == texts(all@).take(i as int).filter_map(f),
            decreases all@.len() - i,
        {
            proof {
                reveal(Seq::filter_map);
                let now = texts(all@).take(i + 1);
                assert(now.drop_last() =~= texts(all@).take(i as int));
                assert(now.last() == all@[i as int]@);
            }
            let ghost was = out@;
            if let Some(entry) = log_entry_of(all[i].as_str()) {
                out.push(entry);
                proof {
                    assert(log_view(out@) =~= log_view(was).push((entry.0@, entry.1, entry.2@)));
                }
            }
            i += 1;
            proof {
                assert(log_view(out@) =~= texts(all@).take(i as int).filter_map(f));
            }
        }
        proof {
            assert(texts(all@).take(all@.len() as int) =~= texts(all@));
        }
        out
    }
}

/// An ignore rule is overridden for the files the user's repository tracks, for
/// every one of them that still is a file, and for nothing else: what stages the
/// rest of the working tree does not override it.
pub proof fn law_only_tracked_files_are_forced(known: Seq<(Seq<char>, bool)>, path: Seq<char>)
    ensures
        forced(known).contains(path) <==> known.contains((path, true)),
        !Call::Stage.words().contains("-f"@),
    decreases known.len(),
{
    let words = Call::Stage.words();
    assert(!words.contains("-f"@)) by {
        reveal_strlit("add");
        reveal_strlit("-A");
        reveal_strlit("--");
        reveal_strlit(".");
        reveal_strlit("-f");
        assert(words.len() == 4);
        assert(words[0].len() == 3);
        assert(words[1][1] == 'A');
        assert(words[2][1] == '-');
        assert(words[3].len() == 1);
        assert("-f"@.len() == 2 && "-f"@[1] == 'f');
    }
    if known.len() > 0 {
        let rest = known.drop_last();
        law_only_tracked_files_are_forced(rest, path);
        if known.contains((path, true)) && known.last() != (path, true) {
            let i = choose|i: int| 0 <= i < known.len() && known[i] == (path, true);
            assert(rest[i] == (path, true));
        }
        if rest.contains((path, true)) {
            let i = choose|i: int| 0 <= i < rest.len() && rest[i] == (path, true);
            assert(known[i] == (path, true));
        }
        if known.last().1 {
            let before = forced(rest);
            let all = forced(known);
            if before.contains(path) {
                let i = choose|i: int| 0 <= i < before.len() && before[i] == path;
                assert(all[i] == path);
            }
            assert(all[before.len() as int] == known.last().0);
            if all.contains(path) && !before.contains(path) {
                let i = choose|i: int| 0 <= i < all.len() && all[i] == path;
                if i < before.len() {
                    assert(before[i] == path);
                }
                assert(known[known.len() - 1] == (path, true));
            }
        }
    }
}

} // verus!
