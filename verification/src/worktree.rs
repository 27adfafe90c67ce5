//! Git worktrees: the record of one worktree and the reading of
//! `git worktree list --porcelain` output.

use vstd::prelude::*;
use vstd::std_specs::cmp::PartialEqSpecImpl;
use crate::text::{chars_of, has_prefix, owned, prefix_at, string_from, chars_equal};
use crate::paths::{file_name, file_name_of, join_path, joined_path};

verus! {

/// One git worktree of a project.
#[derive(Debug)]
pub struct WorktreeInfo {
    pub name: String,
    pub path: String,
    pub branch: String,
    /// The repository's main worktree (the first one git lists).
    pub is_main: bool,
}

/// What a worktree record holds, as plain values.
pub struct WorktreeView {
    pub name: Seq<char>,
    pub path: Seq<char>,
    pub branch: Seq<char>,
    pub is_main: bool,
}

impl View for WorktreeInfo {
    type V = WorktreeView;

    open spec fn view(&self) -> WorktreeView {
        WorktreeView { name: self.name@, path: self.path@, branch: self.branch@, is_main: self.is_main }
    }
}

impl Clone for WorktreeInfo {
    fn clone(&self) -> (r: Self)
        ensures
            r == *self,
    {
        WorktreeInfo {
            name: self.name.clone(),
            path: self.path.clone(),
            branch: self.branch.clone(),
            is_main: self.is_main,
        }
    }
}

impl PartialEq for WorktreeInfo {
    fn eq(&self, other: &Self) -> (r: bool) {
        self.name == other.name && self.path == other.path && self.branch == other.branch
            && self.is_main == other.is_main
    }
}

impl Eq for WorktreeInfo {

}

impl PartialEqSpecImpl for WorktreeInfo {
    open spec fn obeys_eq_spec() -> bool {
        true
    }

    open spec fn eq_spec(&self, other: &Self) -> bool {
        self@ == other@
    }
}

/// The views of a list of worktrees.
pub open spec fn worktree_views(ws: Seq<WorktreeInfo>) -> Seq<WorktreeView> {
    ws.map_values(|w: WorktreeInfo| w@)
}

/// A line that ended in `\n`, without the `\r` of a `\r\n` ending.
pub open spec fn ended_line(cur: Seq<char>) -> Seq<char> {
    if cur.len() > 0 && cur.last() == '\r' {
        cur.drop_last()
    } else {
        cur
    }
}

/// The lines completed within the first `n` characters of `s`, and the
/// characters of the line still open.
pub struct LineSplit {
    pub done: Seq<Seq<char>>,
    pub open: Seq<char>,
}

/// How the first `n` characters of `s` split into lines.
pub open spec fn split_prefix(s: Seq<char>, n: int) -> LineSplit
    decreases n,
{
    if n <= 0 {
        LineSplit { done: Seq::empty(), open: Seq::empty() }
    } else {
        let p = split_prefix(s, n - 1);
        if s[n - 1] == '\n' {
            LineSplit { done: p.done.push(ended_line(p.open)), open: Seq::empty() }
        } else {
            LineSplit { done: p.done, open: p.open.push(s[n - 1]) }
        }
    }
}

/// The lines of `s` as `str::lines` yields them: split at `\n`, a `\r`
/// before a `\n` dropped, and no empty line after a final `\n`.
pub open spec fn lines_of(s: Seq<char>) -> Seq<Seq<char>> {
    let p = split_prefix(s, s.len() as int);
    if p.open.len() > 0 {
        p.done.push(p.open)
    } else {
        p.done
    }
}

/// The views of a list of character vectors.
pub open spec fn char_rows(rows: Seq<Vec<char>>) -> Seq<Seq<char>> {
    rows.map_values(|v: Vec<char>| v@)
}

/// Splits `text` into lines as `str::lines` does.
pub fn split_lines(text: &str) -> (r: Vec<Vec<char>>)
    ensures
        char_rows(r@) == lines_of(text@),
{
    let cs = chars_of(text);
    let mut done: Vec<Vec<char>> = Vec::new();
    let mut open: Vec<char> = Vec::new();
    let mut i: usize = 0;
    while i < cs.len()
        invariant
            i <= cs@.len(),
            char_rows(done@) == split_prefix(cs@, i as int).done,
            open@ == split_prefix(cs@, i as int).open,
        decreases cs@.len() - i,
    {
        let c = cs[i];
        if c == '\n' {
            let mut line = open;
            let n = line.len();
            if n > 0 && line[n - 1] == '\r' {
                line.pop();
            }
            assert(line@ == ended_line(split_prefix(cs@, i as int).open));
            done.push(line);
            assert(char_rows(done@) =~= split_prefix(cs@, i + 1).done);
            open = Vec::new();
        } else {
            open.push(c);
        }
        i = i + 1;
    }
    if open.len() > 0 {
        done.push(open);
        assert(char_rows(done@) =~= lines_of(text@));
    }
    done
}

/// The worktree record for a `worktree` stanza.
pub open spec fn stanza_entry(path: Seq<char>, branch: Option<Seq<char>>, first: bool) -> WorktreeView {
    WorktreeView {
        name: match file_name_of(path) {
            Some(n) => n,
            None => "unknown"@,
        },
        path: path,
        branch: match branch {
            Some(b) => b,
            None => "HEAD"@,
        },
        is_main: first,
    }
}

/// Where the reading of the porcelain lines stands.
pub struct Scan {
    /// The path of the open stanza.
    pub path: Option<Seq<char>>,
    /// The branch seen since the last stanza was closed.
    pub branch: Option<Seq<char>>,
    pub bare: bool,
    /// No stanza has been closed yet.
    pub first: bool,
    pub found: Seq<WorktreeView>,
}

/// Before any line.
pub open spec fn scan_start() -> Scan {
    Scan { path: None, branch: None, bare: false, first: true, found: Seq::empty() }
}

/// Closes the open stanza, if any: a non-bare one becomes a record.
pub open spec fn close_stanza(st: Scan) -> Scan {
    match st.path {
        Some(p) => Scan {
            path: None,
            branch: None,
            bare: st.bare,
            first: false,
            found: if st.bare {
                st.found
            } else {
                st.found.push(stanza_entry(p, st.branch, st.first))
            },
        },
        None => st,
    }
}

/// Reads one line.
pub open spec fn scan_line(st: Scan, line: Seq<char>) -> Scan {
    if has_prefix(line, "worktree "@) {
        let c = close_stanza(st);
        Scan {
            path: Some(line.skip("worktree "@.len() as int)),
            branch: c.branch,
            bare: false,
            first: c.first,
            found: c.found,
        }
    } else if has_prefix(line, "branch "@) {
        let b = line.skip("branch "@.len() as int);
        Scan {
            path: st.path,
            branch: Some(
                if has_prefix(b, "refs/heads/"@) {
                    b.skip("refs/heads/"@.len() as int)
                } else {
                    b
                },
            ),
            bare: st.bare,
            first: st.first,
            found: st.found,
        }
    } else if line == "bare"@ {
        Scan { path: st.path, branch: st.branch, bare: true, first: st.first, found: st.found }
    } else {
        st
    }
}

/// Reads all `lines`.
pub open spec fn scan_lines(lines: Seq<Seq<char>>) -> Scan
    decreases lines.len(),
{
    if lines.len() == 0 {
        scan_start()
    } else {
        scan_line(scan_lines(lines.drop_last()), lines.last())
    }
}

/// The worktrees listed by `git worktree list --porcelain` output: one per
/// `worktree <path>` stanza that is not marked `bare`, named after the last
/// path component, with the branch of its `branch` line (without
/// `refs/heads/`) or `HEAD`, and the first stanza marked as the main one.
pub open spec fn porcelain_worktrees(output: Seq<char>) -> Seq<WorktreeView> {
    close_stanza(scan_lines(lines_of(output))).found
}

/// The stanzas of the porcelain lines, in order: each `worktree <path>`
/// line opens one, with its path; a `bare` line marks the open one bare.
pub open spec fn stanzas(lines: Seq<Seq<char>>) -> Seq<(Seq<char>, bool)>
    decreases lines.len(),
{
    if lines.len() == 0 {
        Seq::empty()
    } else {
        let prev = stanzas(lines.drop_last());
        let l = lines.last();
        if has_prefix(l, "worktree "@) {
            prev.push((l.skip("worktree "@.len() as int), false))
        } else if l == "bare"@ && prev.len() > 0 {
            prev.update(prev.len() - 1, (prev.last().0, true))
        } else {
            prev
        }
    }
}

/// The paths of the stanzas not marked bare, in order.
pub open spec fn kept_paths(ss: Seq<(Seq<char>, bool)>) -> Seq<Seq<char>>
    decreases ss.len(),
{
    if ss.len() == 0 {
        Seq::empty()
    } else if ss.last().1 {
        kept_paths(ss.drop_last())
    } else {
        kept_paths(ss.drop_last()).push(ss.last().0)
    }
}

/// The paths of worktree records, in order.
pub open spec fn record_paths(ws: Seq<WorktreeView>) -> Seq<Seq<char>> {
    ws.map_values(|w: WorktreeView| w.path)
}

/// How the scan of `lines` stands against their stanzas: the open stanza
/// is the last one, and the records so far come from the stanzas before
/// it that are not bare; only the first stanza's record is the main one.
proof fn lemma_scan_follows_stanzas(lines: Seq<Seq<char>>)
    ensures
        ({
            let st = scan_lines(lines);
            let ss = stanzas(lines);
            &&& (st.path is None <==> ss.len() == 0)
            &&& ss.len() > 0 ==> st.path == Some(ss.last().0) && st.bare == ss.last().1
            &&& st.first == (ss.len() <= 1)
            &&& ss.len() == 0 ==> st.found.len() == 0
            &&& ss.len() > 0 ==> record_paths(st.found) == kept_paths(ss.drop_last())
            &&& forall|k: int| 0 <= k < st.found.len() ==> (#[trigger] st.found[k]).is_main == (k == 0 && !ss[0].1)
        }),
    decreases lines.len(),
{
    if lines.len() > 0 {
        let prev_lines = lines.drop_last();
        lemma_scan_follows_stanzas(prev_lines);
        let st0 = scan_lines(prev_lines);
        let ss0 = stanzas(prev_lines);
        let st = scan_lines(lines);
        let ss = stanzas(lines);
        let l = lines.last();
        if has_prefix(l, "worktree "@) {
            if ss0.len() > 0 {
                let c = close_stanza(st0);
                assert(ss.drop_last() =~= ss0);
                if st0.bare {
                    assert(record_paths(c.found) =~= record_paths(st0.found));
                } else {
                    let e = stanza_entry(ss0.last().0, st0.branch, st0.first);
                    assert(c.found == st0.found.push(e));
                    assert(record_paths(c.found) =~= record_paths(st0.found).push(ss0.last().0));
                    assert forall|k: int| 0 <= k < c.found.len() implies (#[trigger] c.found[k]).is_main
                        == (k == 0 && !ss[0].1) by {
                        if k < st0.found.len() {
                            assert(c.found[k] == st0.found[k]);
                            assert(ss[0] == ss0[0]);
                        } else {
                            assert(c.found[k] == e);
                            if ss0.len() <= 1 {
                                assert(kept_paths(ss0.drop_last()) =~= Seq::<Seq<char>>::empty());
                                assert(record_paths(st0.found).len() == 0);
                            } else {
                                assert(ss[0] == ss0[0]);
                                if k == 0 {
                                    assert(kept_paths(ss0.drop_last()).len() == 0);
                                    lemma_first_kept(ss0.drop_last());
                                }
                            }
                        }
                    }
                }
                assert(st.found == c.found);
            } else {
                assert(ss.drop_last() =~= ss0);
            }
        } else if has_prefix(l, "branch "@) {
            assert(l != "bare"@) by {
                reveal_strlit("bare");
                reveal_strlit("branch ");
            }
        } else if l == "bare"@ {
            if ss0.len() > 0 {
                assert(ss.drop_last() =~= ss0.drop_last());
                assert forall|k: int| 0 <= k < st.found.len() implies (#[trigger] st.found[k]).is_main
                    == (k == 0 && !ss[0].1) by {
                    if ss0.len() == 1 {
                        assert(kept_paths(ss0.drop_last()) =~= Seq::<Seq<char>>::empty());
                        assert(record_paths(st0.found).len() == 0);
                    } else {
                        assert(ss[0] == ss0[0]);
                    }
                }
            }
        }
    }
}

/// When no stanza of `ss` is kept, the first one is bare.
proof fn lemma_first_kept(ss: Seq<(Seq<char>, bool)>)
    requires
        ss.len() > 0,
        kept_paths(ss).len() == 0,
    ensures
        ss[0].1,
    decreases ss.len(),
{
    if ss.len() > 1 {
        lemma_first_kept(ss.drop_last());
        assert(ss.drop_last()[0] == ss[0]);
    }
}

/// The listing has one worktree per stanza that is not marked bare, in the
/// stanzas' order and with their paths; the first is the main one exactly
/// when it comes from the first stanza.
pub proof fn lemma_one_worktree_per_stanza(output: Seq<char>)
    ensures
        record_paths(porcelain_worktrees(output)) == kept_paths(stanzas(lines_of(output))),
        forall|k: int|
            0 <= k < porcelain_worktrees(output).len() ==> (#[trigger] porcelain_worktrees(output)[k]).is_main
                == (k == 0 && !stanzas(lines_of(output))[0].1),
{
    let lines = lines_of(output);
    lemma_scan_follows_stanzas(lines);
    let st = scan_lines(lines);
    let ss = stanzas(lines);
    let ws = porcelain_worktrees(output);
    if ss.len() > 0 {
        if st.bare {
            assert(record_paths(ws) =~= record_paths(st.found));
        } else {
            let e = stanza_entry(ss.last().0, st.branch, st.first);
            assert(ws == st.found.push(e));
            assert(record_paths(ws) =~= record_paths(st.found).push(ss.last().0));
            assert forall|k: int| 0 <= k < ws.len() implies (#[trigger] ws[k]).is_main == (k == 0
                && !ss[0].1) by {
                if k < st.found.len() {
                    assert(ws[k] == st.found[k]);
                } else if ss.len() <= 1 {
                    assert(kept_paths(ss.drop_last()) =~= Seq::<Seq<char>>::empty());
                } else if k == 0 {
                    lemma_first_kept(ss.drop_last());
                    assert(ss.drop_last()[0] == ss[0]);
                }
            }
        }
    } else {
        assert(record_paths(ws) =~= Seq::<Seq<char>>::empty());
    }
}

fn stanza_record(path: String, branch: Option<String>, first: bool) -> (r: WorktreeInfo)
    ensures
        r@ == stanza_entry(path@, match branch {
            Some(b) => Some(b@),
            None => None,
        }, first),
{
    let name = match file_name(path.as_str()) {
        Some(n) => n,
        None => owned("unknown"),
    };
    let branch = match branch {
        Some(b) => b,
        None => owned("HEAD"),
    };
    WorktreeInfo { name, path, branch, is_main: first }
}

/// Reads the output of `git worktree list --porcelain`.
pub fn parse_worktree_list(output: &str) -> (r: Vec<WorktreeInfo>)
    ensures
        worktree_views(r@) == porcelain_worktrees(output@),
{
    let lines = split_lines(output);
    let worktree_tag = chars_of("worktree ");
    let branch_tag = chars_of("branch ");
    let heads_tag = chars_of("refs/heads/");
    let bare_tag = chars_of("bare");
    let ghost rows = char_rows(lines@);
    let mut worktrees: Vec<WorktreeInfo> = Vec::new();
    let mut path: Option<String> = None;
    let mut branch: Option<String> = None;
    let mut bare = false;
    let mut first = true;
    let mut i: usize = 0;
    while i < lines.len()
        invariant
            rows == char_rows(lines@),
            rows == lines_of(output@),
            worktree_tag@ == "worktree "@,
            branch_tag@ == "branch "@,
            heads_tag@ == "refs/heads/"@,
            bare_tag@ == "bare"@,
            i <= lines@.len(),
            ({
                let st = scan_lines(rows.take(i as int));
                &&& crate::text::opt_view(path) == st.path
                &&& crate::text::opt_view(branch) == st.branch
                &&& bare == st.bare
                &&& first == st.first
                &&& worktree_views(worktrees@) == st.found
            }),
        decreases lines@.len() - i,
    {
        let line = &lines[i];
        let ghost st = scan_lines(rows.take(i as int));
        assert(rows.take(i + 1).drop_last() =~= rows.take(i as int));
        assert(rows.take(i + 1).last() == line@);
        assert(line@.skip(0) =~= line@);
        if prefix_at(line, 0, &worktree_tag) {
            match path {
                Some(p) => {
                    let b = branch;
                    branch = None;
                    if !bare {
                        let ghost before = worktrees@;
                        worktrees.push(stanza_record(p, b, first));
                        assert(worktree_views(worktrees@) =~= worktree_views(before).push(
                            stanza_entry(st.path->0, st.branch, st.first),
                        ));
                    }
                    first = false;
                },
                None => {},
            }
            bare = false;
            path = Some(string_from(line, worktree_tag.len(), line.len()));
            assert(line@.subrange(worktree_tag@.len() as int, line@.len() as int) =~= line@.skip(
                "worktree "@.len() as int,
            ));
        } else if prefix_at(line, 0, &branch_tag) {
            let start = branch_tag.len();
            let ghost b = line@.skip("branch "@.len() as int);
            if prefix_at(line, start, &heads_tag) {
                assert(line@.skip(start as int).len() == line@.len() - start);
                let n = line.len();
                assert(heads_tag@.len() <= n - start);
                let from = start + heads_tag.len();
                branch = Some(string_from(line, from, n));
                assert(line@.skip(start as int) =~= b);
                assert(line@.subrange(start + heads_tag@.len(), line@.len() as int) =~= b.skip(
                    "refs/heads/"@.len() as int,
                ));
            } else {
                branch = Some(string_from(line, start, line.len()));
                assert(line@.skip(start as int) =~= b);
                assert(line@.subrange(start as int, line@.len() as int) =~= b);
            }
        } else if chars_equal(line, &bare_tag) {
            bare = true;
        }
        i = i + 1;
    }
    assert(rows.take(lines@.len() as int) =~= rows);
    match path {
        Some(p) => {
            if !bare {
                let ghost before = worktrees@;
                worktrees.push(stanza_record(p, branch, first));
                assert(worktree_views(worktrees@) =~= worktree_views(before).push(
                    stanza_entry(scan_lines(rows).path->0, scan_lines(rows).branch, first),
                ));
            }
        },
        None => {},
    }
    worktrees
}

/// The directory that holds a project's own worktrees: `.worktrees` in the
/// project directory.
pub fn worktrees_dir(project_path: &str) -> (r: String)
    ensures
        r@ == joined_path(project_path@, ".worktrees"@),
{
    join_path(project_path, ".worktrees")
}

/// Where the worktree for `branch_name` is created: `.worktrees/<branch>`
/// inside the project directory, so that the container's mount of the
/// project shows it.
pub fn new_worktree_location(project_path: &str, branch_name: &str) -> (r: String)
    ensures
        r@ == joined_path(joined_path(project_path@, ".worktrees"@), branch_name@),
{
    let dir = worktrees_dir(project_path);
    join_path(dir.as_str(), branch_name)
}

/// The `git` arguments that remove the worktree at `path`, even with
/// changes in it.
pub fn worktree_remove_args(path: &str) -> (r: Vec<String>)
    ensures
        args_are(r, seq!["worktree"@, "remove"@, "--force"@, path@]),
{
    let r = args_of(&vec!["worktree", "remove", "--force", path]);
    r
}

/// The record of a worktree just created for `branch_name` at `path`.
pub fn created_worktree(branch_name: &str, path: &str) -> (r: WorktreeInfo)
    ensures
        r@ == (WorktreeView { name: branch_name@, path: path@, branch: branch_name@, is_main: false }),
{
    WorktreeInfo { name: owned(branch_name), path: owned(path), branch: owned(branch_name), is_main: false }
}

/// The `git` argument lists tried in turn to create a worktree for
/// `branch_name` at `path`: check out an existing branch, create the branch
/// from `HEAD`, create it as an orphan (for a repository without commits).
pub open spec fn add_attempts(path: Seq<char>, branch: Seq<char>) -> Seq<Seq<Seq<char>>> {
    seq![
        seq!["worktree"@, "add"@, path, branch],
        seq!["worktree"@, "add"@, "-b"@, branch, path, "HEAD"@],
        seq!["worktree"@, "add"@, "--orphan"@, "-b"@, branch, path],
    ]
}

/// `args` holds exactly the arguments `expected`.
pub open spec fn args_are(args: Vec<String>, expected: Seq<Seq<char>>) -> bool {
    &&& args@.len() == expected.len()
    &&& forall|j: int| 0 <= j < expected.len() ==> (#[trigger] args@[j])@ == expected[j]
}

fn args_of(parts: &Vec<&str>) -> (r: Vec<String>)
    ensures
        r@.len() == parts@.len(),
        forall|j: int| 0 <= j < parts@.len() ==> (#[trigger] r@[j])@ == parts@[j]@,
{
    let mut r: Vec<String> = Vec::new();
    let mut i: usize = 0;
    while i < parts.len()
        invariant
            i <= parts@.len(),
            r@.len() == i,
            forall|j: int| 0 <= j < i ==> (#[trigger] r@[j])@ == parts@[j]@,
        decreases parts@.len() - i,
    {
        r.push(owned(parts[i]));
        i = i + 1;
    }
    r
}

/// The `git` argument lists tried in turn to create a worktree.
pub fn worktree_add_attempts(path: &str, branch_name: &str) -> (r: Vec<Vec<String>>)
    ensures
        r@.len() == 3,
        forall|k: int| 0 <= k < 3 ==> args_are(#[trigger] r@[k], add_attempts(path@, branch_name@)[k]),
{
    let a = args_of(&vec!["worktree", "add", path, branch_name]);
    let b = args_of(&vec!["worktree", "add", "-b", branch_name, path, "HEAD"]);
    let c = args_of(&vec!["worktree", "add", "--orphan", "-b", branch_name, path]);
    let r = vec![a, b, c];
    assert(args_are(r@[0], add_attempts(path@, branch_name@)[0]));
    assert(args_are(r@[1], add_attempts(path@, branch_name@)[1]));
    assert(args_are(r@[2], add_attempts(path@, branch_name@)[2]));
    r
}

/// What reading porcelain lines keeps: once a record is made, the first
/// stanza is past, and only the first record can be the main worktree.
pub open spec fn scan_ok(st: Scan) -> bool {
    &&& st.found.len() > 0 ==> !st.first
    &&& forall|i: int| 0 < i < st.found.len() ==> !(#[trigger] st.found[i]).is_main
}

proof fn lemma_close_stanza_ok(st: Scan)
    requires
        scan_ok(st),
    ensures
        scan_ok(close_stanza(st)),
{
    let c = close_stanza(st);
    assert forall|i: int| 0 < i < c.found.len() implies !(#[trigger] c.found[i]).is_main by {
        if i < st.found.len() {
            assert(c.found[i] == st.found[i]);
        }
    }
}

proof fn lemma_scan_lines_ok(lines: Seq<Seq<char>>)
    ensures
        scan_ok(scan_lines(lines)),
    decreases lines.len(),
{
    if lines.len() > 0 {
        let st = scan_lines(lines.drop_last());
        lemma_scan_lines_ok(lines.drop_last());
        lemma_close_stanza_ok(st);
    }
}

/// Only the first worktree git lists is the main one: no later record is
/// marked main.
pub proof fn lemma_only_first_is_main(output: Seq<char>)
    ensures
        forall|i: int| 0 < i < porcelain_worktrees(output).len() ==> !(#[trigger] porcelain_worktrees(output)[i]).is_main,
{
    let st = scan_lines(lines_of(output));
    lemma_scan_lines_ok(lines_of(output));
    lemma_close_stanza_ok(st);
}

/// No line that `lines_of` gives holds a line feed.
pub proof fn lemma_lines_hold_no_newline(s: Seq<char>)
    ensures
        forall|k: int, j: int| 0 <= k < lines_of(s).len() && 0 <= j < lines_of(s)[k].len() ==> #[trigger] lines_of(s)[k][j] != '\n',
{
    lemma_split_prefix_no_newline(s, s.len() as int);
}

proof fn lemma_split_prefix_no_newline(s: Seq<char>, n: int)
    requires
        0 <= n <= s.len(),
    ensures
        forall|k: int, j: int| 0 <= k < split_prefix(s, n).done.len() && 0 <= j < split_prefix(s, n).done[k].len() ==> #[trigger] split_prefix(s, n).done[k][j] != '\n',
        forall|j: int| 0 <= j < split_prefix(s, n).open.len() ==> #[trigger] split_prefix(s, n).open[j] != '\n',
    decreases n,
{
    if n > 0 {
        lemma_split_prefix_no_newline(s, n - 1);
        let p = split_prefix(s, n - 1);
        let c = split_prefix(s, n);
        if s[n - 1] == '\n' {
            assert forall|k: int, j: int| 0 <= k < c.done.len() && 0 <= j < c.done[k].len() implies #[trigger] c.done[k][j] != '\n' by {
                if k < p.done.len() {
                    assert(c.done[k] == p.done[k]);
                } else {
                    assert(c.done[k] == ended_line(p.open));
                    if p.open.len() > 0 && p.open.last() == '\r' {
                        assert(c.done[k][j] == p.open[j]);
                    } else {
                        assert(c.done[k][j] == p.open[j]);
                    }
                }
            }
        } else {
            assert forall|j: int| 0 <= j < c.open.len() implies #[trigger] c.open[j] != '\n' by {
                if j < p.open.len() {
                    assert(c.open[j] == p.open[j]);
                }
            }
        }
    }
}

/// How the first `n` characters split depends on those characters only.
proof fn lemma_split_prefix_depends_on_prefix(x: Seq<char>, y: Seq<char>, n: int)
    requires
        0 <= n <= x.len(),
        n <= y.len(),
        forall|i: int| 0 <= i < n ==> x[i] == y[i],
    ensures
        split_prefix(x, n) == split_prefix(y, n),
    decreases n,
{
    if n > 0 {
        lemma_split_prefix_depends_on_prefix(x, y, n - 1);
    }
}

/// Characters without a line feed extend the open line.
proof fn lemma_split_prefix_extends(u: Seq<char>, n: int, k: int)
    requires
        0 <= n,
        0 <= k,
        n + k <= u.len(),
        forall|i: int| n <= i < n + k ==> u[i] != '\n',
    ensures
        split_prefix(u, n + k).done == split_prefix(u, n).done,
        split_prefix(u, n + k).open == split_prefix(u, n).open + u.subrange(n, n + k),
    decreases k,
{
    if k > 0 {
        lemma_split_prefix_extends(u, n, k - 1);
        assert(split_prefix(u, n).open + u.subrange(n, n + k) =~= (split_prefix(u, n).open
            + u.subrange(n, n + k - 1)).push(u[n + k - 1]));
    } else {
        assert(split_prefix(u, n).open + u.subrange(n, n) =~= split_prefix(u, n).open);
    }
}

/// A line added after text that is empty or ends in a line feed is one
/// more line: `lines_of(s + t + "\n")` is `lines_of(s)` and then `t`, when
/// `t` holds no line feed and does not end in a carriage return.
proof fn lemma_lines_of_appended_line(s: Seq<char>, t: Seq<char>)
    requires
        s.len() == 0 || s.last() == '\n',
        forall|i: int| 0 <= i < t.len() ==> t[i] != '\n',
        t.len() == 0 || t.last() != '\r',
    ensures
        lines_of(s + t + seq!['\n']) == lines_of(s).push(t),
{
    let u = s + t + seq!['\n'];
    let n = s.len() as int;
    lemma_split_prefix_depends_on_prefix(s, u, n);
    assert(split_prefix(s, n).open.len() == 0);
    lemma_split_prefix_extends(u, n, t.len() as int);
    assert(u.subrange(n, n + t.len()) =~= t);
    assert(split_prefix(u, n).open + t =~= t);
    assert(u[n + t.len()] == '\n');
    assert(ended_line(t) == t);
    assert(split_prefix(u, u.len() as int).done == split_prefix(s, n).done.push(t));
}

/// A stanza appended to a listing, `worktree <p>` then `branch <rf>`, adds
/// one worktree after those of the listing, with path `p`, named after the
/// last component of `p`, whose branch is `rf` without one leading
/// `refs/heads/`.
proof fn lemma_appended_stanza(listing: Seq<char>, p: Seq<char>, rf: Seq<char>)
    requires
        listing.len() == 0 || listing.last() == '\n',
        forall|i: int| 0 <= i < p.len() ==> p[i] != '\n',
        forall|i: int| 0 <= i < rf.len() ==> rf[i] != '\n',
        p.len() > 0 && p.last() != '\r',
        rf.len() > 0 && rf.last() != '\r',
    ensures
        ({
            let out = listing + "worktree "@ + p + seq!['\n'] + "branch "@ + rf + seq!['\n'];
            let ws = porcelain_worktrees(out);
            &&& ws.len() == porcelain_worktrees(listing).len() + 1
            &&& ws.take(ws.len() - 1) == porcelain_worktrees(listing)
            &&& ws.last().path == p
            &&& ws.last().branch == if has_prefix(rf, "refs/heads/"@) {
                rf.skip("refs/heads/"@.len() as int)
            } else {
                rf
            }
            &&& ws.last().name == match file_name_of(p) {
                Some(n) => n,
                None => "unknown"@,
            }
        }),
{
    reveal_strlit("worktree ");
    reveal_strlit("branch ");
    reveal_strlit("refs/heads/");
    let l1 = "worktree "@ + p;
    let l2 = "branch "@ + rf;
    let s1 = listing + l1 + seq!['\n'];
    let out = s1 + l2 + seq!['\n'];
    assert(out =~= listing + "worktree "@ + p + seq!['\n'] + "branch "@ + rf + seq!['\n']);
    assert forall|i: int| 0 <= i < l1.len() implies l1[i] != '\n' by {
        if i >= 9 {
            assert(l1[i] == p[i - 9]);
        }
    }
    assert forall|i: int| 0 <= i < l2.len() implies l2[i] != '\n' by {
        if i >= 7 {
            assert(l2[i] == rf[i - 7]);
        }
    }
    assert(l1.last() == p.last());
    assert(l2.last() == rf.last());
    lemma_lines_of_appended_line(listing, l1);
    assert(s1.last() == '\n');
    lemma_lines_of_appended_line(s1, l2);
    let lines0 = lines_of(listing);
    let lines = lines_of(out);
    assert(lines == lines0.push(l1).push(l2));
    assert(lines.drop_last() =~= lines0.push(l1));
    assert(lines0.push(l1).drop_last() =~= lines0);
    let st0 = scan_lines(lines0);
    let c = close_stanza(st0);
    assert(has_prefix(l1, "worktree "@)) by {
        assert(l1.take(9) =~= "worktree "@);
    }
    assert(l1.skip(9) =~= p);
    let st1 = scan_lines(lines0.push(l1));
    assert(st1.path == Some(p) && !st1.bare && st1.found == c.found);
    assert(!has_prefix(l2, "worktree "@)) by {
        assert(l2[0] == 'b');
        assert("worktree "@[0] == 'w');
        if l2.len() >= 9 {
            assert(l2.take(9)[0] == 'b');
        }
    }
    assert(has_prefix(l2, "branch "@)) by {
        assert(l2.take(7) =~= "branch "@);
    }
    assert(l2.skip(7) =~= rf);
    let br = if has_prefix(rf, "refs/heads/"@) {
        rf.skip("refs/heads/"@.len() as int)
    } else {
        rf
    };
    let st2 = scan_lines(lines);
    assert(st2.path == Some(p) && !st2.bare && st2.found == c.found && st2.branch == Some(br));
    assert(c.found == porcelain_worktrees(listing));
    let ws = porcelain_worktrees(out);
    assert(ws == c.found.push(stanza_entry(p, Some(br), st2.first)));
    assert(ws.take(ws.len() - 1) =~= c.found);
}

/// A stanza appended to a listing, `worktree <p>` then
/// `branch refs/heads/<b>`, adds one worktree after those of the listing:
/// its path is `p` and its branch is `b`, whatever `b` holds (slashes
/// included), named after the last component of `p`.
pub proof fn lemma_branch_line_names_branch(listing: Seq<char>, p: Seq<char>, b: Seq<char>)
    requires
        listing.len() == 0 || listing.last() == '\n',
        forall|i: int| 0 <= i < p.len() ==> p[i] != '\n',
        forall|i: int| 0 <= i < b.len() ==> b[i] != '\n',
        p.len() > 0 && p.last() != '\r',
        b.len() > 0 && b.last() != '\r',
    ensures
        ({
            let out = listing + "worktree "@ + p + seq!['\n'] + "branch refs/heads/"@ + b + seq!['\n'];
            let ws = porcelain_worktrees(out);
            &&& ws.len() == porcelain_worktrees(listing).len() + 1
            &&& ws.take(ws.len() - 1) == porcelain_worktrees(listing)
            &&& ws.last().path == p
            &&& ws.last().branch == b
            &&& ws.last().name == match file_name_of(p) {
                Some(n) => n,
                None => "unknown"@,
            }
        }),
{
    reveal_strlit("refs/heads/");
    reveal_strlit("branch ");
    reveal_strlit("branch refs/heads/");
    let rf = "refs/heads/"@ + b;
    assert forall|i: int| 0 <= i < rf.len() implies rf[i] != '\n' by {
        if i >= 11 {
            assert(rf[i] == b[i - 11]);
        }
    }
    assert(rf.last() == b.last());
    lemma_appended_stanza(listing, p, rf);
    assert(listing + "worktree "@ + p + seq!['\n'] + "branch "@ + rf + seq!['\n'] =~= listing + "worktree "@ + p
        + seq!['\n'] + "branch refs/heads/"@ + b + seq!['\n']);
    assert(has_prefix(rf, "refs/heads/"@)) by {
        assert(rf.take(11) =~= "refs/heads/"@);
    }
    assert(rf.skip(11) =~= b);
}

/// A `branch` line whose ref does not start with `refs/heads/` names the
/// branch by the whole ref: appending `worktree <p>` then `branch <rf>`
/// adds one worktree with path `p` and branch `rf`.
pub proof fn lemma_other_refs_kept_whole(listing: Seq<char>, p: Seq<char>, rf: Seq<char>)
    requires
        listing.len() == 0 || listing.last() == '\n',
        forall|i: int| 0 <= i < p.len() ==> p[i] != '\n',
        forall|i: int| 0 <= i < rf.len() ==> rf[i] != '\n',
        p.len() > 0 && p.last() != '\r',
        rf.len() > 0 && rf.last() != '\r',
        !has_prefix(rf, "refs/heads/"@),
    ensures
        ({
            let out = listing + "worktree "@ + p + seq!['\n'] + "branch "@ + rf + seq!['\n'];
            let ws = porcelain_worktrees(out);
            &&& ws.len() == porcelain_worktrees(listing).len() + 1
            &&& ws.take(ws.len() - 1) == porcelain_worktrees(listing)
            &&& ws.last().path == p
            &&& ws.last().branch == rf
        }),
{
    lemma_appended_stanza(listing, p, rf);
}

} // verus!
