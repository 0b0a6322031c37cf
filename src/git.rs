use vstd::prelude::*;

use crate::models::{
    files_view, GitBranch, GitBranchView, GitCommit, GitCommitView, GitFile, GitFileView,
    GitRemote, GitRemoteView, GitStatus, GitStatusView,
};
use crate::text::{
    chars_of, copy_range, digits_value, find, find_chars, find_from, is_digit, is_white_space,
    lemma_digits_value_nonneg, lemma_find_occurs, lemma_split_first_empty,
    lemma_split_first_prefix, lines, lines_of, occurs_at, parse_i64, parsed_i64, pieces_view,
    split, split_chars, split_pair, split_pair_chars, string_from, string_of, trim, trim_chars,
    trim_end, trim_start,
};

use vstd::slice::slice_to_vec;

verus! {

/// The pieces that are not empty, in order.
pub open spec fn nonempty(p: Seq<Seq<char>>) -> Seq<Seq<char>>
    decreases p.len(),
{
    if p.len() == 0 {
        p
    } else if p.last().len() == 0 {
        nonempty(p.drop_last())
    } else {
        nonempty(p.drop_last()).push(p.last())
    }
}

/// A porcelain status entry `XY path`.
pub open spec fn status_entry(e: Seq<char>) -> GitFileView {
    GitFileView { status: e.subrange(0, 2), path: e.subrange(3, e.len() as int) }
}

/// The changed files that status entries list; entries shorter than four
/// characters are skipped.
pub open spec fn status_files(entries: Seq<Seq<char>>) -> Seq<GitFileView>
    decreases entries.len(),
{
    if entries.len() == 0 {
        Seq::empty()
    } else if entries.last().len() >= 4 {
        status_files(entries.drop_last()).push(status_entry(entries.last()))
    } else {
        status_files(entries.drop_last())
    }
}

/// The text of a count: what comes before the first `]` and before the
/// first `,`.
pub open spec fn count_text(s: Seq<char>) -> Seq<char> {
    split(split(s, ']')[0], ',')[0]
}

/// The `i32` that `s` writes in decimal, or 0.
pub open spec fn i32_or_zero(s: Seq<char>) -> i32 {
    match parsed_i64(s) {
        Some(v) => if i32::MIN <= v <= i32::MAX { v as i32 } else { 0 },
        None => 0,
    }
}

/// The count written after the seven-character `label` in a branch header,
/// up to the next `]` or `,`; 0 where the label is missing or no number
/// follows.
pub open spec fn count_after(info: Seq<char>, label: Seq<char>) -> i32 {
    match find(info, label) {
        Some(p) => i32_or_zero(trim(count_text(info.subrange(p + 7, info.len() as int)))),
        None => 0,
    }
}

/// The branch header after `## `: the local branch, and the ahead and
/// behind counts where an upstream is named.
pub open spec fn branch_header(info: Seq<char>) -> (Seq<char>, i32, i32) {
    match find(info, "..."@) {
        Some(p) => (info.subrange(0, p), count_after(info, "[ahead "@), count_after(info, "behind "@)),
        None => (info, 0, 0),
    }
}

/// Whether an entry is the `## ` branch header.
pub open spec fn is_header(e: Seq<char>) -> bool {
    e.len() >= 3 && e.subrange(0, 3) == "## "@
}

/// The status that `git status --porcelain=v1 -b -z` output describes.
pub open spec fn status_of(out: Seq<char>) -> GitStatusView {
    let es = nonempty(split(out, '\0'));
    if es.len() > 0 && is_header(es[0]) {
        let (branch, ahead, behind) = branch_header(es[0].subrange(3, es[0].len() as int));
        GitStatusView { branch, files: status_files(es.drop_first()), ahead, behind }
    } else {
        GitStatusView { branch: Seq::empty(), files: status_files(es), ahead: 0, behind: 0 }
    }
}

/// The commit that the `\0`-separated fields of a log entry describe.
pub open spec fn commit_of(parts: Seq<Seq<char>>) -> GitCommitView {
    GitCommitView {
        hash: parts[0],
        author: parts[1],
        email: parts[2],
        timestamp: match parsed_i64(parts[3]) {
            Some(t) => t,
            None => 0,
        },
        message: parts[4],
        body: if parts.len() > 5 { parts[5] } else { Seq::empty() },
    }
}

/// The commits that log entries describe; entries with fewer than five
/// fields are skipped.
pub open spec fn commits_of(entries: Seq<Seq<char>>) -> Seq<GitCommitView>
    decreases entries.len(),
{
    if entries.len() == 0 {
        Seq::empty()
    } else if split(entries.last(), '\0').len() >= 5 {
        commits_of(entries.drop_last()).push(commit_of(split(entries.last(), '\0')))
    } else {
        commits_of(entries.drop_last())
    }
}

/// The commits that `git log -z` output with `\0`-separated fields describes.
pub open spec fn log_of(out: Seq<char>) -> Seq<GitCommitView> {
    commits_of(nonempty(split_pair(out, '\0')))
}

/// The branches that `\0`-separated branch lines describe; lines with fewer
/// than two fields are skipped.
pub open spec fn branches_of(ls: Seq<Seq<char>>) -> Seq<GitBranchView>
    decreases ls.len(),
{
    if ls.len() == 0 {
        Seq::empty()
    } else {
        let parts = split(ls.last(), '\0');
        if parts.len() >= 2 {
            branches_of(ls.drop_last()).push(
                GitBranchView {
                    name: parts[0],
                    current: parts[1] == "*"@,
                    remote: if parts.len() > 2 { parts[2] } else { Seq::empty() },
                },
            )
        } else {
            branches_of(ls.drop_last())
        }
    }
}

/// `s` cut at every white-space character, read from the left.
pub open spec fn words_acc(s: Seq<char>) -> (Seq<Seq<char>>, Seq<char>)
    decreases s.len(),
{
    if s.len() == 0 {
        (Seq::empty(), Seq::empty())
    } else {
        let (done, cur) = words_acc(s.drop_last());
        if is_white_space(s.last()) {
            (done.push(cur), Seq::empty())
        } else {
            (done, cur.push(s.last()))
        }
    }
}

/// The words of `s`: the non-empty runs of characters between white space.
pub open spec fn words(s: Seq<char>) -> Seq<Seq<char>> {
    nonempty(words_acc(s).0.push(words_acc(s).1))
}

/// The remotes that `git remote -v` lines describe, each name once, with
/// the URL of its first line.
pub open spec fn remotes_of(ls: Seq<Seq<char>>) -> Seq<GitRemoteView>
    decreases ls.len(),
{
    if ls.len() == 0 {
        Seq::empty()
    } else {
        let rest = remotes_of(ls.drop_last());
        let w = words(ls.last());
        if w.len() >= 2 && !rest.map_values(|r: GitRemoteView| r.name).contains(w[0]) {
            rest.push(GitRemoteView { name: w[0], url: w[1] })
        } else {
            rest
        }
    }
}

pub(crate) fn keep_nonempty(p: &Vec<Vec<char>>) -> (r: Vec<Vec<char>>)
    ensures
        pieces_view(r@) == nonempty(pieces_view(p@)),
{
    let ghost all = pieces_view(p@);
    let mut kept: Vec<Vec<char>> = Vec::new();
    let mut i: usize = 0;
    while i < p.len()
        invariant
            all == pieces_view(p@),
            i <= p@.len(),
            pieces_view(kept@) == nonempty(all.take(i as int)),
        decreases p@.len() - i,
    {
        assert(all.take(i + 1).drop_last() =~= all.take(i as int));
        if p[i].len() > 0 {
            let ghost before = kept@;
            kept.push(slice_to_vec(p[i].as_slice()));
            assert(pieces_view(kept@) =~= pieces_view(before).push(all[i as int]));
        }
        i = i + 1;
    }
    assert(all.take(p@.len() as int) =~= all);
    kept
}

fn status_files_from(es: &Vec<Vec<char>>, start: usize) -> (r: Vec<GitFile>)
    requires
        start <= es@.len(),
    ensures
        files_view(r@) == status_files(pieces_view(es@).subrange(start as int, es@.len() as int)),
{
    let ghost pv = pieces_view(es@);
    let mut out: Vec<GitFile> = Vec::new();
    let mut i = start;
    while i < es.len()
        invariant
            pv == pieces_view(es@),
            start <= i <= es@.len(),
            files_view(out@) == status_files(pv.subrange(start as int, i as int)),
        decreases es@.len() - i,
    {
        assert(pv.subrange(start as int, i + 1).drop_last() =~= pv.subrange(start as int, i as int));
        assert(pv.subrange(start as int, i + 1).last() == es@[i as int]@);
        let e = &es[i];
        if e.len() >= 4 {
            let f = GitFile { status: string_of(e, 0, 2), path: string_of(e, 3, e.len()) };
            let ghost before = out@;
            out.push(f);
            assert(files_view(out@) =~= files_view(before).push(f@));
        }
        i = i + 1;
    }
    out
}

/// The changed files listed by `git status --porcelain=v1 -z` output.
pub fn parse_status_entries(stdout: &str) -> (r: Vec<GitFile>)
    ensures
        files_view(r@) == status_files(split(stdout@, '\0')),
{
    let chars = chars_of(stdout);
    let pieces = split_chars(&chars, '\0');
    let r = status_files_from(&pieces, 0);
    assert(pieces_view(pieces@).subrange(0, pieces@.len() as int) =~= pieces_view(pieces@));
    r
}

fn count_after_label(info: &Vec<char>, label: &str) -> (r: i32)
    requires
        label@.len() == 7,
    ensures
        r == count_after(info@, label@),
{
    let lab = chars_of(label);
    match find_chars(info, &lab) {
        None => 0,
        Some(p) => {
            proof {
                lemma_find_occurs(info@, label@, 0);
            }
            assert(occurs_at(info@, lab@, p as int));
            let n = info.len();
            let rest = copy_range(info, p + 7, n);
            let pieces = split_chars(&rest, ']');
            assert(pieces_view(pieces@).len() == pieces@.len());
            let parts = split_chars(&pieces[0], ',');
            assert(pieces_view(parts@).len() == parts@.len());
            let head = trim_chars(&parts[0]);
            match parse_i64(&head) {
                Some(v) => if -2147483648 <= v && v <= 2147483647 { v as i32 } else { 0 },
                None => 0,
            }
        },
    }
}

/// The status described by `git status --porcelain=v1 -b -z` output: the
/// branch header first, then the changed files.
pub fn parse_status(stdout: &str) -> (r: GitStatus)
    ensures
        r@ == status_of(stdout@),
{
    let chars = chars_of(stdout);
    let pieces = split_chars(&chars, '\0');
    let es = keep_nonempty(&pieces);
    let ghost ev = pieces_view(es@);
    if es.len() > 0 && es[0].len() >= 3 && es[0][0] == '#' && es[0][1] == '#' && es[0][2] == ' ' {
        proof {
            reveal_strlit("## ");
            assert(ev[0].subrange(0, 3) =~= "## "@);
        }
        let info = copy_range(&es[0], 3, es[0].len());
        let dots = chars_of("...");
        let (branch, ahead, behind) = match find_chars(&info, &dots) {
            Some(p) => {
                proof {
                    lemma_find_occurs(info@, "..."@, 0);
                    reveal_strlit("[ahead ");
                    reveal_strlit("behind ");
                }
                (string_of(&info, 0, p), count_after_label(&info, "[ahead "), count_after_label(&info, "behind "))
            },
            None => (string_from(&info), 0, 0),
        };
        let files = status_files_from(&es, 1);
        assert(ev.subrange(1, ev.len() as int) =~= ev.drop_first());
        GitStatus { branch, files, ahead, behind }
    } else {
        proof {
            reveal_strlit("## ");
            if ev.len() > 0 && ev[0].len() >= 3 {
                assert(ev[0].subrange(0, 3)[0] != '#' || ev[0].subrange(0, 3)[1] != '#'
                    || ev[0].subrange(0, 3)[2] != ' ');
            }
        }
        let files = status_files_from(&es, 0);
        assert(ev.subrange(0, ev.len() as int) =~= ev);
        GitStatus { branch: String::new(), files, ahead: 0, behind: 0 }
    }
}

/// The views of a sequence of commits.
pub open spec fn commits_view(v: Seq<GitCommit>) -> Seq<GitCommitView> {
    v.map_values(|c: GitCommit| c@)
}

/// The views of a sequence of branches.
pub open spec fn branches_view(v: Seq<GitBranch>) -> Seq<GitBranchView> {
    v.map_values(|b: GitBranch| b@)
}

/// The views of a sequence of remotes.
pub open spec fn remotes_view(v: Seq<GitRemote>) -> Seq<GitRemoteView> {
    v.map_values(|r: GitRemote| r@)
}

/// The views of a sequence of strings.
pub open spec fn strings_view(v: Seq<String>) -> Seq<Seq<char>> {
    v.map_values(|s: String| s@)
}

/// The commits described by `git log -z` output whose fields are hash,
/// author, e-mail, timestamp, subject and body, each ended by `\0`.
pub fn parse_log(stdout: &str) -> (r: Vec<GitCommit>)
    ensures
        commits_view(r@) == log_of(stdout@),
{
    let chars = chars_of(stdout);
    let entries = keep_nonempty(&split_pair_chars(&chars, '\0'));
    let ghost ev = pieces_view(entries@);
    let mut out: Vec<GitCommit> = Vec::new();
    let mut i: usize = 0;
    while i < entries.len()
        invariant
            ev == pieces_view(entries@),
            i <= entries@.len(),
            commits_view(out@) == commits_of(ev.take(i as int)),
        decreases entries@.len() - i,
    {
        assert(ev.take(i + 1).drop_last() =~= ev.take(i as int));
        let parts = split_chars(&entries[i], '\0');
        let ghost pv = pieces_view(parts@);
        assert(pv == split(ev.take(i + 1).last(), '\0'));
        assert(pv.len() == parts@.len());
        if parts.len() >= 5 {
            let timestamp = match parse_i64(&parts[3]) {
                Some(t) => t,
                None => 0,
            };
            let body = if parts.len() > 5 { string_from(&parts[5]) } else { String::new() };
            let c = GitCommit {
                hash: string_from(&parts[0]),
                author: string_from(&parts[1]),
                email: string_from(&parts[2]),
                timestamp,
                message: string_from(&parts[4]),
                body,
            };
            assert(c@ == commit_of(pv));
            let ghost before = out@;
            out.push(c);
            assert(commits_view(out@) =~= commits_view(before).push(c@));
        }
        i = i + 1;
    }
    assert(ev.take(entries@.len() as int) =~= ev);
    out
}

/// The branches described by lines of `name\0head\0upstream`, where the
/// head field is `*` for the current branch.
pub fn parse_branches(stdout: &str) -> (r: Vec<GitBranch>)
    ensures
        branches_view(r@) == branches_of(lines(stdout@)),
{
    let chars = chars_of(stdout);
    let ls = lines_of(&chars);
    let ghost lv = pieces_view(ls@);
    let mut out: Vec<GitBranch> = Vec::new();
    let mut i: usize = 0;
    while i < ls.len()
        invariant
            lv == pieces_view(ls@),
            i <= ls@.len(),
            branches_view(out@) == branches_of(lv.take(i as int)),
        decreases ls@.len() - i,
    {
        assert(lv.take(i + 1).drop_last() =~= lv.take(i as int));
        let parts = split_chars(&ls[i], '\0');
        let ghost pv = pieces_view(parts@);
        assert(pv == split(lv.take(i + 1).last(), '\0'));
        assert(pv.len() == parts@.len());
        if parts.len() >= 2 {
            let current = parts[1].len() == 1 && parts[1][0] == '*';
            proof {
                reveal_strlit("*");
                if current {
                    assert(pv[1] =~= "*"@);
                }
            }
            let remote = if parts.len() > 2 { string_from(&parts[2]) } else { String::new() };
            let b = GitBranch { name: string_from(&parts[0]), current, remote };
            let ghost before = out@;
            out.push(b);
            assert(branches_view(out@) =~= branches_view(before).push(b@));
        }
        i = i + 1;
    }
    assert(lv.take(ls@.len() as int) =~= lv);
    out
}

fn words_of(s: &Vec<char>) -> (r: Vec<Vec<char>>)
    ensures
        pieces_view(r@) == words(s@),
{
    let mut done: Vec<Vec<char>> = Vec::new();
    let mut cur: Vec<char> = Vec::new();
    let mut i: usize = 0;
    while i < s.len()
        invariant
            i <= s@.len(),
            (pieces_view(done@), cur@) == words_acc(s@.take(i as int)),
        decreases s@.len() - i,
    {
        assert(s@.take(i + 1).drop_last() =~= s@.take(i as int));
        let c = s[i];
        if c.is_whitespace() {
            let piece = cur;
            done.push(piece);
            cur = Vec::new();
        } else {
            cur.push(c);
        }
        assert(pieces_view(done@) =~= words_acc(s@.take(i + 1)).0);
        i = i + 1;
    }
    assert(s@.take(s@.len() as int) =~= s@);
    done.push(cur);
    assert(pieces_view(done@) =~= words_acc(s@).0.push(words_acc(s@).1));
    keep_nonempty(&done)
}

/// The remotes described by `git remote -v` output: the first two words of
/// each line, each remote name once, with the URL of its first line.
pub fn parse_remotes(stdout: &str) -> (r: Vec<GitRemote>)
    ensures
        remotes_view(r@) == remotes_of(lines(stdout@)),
{
    let chars = chars_of(stdout);
    let ls = lines_of(&chars);
    let ghost lv = pieces_view(ls@);
    let mut out: Vec<GitRemote> = Vec::new();
    let mut i: usize = 0;
    while i < ls.len()
        invariant
            lv == pieces_view(ls@),
            i <= ls@.len(),
            remotes_view(out@) == remotes_of(lv.take(i as int)),
        decreases ls@.len() - i,
    {
        assert(lv.take(i + 1).drop_last() =~= lv.take(i as int));
        let w = words_of(&ls[i]);
        let ghost wv = pieces_view(w@);
        assert(wv == words(lv.take(i + 1).last()));
        assert(wv.len() == w@.len());
        if w.len() >= 2 {
            let name = string_from(&w[0]);
            let ghost names = remotes_view(out@).map_values(|r: GitRemoteView| r.name);
            let mut seen = false;
            let mut j: usize = 0;
            while j < out.len()
                invariant
                    j <= out@.len(),
                    names == remotes_view(out@).map_values(|r: GitRemoteView| r.name),
                    seen == exists|k: int| 0 <= k < j && #[trigger] names[k] == name@,
                decreases out@.len() - j,
            {
                assert(names[j as int] == out@[j as int].name@);
                if out[j].name == name {
                    seen = true;
                }
                j = j + 1;
            }
            proof {
                if names.contains(name@) {
                    let k = choose|k: int| 0 <= k < names.len() && names[k] == name@;
                    assert(names[k] == name@);
                }
            }
            if !seen {
                let r = GitRemote { name, url: string_from(&w[1]) };
                let ghost before = out@;
                out.push(r);
                assert(remotes_view(out@) =~= remotes_view(before).push(r@));
            }
        }
        i = i + 1;
    }
    assert(lv.take(ls@.len() as int) =~= lv);
    out
}

/// The lines of `git stash list` output.
pub fn parse_stash_list(stdout: &str) -> (r: Vec<String>)
    ensures
        strings_view(r@) == lines(stdout@),
{
    let chars = chars_of(stdout);
    let ls = lines_of(&chars);
    let ghost lv = pieces_view(ls@);
    let mut out: Vec<String> = Vec::new();
    let mut i: usize = 0;
    while i < ls.len()
        invariant
            lv == pieces_view(ls@),
            i <= ls@.len(),
            strings_view(out@) == lv.take(i as int),
        decreases ls@.len() - i,
    {
        let line = string_from(&ls[i]);
        let ghost before = out@;
        out.push(line);
        assert(strings_view(out@) =~= strings_view(before).push(line@));
        assert(lv.take(i + 1) =~= lv.take(i as int).push(lv[i as int]));
        i = i + 1;
    }
    assert(lv.take(ls@.len() as int) =~= lv);
    out
}

proof fn lemma_find_first(s: Seq<char>, pat: Seq<char>, i: int, k: int)
    requires
        0 <= i <= k,
        occurs_at(s, pat, k),
        forall|j: int| i <= j < k ==> !occurs_at(s, pat, j),
    ensures
        find_from(s, pat, i) == Some(k),
    decreases k - i,
{
    if i < k {
        lemma_find_first(s, pat, i + 1, k);
    }
}

/// In a branch header whose upstream part reads `[ahead N, behind M]` or
/// `[ahead N]`, the ahead count is N. The text before `[ahead ` holds no
/// `[`, as no git branch name does.
pub proof fn law_ahead_count(pre: Seq<char>, n: Seq<char>, rest: Seq<char>)
    requires
        forall|i: int| 0 <= i < pre.len() ==> pre[i] != '[',
        n.len() > 0,
        forall|i: int| 0 <= i < n.len() ==> is_digit(#[trigger] n[i]),
        digits_value(n) <= i32::MAX,
        rest.len() > 0,
        rest[0] == ',' || rest[0] == ']',
    ensures
        count_after(pre + "[ahead "@ + n + rest, "[ahead "@) == digits_value(n),
{
    reveal_strlit("[ahead ");
    let pat = "[ahead "@;
    let info = pre + pat + n + rest;
    let p = pre.len() as int;
    assert(info.subrange(p, p + 7) =~= pat);
    assert forall|j: int| 0 <= j < p implies !occurs_at(info, pat, j) by {
        assert(info[j] == pre[j]);
        if j + 7 <= info.len() {
            assert(info.subrange(j, j + 7)[0] == info[j]);
        }
    }
    lemma_find_first(info, pat, 0, p);
    let tail = info.subrange(p + 7, info.len() as int);
    assert(tail =~= n + rest);
    lemma_split_first_prefix(n, rest, ']');
    if rest[0] == ']' {
        assert(rest =~= seq![']'] + rest.drop_first());
        lemma_split_first_empty(rest.drop_first(), ']');
        assert(n + Seq::<char>::empty() =~= n);
        assert(n =~= n + Seq::<char>::empty());
        lemma_split_first_prefix(n, Seq::<char>::empty(), ',');
        assert(split(Seq::<char>::empty(), ',')[0] == Seq::<char>::empty());
    } else {
        let r2 = rest.drop_first();
        assert(rest =~= seq![','] + r2);
        lemma_split_first_prefix(seq![','], r2, ']');
        let z = split(r2, ']')[0];
        let y = n + (seq![','] + z);
        assert(split(n + rest, ']')[0] =~= y);
        lemma_split_first_prefix(n, seq![','] + z, ',');
        lemma_split_first_empty(z, ',');
        assert(n + Seq::<char>::empty() =~= n);
    }
    assert(count_text(tail) == n);
    assert(trim_start(n) == n);
    assert(trim_end(n) == n);
    lemma_digits_value_nonneg(n);
    assert(parsed_i64(n) == Some(digits_value(n) as i64));
}

} // verus!
